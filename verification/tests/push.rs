//! Which server board a local one is, names, answers, and what came back.

use vellum_app::hash::{hashes_in, hashes_of, BlobHash};
use vellum_app::item::{CardMode, Item, ItemKind, Placement, Style};
use vellum_app::push::{
    decide_id, safe_name, stem_is_ambiguous, Answer, Decision, Push, PushEvent, PushSummary,
    RemoteBoard, RemoteIds, Row, MAX_NAME,
};
use vellum_app::scalar::Scalar;

const UNTITLED: &str = "Untitled board";

fn row(id: &str, title: &str, items: u64) -> Row {
    Row { id: id.to_owned(), title: title.to_owned(), items }
}

/// The id a decision uses, or `None` where it creates.
fn used(decision: Decision) -> Option<String> {
    match decision {
        Decision::Use(id) => Some(id),
        Decision::Create => None,
    }
}

fn decided(known: Option<&str>, stem: &str, title: &str, rows: &[Row]) -> Option<String> {
    used(decide_id(known, stem, title, &rows.to_vec()))
}

#[test]
fn the_fallback_stem_is_never_adopted() {
    let rows = vec![row("board", "Some other person's board", 240)];
    assert_eq!(decided(None, "board", "Some other person's board", &rows), None);
    // Even when the titles agree, which is the tempting case.
    let same = vec![row("board", "Notes", 0)];
    assert_eq!(decided(None, "board", "Notes", &same), None);
    assert_eq!(decided(None, "untitled", "Untitled", &same), None);
}

#[test]
fn a_numeric_suffix_is_never_adopted() {
    let rows = vec![row("notes-2", "Notes", 12), row("alfa-1999-156-v6-17", "Alfa", 3)];
    assert_eq!(decided(None, "notes-2", "Notes", &rows), None);
    assert_eq!(decided(None, "alfa-1999-156-v6-17", "Alfa", &rows), None);
    let year = vec![row("alfa-1999", "Alfa 1999", 3)];
    assert_eq!(decided(None, "alfa-1999", "Alfa 1999", &year), Some("alfa-1999".to_owned()));
}

#[test]
fn a_title_with_a_slash_is_compared_after_cleaning() {
    let title = "Engine bay / wiring";
    let raw = vec![row("engine-bay-wiring", title, 40)];
    assert_eq!(decided(None, "engine-bay-wiring", title, &raw), None);
    let cleaned = vec![row("engine-bay-wiring", &safe_name(title), 40)];
    assert_eq!(
        decided(None, "engine-bay-wiring", title, &cleaned),
        Some("engine-bay-wiring".to_owned())
    );
}

#[test]
fn a_stem_match_with_a_different_title_creates() {
    let rows = vec![row("notes", "Payroll", 900)];
    assert_eq!(decided(None, "notes", "Notes", &rows), None);
}

#[test]
fn the_record_wins_and_a_stale_record_falls_through() {
    let rows = vec![row("notes-from-the-migration", "Notes", 12), row("notes", "Notes", 12)];
    assert_eq!(
        decided(Some("notes-from-the-migration"), "notes", "Notes", &rows),
        Some("notes-from-the-migration".to_owned())
    );
    let gone = vec![row("notes", "Notes", 12)];
    assert_eq!(
        decided(Some("notes-from-the-migration"), "notes", "Notes", &gone),
        Some("notes".to_owned())
    );
    assert_eq!(decided(Some("notes-from-the-migration"), "notes", "Notes", &[]), None);
}

#[test]
fn an_empty_server_creates_everything() {
    assert_eq!(decided(None, "notes", "Notes", &[]), None);
}

#[test]
fn a_name_is_cleaned_the_way_the_server_cleans_it() {
    assert_eq!(safe_name(""), UNTITLED);
    assert_eq!(safe_name("   "), UNTITLED);
    assert_eq!(safe_name("a/b"), "ab");
    assert_eq!(safe_name("a\\b"), "ab");
    assert_eq!(safe_name("a..b"), "ab");
    assert_eq!(safe_name("a\u{7}b"), "ab", "a control character is dropped");
    assert_eq!(safe_name("  Notes  "), "Notes");
    assert_eq!(safe_name(&"x".repeat(300)).chars().count(), MAX_NAME);
    // A title that is nothing but refusals still has a name.
    assert_eq!(safe_name("///"), UNTITLED);
    // The cap counts characters, not bytes.
    assert_eq!(safe_name(&"é".repeat(300)).chars().count(), MAX_NAME);
}

#[test]
fn dots_go_in_pairs_and_the_cut_is_trimmed() {
    assert_eq!(safe_name("..."), ".");
    assert_eq!(safe_name("...."), UNTITLED);
    assert_eq!(safe_name("v1.2"), "v1.2");
    // What the filter joins together counts as a pair too.
    assert_eq!(safe_name("a./.b"), "ab");
    let long = format!("{} {}", "x".repeat(199), "y".repeat(10));
    assert_eq!(safe_name(&long), "x".repeat(199));
    let twice = safe_name(&safe_name("  a..b / c\u{9f}  "));
    assert_eq!(twice, safe_name("  a..b / c\u{9f}  "));
    assert_eq!(twice, "ab  c");
}

#[test]
fn a_stem_is_ambiguous_only_where_a_counter_was_appended() {
    assert!(stem_is_ambiguous("board", "Board"));
    assert!(stem_is_ambiguous("untitled", "x"));
    assert!(stem_is_ambiguous("notes-2", "Notes"));
    assert!(!stem_is_ambiguous("alfa-1999", "Alfa 1999"));
    assert!(!stem_is_ambiguous("v2", "Whatever"));
    assert!(!stem_is_ambiguous("42", "Whatever"));
    assert!(!stem_is_ambiguous("a-b", "Whatever"));
    assert!(stem_is_ambiguous("a-b-2", "Whatever"));
}

fn hex(seed: char) -> String {
    seed.to_string().repeat(64)
}

fn item(kind: ItemKind) -> Item {
    let zero = Scalar { bits: 0 };
    let placement =
        Placement { x: zero, y: zero, width: zero, height: zero, scale: zero, rotation: zero };
    Item { kind, style: Style::default(), placement }
}

#[test]
fn every_asset_bearing_kind_is_collected_and_a_bad_one_is_dropped() {
    let (one, two, three, four) = (hex('1'), hex('a'), hex('3'), hex('4'));
    let items = vec![
        item(ItemKind::Image { asset_id: one.clone() }),
        item(ItemKind::Document { asset_id: two.clone(), page_count: 1, current_page: 0 }),
        item(ItemKind::Embed {
            title: None,
            url: None,
            description: None,
            provider: None,
            html: None,
            thumbnail: Some(three.clone()),
            favicon: Some(four.clone()),
            mode: CardMode::Card,
        }),
        item(ItemKind::LinkPreview {
            title: None,
            url: None,
            description: None,
            thumbnail: Some("../../../etc/passwd".to_owned()),
            provider: None,
            favicon: None,
            mode: CardMode::Card,
        }),
        item(ItemKind::Sticky { text: "no picture".into(), background: None }),
        // The same picture twice is one picture.
        item(ItemKind::Image { asset_id: one.clone() }),
    ];
    let hashes = hashes_of(&items);
    assert_eq!(hashes.len(), 4, "one per asset id that parses: {hashes:?}");
    for text in [&one, &two, &three, &four] {
        let hash = BlobHash::parse(text).expect("this test wrote it");
        assert!(hashes.contains(&hash), "{text} was not collected");
    }
    assert!(!hashes.iter().any(|hash| hash.to_hex().contains("passwd")));
    // In order.
    let texts: Vec<String> = hashes.iter().map(BlobHash::to_hex).collect();
    assert_eq!(texts, vec![one, three, four, two]);
}

#[test]
fn the_probe_answer_is_read_in_any_framing() {
    let one = BlobHash::parse(&hex('1')).unwrap();
    let two = BlobHash::parse(&hex('f')).unwrap();
    let json = format!("[\"{}\",\"{}\"]", one.to_hex(), two.to_hex());
    let lines = format!("{}\n{}\n", one.to_hex(), two.to_hex());
    for body in [json, lines] {
        assert_eq!(hashes_in(&body), vec![one, two], "{body}");
    }
    assert!(hashes_in("").is_empty());
    assert!(hashes_in("nothing here").is_empty());
    // A short run is not a hash, however hexadecimal it looks.
    assert!(hashes_in("abc123").is_empty());
    // Nor is a long one.
    assert!(hashes_in(&"a".repeat(65)).is_empty());
}

#[test]
fn a_hash_reads_back_from_its_digits() {
    let text = "0123456789abcdef0123456789abcdeffedcba9876543210fedcba9876543210";
    let hash = BlobHash::parse(text).unwrap();
    assert_eq!(hash.to_hex(), text);
    assert_eq!(BlobHash::parse(&text.to_uppercase()), Some(hash));
    assert_eq!(BlobHash::parse(&text[1..]), None);
    assert_eq!(BlobHash::parse(&text.replace('0', "g")), None);
    assert_eq!(hash.high, 0x0123456789abcdef0123456789abcdef);
    assert!(hash.before(&BlobHash { high: hash.high, low: hash.low + 1 }));
    assert!(!hash.before(&hash));
}

#[test]
fn a_recorded_id_survives_a_restart_and_is_kept_per_server() {
    let board = "/boards/notes.vellum";
    let first = "https://one.example/";
    let second = "https://two.example/";

    let mut ids = RemoteIds::new(vec![]);
    assert_eq!(ids.id_for(board, first), None, "nothing is recorded yet");
    ids.record(board, first, "notes");
    ids.record(board, second, "notes-2");
    // Replaced rather than appended.
    ids.record(board, first, "notes-3");

    let reopened = RemoteIds::new(ids.records.clone());
    assert_eq!(reopened.id_for(board, first), Some("notes-3"));
    assert_eq!(reopened.id_for(board, second), Some("notes-2"));
    assert_eq!(reopened.records.len(), 2, "one record per server: {:?}", reopened.records);
    assert_eq!(reopened.id_for("/boards/other.vellum", first), None);
}

#[test]
fn a_record_that_was_doubled_is_one_after_the_next_run() {
    let record = |id: &str| RemoteBoard { board: "b".into(), server: "s".into(), id: id.into() };
    let mut ids = RemoteIds::new(vec![record("first"), record("second")]);
    assert_eq!(ids.id_for("b", "s"), Some("first"));
    ids.record("b", "s", "third");
    assert_eq!(ids.records.len(), 1);
    assert_eq!(ids.id_for("b", "s"), Some("third"));
}

#[test]
fn a_drain_of_a_dead_channel_finishes_rather_than_waiting() {
    let mut push = Push::new();
    push.worker_gone();
    let drained = push.drain();
    assert_eq!(drained.len(), 1);
    assert!(matches!(&drained[0], PushEvent::Finished(summary) if summary.worker_lost));
    assert!(push.is_finished());
    assert!(push.drain().is_empty(), "and it does not invent a second summary");
}

#[test]
fn a_drain_hands_out_at_most_sixty_four_and_nothing_after_the_summary() {
    let mut push = Push::new();
    assert!(push.drain().is_empty());
    for done in 0..100 {
        push.receive(PushEvent::Blobs { done, total: 100 });
    }
    push.receive(PushEvent::Finished(PushSummary::default()));
    push.receive(PushEvent::Blobs { done: 0, total: 0 });
    push.worker_gone();
    assert_eq!(push.drain().len(), 64);
    assert!(!push.is_finished());
    let rest = push.drain();
    assert_eq!(rest.len(), 37);
    assert!(matches!(&rest[36], PushEvent::Finished(summary) if !summary.worker_lost));
    assert!(push.is_finished());
    assert!(push.drain().is_empty());
}

#[test]
fn stopping_does_not_block_the_caller() {
    let mut push = Push::new();
    assert!(!push.stopping);
    push.stop();
    assert!(push.stopping);
    assert!(!push.is_finished());
}

#[test]
fn an_answer_says_what_it_means() {
    let answer = |status: u16, body: &str| Answer { status, body: body.to_owned() };
    assert!(answer(200, "").ok() && answer(299, "").ok());
    assert!(!answer(199, "").ok() && !answer(300, "").ok());
    assert!(answer(401, "").session_lost() && answer(403, "").session_lost());
    assert!(!answer(404, "").session_lost());
    assert_eq!(answer(503, "  \n").detail(), "HTTP 503");
    assert_eq!(answer(415, " wrong type ").detail(), "HTTP 415: wrong type");
    assert_eq!(
        answer(500, &"é".repeat(300)).detail(),
        format!("HTTP 500: {}", "é".repeat(200))
    );
}

#[test]
fn an_id_is_found_however_the_board_is_spelt() {
    let mut ids = RemoteIds::new(vec![]);
    ids.record("boards//notes.vellum", "https://a", "notes-1");
    assert_eq!(ids.id_for("boards/notes.vellum", "https://a"), Some("notes-1"));
    ids.record("boards/./notes.vellum", "https://a", "notes-2");
    assert_eq!(ids.records.len(), 1);
    assert_eq!(ids.id_for("boards/notes.vellum", "https://a"), Some("notes-2"));
    assert_eq!(ids.id_for("./boards/notes.vellum", "https://a"), None);
}
