//! The flight recorder.

use vellum_app::flight::{
    newest_other, peak_of_line, prune, read_record, stamp_for_filename, start_line, wall_clock,
    Recorder, Sample, KEEP_SESSIONS,
};

const MB: u64 = 1_048_576;

fn sample(rss: u64) -> Sample {
    Sample {
        rss,
        texture_bytes: 0,
        texture_peak: 0,
        textures: 0,
        glyph_bitmaps: 0,
        chrome_textures: 0,
        previews: 0,
        parked_boards: 0,
        items: 0,
        drawn: 0,
        text_layouts: 0,
        ink_meshes: 0,
        undo_depth: 0,
        fps: "0".into(),
        zoom: "0".into(),
    }
}

#[test]
fn a_killed_session_is_reported_as_unclean_with_its_peak() {
    let mut recorder = Recorder::new();
    let mut text = start_line(1, 2, "0.1.0") + "\n";
    text += &(recorder.event("    1.00s", "paste") + "\n");
    for rss in [300 * MB, 9_000 * MB] {
        for line in recorder.sample("    2.00s", &sample(rss)) {
            text += &(line + "\n");
        }
    }
    let previous = read_record("session-1.log", &text);
    assert_eq!(previous.path, "session-1.log");
    assert!(!previous.clean, "a session with no EXIT line was reported clean");
    assert_eq!(previous.peak_rss, 9_000 * MB);
    assert!(
        previous.tail.iter().any(|line| line.contains("paste")),
        "the tail lost the events that led up to it: {:?}",
        previous.tail
    );
    assert_eq!(recorder.peak_rss(), 9_000 * MB);
}

#[test]
fn a_clean_session_is_reported_clean() {
    let mut recorder = Recorder::new();
    let mut text = recorder.sample("    1.00s", &sample(200 * MB)).join("\n");
    text += "\n";
    text += &recorder.finish("    9.50s", "quit");
    let previous = read_record("x.log", &text);
    assert!(previous.clean);
    assert!(text.ends_with("EXIT        9.50s quit peak_rss=200M"), "{text}");
}

#[test]
fn crossing_a_gigabyte_alarms_once_with_the_recent_events() {
    let mut recorder = Recorder::new();
    recorder.event("    0.10s", "import-miro");
    recorder.event("    0.20s", "zoom");

    let mut lines = Vec::new();
    for rss in [1_500 * MB, 1_600 * MB, 2_200 * MB] {
        lines.extend(recorder.sample("    1.00s", &sample(rss)));
    }
    let alarms: Vec<&String> = lines.iter().filter(|line| line.starts_with("ALARM")).collect();
    assert_eq!(alarms.len(), 2, "expected one alarm per gigabyte: {alarms:?}");
    assert!(alarms[0].contains("crossed 1 GB"));
    assert!(alarms[1].contains("crossed 2 GB"));
    assert!(lines.iter().any(|line| line == "LEADUP      0.10s import-miro"), "{lines:?}");
    assert_eq!(
        alarms[0].as_str(),
        "ALARM       1.00s crossed 1 GB — budget is 0.4 GB. Last 2 events follow."
    );
}

#[test]
fn the_peak_parser_reads_a_sample_line() {
    let line = format!("SAMPLE  {:>8.2}s rss={}M tex=0M/0M×0", 1.0, 1_234);
    assert_eq!(peak_of_line(&line), Some(1_234 * 1_048_576));
    assert_eq!(peak_of_line("START   epoch=1"), None);
    assert_eq!(peak_of_line(" rss=M"), None);
    assert_eq!(peak_of_line(" rss=99999999999999999999M"), None);
}

#[test]
fn old_records_are_pruned_but_the_newest_are_kept() {
    let mut names: Vec<String> =
        (0..KEEP_SESSIONS + 5).map(|index| format!("session-{index:014}-1.log")).collect();
    names.reverse();
    names.push("notes.txt".into());
    names.push(".log".into());
    let doomed = prune(&names);
    let expected: Vec<String> = (0..5).map(|index| format!("session-{index:014}-1.log")).collect();
    assert_eq!(doomed, expected);
    assert!(prune(&expected).is_empty());
}

#[test]
fn the_last_session_is_the_newest_that_is_not_this_one() {
    let names: Vec<String> =
        ["session-2.log", "session-9.log", "session-5.log", "zzz.txt"].map(String::from).to_vec();
    assert_eq!(newest_other(&names, "session-9.log"), Some(2));
    assert_eq!(newest_other(&names, "other.log"), Some(1));
    assert_eq!(newest_other(&vec!["a.log".into()], "a.log"), None);
    assert_eq!(newest_other(&vec![], "a.log"), None);
}

#[test]
fn only_the_last_events_are_reprinted() {
    let mut recorder = Recorder::new();
    for n in 0..30 {
        recorder.event("    0.10s", &format!("event-{n}"));
    }
    assert_eq!(recorder.recent.len(), 24);
    assert_eq!(recorder.recent[0], "    0.10s event-6");
    assert_eq!(recorder.recent[23], "    0.10s event-29");
}

#[test]
fn a_sample_line_names_every_cache() {
    let mut recorder = Recorder::new();
    let full = Sample {
        rss: 5 * MB,
        texture_bytes: 6 * MB,
        texture_peak: 7 * MB,
        textures: 8,
        glyph_bitmaps: 9,
        chrome_textures: 10,
        previews: 11,
        parked_boards: 12,
        items: 13,
        drawn: 14,
        text_layouts: 15,
        ink_meshes: 16,
        undo_depth: 17,
        fps: "60".into(),
        zoom: "100".into(),
    };
    assert_eq!(
        recorder.sample("    3.14s", &full),
        ["SAMPLE      3.14s rss=5M tex=6M/7M×8 glyphs=9 chrome=10 previews=11 parked=12 items=13 drawn=14 layouts=15 ink=16 undo=17 fps=60 zoom=100%"]
    );
}

#[test]
fn stamps_are_padded_so_that_they_sort() {
    assert_eq!(stamp_for_filename(1_700_000_000, 42, 3), "00001700000000-42-0003");
    assert!(stamp_for_filename(999, 42, 0) < stamp_for_filename(1_000, 1, 0));
    assert_eq!(stamp_for_filename(123_456_789_012_345, 1, 12345), "123456789012345-1-12345");
    assert_eq!(wall_clock(7), "epoch=7");
    assert_eq!(start_line(7, 8, "0.2.0"), "START   epoch=7 pid=8 version=0.2.0");
}

#[test]
fn the_tail_is_the_last_twelve_lines() {
    let text: String = (0..20).map(|n| format!("line {n}\r\n")).collect();
    let session = read_record("x.log", &text);
    assert_eq!(session.tail.len(), 12);
    assert_eq!(session.tail[0], "line 8");
    assert_eq!(session.tail[11], "line 19");
    assert!(read_record("x.log", "").tail.is_empty());
}
