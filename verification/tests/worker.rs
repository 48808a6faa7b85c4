//! A run of the push, driven step by step.

use vellum_app::hash::BlobHash;
use vellum_app::push::{Answer, PlanBoard, PushEvent, PushPlan, PushSummary, Row};
use vellum_app::worker::{probe_body, Action, Event, Loaded, Worker};

fn plan(boards: &[(&str, &str)]) -> PushPlan {
    PushPlan {
        server: "https://boards.example.com//".into(),
        blobs: "/blobs".into(),
        boards: boards
            .iter()
            .map(|(path, title)| PlanBoard {
                path: (*path).to_owned(),
                title: (*title).to_owned(),
                known_id: None,
            })
            .collect(),
    }
}

fn answer(status: u16, body: &str) -> Result<Answer, String> {
    Ok(Answer { status, body: body.to_owned() })
}

fn listed(rows: Vec<Row>) -> Event {
    Event::Listed { answer: answer(200, "[]"), rows: Some(rows) }
}

fn hash(digit: char) -> BlobHash {
    BlobHash::parse(&digit.to_string().repeat(64)).unwrap()
}

fn summary(worker: &Worker) -> PushSummary {
    match worker.action() {
        Action::Finish(summary) => summary,
        other => panic!("the run is not over: {other:?}"),
    }
}

/// Takes a worker to the point where its first board is loaded.
fn loaded(worker: &mut Worker, rows: Vec<Row>, hashes: Vec<BlobHash>) {
    worker.step(listed(rows));
    assert!(matches!(worker.action(), Action::PollStop));
    worker.step(Event::Stop(false));
    assert!(matches!(worker.action(), Action::Emit(PushEvent::Board { done: 0, .. })));
    worker.step(Event::Emitted(true));
    assert!(matches!(worker.action(), Action::Look { .. }));
    worker.step(Event::Exists(true));
    assert!(matches!(worker.action(), Action::Load { .. }));
    worker.step(Event::Loaded(Loaded::Board(hashes)));
}

#[test]
fn a_board_without_pictures_is_created_recorded_and_sent() {
    let mut worker = Worker::new(plan(&[("/b/notes.vellum", "No/tes")]), true);
    match worker.action() {
        Action::List { url } => assert_eq!(url, "https://boards.example.com/api/v1/boards"),
        other => panic!("{other:?}"),
    }
    loaded(&mut worker, vec![], vec![]);
    match worker.action() {
        Action::Create { url, name } => {
            assert_eq!(url, "https://boards.example.com/api/v1/boards");
            assert_eq!(name, "Notes");
        }
        other => panic!("{other:?}"),
    }
    worker.step(Event::Created { answer: answer(201, "{}"), made: Ok("notes-9".into()) });
    match worker.action() {
        Action::Emit(PushEvent::Recorded { board, id }) => {
            assert_eq!((board.as_str(), id.as_str()), ("/b/notes.vellum", "notes-9"));
        }
        other => panic!("{other:?}"),
    }
    worker.step(Event::Emitted(true));
    assert!(matches!(worker.action(), Action::Export));
    worker.step(Event::Exported(None));
    assert!(matches!(worker.action(), Action::Send { id } if id == "notes-9"));
    worker.step(Event::Answered(answer(200, "")));
    assert!(worker.is_done());
    let summary = summary(&worker);
    assert_eq!((summary.boards_sent, summary.boards_failed, summary.boards_total), (1, 0, 1));
    assert!(!summary.stopped && !summary.unreachable && !summary.session_lost);
}

#[test]
fn a_listed_board_is_adopted_and_its_pictures_go_first() {
    let mut worker = Worker::new(plan(&[("/b/notes.vellum", "Notes")]), true);
    let rows = vec![Row { id: "notes".into(), title: "Notes".into(), items: 3 }];
    loaded(&mut worker, rows, vec![hash('1'), hash('2')]);
    assert!(matches!(worker.action(), Action::Emit(PushEvent::Recorded { .. })));
    worker.step(Event::Emitted(true));
    match worker.action() {
        Action::Probe { url, body } => {
            assert_eq!(url, "https://boards.example.com/api/v1/blobs/missing");
            let expected =
                format!("[\"{}\",\"{}\"]", hash('1').to_hex(), hash('2').to_hex());
            assert_eq!(body, expected.into_bytes());
        }
        other => panic!("{other:?}"),
    }
    // The server lacks the second.
    worker.step(Event::Answered(answer(200, &format!("[\"{}\"]", hash('2').to_hex()))));
    assert_eq!(worker.settled, vec![hash('1')]);
    worker.step(Event::Stop(false));
    assert!(matches!(
        worker.action(),
        Action::Emit(PushEvent::Blobs { done: 0, total: 1 })
    ));
    worker.step(Event::Emitted(true));
    assert!(matches!(worker.action(), Action::Measure(h) if h == hash('2')));
    worker.step(Event::Measured(Some(1_000)));
    worker.step(Event::Read(true));
    match worker.action() {
        Action::Upload { url } => assert_eq!(
            url,
            format!("https://boards.example.com/api/v1/blobs/{}", hash('2').to_hex())
        ),
        other => panic!("{other:?}"),
    }
    worker.step(Event::Answered(answer(200, "")));
    assert!(matches!(
        worker.action(),
        Action::Emit(PushEvent::Blobs { done: 1, total: 1 })
    ));
    worker.step(Event::Emitted(true));
    assert!(matches!(worker.action(), Action::Export));
    assert_eq!(worker.summary.blobs_sent, 1);
    assert_eq!(worker.summary.bytes, 1_000);
}

#[test]
fn a_refused_list_ends_the_run_with_the_right_sentence() {
    for (reply, rows, lost, unreachable) in [
        (answer(401, ""), None, true, false),
        (answer(403, ""), Some(vec![]), true, false),
        (answer(500, ""), Some(vec![]), false, true),
        (answer(200, "nonsense"), None, false, true),
        (Err("no route".to_owned()), None, false, true),
    ] {
        let mut worker = Worker::new(plan(&[("/b/a.vellum", "A")]), true);
        worker.step(Event::Listed { answer: reply, rows });
        let summary = summary(&worker);
        assert_eq!((summary.session_lost, summary.unreachable), (lost, unreachable));
    }
}

#[test]
fn a_create_is_never_asked_for_twice() {
    for (reply, made, why) in [
        (Err("timed out".to_owned()), Err(String::new()), "timed out"),
        (answer(500, "boom"), Err(String::new()), "HTTP 500: boom"),
        (answer(200, ""), Ok(String::new()), "the server named the new board nothing"),
        (answer(200, "x"), Err("eof".to_owned()), "the create answer did not parse: eof"),
    ] {
        let mut worker = Worker::new(plan(&[("/b/a.vellum", "A")]), true);
        loaded(&mut worker, vec![], vec![]);
        worker.step(Event::Created { answer: reply, made });
        match worker.action() {
            Action::Emit(PushEvent::BoardFailed { title, why: said }) => {
                assert_eq!((title.as_str(), said.as_str()), ("A", why));
            }
            other => panic!("{other:?}"),
        }
        worker.step(Event::Emitted(true));
        let summary = summary(&worker);
        assert_eq!((summary.boards_sent, summary.boards_failed), (0, 1));
    }
    let mut worker = Worker::new(plan(&[("/b/a.vellum", "A")]), true);
    loaded(&mut worker, vec![], vec![]);
    worker.step(Event::Created { answer: answer(403, ""), made: Err(String::new()) });
    assert!(summary(&worker).session_lost);
}

/// Takes a worker to the point where it uploads the one picture of its one board.
fn uploading() -> Worker {
    let mut worker = Worker::new(plan(&[("/b/a.vellum", "A")]), true);
    loaded(&mut worker, vec![], vec![hash('7')]);
    worker.step(Event::Created { answer: answer(200, ""), made: Ok("a".into()) });
    worker.step(Event::Emitted(true));
    worker.step(Event::Answered(Err("no probe today".into())));
    worker.step(Event::Stop(false));
    worker.step(Event::Emitted(true));
    worker.step(Event::Measured(Some(10)));
    worker.step(Event::Read(true));
    worker
}

/// Sleeps through a wait, counting the milliseconds.
fn sleep_through(worker: &mut Worker) -> u64 {
    let mut slept = 0;
    loop {
        match worker.action() {
            Action::PollStop => worker.step(Event::Stop(false)),
            Action::Sleep { millis } => {
                assert!(millis <= 100);
                slept += millis;
                worker.step(Event::Slept);
            }
            _ => return slept,
        }
    }
}

#[test]
fn a_picture_is_tried_three_times_with_waits_between() {
    let mut worker = uploading();
    worker.step(Event::Answered(answer(503, "busy")));
    assert_eq!(sleep_through(&mut worker), 2_000);
    assert!(matches!(worker.action(), Action::Upload { .. }));
    worker.step(Event::Answered(Err("reset".into())));
    assert_eq!(sleep_through(&mut worker), 4_000);
    worker.step(Event::Answered(answer(503, "busy")));
    // Given up on, and the board goes on.
    assert!(matches!(worker.action(), Action::Emit(PushEvent::Blobs { done: 1, total: 1 })));
    assert_eq!(worker.summary.blobs_sent, 0);
    assert_eq!(worker.settled, vec![hash('7')]);
}

#[test]
fn a_picture_that_is_too_big_is_counted_and_skipped() {
    let mut worker = uploading();
    worker.step(Event::Answered(answer(413, "")));
    assert_eq!(worker.summary.blobs_too_big, 1);
    assert!(matches!(worker.action(), Action::Emit(PushEvent::Blobs { done: 1, total: 1 })));

    let mut worker = uploading();
    worker.step(Event::Answered(answer(401, "")));
    assert!(summary(&worker).session_lost);
}

#[test]
fn a_picture_over_the_cap_is_never_read() {
    for (size, too_big) in [(Some(67_108_865), 1), (None, 0)] {
        let mut worker = Worker::new(plan(&[("/b/a.vellum", "A")]), true);
        loaded(&mut worker, vec![], vec![hash('7')]);
        worker.step(Event::Created { answer: answer(200, ""), made: Ok("a".into()) });
        worker.step(Event::Emitted(true));
        worker.step(Event::Answered(answer(500, "")));
        worker.step(Event::Stop(false));
        worker.step(Event::Emitted(true));
        worker.step(Event::Measured(size));
        assert_eq!(worker.summary.blobs_too_big, too_big);
        assert!(matches!(worker.action(), Action::Emit(PushEvent::Blobs { done: 1, total: 1 })));
    }
}

#[test]
fn a_server_without_the_probe_is_asked_for_each_picture() {
    let mut worker = Worker::new(plan(&[("/b/a.vellum", "A")]), true);
    loaded(&mut worker, vec![], vec![hash('1'), hash('2')]);
    worker.step(Event::Created { answer: answer(200, ""), made: Ok("a".into()) });
    worker.step(Event::Emitted(true));
    worker.step(Event::Answered(answer(404, "")));
    assert!(!worker.probe_works);
    worker.step(Event::Stop(false));
    match worker.action() {
        Action::Head { url } => assert_eq!(
            url,
            format!("https://boards.example.com/api/v1/blobs/{}", hash('1').to_hex())
        ),
        other => panic!("{other:?}"),
    }
    worker.step(Event::Answered(answer(200, "")));
    worker.step(Event::Stop(false));
    // A failure to ask reads as absent.
    worker.step(Event::Answered(Err("reset".into())));
    assert_eq!(worker.settled, vec![hash('1')]);
    assert_eq!(worker.missing, vec![hash('2')]);
    worker.step(Event::Stop(true));
    assert!(summary(&worker).stopped);
}

#[test]
fn a_picture_on_two_boards_is_one_upload() {
    let mut worker = Worker::new(plan(&[("/b/a.vellum", "A"), ("/b/c.vellum", "C")]), true);
    loaded(&mut worker, vec![], vec![hash('1')]);
    worker.step(Event::Created { answer: answer(200, ""), made: Ok("a".into()) });
    worker.step(Event::Emitted(true));
    // The server has it.
    worker.step(Event::Answered(answer(200, "[]")));
    worker.step(Event::Exported(None));
    worker.step(Event::Answered(answer(200, "")));
    worker.step(Event::Stop(false));
    assert!(matches!(
        worker.action(),
        Action::Emit(PushEvent::Board { done: 1, total: 2, .. })
    ));
    worker.step(Event::Emitted(true));
    worker.step(Event::Exists(true));
    worker.step(Event::Loaded(Loaded::Board(vec![hash('1')])));
    worker.step(Event::Created { answer: answer(200, ""), made: Ok("c".into()) });
    worker.step(Event::Emitted(true));
    assert!(matches!(worker.action(), Action::Export), "nothing is left to ask about");
}

#[test]
fn a_busy_board_is_opened_once_more_and_then_failed() {
    let mut worker = Worker::new(plan(&[("/b/a.vellum", "A")]), true);
    worker.step(listed(vec![]));
    worker.step(Event::Stop(false));
    worker.step(Event::Emitted(true));
    worker.step(Event::Exists(true));
    worker.step(Event::Loaded(Loaded::Busy));
    assert_eq!(sleep_through(&mut worker), 250);
    assert!(matches!(worker.action(), Action::Load { .. }));
    worker.step(Event::Loaded(Loaded::Busy));
    assert!(matches!(
        worker.action(),
        Action::Emit(PushEvent::BoardFailed { why, .. }) if why == "this board would not open"
    ));
}

#[test]
fn a_board_that_is_gone_or_empty_is_failed_and_the_run_goes_on() {
    for event in [Event::Exists(false), Event::Exists(true)] {
        let mut worker = Worker::new(plan(&[("/b/a.vellum", "A"), ("/b/c.vellum", "C")]), true);
        worker.step(listed(vec![]));
        worker.step(Event::Stop(false));
        worker.step(Event::Emitted(true));
        let there = matches!(event, Event::Exists(true));
        worker.step(event);
        if there {
            worker.step(Event::Loaded(Loaded::Empty));
        }
        assert!(matches!(worker.action(), Action::Emit(PushEvent::BoardFailed { .. })));
        worker.step(Event::Emitted(true));
        assert!(!worker.is_done());
        worker.step(Event::Stop(true));
        let summary = summary(&worker);
        assert!(summary.stopped);
        assert_eq!((summary.boards_sent, summary.boards_failed), (0, 1));
    }
}

#[test]
fn a_document_is_tried_three_times_and_a_stop_ends_the_wait() {
    let ready = || {
        let mut worker = Worker::new(plan(&[("/b/a.vellum", "A")]), false);
        loaded(&mut worker, vec![], vec![hash('1')]);
        worker.step(Event::Created { answer: answer(200, ""), made: Ok("a".into()) });
        worker.step(Event::Emitted(true));
        // No store: the pictures are left out.
        assert!(matches!(worker.action(), Action::Export));
        worker.step(Event::Exported(None));
        worker
    };
    let mut worker = ready();
    worker.step(Event::Answered(answer(500, "")));
    assert_eq!(sleep_through(&mut worker), 2_000);
    worker.step(Event::Answered(answer(500, "")));
    assert_eq!(sleep_through(&mut worker), 4_000);
    worker.step(Event::Answered(answer(502, "bad gateway")));
    assert!(matches!(
        worker.action(),
        Action::Emit(PushEvent::BoardFailed { why, .. }) if why == "HTTP 502: bad gateway"
    ));

    let mut worker = ready();
    worker.step(Event::Answered(Err("reset".into())));
    worker.step(Event::Stop(true));
    assert!(summary(&worker).stopped);

    let mut worker = Worker::new(plan(&[("/b/a.vellum", "A")]), false);
    loaded(&mut worker, vec![], vec![]);
    worker.step(Event::Created { answer: answer(200, ""), made: Ok("a".into()) });
    worker.step(Event::Emitted(true));
    worker.step(Event::Exported(Some("no updates".into())));
    assert!(matches!(
        worker.action(),
        Action::Emit(PushEvent::BoardFailed { why, .. })
            if why == "this board would not export: no updates"
    ));
}

#[test]
fn a_listener_that_is_gone_ends_the_run() {
    let mut worker = Worker::new(plan(&[("/b/a.vellum", "A")]), true);
    worker.step(listed(vec![]));
    worker.step(Event::Stop(false));
    worker.step(Event::Emitted(false));
    let over = summary(&worker);
    assert!(!over.stopped && over.boards_failed == 0);

    let mut worker = Worker::new(plan(&[("/b/a.vellum", "A")]), true);
    loaded(&mut worker, vec![], vec![]);
    worker.step(Event::Created { answer: answer(200, ""), made: Ok("a".into()) });
    worker.step(Event::Emitted(false));
    assert!(summary(&worker).stopped);
    assert!(worker.has_room());
}

#[test]
fn a_probe_is_a_json_array_of_hashes() {
    let hashes = vec![hash('a'), hash('b'), hash('c')];
    assert_eq!(probe_body(&hashes, 0, 0), b"[]");
    let one = format!("[\"{}\"]", "b".repeat(64));
    assert_eq!(probe_body(&hashes, 1, 2), one.into_bytes());
    let two = format!("[\"{}\",\"{}\"]", "b".repeat(64), "c".repeat(64));
    assert_eq!(probe_body(&hashes, 1, 3), two.into_bytes());
}

#[test]
fn pictures_are_probed_for_in_batches() {
    let mut many: Vec<BlobHash> = Vec::new();
    for n in 0..5_000_u128 {
        many.push(BlobHash { high: 0, low: n });
    }
    let mut worker = Worker::new(plan(&[("/b/a.vellum", "A")]), true);
    loaded(&mut worker, vec![], many);
    worker.step(Event::Created { answer: answer(200, ""), made: Ok("a".into()) });
    worker.step(Event::Emitted(true));
    match worker.action() {
        Action::Probe { body, .. } => assert_eq!(body.len(), 4_096 * 67 + 1),
        other => panic!("{other:?}"),
    }
    worker.step(Event::Answered(answer(200, "[]")));
    match worker.action() {
        Action::Probe { body, .. } => assert_eq!(body.len(), 904 * 67 + 1),
        other => panic!("{other:?}"),
    }
    worker.step(Event::Answered(answer(200, "[]")));
    assert!(matches!(worker.action(), Action::Export));
    assert_eq!(worker.settled.len(), 5_000);
}

#[test]
fn a_hash_that_was_not_asked_for_is_not_sent() {
    let mut worker = Worker::new(plan(&[("/b/a.vellum", "A")]), true);
    loaded(&mut worker, vec![], vec![hash('1'), hash('2'), hash('3')]);
    worker.step(Event::Created { answer: answer(200, ""), made: Ok("a".into()) });
    worker.step(Event::Emitted(true));
    let named = [hash('9'), hash('3'), hash('1'), hash('3')].map(|hash| hash.to_hex());
    worker.step(Event::Answered(answer(200, &named.join(","))));
    assert_eq!(worker.missing, vec![hash('1'), hash('3')], "each once, and only the board's");
    assert_eq!(worker.settled, vec![hash('2')]);
}

#[test]
fn stopping_while_pictures_are_asked_for_settles_none() {
    let mut worker = Worker::new(plan(&[("/b/a.vellum", "A")]), true);
    loaded(&mut worker, vec![], vec![hash('1'), hash('2')]);
    worker.step(Event::Created { answer: answer(200, ""), made: Ok("a".into()) });
    worker.step(Event::Emitted(true));
    worker.step(Event::Answered(answer(405, "")));
    worker.step(Event::Stop(true));
    assert!(summary(&worker).stopped, "the document is not sent");
    assert!(worker.settled.is_empty());
}

#[test]
fn a_stop_during_a_wait_is_heeded() {
    // A board that was busy is not opened again: it failed, and the run ends before the next.
    let mut worker = Worker::new(plan(&[("/b/a.vellum", "A"), ("/b/c.vellum", "C")]), true);
    worker.step(listed(vec![]));
    worker.step(Event::Stop(false));
    worker.step(Event::Emitted(true));
    worker.step(Event::Exists(true));
    worker.step(Event::Loaded(Loaded::Busy));
    worker.step(Event::Stop(true));
    assert!(matches!(
        worker.action(),
        Action::Emit(PushEvent::BoardFailed { why, .. }) if why == "this board would not open"
    ));
    worker.step(Event::Emitted(true));
    worker.step(Event::Stop(true));
    let busy = summary(&worker);
    assert!(busy.stopped && busy.boards_failed == 1);

    let mut worker = Worker::new(plan(&[("/b/a.vellum", "A")]), true);
    loaded(&mut worker, vec![], vec![hash('1')]);
    worker.step(Event::Created { answer: answer(200, ""), made: Ok("a".into()) });
    worker.step(Event::Emitted(true));
    worker.step(Event::Answered(answer(200, &hash('1').to_hex())));
    worker.step(Event::Stop(false));
    worker.step(Event::Emitted(true));
    worker.step(Event::Measured(Some(10)));
    worker.step(Event::Read(true));
    worker.step(Event::Answered(answer(503, "")));
    worker.step(Event::Stop(true));
    assert!(summary(&worker).stopped, "the document does not go without its picture");
    assert!(worker.settled.is_empty());
}
