//! The boards that are open and not in front.

use vellum_app::session::Session;

type Boards = Session<String, (f64, f64)>;

fn parked(session: &mut Boards, key: u64, path: &str, title: &str, camera: (f64, f64)) {
    session.park(key, path.to_owned(), title.to_owned(), camera);
}

#[test]
fn a_parked_board_comes_back_with_the_camera_it_was_left_at() {
    let mut session: Boards = Session::new();
    let camera = (1_234.0, 0.5);

    parked(&mut session, 1, "/boards/a.vellum", "A", camera);
    assert_eq!(session.len(), 1);
    assert!(session.contains(1));

    let (editor, restored) = session.take(1).expect("the board is resident");
    assert_eq!(restored, camera, "the view moved while the tab was in the background");
    assert_eq!(editor, "A");
    assert!(session.is_empty(), "taking a board removes it from the session");
    assert!(session.take(1).is_none(), "and it cannot be taken twice");
}

#[test]
fn parking_the_same_board_twice_replaces_it_rather_than_stacking_it() {
    let mut session: Boards = Session::new();
    parked(&mut session, 7, "/boards/a.vellum", "first", (0.0, 1.0));
    parked(&mut session, 7, "/boards/a.vellum", "second", (9.0, 1.0));

    assert_eq!(session.len(), 1);
    let (editor, camera) = session.take(7).expect("resident");
    assert_eq!(editor, "second");
    assert_eq!(camera.0, 9.0);
}

#[test]
fn boards_whose_tabs_are_gone_are_handed_back_to_be_released() {
    let mut session: Boards = Session::new();
    for key in 1..=4_u64 {
        parked(
            &mut session,
            key,
            &format!("/boards/{key}.vellum"),
            &format!("Board {key}"),
            (key as f64, 1.0),
        );
    }

    let released = session.retain(&vec![1, 3]);
    assert_eq!(session.len(), 2, "two tabs are still open");
    let names: Vec<String> = released.iter().map(|b| b.editor().clone()).collect();
    assert_eq!(names, vec!["Board 2".to_owned(), "Board 4".to_owned()]);
    assert!(session.contains(1) && session.contains(3));
    assert!(!session.contains(2) && !session.contains(4));

    // Nothing to release is the ordinary case and must not disturb anything.
    assert!(session.retain(&vec![1, 3]).is_empty());
    assert_eq!(session.len(), 2);

    // And a strip with no board tabs at all releases everything.
    assert_eq!(session.retain(&vec![]).len(), 2);
    assert!(session.is_empty());
}

#[test]
fn draining_hands_back_every_board_so_every_one_can_be_flushed() {
    let mut session: Boards = Session::new();
    for key in 1..=3_u64 {
        parked(&mut session, key, &format!("/boards/{key}.vellum"), "B", (0.0, 1.0));
    }
    let drained = session.drain();
    assert_eq!(drained.len(), 3);
    assert!(session.is_empty(), "draining leaves nothing behind");
    assert!(session.drain().is_empty());
}

#[test]
fn a_parked_board_reports_its_own_path_and_key() {
    let mut session: Boards = Session::new();
    parked(&mut session, 5, "/boards/site-plan.vellum", "Site plan", (0.0, 1.0));
    let board = &session.parked[0];
    assert_eq!(board.key(), 5);
    assert_eq!(board.path(), "/boards/site-plan.vellum");
    assert_eq!(board.editor(), "Site plan");
    assert_eq!(*board.camera(), (0.0, 1.0));
    assert_eq!(session.parked.len(), 1);
}

#[test]
fn a_parked_editor_can_be_changed_where_it_is() {
    let mut session: Boards = Session::new();
    parked(&mut session, 1, "/boards/a.vellum", "A", (1.0, 1.0));
    parked(&mut session, 2, "/boards/b.vellum", "B", (2.0, 1.0));
    session.parked[1].editor_mut().push('!');

    let seen: Vec<(u64, &str, &str, f64)> = session
        .iter()
        .iter()
        .map(|board| (board.key(), board.path(), board.editor().as_str(), board.camera().0))
        .collect();
    assert_eq!(
        seen,
        [(1, "/boards/a.vellum", "A", 1.0), (2, "/boards/b.vellum", "B!", 2.0)]
    );
}
