//! The selection, and what an edit leads to.

use vellum_app::editor::{
    archive_directory, blob_directory, clear, commit_move, data_directory, default_board_path,
    edit, edit_content, sync_now, takes_restore_point, title_for, writes_a_move, AfterEdit,
    AfterImport, Directories, Editor, Refreshed, Shown, System, BEFORE_SYNC,
};

fn shown(doc: u128, locked: bool) -> Shown {
    Shown { scene: doc as u64 + 100, doc, locked }
}

fn board(count: u128) -> Vec<Shown> {
    (0..count).map(|doc| shown(doc, false)).collect()
}

#[test]
fn a_parked_board_comes_back_with_its_selection() {
    let mut editor = Editor::new(board(2));
    editor.select(&vec![0, 1]);
    assert_eq!(editor.selected_ids(), vec![0, 1]);
    // Parking drops the projection and leaves the selection; coming back rebuilds it.
    editor.reproject(board(2));
    assert_eq!(editor.selected_ids(), vec![0, 1], "came back selecting different items");
}

#[test]
fn a_new_board_file_is_created_loaded_and_saved() {
    assert_eq!(title_for("/home/boards/engine.vellum"), "engine");
    assert_eq!(title_for("/"), "Untitled");
}

#[test]
fn picking_selects_the_topmost_item_and_empty_canvas_clears() {
    let mut editor = Editor::new(board(2));
    editor.pick(Some(101), false);
    assert_eq!(editor.selection().len(), 1);
    let top = editor.selection()[0];

    editor.pick(Some(100), false);
    assert_eq!(editor.selection().len(), 1);
    assert_ne!(editor.selection()[0], top, "the lower item was not picked");

    editor.pick(None, false);
    assert!(editor.selection().is_empty(), "empty canvas did not clear");
}

#[test]
fn additive_picking_toggles() {
    let mut editor = Editor::new(board(2));
    editor.pick(Some(100), false);
    editor.pick(Some(101), true);
    assert_eq!(editor.selection().len(), 2);

    editor.pick(Some(101), true);
    assert_eq!(editor.selection().len(), 1);

    // An additive click on empty canvas must not throw the selection away.
    editor.pick(None, true);
    assert_eq!(editor.selection().len(), 1);
}

#[test]
fn a_marquee_selects_what_it_touches() {
    let mut editor = Editor::new(board(3));
    editor.marquee(&vec![100, 101], false);
    assert_eq!(editor.selection().len(), 2, "a grazed item was missed");
    editor.marquee(&vec![102], true);
    assert_eq!(editor.selection().len(), 3);
    editor.marquee(&vec![102], false);
    assert_eq!(editor.selection(), &vec![102]);
}

#[test]
fn select_all_and_clear() {
    let mut editor = Editor::new(board(5));
    editor.select_all();
    assert_eq!(editor.selection().len(), 5);
    editor.clear_selection();
    assert!(editor.selection().is_empty());

    // In ascending order, whatever order the projection gives them in.
    let mut shuffled =
        Editor::new(vec![shown(2, false), shown(0, false), shown(1, false), shown(1, false)]);
    shuffled.select_all();
    assert_eq!(shuffled.selection(), &vec![100, 101, 101, 102]);
}

#[test]
fn deleting_the_selection_is_one_undo_step() {
    let mut editor = Editor::new(board(4));
    editor.select_all();
    assert_eq!(editor.doomed(), Some(vec![0, 1, 2, 3]));
    assert_eq!(editor.delete_selection(&vec![true; 4]), 4);
    assert!(editor.selection().is_empty());
    assert!(editor.undo(true), "an undo that changed the board is followed up");
    assert!(!editor.undo(false));
}

#[test]
fn a_failed_edit_closes_its_undo_group_and_still_reprojects() {
    assert_eq!(edit(false), AfterEdit { close_undo_group: true, reproject: true, record: false });
    assert_eq!(edit(true), AfterEdit { close_undo_group: false, reproject: true, record: true });
    assert_eq!(
        edit_content(false, Refreshed::InPlace),
        AfterEdit { close_undo_group: true, reproject: true, record: false }
    );
    assert_eq!(
        edit_content(true, Refreshed::InPlace),
        AfterEdit { close_undo_group: false, reproject: false, record: true }
    );
    for enough in [Refreshed::Moved, Refreshed::Failed] {
        assert!(edit_content(true, enough).reproject);
        assert!(edit_content(true, enough).record);
    }
}

#[test]
fn deleting_a_mixed_selection_leaves_the_locked_items_behind() {
    let mut rows = board(4);
    rows[2].locked = true;
    let mut editor = Editor::new(rows);
    editor.select_all();
    assert_eq!(editor.doomed(), Some(vec![0, 1, 3]), "the locked one survived");
    assert_eq!(editor.delete_selection(&vec![true; 3]), 3, "the three unlocked ones went");
}

#[test]
fn the_arrange_filter_drops_locked_items_and_keeps_selection_order() {
    let mut rows = board(4);
    rows[1].locked = true;
    rows[3].locked = true;
    let mut editor = Editor::new(rows);
    editor.select_all();

    assert_eq!(editor.selected_ids().len(), 4, "all four are still selected");
    assert_eq!(editor.unlocked_selected_ids(), vec![0, 2], "only the movable two");
    assert_eq!(editor.locked_selected_count(), 2);

    // Unlocking puts one back, so the helper is not a one-way filter either.
    let mut rows = board(4);
    rows[3].locked = true;
    editor.reproject(rows);
    editor.select_all();
    assert_eq!(editor.unlocked_selected_ids(), vec![0, 1, 2]);
    assert_eq!(editor.locked_selected_count(), 1);
}

#[test]
fn undo_drops_the_selection_rather_than_keeping_stale_ids() {
    let mut editor = Editor::new(board(1));
    editor.select_all();
    editor.undo(true);
    assert!(editor.selection().is_empty());
    editor.select_all();
    editor.undo(false);
    assert_eq!(editor.selection().len(), 1, "an undo that did nothing changes nothing");
    assert!(!editor.redo(false));
    assert_eq!(editor.selection().len(), 1);
    assert!(editor.redo(true));
    assert!(editor.selection().is_empty());
}

#[test]
fn committing_nothing_writes_nothing() {
    assert!(!writes_a_move(0, 0));
    assert_eq!(commit_move(&vec![]), 0);
    assert!(writes_a_move(1, 0) && writes_a_move(0, 1));
    assert_eq!(commit_move(&vec![true, false, true]), 2);
}

#[test]
fn clearing_removes_everything_in_one_undoable_step() {
    assert_eq!(clear(6, Some(0)), 6);
    assert_eq!(clear(0, Some(0)), 0, "clearing an empty board is not an error");
    assert_eq!(clear(6, None), 0);
    assert_eq!(clear(6, Some(7)), 0);
}

#[test]
fn a_large_additive_marquee_selects_each_item_once_and_quickly() {
    let mut editor = Editor::new(board(4_000));
    let everything: Vec<u64> = (100..4_100).collect();
    editor.marquee(&everything, false);
    editor.marquee(&everything, true);
    editor.marquee(&everything, true);
    assert_eq!(editor.selection().len(), 4_000, "an item was selected twice");
    let mut unique = editor.selection().clone();
    unique.sort_unstable();
    unique.dedup();
    assert_eq!(unique.len(), 4_000);
}

#[test]
fn deleting_nothing_is_not_an_error() {
    assert_eq!(Editor::new(board(3)).doomed(), None);
}

#[test]
fn reprojecting_prunes_a_stale_selection() {
    let mut editor = Editor::new(board(1));
    editor.select_all();
    assert_eq!(editor.selection().len(), 1);
    editor.reproject(vec![]);
    assert!(editor.selection().is_empty());
}

#[test]
fn an_import_selects_what_was_pasted_and_nothing_on_opening() {
    let mut editor = Editor::new(board(1));
    editor.select_all();
    editor.imported(board(3), &vec![1, 2, 9], AfterImport::SelectPasted);
    assert_eq!(editor.selected_ids(), vec![1, 2]);
    editor.imported(board(3), &vec![1, 2], AfterImport::SelectNothing);
    assert!(editor.selection().is_empty());
}

#[test]
fn one_snapshot_is_taken_before_the_first_merge() {
    assert!(!takes_restore_point(None));
    assert!(takes_restore_point(Some(&vec![])));
    assert!(takes_restore_point(Some(&vec![None, Some("before lunch".into())])));
    assert!(!takes_restore_point(Some(&vec![None, Some(BEFORE_SYNC.into())])));
    assert!(sync_now(true, true, true));
    assert!(!sync_now(false, true, true) && !sync_now(true, false, true));
    assert!(!sync_now(true, true, false));
}

#[test]
fn the_data_directory_is_under_a_vellum_folder() {
    let named = Directories {
        home: Some("/Users/sam".into()),
        app_data: Some("C:/Users/sam/AppData".into()),
        xdg_data_home: None,
    };
    for system in [System::MacOs, System::Windows, System::Other] {
        let dir = data_directory(system, &named);
        assert!(dir.ends_with("Vellum"), "{dir}");
        assert!(default_board_path(system, &named).starts_with(&dir));
        assert!(blob_directory(system, &named).starts_with(&dir));
        assert!(archive_directory(system, &named).ends_with("/archives"));
        assert!(default_board_path(system, &named).ends_with(".vellum"));
    }
    assert_eq!(
        data_directory(System::MacOs, &named),
        "/Users/sam/Library/Application Support/Vellum"
    );
    assert_eq!(data_directory(System::Other, &named), "/Users/sam/.local/share/Vellum");
    let none = Directories { home: None, app_data: None, xdg_data_home: Some("/x".into()) };
    assert_eq!(data_directory(System::Other, &none), "/x/Vellum");
    assert_eq!(data_directory(System::MacOs, &none), "./Vellum");
    assert_eq!(data_directory(System::Windows, &none), "./Vellum");
    let empty = Directories {
        home: Some(String::new()),
        app_data: None,
        xdg_data_home: None,
    };
    assert_eq!(data_directory(System::Other, &empty), ".local/share/Vellum");
    let trailing = Directories { home: Some("/home/sam/".into()), ..empty };
    assert_eq!(data_directory(System::Other, &trailing), "/home/sam/.local/share/Vellum");
    assert_eq!(
        default_board_path(System::Other, &trailing),
        "/home/sam/.local/share/Vellum/boards/board.vellum"
    );
}

#[test]
fn deleting_nothing_removes_nothing() {
    let mut editor = Editor::new(board(3));
    assert_eq!(editor.doomed(), None);
    assert_eq!(editor.delete_selection(&vec![]), 0);
}
