//! The board library. A directory of boards is stood in for by the list of its index rows.

use vellum_app::item::Color;
use vellum_app::library::{
    candidate_name, file_stem, new_title, renamed_title, slug, stem_of, Accent, BoardIndex,
    Filing, Library, Pattern, ThemePreference,
};
use vellum_app::scalar::Scalar;

/// A library and the boards on its disk.
struct Shelf {
    library: Library,
    disk: Vec<BoardIndex>,
}

impl Shelf {
    fn new() -> Shelf {
        Shelf { library: Library::open("/boards", Filing::default(), &vec![]), disk: vec![] }
    }

    fn free_path(&self, title: &str) -> String {
        let mut n = 1;
        loop {
            let path = format!("/boards/{}", candidate_name(title, n));
            if !self.disk.iter().any(|index| index.path == path) {
                return path;
            }
            n += 1;
        }
    }

    fn put(&mut self, title: &str) -> String {
        let path = self.free_path(title);
        self.disk.push(BoardIndex {
            path: path.clone(),
            title: title.to_owned(),
            item_count: 0,
            modified: 0,
        });
        self.library.rescan(&self.disk);
        path
    }

    fn create(&mut self, typed: &str) -> String {
        let title = new_title(typed);
        self.put(&title)
    }

    fn duplicate(&mut self, path: &str) -> String {
        let title = self.library.copy_title(path);
        let target = self.put(&title);
        self.library.file_copy(path, &target);
        self.library.rescan(&self.disk);
        target
    }

    fn delete_file(&mut self, path: &str) {
        self.disk.retain(|index| index.path != path);
    }

    fn spaces_of(&self, path: &str) -> Vec<String> {
        self.library
            .spaces()
            .iter()
            .filter(|space| space.contains(path))
            .map(|space| space.name.clone())
            .collect()
    }
}

#[test]
fn an_attached_archive_is_remembered_across_a_restart() {
    let mut library = Library::open("/boards", Filing::default(), &vec![]);
    assert!(library.attach_archive("/tmp/board.rtb"));
    assert_eq!(library.attached_archives(), &vec!["/tmp/board.rtb".to_owned()]);
    assert!(!library.attach_archive("/tmp/board.rtb"), "attaching twice is idempotent");
    assert_eq!(library.attached_archives().len(), 1);

    let reopened = Library::open("/boards", library.filing.clone(), &vec![]);
    assert_eq!(reopened.attached_archives(), &vec!["/tmp/board.rtb".to_owned()]);
}

#[test]
fn a_title_becomes_a_safe_file_stem() {
    assert_eq!(slug("Engine bay"), "engine-bay");
    assert_eq!(slug("Panel 2020 4k v3"), "panel-2020-4k-v3");
    // A separator in a title must not become a directory separator.
    assert_eq!(slug("wiring / loom"), "wiring-loom");
    assert_eq!(slug("  "), "board");
    assert_eq!(slug("…"), "board");
    assert!(!slug("///a///").contains('/'));
}

#[test]
fn a_stem_is_cut_at_sixty_four_characters() {
    assert_eq!(slug(&"Ab".repeat(50)), "ab".repeat(32));
    let dashed = format!("{} b", "a".repeat(63));
    assert_eq!(slug(&dashed), format!("{}-", "a".repeat(63)));
    assert_eq!(slug("--A--"), "a");
    assert_eq!(slug("a -- / -- b"), "a-b");
    assert_eq!(slug("é"), "board");
}

#[test]
fn creating_a_board_makes_a_listable_file() {
    let mut shelf = Shelf::new();
    assert!(shelf.library.cards().is_empty());

    let path = shelf.create("Engine bay");
    assert!(path.ends_with(".vellum"));
    assert_eq!(shelf.library.cards().len(), 1);
    assert_eq!(shelf.library.cards()[0].title, "Engine bay");
    assert_eq!(shelf.library.cards()[0].path, path);
}

#[test]
fn two_boards_of_the_same_name_get_different_files() {
    let mut shelf = Shelf::new();
    let first = shelf.create("Notes");
    let second = shelf.create("Notes");
    assert_ne!(first, second);
    assert_eq!(shelf.library.cards().len(), 2);
    assert_eq!((first.as_str(), second.as_str()), ("/boards/notes.vellum", "/boards/notes-2.vellum"));
}

#[test]
fn duplicating_copies_the_content_and_renames_the_copy() {
    let mut shelf = Shelf::new();
    let path = shelf.create("Wiring");
    let copy = shelf.duplicate(&path);

    assert_ne!(copy, path);
    let titles: Vec<&str> = shelf.library.cards().iter().map(|c| c.title.as_str()).collect();
    assert!(titles.contains(&"Wiring"), "{titles:?}");
    assert!(titles.contains(&"Wiring copy"), "{titles:?}");
    assert_eq!(shelf.library.copy_title("/elsewhere/loom.v2.vellum"), "loom.v2 copy");
}

#[test]
fn a_duplicate_inherits_its_originals_space() {
    let mut shelf = Shelf::new();
    let path = shelf.create("Wiring");
    assert!(shelf.library.create_space("Cars"));
    shelf.library.move_to_space(&path, Some("Cars"));

    let copy = shelf.duplicate(&path);
    let cars = shelf.library.spaces().iter().find(|s| s.name == "Cars").unwrap();
    assert!(cars.contains(&path));
    assert!(cars.contains(&copy));
}

#[test]
fn renaming_changes_the_title_and_leaves_the_file_where_it_is() {
    let mut shelf = Shelf::new();
    let path = shelf.create("Draft");
    shelf.disk[0].title = renamed_title(" Engine bay ").unwrap();
    shelf.library.rescan(&shelf.disk);
    assert_eq!(shelf.library.cards()[0].title, "Engine bay");
    assert_eq!(shelf.library.cards()[0].path, path);
    assert_eq!(renamed_title("   "), None, "a board needs a name");
    assert_eq!(new_title("  "), "Untitled board");
    assert_eq!(new_title(" a "), "a");
}

#[test]
fn deleting_moves_a_board_to_the_trash_and_leaves_it_on_disk() {
    let mut shelf = Shelf::new();
    let path = shelf.create("Scratch");
    assert!(shelf.library.create_space("Archive"));
    shelf.library.move_to_space(&path, Some("Archive"));
    shelf.library.set_starred(&path, true);

    assert!(shelf.library.trash(&path, 1_000));
    shelf.library.rescan(&shelf.disk);
    assert!(shelf.library.is_trashed(&path));
    assert_eq!(shelf.library.trashed(), vec![path.clone()]);
    // Still listed, and now carrying the flag every scope but the trash filters on.
    assert_eq!(shelf.library.cards().len(), 1);
    assert!(shelf.library.cards()[0].deleted.is_some());
    assert!(shelf.library.is_starred(&path), "a restored board keeps its star");
    assert_eq!(shelf.library.spaces()[0].boards, vec![path.clone()], "and its folder");

    // Twice is once: a second Delete must not reset how long it has been in there.
    let first = shelf.library.cards()[0].deleted;
    assert!(!shelf.library.trash(&path, 2_000));
    shelf.library.rescan(&shelf.disk);
    assert_eq!(shelf.library.trashed().len(), 1);
    assert_eq!(shelf.library.cards()[0].deleted, first);
    assert_eq!(first, Some(1_000));
    assert_eq!(shelf.library.filing.trashed[0].when(), 1_000);

    shelf.library.restore(&path);
    shelf.library.rescan(&shelf.disk);
    assert!(!shelf.library.is_trashed(&path));
    assert!(shelf.library.cards()[0].deleted.is_none());
}

#[test]
fn purging_removes_the_file_and_the_filing_that_pointed_at_it() {
    let mut shelf = Shelf::new();
    let path = shelf.create("Scratch");
    assert!(shelf.library.create_space("Archive"));
    shelf.library.move_to_space(&path, Some("Archive"));
    shelf.library.set_starred(&path, true);
    shelf.library.trash(&path, 1);

    shelf.delete_file(&path);
    shelf.library.purge(&path);
    shelf.library.rescan(&shelf.disk);
    assert!(shelf.library.cards().is_empty());
    assert!(!shelf.library.is_starred(&path));
    assert!(!shelf.library.is_trashed(&path), "and it leaves the trash it was in");
    assert!(shelf.library.spaces()[0].boards.is_empty());
}

#[test]
fn deleting_a_space_keeps_its_boards() {
    let mut shelf = Shelf::new();
    let path = shelf.create("Keyboard");
    assert!(shelf.library.create_space("Posters"));
    shelf.library.move_to_space(&path, Some("Posters"));

    shelf.library.delete_space("Posters");
    assert!(shelf.library.spaces().is_empty());
    assert_eq!(shelf.library.cards().len(), 1);
}

#[test]
fn a_board_is_in_at_most_one_space() {
    let mut shelf = Shelf::new();
    let path = shelf.create("Keyboard");
    assert!(shelf.library.create_space("Cars"));
    assert!(shelf.library.create_space("Books"));

    shelf.library.move_to_space(&path, Some("Cars"));
    shelf.library.move_to_space(&path, Some("Books"));
    assert_eq!(shelf.spaces_of(&path), ["Books"]);

    shelf.library.move_to_space(&path, None);
    assert!(shelf.spaces_of(&path).is_empty());
    shelf.library.move_to_space(&path, Some("No such space"));
    assert!(shelf.spaces_of(&path).is_empty());
}

#[test]
fn spaces_are_pinned_first_then_alphabetical() {
    let mut shelf = Shelf::new();
    for name in ["Posters", "Archive", "Cars"] {
        assert!(shelf.library.create_space(name));
    }
    assert!(shelf.library.set_space_pinned("Posters", true));

    let names: Vec<&str> = shelf.library.spaces().iter().map(|s| s.name.as_str()).collect();
    assert_eq!(names, vec!["Posters", "Archive", "Cars"]);
    assert!(!shelf.library.set_space_pinned("Nowhere", true));
}

#[test]
fn capitals_do_not_decide_where_a_space_is_listed() {
    let mut shelf = Shelf::new();
    for name in ["beta", "Alpha", "ÉTÉ", "alpha", "éta"] {
        assert!(shelf.library.create_space(name));
    }
    let names: Vec<&str> = shelf.library.spaces().iter().map(|s| s.name.as_str()).collect();
    // The two that tie keep the order they were made in.
    assert_eq!(names, vec!["Alpha", "alpha", "beta", "éta", "ÉTÉ"]);
}

#[test]
fn a_space_name_is_not_reused() {
    let mut shelf = Shelf::new();
    assert!(shelf.library.create_space("Cars"));
    assert!(!shelf.library.create_space("Cars"));
    assert!(!shelf.library.create_space("  "));
    assert!(shelf.library.create_space("Books"));
    assert!(!shelf.library.rename_space("Books", "Cars"));
    assert!(shelf.library.rename_space("Books", "Manuals"));
    assert!(!shelf.library.rename_space("Books", "Other"), "there is no such space any more");
    assert!(!shelf.library.rename_space("Cars", " "));
}

#[test]
fn the_filing_survives_a_reopen() {
    let mut shelf = Shelf::new();
    let path = shelf.create("Engine bay");
    assert!(shelf.library.create_space("Cars"));
    shelf.library.move_to_space(&path, Some("Cars"));
    shelf.library.set_starred(&path, true);
    shelf.library.set_theme_preference(ThemePreference::Dark);
    shelf.library.set_accent(Accent::Blue);

    let library = Library::open("/boards", shelf.library.filing.clone(), &shelf.disk);
    assert!(library.is_starred(&path));
    assert_eq!(library.theme_preference(), ThemePreference::Dark);
    assert_eq!(library.accent(), Accent::Blue, "the accent has to outlive the process");
    assert_eq!(library.spaces().len(), 1);
    assert!(library.spaces()[0].contains(&path));
    assert!(library.cards()[0].starred, "the card has to carry the star too");
    assert_eq!(library.root(), "/boards");
}

#[test]
fn a_damaged_sidecar_degrades_to_the_defaults() {
    let mut shelf = Shelf::new();
    shelf.create("Engine bay");
    let library = Library::open("/boards", Filing::default(), &shelf.disk);
    assert_eq!(library.cards().len(), 1);
    assert!(library.spaces().is_empty());
    assert_eq!(library.theme_preference(), ThemePreference::System);
}

#[test]
fn the_archived_agent_settings_survive_a_rewrite() {
    let filing = Filing {
        agent_display: Some("raw".into()),
        agent_provider: Some("codex".into()),
        agent_chat_theme: Some("terminal".into()),
        browser_nodes: Some(true),
        worktrees: Some(true),
        speech: Some("{ \"preference\": \"Local\", \"model_file\": \"/models/base.bin\" }".into()),
        ..Filing::default()
    };
    let mut shelf = Shelf { library: Library::open("/boards", filing, &vec![]), disk: vec![] };
    let path = shelf.create("Engine bay");
    shelf.library.set_starred(&path, true);

    let written = &shelf.library.filing;
    assert_eq!(written.agent_display.as_deref(), Some("raw"));
    assert_eq!(written.agent_provider.as_deref(), Some("codex"));
    assert_eq!(written.agent_chat_theme.as_deref(), Some("terminal"));
    assert_eq!(written.browser_nodes, Some(true));
    assert_eq!(written.worktrees, Some(true));
    assert!(written.speech.as_deref().unwrap().contains("/models/base.bin"));
    assert!(shelf.library.is_starred(&path), "the rewrite this test relies on did happen");
}

#[test]
fn the_account_is_remembered_and_the_password_is_not() {
    let filing = Filing { worktrees: Some(true), ..Filing::default() };
    let mut library = Library::open("/boards", filing, &vec![]);
    assert_eq!(library.sync_server(), None, "a sidecar with no key is not a failure");
    assert_eq!(library.sync_username(), None);

    library.set_sync_account("https://boards.example.com/", "sam");
    assert_eq!(library.sync_server(), Some("https://boards.example.com/"));
    assert_eq!(library.sync_username(), Some("sam"));
    assert_eq!(library.filing.worktrees, Some(true), "an existing key was dropped");

    let reopened = Library::open("/boards", library.filing.clone(), &vec![]);
    assert_eq!(reopened.sync_server(), Some("https://boards.example.com/"));
    assert_eq!(reopened.sync_username(), Some("sam"));
}

#[test]
fn filing_for_a_vanished_board_is_pruned() {
    let mut shelf = Shelf::new();
    let path = shelf.create("Gone");
    assert!(shelf.library.create_space("Cars"));
    shelf.library.move_to_space(&path, Some("Cars"));
    shelf.library.set_starred(&path, true);

    shelf.delete_file(&path);
    shelf.library.rescan(&shelf.disk);

    assert!(shelf.library.cards().is_empty());
    assert!(shelf.library.spaces()[0].boards.is_empty());
    assert!(!shelf.library.is_starred(&path));
}

#[test]
fn preferences_read_back_and_have_their_defaults() {
    let mut library = Library::open("/boards", Filing::default(), &vec![]);
    assert!(library.translucency() && library.link_previews() && library.align_objects());
    assert!(!library.snap_to_grid() && !library.minimap());
    assert_eq!(library.accent(), Accent::Teal);
    assert_eq!(library.grid_pattern(), None);
    assert_eq!(library.glass_opacity(), None);
    library.set_translucency(false);
    library.set_link_previews(false);
    library.set_align_objects(false);
    library.set_snap_to_grid(true);
    library.set_view_toggles(true);
    library.set_glass_opacity(200);
    assert!(!library.translucency() && !library.link_previews() && !library.align_objects());
    assert!(library.snap_to_grid() && library.minimap());
    assert_eq!(library.glass_opacity(), Some(200));
    for pattern in [Pattern::Plain, Pattern::Dots, Pattern::Crosses, Pattern::Lines] {
        library.set_grid_pattern(pattern);
        assert_eq!(library.grid_pattern(), Some(pattern));
    }
    library.filing.grid_pattern = Some("hexagons".into());
    assert_eq!(library.grid_pattern(), None, "an unknown tag is no choice");
    for accent in [Accent::Teal, Accent::Red, Accent::Blue] {
        library.set_accent(accent);
        assert_eq!(library.accent(), accent);
    }
    for theme in [ThemePreference::Light, ThemePreference::Dark, ThemePreference::System] {
        library.set_theme_preference(theme);
        assert_eq!(library.theme_preference(), theme);
    }
    let color = Color { r: 1, g: 2, b: 3, a: 4 };
    library.set_grid_color(Some(color));
    assert_eq!(library.filing.grid_color, Some(0x01020304));
    assert_eq!(library.grid_color(), Some(color));
    library.filing.grid_color = Some(-1);
    assert_eq!(library.grid_color(), None);
    library.filing.grid_color = Some(0x1_0000_0000);
    assert_eq!(library.grid_color(), None);
    library.set_grid_color(None);
    assert_eq!(library.filing.grid_color, None);
    library.set_last_board(Some("/boards/a.vellum"));
    assert_eq!(library.last_board(), Some("/boards/a.vellum"));
    library.set_last_board(None);
    assert_eq!(library.last_board(), None);
}

#[test]
fn a_board_opens_where_it_was_last_left() {
    let at = |x: f64| [x, 0.0, 1.0].map(|v: f64| Scalar { bits: v.to_bits() });
    let mut library = Library::open("/boards", Filing::default(), &vec![]);
    assert_eq!(library.start_view("/a"), None);
    library.set_start_view("/a", at(1.0));
    library.set_start_view("/b", at(2.0));
    library.set_start_view("/a", at(3.0));
    assert_eq!(library.start_view("/a"), Some(at(3.0)));
    assert_eq!(library.start_view("/b"), Some(at(2.0)));
    assert_eq!(library.filing.start_views.len(), 2);
}

#[test]
fn a_path_has_the_stem_of_its_file_name() {
    assert_eq!(file_stem("/boards/engine.vellum").as_deref(), Some("engine"));
    assert_eq!(file_stem("a.tar.gz").as_deref(), Some("a.tar"));
    assert_eq!(file_stem(".hidden").as_deref(), Some(".hidden"));
    assert_eq!(file_stem("noext").as_deref(), Some("noext"));
    assert_eq!(file_stem("/a/..").as_deref(), None);
    assert_eq!(file_stem("").as_deref(), None);
    assert_eq!(stem_of("/"), "board");
    assert_eq!(stem_of("notes/"), "notes");
    assert_eq!(stem_of("a/notes.vellum/."), "notes");
    assert_eq!(file_stem("."), None);
    assert_eq!(stem_of("/x/y.z"), "y");
}

#[test]
fn a_board_is_one_board_however_its_path_is_spelt() {
    let mut shelf = Shelf::new();
    let path = shelf.create("Notes");
    assert_eq!(path, "/boards/notes.vellum");
    shelf.library.set_starred("/boards//notes.vellum", true);
    assert!(shelf.library.is_starred(&path));
    assert!(shelf.library.cards()[0].starred);
    assert!(shelf.library.create_space("Cars"));
    shelf.library.move_to_space("/boards/./notes.vellum", Some("Cars"));
    assert_eq!(shelf.spaces_of(&path), ["Cars"]);
    assert!(shelf.library.trash("/boards/notes.vellum/", 3));
    assert!(!shelf.library.trash(&path, 4));
    shelf.library.rescan(&shelf.disk);
    assert!(shelf.library.is_starred(&path), "a rescan finds it by its place");
    assert_eq!(shelf.library.cards()[0].deleted, Some(3));
}
