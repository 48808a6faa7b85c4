//! The native menu bar.

use vellum_app::menubar::{
    accelerator, code_for, drain, entries, extra_accelerator, extra_id, extra_label, id_of, is_on,
    platform_label, resolve, title, Accelerator, Chosen, Code, Command, Entry, Extra, Key, Menu,
    MenuBar, MenuFlags, Platform, Shortcut, ALL, BAR, KEYBOARD_OWNS,
};

#[test]
fn every_command_id_resolves_back_to_itself() {
    for command in ALL {
        assert_eq!(
            resolve(&id_of(command)),
            Some(Chosen::Command(command)),
            "{command:?} did not survive the round trip"
        );
        assert_eq!(id_of(command), format!("cmd:{command:?}"));
    }
}

#[test]
fn every_extra_id_resolves_back_to_itself() {
    for extra in [Extra::NextTab, Extra::PreviousTab, Extra::NewTab] {
        assert_eq!(resolve(&extra_id(extra)), Some(Chosen::Extra(extra)));
        assert_eq!(extra_id(extra), format!("extra:{extra:?}"));
    }
}

#[test]
fn an_unknown_id_resolves_to_nothing() {
    for junk in ["", "cmd:", "cmd:NotACommand", "extra:Nope", "Copy", "cmd:copy"] {
        assert_eq!(resolve(junk), None, "{junk:?} resolved to something");
    }
}

const KEYS: [Key; 32] = [
    Key::A,
    Key::C,
    Key::D,
    Key::F,
    Key::G,
    Key::K,
    Key::L,
    Key::M,
    Key::N,
    Key::O,
    Key::P,
    Key::S,
    Key::T,
    Key::U,
    Key::V,
    Key::W,
    Key::X,
    Key::Y,
    Key::Z,
    Key::Num0,
    Key::Num1,
    Key::Num2,
    Key::Plus,
    Key::Equals,
    Key::Minus,
    Key::OpenBracket,
    Key::CloseBracket,
    Key::Delete,
    Key::Backspace,
    Key::ArrowLeft,
    Key::ArrowRight,
    Key::Comma,
];

fn shortcut(command: bool, ctrl: bool, key: Key) -> Option<Shortcut> {
    Some(Shortcut { command, shift: false, alt: false, ctrl, key })
}

#[test]
fn every_shortcut_in_the_command_table_translates() {
    for key in KEYS {
        assert!(code_for(key).is_some(), "{key:?} has no native code");
    }
    assert_eq!(code_for(Key::Plus), Some(Code::Equal));
    assert_eq!(code_for(Key::Equals), Some(Code::Equal));
    assert_eq!(code_for(Key::Num0), Some(Code::Digit0));
    assert_eq!(code_for(Key::OpenBracket), Some(Code::BracketLeft));
    assert_eq!(code_for(Key::Other), None);
}

#[test]
fn no_native_row_steals_a_key_the_keyboard_owns() {
    for command in KEYBOARD_OWNS {
        for key in KEYS {
            assert!(
                accelerator(command, shortcut(true, false, key)).is_none(),
                "{command:?} would claim its key before the window saw it"
            );
        }
    }
    for command in ALL {
        assert!(accelerator(command, shortcut(false, false, Key::Delete)).is_none());
        assert!(accelerator(command, None).is_none());
    }
}

#[test]
fn the_ordinary_rows_keep_their_shortcuts() {
    for command in [
        Command::NewBoard,
        Command::Save,
        Command::Find,
        Command::ZoomToFit,
        Command::TogglePropertiesPanel,
        Command::BringToFront,
    ] {
        assert!(
            accelerator(command, shortcut(true, false, Key::S)).is_some(),
            "{command:?} lost its shortcut"
        );
    }
    let all_held = Shortcut { command: true, shift: true, alt: true, ctrl: true, key: Key::K };
    assert_eq!(
        accelerator(Command::Save, Some(all_held)),
        Some(Accelerator { command: true, shift: true, alt: true, control: true, code: Code::KeyK })
    );
    assert!(accelerator(Command::Save, shortcut(false, true, Key::K)).is_some());
    assert!(accelerator(Command::Save, shortcut(true, false, Key::Other)).is_none());
}

#[test]
fn the_tick_table_covers_every_toggle_and_nothing_else() {
    let all_on = MenuFlags {
        snap_to_grid: true,
        minimap_visible: true,
        properties_panel: true,
        presenting: true,
        starred: true,
        translucent: true,
        link_previews: true,
        align_objects: true,
    };
    let toggles = [
        Command::SnapToGrid,
        Command::ToggleMinimap,
        Command::TogglePropertiesPanel,
        Command::PresentationMode,
        Command::StarBoard,
        Command::ToggleTranslucency,
        Command::ToggleLinkPreviews,
        Command::ToggleAlignObjects,
    ];
    for command in ALL {
        assert_eq!(
            is_on(command, all_on),
            toggles.contains(&command),
            "{command:?} disagrees with its toggle flag"
        );
    }
}

#[test]
fn the_bar_holds_its_menus_and_each_command_once() {
    assert_eq!(BAR.map(title), ["Velm", "File", "Edit", "View", "Window", "Help"]);
    let file = entries(Menu::File);
    assert_eq!(file[0], Entry::Row(Command::NewBoard));
    assert_eq!(file[1], Entry::Extra(Extra::NewTab));
    assert_eq!(file[7], Entry::Menu(Menu::Export));
    assert_eq!(file.len(), 12);
    let app = entries(Menu::App);
    assert_eq!(app[0], Entry::Platform(Platform::About));
    assert_eq!(app[2], Entry::Row(Command::OpenSettings));
    assert_eq!(entries(Menu::Arrange).len(), 20);
    assert_eq!(entries(Menu::View)[6], Entry::Tick(Command::SnapToGrid));

    let bar = MenuBar::build();
    assert_eq!(bar.rows.len(), 48);
    assert_eq!(
        bar.ticks,
        [
            Command::SnapToGrid,
            Command::ToggleMinimap,
            Command::TogglePropertiesPanel,
            Command::PresentationMode,
        ]
    );
    for (at, row) in bar.rows.iter().enumerate() {
        assert!(!bar.rows[..at].contains(row), "{row:?} is on two rows");
        assert!(!bar.ticks.contains(row));
    }
    // A menu inside another is made before it.
    assert_eq!(bar.rows[0], Command::OpenSettings);
    assert_eq!(bar.rows[1], Command::ExportPng);
    assert_eq!(bar.rows[6], Command::NewBoard);
}

#[test]
fn the_rows_are_set_only_when_something_changed() {
    let off = MenuFlags {
        snap_to_grid: true,
        minimap_visible: false,
        properties_panel: false,
        presenting: false,
        starred: false,
        translucent: false,
        link_previews: false,
        align_objects: false,
    };
    let mut bar = MenuBar::build();
    let rows = vec![true; bar.rows.len()];
    let mut ticks = vec![true; bar.ticks.len()];
    let updates = bar.sync(&rows, &ticks, off);
    assert_eq!(updates.len(), rows.len() + ticks.len());
    assert_eq!(updates[0].checked, None);
    let first_tick = updates[rows.len()];
    assert_eq!(first_tick.command, Command::SnapToGrid);
    assert_eq!(first_tick.checked, Some(true));
    assert!(bar.sync(&rows, &ticks, off).is_empty(), "nothing changed");
    ticks[1] = false;
    let updates = bar.sync(&rows, &ticks, off);
    assert!(!updates[rows.len() + 1].enabled);
    assert!(!bar.sync(&rows, &ticks, MenuFlags { presenting: true, ..off }).is_empty());
}

#[test]
fn clicks_are_read_in_order_and_unknown_ones_passed_over() {
    let ids: Vec<String> =
        ["cmd:Save", "junk", "extra:NewTab", "cmd:Copy"].map(String::from).to_vec();
    assert_eq!(
        drain(&ids),
        [
            Chosen::Command(Command::Save),
            Chosen::Extra(Extra::NewTab),
            Chosen::Command(Command::Copy),
        ]
    );
    assert!(drain(&vec![]).is_empty());
}

#[test]
fn the_tab_rows_have_names_and_keys() {
    assert_eq!(extra_label(Extra::NewTab), "New tab");
    assert_eq!(extra_label(Extra::NextTab), "Select next tab");
    assert_eq!(extra_label(Extra::PreviousTab), "Select previous tab");
    let new = extra_accelerator(Extra::NewTab);
    assert_eq!((new.command, new.alt, new.code), (true, false, Code::KeyT));
    let next = extra_accelerator(Extra::NextTab);
    assert_eq!((next.command, next.alt, next.code), (true, true, Code::ArrowRight));
    assert_eq!(extra_accelerator(Extra::PreviousTab).code, Code::ArrowLeft);
    assert_eq!(platform_label(Platform::Maximize), Some("Zoom"));
    assert_eq!(platform_label(Platform::Services), None);
}
