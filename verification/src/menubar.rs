//! The native menu bar: which rows it has, what their ids mean, and which may claim a key.
//!
//! A row's key equivalent is claimed by the platform before the key reaches the window at
//! all. So two families of rows never get one: the verbs that whatever has the keyboard owns
//! (cut, copy, paste, select all, undo, redo), and anything bound to a key without command or
//! control, which belongs to whatever is being typed into. Those rows are still rows, and
//! clicking one does what the keyboard does.

use vstd::prelude::*;

use crate::text::{joined, same};

verus! {

/// A verb of the application that the menus offer.
#[derive(Clone, Copy, Debug, PartialEq, Eq, Structural)]
pub enum Command {
    OpenSettings,
    ExportPng,
    ExportPdf,
    ExportSvg,
    ExportCsv,
    ExportBackup,
    NewBoard,
    OpenBoard,
    ImportFromMiro,
    Save,
    SaveAs,
    CloseBoard,
    BringToFront,
    BringForward,
    SendBackward,
    SendToBack,
    Group,
    Ungroup,
    Lock,
    Unlock,
    AlignLeft,
    AlignCenterHorizontal,
    AlignRight,
    AlignTop,
    AlignMiddleVertical,
    AlignBottom,
    DistributeHorizontally,
    DistributeVertically,
    Undo,
    Redo,
    Cut,
    Copy,
    Paste,
    Duplicate,
    Delete,
    SelectAll,
    Find,
    CommandPalette,
    ZoomIn,
    ZoomOut,
    ZoomToFit,
    ZoomToSelection,
    ZoomActualSize,
    SnapToGrid,
    ToggleMinimap,
    TogglePropertiesPanel,
    GoToStartView,
    SetStartView,
    PresentationMode,
    KeyboardShortcuts,
    Documentation,
    About,
    StarBoard,
    ToggleTranslucency,
    ToggleLinkPreviews,
    ToggleAlignObjects,
}

/// Every command.
pub const ALL: [Command; 56] = [
    Command::OpenSettings,
    Command::ExportPng,
    Command::ExportPdf,
    Command::ExportSvg,
    Command::ExportCsv,
    Command::ExportBackup,
    Command::NewBoard,
    Command::OpenBoard,
    Command::ImportFromMiro,
    Command::Save,
    Command::SaveAs,
    Command::CloseBoard,
    Command::BringToFront,
    Command::BringForward,
    Command::SendBackward,
    Command::SendToBack,
    Command::Group,
    Command::Ungroup,
    Command::Lock,
    Command::Unlock,
    Command::AlignLeft,
    Command::AlignCenterHorizontal,
    Command::AlignRight,
    Command::AlignTop,
    Command::AlignMiddleVertical,
    Command::AlignBottom,
    Command::DistributeHorizontally,
    Command::DistributeVertically,
    Command::Undo,
    Command::Redo,
    Command::Cut,
    Command::Copy,
    Command::Paste,
    Command::Duplicate,
    Command::Delete,
    Command::SelectAll,
    Command::Find,
    Command::CommandPalette,
    Command::ZoomIn,
    Command::ZoomOut,
    Command::ZoomToFit,
    Command::ZoomToSelection,
    Command::ZoomActualSize,
    Command::SnapToGrid,
    Command::ToggleMinimap,
    Command::TogglePropertiesPanel,
    Command::GoToStartView,
    Command::SetStartView,
    Command::PresentationMode,
    Command::KeyboardShortcuts,
    Command::Documentation,
    Command::About,
    Command::StarBoard,
    Command::ToggleTranslucency,
    Command::ToggleLinkPreviews,
    Command::ToggleAlignObjects,
];

/// A row that is not a [`Command`]: the tab moves.
#[derive(Clone, Copy, Debug, PartialEq, Eq, Structural)]
pub enum Extra {
    NextTab,
    PreviousTab,
    NewTab,
}

/// Every row that is not a command.
pub const EXTRAS: [Extra; 3] = [Extra::NextTab, Extra::PreviousTab, Extra::NewTab];

/// The commands whose keys belong to whatever has the keyboard.
pub const KEYBOARD_OWNS: [Command; 6] = [
    Command::Cut,
    Command::Copy,
    Command::Paste,
    Command::SelectAll,
    Command::Undo,
    Command::Redo,
];

/// What a menu click asked for.
#[derive(Clone, Copy, Debug, PartialEq, Eq, Structural)]
pub enum Chosen {
    Command(Command),
    Extra(Extra),
}

/// A row the platform fills in itself.
#[derive(Clone, Copy, Debug, PartialEq, Eq, Structural)]
pub enum Platform {
    About,
    Services,
    Hide,
    HideOthers,
    ShowAll,
    Quit,
    Fullscreen,
    Minimize,
    Maximize,
    BringAllToFront,
}

/// A menu of the bar, or one inside another.
#[derive(Clone, Copy, Debug, PartialEq, Eq, Structural)]
pub enum Menu {
    App,
    File,
    Export,
    Edit,
    Arrange,
    View,
    Window,
    Help,
}

/// One entry of a menu.
#[derive(Clone, Copy, Debug, PartialEq, Eq, Structural)]
pub enum Entry {
    /// An ordinary row.
    Row(Command),
    /// A row that shows a tick.
    Tick(Command),
    Extra(Extra),
    Separator,
    Platform(Platform),
    /// A menu inside this one.
    Menu(Menu),
}

/// The menus of the bar, from left to right.
pub const BAR: [Menu; 6] = [
    Menu::App,
    Menu::File,
    Menu::Edit,
    Menu::View,
    Menu::Window,
    Menu::Help,
];

/// The entries of a menu, from top to bottom.
pub open spec fn entries_of(menu: Menu) -> Seq<Entry> {
    match menu {
        Menu::App => seq![
            Entry::Platform(Platform::About),
            Entry::Separator,
            Entry::Row(Command::OpenSettings),
            Entry::Separator,
            Entry::Platform(Platform::Services),
            Entry::Separator,
            Entry::Platform(Platform::Hide),
            Entry::Platform(Platform::HideOthers),
            Entry::Platform(Platform::ShowAll),
            Entry::Separator,
            Entry::Platform(Platform::Quit),
        ],
        Menu::File => seq![
            Entry::Row(Command::NewBoard),
            Entry::Extra(Extra::NewTab),
            Entry::Row(Command::OpenBoard),
            Entry::Row(Command::ImportFromMiro),
            Entry::Separator,
            Entry::Row(Command::Save),
            Entry::Row(Command::SaveAs),
            Entry::Menu(Menu::Export),
            Entry::Separator,
            Entry::Row(Command::CloseBoard),
            Entry::Extra(Extra::NextTab),
            Entry::Extra(Extra::PreviousTab),
        ],
        Menu::Export => seq![
            Entry::Row(Command::ExportPng),
            Entry::Row(Command::ExportPdf),
            Entry::Row(Command::ExportSvg),
            Entry::Row(Command::ExportCsv),
            Entry::Separator,
            Entry::Row(Command::ExportBackup),
        ],
        Menu::Edit => seq![
            Entry::Row(Command::Undo),
            Entry::Row(Command::Redo),
            Entry::Separator,
            Entry::Row(Command::Cut),
            Entry::Row(Command::Copy),
            Entry::Row(Command::Paste),
            Entry::Row(Command::Duplicate),
            Entry::Row(Command::Delete),
            Entry::Separator,
            Entry::Row(Command::SelectAll),
            Entry::Separator,
            Entry::Menu(Menu::Arrange),
            Entry::Separator,
            Entry::Row(Command::Find),
            Entry::Row(Command::CommandPalette),
        ],
        Menu::Arrange => seq![
            Entry::Row(Command::BringToFront),
            Entry::Row(Command::BringForward),
            Entry::Row(Command::SendBackward),
            Entry::Row(Command::SendToBack),
            Entry::Separator,
            Entry::Row(Command::Group),
            Entry::Row(Command::Ungroup),
            Entry::Separator,
            Entry::Row(Command::Lock),
            Entry::Row(Command::Unlock),
            Entry::Separator,
            Entry::Row(Command::AlignLeft),
            Entry::Row(Command::AlignCenterHorizontal),
            Entry::Row(Command::AlignRight),
            Entry::Row(Command::AlignTop),
            Entry::Row(Command::AlignMiddleVertical),
            Entry::Row(Command::AlignBottom),
            Entry::Separator,
            Entry::Row(Command::DistributeHorizontally),
            Entry::Row(Command::DistributeVertically),
        ],
        Menu::View => seq![
            Entry::Row(Command::ZoomIn),
            Entry::Row(Command::ZoomOut),
            Entry::Row(Command::ZoomToFit),
            Entry::Row(Command::ZoomToSelection),
            Entry::Row(Command::ZoomActualSize),
            Entry::Separator,
            Entry::Tick(Command::SnapToGrid),
            Entry::Tick(Command::ToggleMinimap),
            Entry::Tick(Command::TogglePropertiesPanel),
            Entry::Separator,
            Entry::Row(Command::GoToStartView),
            Entry::Row(Command::SetStartView),
            Entry::Separator,
            Entry::Tick(Command::PresentationMode),
            Entry::Separator,
            Entry::Platform(Platform::Fullscreen),
        ],
        Menu::Window => seq![
            Entry::Platform(Platform::Minimize),
            Entry::Platform(Platform::Maximize),
            Entry::Separator,
            Entry::Platform(Platform::BringAllToFront),
        ],
        Menu::Help => seq![
            Entry::Row(Command::KeyboardShortcuts),
            Entry::Row(Command::Documentation),
            Entry::Separator,
            Entry::Row(Command::About),
        ],
    }
}

/// The entries of a menu, from top to bottom.
pub fn entries(menu: Menu) -> (list: Vec<Entry>)
    ensures
        list@ == entries_of(menu),
{
    let list: Vec<Entry> = match menu {
        Menu::App => vec![
            Entry::Platform(Platform::About),
            Entry::Separator,
            Entry::Row(Command::OpenSettings),
            Entry::Separator,
            Entry::Platform(Platform::Services),
            Entry::Separator,
            Entry::Platform(Platform::Hide),
            Entry::Platform(Platform::HideOthers),
            Entry::Platform(Platform::ShowAll),
            Entry::Separator,
            Entry::Platform(Platform::Quit),
        ],
        Menu::File => vec![
            Entry::Row(Command::NewBoard),
            Entry::Extra(Extra::NewTab),
            Entry::Row(Command::OpenBoard),
            Entry::Row(Command::ImportFromMiro),
            Entry::Separator,
            Entry::Row(Command::Save),
            Entry::Row(Command::SaveAs),
            Entry::Menu(Menu::Export),
            Entry::Separator,
            Entry::Row(Command::CloseBoard),
            Entry::Extra(Extra::NextTab),
            Entry::Extra(Extra::PreviousTab),
        ],
        Menu::Export => vec![
            Entry::Row(Command::ExportPng),
            Entry::Row(Command::ExportPdf),
            Entry::Row(Command::ExportSvg),
            Entry::Row(Command::ExportCsv),
            Entry::Separator,
            Entry::Row(Command::ExportBackup),
        ],
        Menu::Edit => vec![
            Entry::Row(Command::Undo),
            Entry::Row(Command::Redo),
            Entry::Separator,
            Entry::Row(Command::Cut),
            Entry::Row(Command::Copy),
            Entry::Row(Command::Paste),
            Entry::Row(Command::Duplicate),
            Entry::Row(Command::Delete),
            Entry::Separator,
            Entry::Row(Command::SelectAll),
            Entry::Separator,
            Entry::Menu(Menu::Arrange),
            Entry::Separator,
            Entry::Row(Command::Find),
            Entry::Row(Command::CommandPalette),
        ],
        Menu::Arrange => vec![
            Entry::Row(Command::BringToFront),
            Entry::Row(Command::BringForward),
            Entry::Row(Command::SendBackward),
            Entry::Row(Command::SendToBack),
            Entry::Separator,
            Entry::Row(Command::Group),
            Entry::Row(Command::Ungroup),
            Entry::Separator,
            Entry::Row(Command::Lock),
            Entry::Row(Command::Unlock),
            Entry::Separator,
            Entry::Row(Command::AlignLeft),
            Entry::Row(Command::AlignCenterHorizontal),
            Entry::Row(Command::AlignRight),
            Entry::Row(Command::AlignTop),
            Entry::Row(Command::AlignMiddleVertical),
            Entry::Row(Command::AlignBottom),
            Entry::Separator,
            Entry::Row(Command::DistributeHorizontally),
            Entry::Row(Command::DistributeVertically),
        ],
        Menu::View => vec![
            Entry::Row(Command::ZoomIn),
            Entry::Row(Command::ZoomOut),
            Entry::Row(Command::ZoomToFit),
            Entry::Row(Command::ZoomToSelection),
            Entry::Row(Command::ZoomActualSize),
            Entry::Separator,
            Entry::Tick(Command::SnapToGrid),
            Entry::Tick(Command::ToggleMinimap),
            Entry::Tick(Command::TogglePropertiesPanel),
            Entry::Separator,
            Entry::Row(Command::GoToStartView),
            Entry::Row(Command::SetStartView),
            Entry::Separator,
            Entry::Tick(Command::PresentationMode),
            Entry::Separator,
            Entry::Platform(Platform::Fullscreen),
        ],
        Menu::Window => vec![
            Entry::Platform(Platform::Minimize),
            Entry::Platform(Platform::Maximize),
            Entry::Separator,
            Entry::Platform(Platform::BringAllToFront),
        ],
        Menu::Help => vec![
            Entry::Row(Command::KeyboardShortcuts),
            Entry::Row(Command::Documentation),
            Entry::Separator,
            Entry::Row(Command::About),
        ],
    };
    proof {
        assert(list@ =~= entries_of(menu));
    }
    list
}

/// The title of a menu.
pub open spec fn title_of(menu: Menu) -> Seq<char> {
    match menu {
        Menu::App => "Velm"@,
        Menu::File => "File"@,
        Menu::Export => "Export"@,
        Menu::Edit => "Edit"@,
        Menu::Arrange => "Arrange"@,
        Menu::View => "View"@,
        Menu::Window => "Window"@,
        Menu::Help => "Help"@,
    }
}

/// The label of a tab row.
pub open spec fn label_of(which: Extra) -> Seq<char> {
    match which {
        Extra::NewTab => "New tab"@,
        Extra::NextTab => "Select next tab"@,
        Extra::PreviousTab => "Select previous tab"@,
    }
}

/// The key of a tab row.
pub open spec fn key_of(which: Extra) -> Accelerator {
    Accelerator {
        command: true,
        shift: false,
        alt: !(which is NewTab),
        control: false,
        code: match which {
            Extra::NewTab => Code::KeyT,
            Extra::NextTab => Code::ArrowRight,
            Extra::PreviousTab => Code::ArrowLeft,
        },
    }
}

/// What a menu is called.
pub fn title(menu: Menu) -> (title: &'static str)
    ensures
        title@ == title_of(menu),
        title@ == (match menu {
            Menu::App => "Velm"@,
            Menu::File => "File"@,
            Menu::Export => "Export"@,
            Menu::Edit => "Edit"@,
            Menu::Arrange => "Arrange"@,
            Menu::View => "View"@,
            Menu::Window => "Window"@,
            Menu::Help => "Help"@,
        }),
{
    match menu {
        Menu::App => "Velm",
        Menu::File => "File",
        Menu::Export => "Export",
        Menu::Edit => "Edit",
        Menu::Arrange => "Arrange",
        Menu::View => "View",
        Menu::Window => "Window",
        Menu::Help => "Help",
    }
}

/// What a tab row is called.
pub fn extra_label(which: Extra) -> (label: &'static str)
    ensures
        label@ == label_of(which),
        label@ == (match which {
            Extra::NewTab => "New tab"@,
            Extra::NextTab => "Select next tab"@,
            Extra::PreviousTab => "Select previous tab"@,
        }),
{
    match which {
        Extra::NewTab => "New tab",
        Extra::NextTab => "Select next tab",
        Extra::PreviousTab => "Select previous tab",
    }
}

/// What a row of the platform is called, where the platform's own name is not used.
pub fn platform_label(row: Platform) -> (label: Option<&'static str>)
    ensures
        label is Some <==> (row == Platform::About || row == Platform::Hide || row
            == Platform::Quit || row == Platform::Maximize),
        row == Platform::About ==> label->0@ == "About Velm"@,
        row == Platform::Hide ==> label->0@ == "Hide Velm"@,
        row == Platform::Quit ==> label->0@ == "Quit Velm"@,
        row == Platform::Maximize ==> label->0@ == "Zoom"@,
{
    match row {
        Platform::About => Some("About Velm"),
        Platform::Hide => Some("Hide Velm"),
        Platform::Quit => Some("Quit Velm"),
        Platform::Maximize => Some("Zoom"),
        _ => None,
    }
}

// ----- ids -----------------------------------------------------------------------------

/// The name of a command.
pub open spec fn name_of(command: Command) -> Seq<char> {
    match command {
        Command::OpenSettings => "OpenSettings"@,
        Command::ExportPng => "ExportPng"@,
        Command::ExportPdf => "ExportPdf"@,
        Command::ExportSvg => "ExportSvg"@,
        Command::ExportCsv => "ExportCsv"@,
        Command::ExportBackup => "ExportBackup"@,
        Command::NewBoard => "NewBoard"@,
        Command::OpenBoard => "OpenBoard"@,
        Command::ImportFromMiro => "ImportFromMiro"@,
        Command::Save => "Save"@,
        Command::SaveAs => "SaveAs"@,
        Command::CloseBoard => "CloseBoard"@,
        Command::BringToFront => "BringToFront"@,
        Command::BringForward => "BringForward"@,
        Command::SendBackward => "SendBackward"@,
        Command::SendToBack => "SendToBack"@,
        Command::Group => "Group"@,
        Command::Ungroup => "Ungroup"@,
        Command::Lock => "Lock"@,
        Command::Unlock => "Unlock"@,
        Command::AlignLeft => "AlignLeft"@,
        Command::AlignCenterHorizontal => "AlignCenterHorizontal"@,
        Command::AlignRight => "AlignRight"@,
        Command::AlignTop => "AlignTop"@,
        Command::AlignMiddleVertical => "AlignMiddleVertical"@,
        Command::AlignBottom => "AlignBottom"@,
        Command::DistributeHorizontally => "DistributeHorizontally"@,
        Command::DistributeVertically => "DistributeVertically"@,
        Command::Undo => "Undo"@,
        Command::Redo => "Redo"@,
        Command::Cut => "Cut"@,
        Command::Copy => "Copy"@,
        Command::Paste => "Paste"@,
        Command::Duplicate => "Duplicate"@,
        Command::Delete => "Delete"@,
        Command::SelectAll => "SelectAll"@,
        Command::Find => "Find"@,
        Command::CommandPalette => "CommandPalette"@,
        Command::ZoomIn => "ZoomIn"@,
        Command::ZoomOut => "ZoomOut"@,
        Command::ZoomToFit => "ZoomToFit"@,
        Command::ZoomToSelection => "ZoomToSelection"@,
        Command::ZoomActualSize => "ZoomActualSize"@,
        Command::SnapToGrid => "SnapToGrid"@,
        Command::ToggleMinimap => "ToggleMinimap"@,
        Command::TogglePropertiesPanel => "TogglePropertiesPanel"@,
        Command::GoToStartView => "GoToStartView"@,
        Command::SetStartView => "SetStartView"@,
        Command::PresentationMode => "PresentationMode"@,
        Command::KeyboardShortcuts => "KeyboardShortcuts"@,
        Command::Documentation => "Documentation"@,
        Command::About => "About"@,
        Command::StarBoard => "StarBoard"@,
        Command::ToggleTranslucency => "ToggleTranslucency"@,
        Command::ToggleLinkPreviews => "ToggleLinkPreviews"@,
        Command::ToggleAlignObjects => "ToggleAlignObjects"@,
    }
}

/// The name of a command.
pub fn name(command: Command) -> (name: &'static str)
    ensures
        name@ == name_of(command),
{
    match command {
        Command::OpenSettings => "OpenSettings",
        Command::ExportPng => "ExportPng",
        Command::ExportPdf => "ExportPdf",
        Command::ExportSvg => "ExportSvg",
        Command::ExportCsv => "ExportCsv",
        Command::ExportBackup => "ExportBackup",
        Command::NewBoard => "NewBoard",
        Command::OpenBoard => "OpenBoard",
        Command::ImportFromMiro => "ImportFromMiro",
        Command::Save => "Save",
        Command::SaveAs => "SaveAs",
        Command::CloseBoard => "CloseBoard",
        Command::BringToFront => "BringToFront",
        Command::BringForward => "BringForward",
        Command::SendBackward => "SendBackward",
        Command::SendToBack => "SendToBack",
        Command::Group => "Group",
        Command::Ungroup => "Ungroup",
        Command::Lock => "Lock",
        Command::Unlock => "Unlock",
        Command::AlignLeft => "AlignLeft",
        Command::AlignCenterHorizontal => "AlignCenterHorizontal",
        Command::AlignRight => "AlignRight",
        Command::AlignTop => "AlignTop",
        Command::AlignMiddleVertical => "AlignMiddleVertical",
        Command::AlignBottom => "AlignBottom",
        Command::DistributeHorizontally => "DistributeHorizontally",
        Command::DistributeVertically => "DistributeVertically",
        Command::Undo => "Undo",
        Command::Redo => "Redo",
        Command::Cut => "Cut",
        Command::Copy => "Copy",
        Command::Paste => "Paste",
        Command::Duplicate => "Duplicate",
        Command::Delete => "Delete",
        Command::SelectAll => "SelectAll",
        Command::Find => "Find",
        Command::CommandPalette => "CommandPalette",
        Command::ZoomIn => "ZoomIn",
        Command::ZoomOut => "ZoomOut",
        Command::ZoomToFit => "ZoomToFit",
        Command::ZoomToSelection => "ZoomToSelection",
        Command::ZoomActualSize => "ZoomActualSize",
        Command::SnapToGrid => "SnapToGrid",
        Command::ToggleMinimap => "ToggleMinimap",
        Command::TogglePropertiesPanel => "TogglePropertiesPanel",
        Command::GoToStartView => "GoToStartView",
        Command::SetStartView => "SetStartView",
        Command::PresentationMode => "PresentationMode",
        Command::KeyboardShortcuts => "KeyboardShortcuts",
        Command::Documentation => "Documentation",
        Command::About => "About",
        Command::StarBoard => "StarBoard",
        Command::ToggleTranslucency => "ToggleTranslucency",
        Command::ToggleLinkPreviews => "ToggleLinkPreviews",
        Command::ToggleAlignObjects => "ToggleAlignObjects",
    }
}

/// The name of a tab row.
pub open spec fn extra_name_of(which: Extra) -> Seq<char> {
    match which {
        Extra::NextTab => "NextTab"@,
        Extra::PreviousTab => "PreviousTab"@,
        Extra::NewTab => "NewTab"@,
    }
}

fn extra_name(which: Extra) -> (name: &'static str)
    ensures
        name@ == extra_name_of(which),
{
    match which {
        Extra::NextTab => "NextTab",
        Extra::PreviousTab => "PreviousTab",
        Extra::NewTab => "NewTab",
    }
}

/// The id a command's row carries. Its name and not its place in a list: a place is silently
/// wrong the moment a command is inserted.
pub fn id_of(command: Command) -> (id: String)
    ensures
        id@ == "cmd:"@ + name_of(command),
{
    joined("cmd:", name(command))
}

/// The id a tab row carries.
pub fn extra_id(which: Extra) -> (id: String)
    ensures
        id@ == "extra:"@ + extra_name_of(which),
{
    joined("extra:", extra_name(which))
}

/// Whether an id is one of a row.
pub open spec fn is_id_of(id: Seq<char>, chosen: Chosen) -> bool {
    match chosen {
        Chosen::Command(command) => id == "cmd:"@ + name_of(command),
        Chosen::Extra(which) => id == "extra:"@ + extra_name_of(which),
    }
}

/// The row an id is of, if it is of one. An unknown id is not guessed at.
pub fn resolve(id: &str) -> (chosen: Option<Chosen>)
    ensures
        chosen is Some ==> is_id_of(id@, chosen->0),
        chosen is None ==> forall|c: Chosen| !(#[trigger] is_id_of(id@, c)),
{
    let mut at: usize = 0;
    while at < 56
        invariant
            at <= 56,
            forall|k: int|
                0 <= k < at ==> !is_id_of(id@, Chosen::Command(#[trigger] ALL[k])),
        decreases 56 - at,
    {
        let own = id_of(ALL[at]);
        if same(own.as_str(), id) {
            return Some(Chosen::Command(ALL[at]));
        }
        at = at + 1;
    }
    let mut other: usize = 0;
    while other < 3
        invariant
            other <= 3,
            forall|k: int|
                0 <= k < other ==> !is_id_of(id@, Chosen::Extra(#[trigger] EXTRAS[k])),
        decreases 3 - other,
    {
        let own = extra_id(EXTRAS[other]);
        if same(own.as_str(), id) {
            return Some(Chosen::Extra(EXTRAS[other]));
        }
        other = other + 1;
    }
    proof {
        assert forall|c: Chosen| !(#[trigger] is_id_of(id@, c)) by {
            match c {
                Chosen::Command(command) => {
                    every_command_is_listed(command);
                },
                Chosen::Extra(which) => {
                    every_extra_is_listed(which);
                },
            }
        }
    }
    None
}

proof fn every_command_is_listed(command: Command)
    ensures
        exists|k: int| 0 <= k < 56 && #[trigger] ALL[k] == command,
{
    let k: int = match command {
        Command::OpenSettings => 0,
        Command::ExportPng => 1,
        Command::ExportPdf => 2,
        Command::ExportSvg => 3,
        Command::ExportCsv => 4,
        Command::ExportBackup => 5,
        Command::NewBoard => 6,
        Command::OpenBoard => 7,
        Command::ImportFromMiro => 8,
        Command::Save => 9,
        Command::SaveAs => 10,
        Command::CloseBoard => 11,
        Command::BringToFront => 12,
        Command::BringForward => 13,
        Command::SendBackward => 14,
        Command::SendToBack => 15,
        Command::Group => 16,
        Command::Ungroup => 17,
        Command::Lock => 18,
        Command::Unlock => 19,
        Command::AlignLeft => 20,
        Command::AlignCenterHorizontal => 21,
        Command::AlignRight => 22,
        Command::AlignTop => 23,
        Command::AlignMiddleVertical => 24,
        Command::AlignBottom => 25,
        Command::DistributeHorizontally => 26,
        Command::DistributeVertically => 27,
        Command::Undo => 28,
        Command::Redo => 29,
        Command::Cut => 30,
        Command::Copy => 31,
        Command::Paste => 32,
        Command::Duplicate => 33,
        Command::Delete => 34,
        Command::SelectAll => 35,
        Command::Find => 36,
        Command::CommandPalette => 37,
        Command::ZoomIn => 38,
        Command::ZoomOut => 39,
        Command::ZoomToFit => 40,
        Command::ZoomToSelection => 41,
        Command::ZoomActualSize => 42,
        Command::SnapToGrid => 43,
        Command::ToggleMinimap => 44,
        Command::TogglePropertiesPanel => 45,
        Command::GoToStartView => 46,
        Command::SetStartView => 47,
        Command::PresentationMode => 48,
        Command::KeyboardShortcuts => 49,
        Command::Documentation => 50,
        Command::About => 51,
        Command::StarBoard => 52,
        Command::ToggleTranslucency => 53,
        Command::ToggleLinkPreviews => 54,
        Command::ToggleAlignObjects => 55,
    };
    assert(ALL[k] == command);
}

proof fn every_extra_is_listed(which: Extra)
    ensures
        exists|k: int| 0 <= k < 3 && #[trigger] EXTRAS[k] == which,
{
    let k: int = match which {
        Extra::NextTab => 0,
        Extra::PreviousTab => 1,
        Extra::NewTab => 2,
    };
    assert(EXTRAS[k] == which);
}

/// What the clicked ids asked for, in order. An id that is of no row is passed over.
pub fn drain(ids: &Vec<String>) -> (chosen: Vec<Chosen>)
    ensures
        is_reading(ids@, chosen@),
{
    let mut out: Vec<Chosen> = Vec::new();
    let mut at: usize = 0;
    proof {
        assert(ids@.take(0) =~= Seq::<String>::empty());
    }
    while at < ids.len()
        invariant
            at <= ids@.len(),
            is_reading(ids@.take(at as int), out@),
        decreases ids@.len() - at,
    {
        let ghost before = out@;
        let found = resolve(ids[at].as_str());
        if let Some(chosen) = found {
            out.push(chosen);
        }
        at = at + 1;
        proof {
            let seen = ids@.take(at as int);
            assert(seen.drop_last() =~= ids@.take(at - 1));
            assert(seen.last() == ids@[at - 1]);
            if found is Some {
                assert(out@.drop_last() =~= before);
                assert(out@.last() == found->0);
            }
        }
    }
    proof {
        assert(ids@.take(ids@.len() as int) =~= ids@);
    }
    out
}

/// Whether `chosen` is what `ids` ask for: one for each id that is of a row, in order.
pub open spec fn is_reading(ids: Seq<String>, chosen: Seq<Chosen>) -> bool
    decreases ids.len(),
{
    if ids.len() == 0 {
        chosen.len() == 0
    } else if forall|c: Chosen| !(#[trigger] is_id_of(ids.last()@, c)) {
        is_reading(ids.drop_last(), chosen)
    } else {
        chosen.len() > 0 && is_id_of(ids.last()@, chosen.last()) && is_reading(
            ids.drop_last(),
            chosen.drop_last(),
        )
    }
}

// ----- keys ----------------------------------------------------------------------------

/// A key, as the command table names it.
#[derive(Clone, Copy, Debug, PartialEq, Eq, Structural)]
pub enum Key {
    A,
    C,
    D,
    F,
    G,
    K,
    L,
    M,
    N,
    O,
    P,
    S,
    T,
    U,
    V,
    W,
    X,
    Y,
    Z,
    Num0,
    Num1,
    Num2,
    Plus,
    Equals,
    Minus,
    OpenBracket,
    CloseBracket,
    Delete,
    Backspace,
    ArrowLeft,
    ArrowRight,
    Comma,
    /// A key that no command is bound to.
    Other,
}

/// A key, as the platform names it.
#[derive(Clone, Copy, Debug, PartialEq, Eq, Structural)]
pub enum Code {
    KeyA,
    KeyC,
    KeyD,
    KeyF,
    KeyG,
    KeyK,
    KeyL,
    KeyM,
    KeyN,
    KeyO,
    KeyP,
    KeyS,
    KeyT,
    KeyU,
    KeyV,
    KeyW,
    KeyX,
    KeyY,
    KeyZ,
    Digit0,
    Digit1,
    Digit2,
    Equal,
    Minus,
    BracketLeft,
    BracketRight,
    Delete,
    Backspace,
    ArrowLeft,
    ArrowRight,
    Comma,
}

/// The platform's name for a key, if it is one the command table uses.
pub open spec fn code_of(key: Key) -> Option<Code> {
    match key {
        Key::A => Some(Code::KeyA),
        Key::C => Some(Code::KeyC),
        Key::D => Some(Code::KeyD),
        Key::F => Some(Code::KeyF),
        Key::G => Some(Code::KeyG),
        Key::K => Some(Code::KeyK),
        Key::L => Some(Code::KeyL),
        Key::M => Some(Code::KeyM),
        Key::N => Some(Code::KeyN),
        Key::O => Some(Code::KeyO),
        Key::P => Some(Code::KeyP),
        Key::S => Some(Code::KeyS),
        Key::T => Some(Code::KeyT),
        Key::U => Some(Code::KeyU),
        Key::V => Some(Code::KeyV),
        Key::W => Some(Code::KeyW),
        Key::X => Some(Code::KeyX),
        Key::Y => Some(Code::KeyY),
        Key::Z => Some(Code::KeyZ),
        Key::Num0 => Some(Code::Digit0),
        Key::Num1 => Some(Code::Digit1),
        Key::Num2 => Some(Code::Digit2),
        Key::Plus => Some(Code::Equal),
        Key::Equals => Some(Code::Equal),
        Key::Minus => Some(Code::Minus),
        Key::OpenBracket => Some(Code::BracketLeft),
        Key::CloseBracket => Some(Code::BracketRight),
        Key::Delete => Some(Code::Delete),
        Key::Backspace => Some(Code::Backspace),
        Key::ArrowLeft => Some(Code::ArrowLeft),
        Key::ArrowRight => Some(Code::ArrowRight),
        Key::Comma => Some(Code::Comma),
        Key::Other => None,
    }
}

/// The platform's name for a key, if it is one the command table uses.
pub fn code_for(key: Key) -> (code: Option<Code>)
    ensures
        code == code_of(key),
{
    match key {
        Key::A => Some(Code::KeyA),
        Key::C => Some(Code::KeyC),
        Key::D => Some(Code::KeyD),
        Key::F => Some(Code::KeyF),
        Key::G => Some(Code::KeyG),
        Key::K => Some(Code::KeyK),
        Key::L => Some(Code::KeyL),
        Key::M => Some(Code::KeyM),
        Key::N => Some(Code::KeyN),
        Key::O => Some(Code::KeyO),
        Key::P => Some(Code::KeyP),
        Key::S => Some(Code::KeyS),
        Key::T => Some(Code::KeyT),
        Key::U => Some(Code::KeyU),
        Key::V => Some(Code::KeyV),
        Key::W => Some(Code::KeyW),
        Key::X => Some(Code::KeyX),
        Key::Y => Some(Code::KeyY),
        Key::Z => Some(Code::KeyZ),
        Key::Num0 => Some(Code::Digit0),
        Key::Num1 => Some(Code::Digit1),
        Key::Num2 => Some(Code::Digit2),
        Key::Plus => Some(Code::Equal),
        Key::Equals => Some(Code::Equal),
        Key::Minus => Some(Code::Minus),
        Key::OpenBracket => Some(Code::BracketLeft),
        Key::CloseBracket => Some(Code::BracketRight),
        Key::Delete => Some(Code::Delete),
        Key::Backspace => Some(Code::Backspace),
        Key::ArrowLeft => Some(Code::ArrowLeft),
        Key::ArrowRight => Some(Code::ArrowRight),
        Key::Comma => Some(Code::Comma),
        Key::Other => None,
    }
}

/// A shortcut, as the in-app menu shows it.
#[derive(Clone, Copy, Debug, PartialEq, Eq, Structural)]
pub struct Shortcut {
    pub command: bool,
    pub shift: bool,
    pub alt: bool,
    pub ctrl: bool,
    pub key: Key,
}

/// A key equivalent, as the platform takes it.
#[derive(Clone, Copy, Debug, PartialEq, Eq, Structural)]
pub struct Accelerator {
    pub command: bool,
    pub shift: bool,
    pub alt: bool,
    pub control: bool,
    pub code: Code,
}

/// Whether a command's key belongs to whatever has the keyboard.
pub open spec fn keyboard_owns(command: Command) -> bool {
    ||| command == Command::Cut
    ||| command == Command::Copy
    ||| command == Command::Paste
    ||| command == Command::SelectAll
    ||| command == Command::Undo
    ||| command == Command::Redo
}

/// A command's key equivalent, given its shortcut.
pub open spec fn accelerator_of(command: Command, shortcut: Option<Shortcut>) -> Option<
    Accelerator,
> {
    match shortcut {
        None => None,
        Some(s) => if keyboard_owns(command) || !(s.command || s.ctrl) {
            None
        } else {
            match code_of(s.key) {
                None => None,
                Some(code) => Some(
                    Accelerator {
                        command: s.command,
                        shift: s.shift,
                        alt: s.alt,
                        control: s.ctrl,
                        code,
                    },
                ),
            }
        },
    }
}

/// A command's key equivalent. None for a verb the keyboard owns, none for a bare key, and
/// none for a key the platform has no name for.
pub fn accelerator(command: Command, shortcut: Option<Shortcut>) -> (answer: Option<Accelerator>)
    ensures
        answer == accelerator_of(command, shortcut),
{
    let mut at: usize = 0;
    while at < 6
        invariant
            at <= 6,
            forall|k: int| 0 <= k < at ==> #[trigger] KEYBOARD_OWNS[k] != command,
        decreases 6 - at,
    {
        if KEYBOARD_OWNS[at] == command {
            return None;
        }
        at = at + 1;
    }
    proof {
        assert(KEYBOARD_OWNS[0] != command && KEYBOARD_OWNS[1] != command && KEYBOARD_OWNS[2]
            != command && KEYBOARD_OWNS[3] != command && KEYBOARD_OWNS[4] != command
            && KEYBOARD_OWNS[5] != command);
    }
    let shortcut = match shortcut {
        Some(shortcut) => shortcut,
        None => return None,
    };
    if !(shortcut.command || shortcut.ctrl) {
        return None;
    }
    match code_for(shortcut.key) {
        Some(code) => Some(
            Accelerator {
                command: shortcut.command,
                shift: shortcut.shift,
                alt: shortcut.alt,
                control: shortcut.ctrl,
                code,
            },
        ),
        None => None,
    }
}

/// The key equivalent of a tab row.
pub fn extra_accelerator(which: Extra) -> (answer: Accelerator)
    ensures
        answer == key_of(which),
        answer == (Accelerator {
            command: true,
            shift: false,
            alt: which != Extra::NewTab,
            control: false,
            code: match which {
                Extra::NewTab => Code::KeyT,
                Extra::NextTab => Code::ArrowRight,
                Extra::PreviousTab => Code::ArrowLeft,
            },
        }),
{
    let (alt, code) = match which {
        Extra::NewTab => (false, Code::KeyT),
        Extra::NextTab => (true, Code::ArrowRight),
        Extra::PreviousTab => (true, Code::ArrowLeft),
    };
    Accelerator { command: true, shift: false, alt, control: false, code }
}

// ----- what the rows show --------------------------------------------------------------

/// What is on.
#[derive(Clone, Copy, Debug, PartialEq, Eq, Structural)]
pub struct MenuFlags {
    pub snap_to_grid: bool,
    pub minimap_visible: bool,
    pub properties_panel: bool,
    pub presenting: bool,
    pub starred: bool,
    pub translucent: bool,
    pub link_previews: bool,
    pub align_objects: bool,
}

/// Whether a toggle is on. What is no toggle never is.
pub open spec fn on(command: Command, flags: MenuFlags) -> bool {
    match command {
        Command::SnapToGrid => flags.snap_to_grid,
        Command::ToggleMinimap => flags.minimap_visible,
        Command::TogglePropertiesPanel => flags.properties_panel,
        Command::PresentationMode => flags.presenting,
        Command::StarBoard => flags.starred,
        Command::ToggleTranslucency => flags.translucent,
        Command::ToggleLinkPreviews => flags.link_previews,
        Command::ToggleAlignObjects => flags.align_objects,
        _ => false,
    }
}

/// Whether a toggle is on.
pub fn is_on(command: Command, flags: MenuFlags) -> (answer: bool)
    ensures
        answer == on(command, flags),
{
    match command {
        Command::SnapToGrid => flags.snap_to_grid,
        Command::ToggleMinimap => flags.minimap_visible,
        Command::TogglePropertiesPanel => flags.properties_panel,
        Command::PresentationMode => flags.presenting,
        Command::StarBoard => flags.starred,
        Command::ToggleTranslucency => flags.translucent,
        Command::ToggleLinkPreviews => flags.link_previews,
        Command::ToggleAlignObjects => flags.align_objects,
        _ => false,
    }
}

/// What a row is to be set to.
#[derive(Clone, Copy, Debug, PartialEq, Eq, Structural)]
pub struct RowState {
    pub command: Command,
    pub enabled: bool,
    /// Whether it shows a tick; `None` for a row that never does.
    pub checked: Option<bool>,
}

/// The bar, and everything it has to be able to grey out later.
#[derive(Clone, Debug)]
pub struct MenuBar {
    /// Every row that can be greyed out, in the order it was made.
    pub rows: Vec<Command>,
    /// Every row that shows a tick, in the order it was made.
    pub ticks: Vec<Command>,
    /// Which ordinary rows could act when they were last set.
    pub last_rows: Vec<bool>,
    /// Which ticked rows could act when they were last set.
    pub last_ticks: Vec<bool>,
    /// What was on when they were last set; `None` before the first time.
    pub last_flags: Option<MenuFlags>,
}

/// The commands of the ordinary rows among entries.
pub open spec fn rows_among(entries: Seq<Entry>) -> Seq<Command>
    decreases entries.len(),
{
    if entries.len() == 0 {
        Seq::empty()
    } else {
        match entries.last() {
            Entry::Row(command) => rows_among(entries.drop_last()).push(command),
            _ => rows_among(entries.drop_last()),
        }
    }
}

/// The commands of the ticked rows among entries.
pub open spec fn ticks_among(entries: Seq<Entry>) -> Seq<Command>
    decreases entries.len(),
{
    if entries.len() == 0 {
        Seq::empty()
    } else {
        match entries.last() {
            Entry::Tick(command) => ticks_among(entries.drop_last()).push(command),
            _ => ticks_among(entries.drop_last()),
        }
    }
}

/// The menus in the order their rows are made. A menu inside another comes before it.
pub const MADE: [Menu; 8] = [
    Menu::App,
    Menu::Export,
    Menu::File,
    Menu::Arrange,
    Menu::Edit,
    Menu::View,
    Menu::Window,
    Menu::Help,
];

/// Every entry of the first `count` menus, in the order they are made.
pub open spec fn all_entries(count: nat) -> Seq<Entry>
    decreases count,
{
    if count == 0 {
        Seq::empty()
    } else {
        all_entries((count - 1) as nat) + entries_of(MADE[count - 1])
    }
}

fn note_rows(list: &Vec<Entry>, rows: &mut Vec<Command>, ticks: &mut Vec<Command>)
    ensures
        final(rows)@ == old(rows)@ + rows_among(list@),
        final(ticks)@ == old(ticks)@ + ticks_among(list@),
{
    let mut at: usize = 0;
    proof {
        assert(list@.take(0) =~= Seq::<Entry>::empty());
        assert(rows@ =~= old(rows)@ + rows_among(list@.take(0)));
        assert(ticks@ =~= old(ticks)@ + ticks_among(list@.take(0)));
    }
    while at < list.len()
        invariant
            at <= list@.len(),
            rows@ == old(rows)@ + rows_among(list@.take(at as int)),
            ticks@ == old(ticks)@ + ticks_among(list@.take(at as int)),
        decreases list@.len() - at,
    {
        match list[at] {
            Entry::Row(command) => rows.push(command),
            Entry::Tick(command) => ticks.push(command),
            _ => {},
        }
        at = at + 1;
        proof {
            let seen = list@.take(at as int);
            assert(seen.drop_last() =~= list@.take(at - 1));
            assert(rows@ =~= old(rows)@ + rows_among(seen));
            assert(ticks@ =~= old(ticks)@ + ticks_among(seen));
        }
    }
    proof {
        assert(list@.take(list@.len() as int) =~= list@);
    }
}

fn same_bools(a: &Vec<bool>, b: &Vec<bool>) -> (answer: bool)
    ensures
        answer == (a@ == b@),
{
    if a.len() != b.len() {
        return false;
    }
    let mut at: usize = 0;
    while at < a.len()
        invariant
            at <= a@.len(),
            a@.len() == b@.len(),
            forall|k: int| 0 <= k < at ==> a@[k] == b@[k],
        decreases a@.len() - at,
    {
        if a[at] != b[at] {
            return false;
        }
        at = at + 1;
    }
    proof {
        assert(a@ =~= b@);
    }
    true
}

fn copy_bools(list: &Vec<bool>) -> (copy: Vec<bool>)
    ensures
        copy@ == list@,
{
    let mut copy: Vec<bool> = Vec::new();
    let mut at: usize = 0;
    while at < list.len()
        invariant
            at <= list@.len(),
            copy@ == list@.take(at as int),
        decreases list@.len() - at,
    {
        copy.push(list[at]);
        at = at + 1;
        proof {
            assert(copy@ =~= list@.take(at as int));
        }
    }
    proof {
        assert(list@.take(list@.len() as int) =~= list@);
    }
    copy
}

proof fn rows_of_two(a: Seq<Entry>, b: Seq<Entry>)
    ensures
        rows_among(a + b) == rows_among(a) + rows_among(b),
        ticks_among(a + b) == ticks_among(a) + ticks_among(b),
    decreases b.len(),
{
    if b.len() == 0 {
        assert(a + b =~= a);
        assert(rows_among(a) + rows_among(b) =~= rows_among(a));
        assert(ticks_among(a) + ticks_among(b) =~= ticks_among(a));
    } else {
        assert((a + b).drop_last() =~= a + b.drop_last());
        rows_of_two(a, b.drop_last());
        assert(rows_among(a + b) =~= rows_among(a) + rows_among(b));
        assert(ticks_among(a + b) =~= ticks_among(a) + ticks_among(b));
    }
}

impl MenuBar {
    /// The bar as it is installed, with every row that its menus hold.
    pub fn build() -> (bar: MenuBar)
        ensures
            bar.rows@ == rows_among(all_entries(8)),
            bar.ticks@ == ticks_among(all_entries(8)),
            bar.last_flags is None,
    {
        let mut rows: Vec<Command> = Vec::new();
        let mut ticks: Vec<Command> = Vec::new();
        let mut at: usize = 0;
        while at < 8
            invariant
                at <= 8,
                rows@ == rows_among(all_entries(at as nat)),
                ticks@ == ticks_among(all_entries(at as nat)),
            decreases 8 - at,
        {
            let list = entries(MADE[at]);
            note_rows(&list, &mut rows, &mut ticks);
            proof {
                rows_of_two(all_entries(at as nat), entries_of(MADE[at as int]));
            }
            at = at + 1;
        }
        MenuBar {
            rows,
            ticks,
            last_rows: Vec::new(),
            last_ticks: Vec::new(),
            last_flags: None,
        }
    }

    /// Whether the rows were last set to exactly this.
    pub open spec fn shows(self, rows: Seq<bool>, ticks: Seq<bool>, flags: MenuFlags) -> bool {
        self.last_flags == Some(flags) && self.last_rows@ == rows && self.last_ticks@ == ticks
    }

    /// What the rows are to be set to, given whether each row's command can act and what is
    /// on: nothing at all where neither changed since the last time.
    pub fn sync(
        &mut self,
        enabled_rows: &Vec<bool>,
        enabled_ticks: &Vec<bool>,
        flags: MenuFlags,
    ) -> (updates: Vec<RowState>)
        requires
            enabled_rows@.len() == old(self).rows@.len(),
            enabled_ticks@.len() == old(self).ticks@.len(),
        ensures
            final(self).rows == old(self).rows,
            final(self).ticks == old(self).ticks,
            final(self).shows(enabled_rows@, enabled_ticks@, flags),
            old(self).shows(enabled_rows@, enabled_ticks@, flags) ==> updates@.len() == 0,
            !old(self).shows(enabled_rows@, enabled_ticks@, flags) ==> {
                let rows = old(self).rows@;
                let ticks = old(self).ticks@;
                &&& updates@.len() == rows.len() + ticks.len()
                &&& forall|k: int|
                    0 <= k < rows.len() ==> #[trigger] updates@[k] == (RowState {
                        command: rows[k],
                        enabled: enabled_rows@[k],
                        checked: None,
                    })
                &&& forall|k: int|
                    rows.len() <= k < rows.len() + ticks.len() ==> #[trigger] updates@[k] == (
                    RowState {
                        command: ticks[k - rows.len()],
                        enabled: enabled_ticks@[k - rows.len()],
                        checked: Some(on(ticks[k - rows.len()], flags)),
                    })
            },
    {
        let mut updates: Vec<RowState> = Vec::new();
        if let Some(were) = self.last_flags {
            if were == flags && same_bools(&self.last_rows, enabled_rows) && same_bools(
                &self.last_ticks,
                enabled_ticks,
            ) {
                return updates;
            }
        }
        self.last_flags = Some(flags);
        self.last_rows = copy_bools(enabled_rows);
        self.last_ticks = copy_bools(enabled_ticks);
        let mut at: usize = 0;
        while at < self.rows.len()
            invariant
                at <= self.rows@.len(),
                self.rows == old(self).rows,
                self.ticks == old(self).ticks,
                self.shows(enabled_rows@, enabled_ticks@, flags),
                enabled_rows@.len() == self.rows@.len(),
                updates@.len() == at,
                forall|k: int|
                    0 <= k < at ==> #[trigger] updates@[k] == (RowState {
                        command: self.rows@[k],
                        enabled: enabled_rows@[k],
                        checked: None,
                    }),
            decreases self.rows@.len() - at,
        {
            updates.push(
                RowState { command: self.rows[at], enabled: enabled_rows[at], checked: None },
            );
            at = at + 1;
        }
        let ghost count = self.rows@.len();
        let mut tick: usize = 0;
        while tick < self.ticks.len()
            invariant
                tick <= self.ticks@.len(),
                self.rows == old(self).rows,
                self.ticks == old(self).ticks,
                self.shows(enabled_rows@, enabled_ticks@, flags),
                count == self.rows@.len(),
                enabled_ticks@.len() == self.ticks@.len(),
                updates@.len() == count + tick,
                forall|k: int|
                    0 <= k < count ==> #[trigger] updates@[k] == (RowState {
                        command: self.rows@[k],
                        enabled: enabled_rows@[k],
                        checked: None,
                    }),
                forall|k: int|
                    count <= k < count + tick ==> #[trigger] updates@[k] == (RowState {
                        command: self.ticks@[k - count],
                        enabled: enabled_ticks@[k - count],
                        checked: Some(on(self.ticks@[k - count], flags)),
                    }),
            decreases self.ticks@.len() - tick,
        {
            let command = self.ticks[tick];
            updates.push(
                RowState {
                    command,
                    enabled: enabled_ticks[tick],
                    checked: Some(is_on(command, flags)),
                },
            );
            tick = tick + 1;
        }
        updates
    }
}

// ----- laws ----------------------------------------------------------------------------

/// A number read off a name: its length, its first character and its last but one.
spec fn mark(name: Seq<char>) -> int {
    name.len() + 100 * (name[0] as int) + 100000 * (name[name.len() - 2] as int)
}

/// What that number is for each command.
spec fn mark_of(command: Command) -> int {
    match command {
        Command::OpenSettings => 10307912,
        Command::ExportPng => 11006909,
        Command::ExportPdf => 10006909,
        Command::ExportSvg => 11806909,
        Command::ExportCsv => 11506909,
        Command::ExportBackup => 11706912,
        Command::NewBoard => 11407808,
        Command::OpenBoard => 11407909,
        Command::ImportFromMiro => 11407314,
        Command::Save => 11808304,
        Command::SaveAs => 6508306,
        Command::CloseBoard => 11406710,
        Command::BringToFront => 11006612,
        Command::BringForward => 11406612,
        Command::SendBackward => 11408312,
        Command::SendToBack => 9908310,
        Command::Group => 11707105,
        Command::Ungroup => 11708507,
        Command::Lock => 9907604,
        Command::Unlock => 9908506,
        Command::AlignLeft => 10206509,
        Command::AlignCenterHorizontal => 9706521,
        Command::AlignRight => 10406510,
        Command::AlignTop => 11106508,
        Command::AlignMiddleVertical => 9706519,
        Command::AlignBottom => 11106511,
        Command::DistributeHorizontally => 10806822,
        Command::DistributeVertically => 10806820,
        Command::Undo => 10008504,
        Command::Redo => 10008204,
        Command::Cut => 11706703,
        Command::Copy => 11206704,
        Command::Paste => 11608005,
        Command::Duplicate => 11606809,
        Command::Delete => 11606806,
        Command::SelectAll => 10808309,
        Command::Find => 11007004,
        Command::CommandPalette => 11606714,
        Command::ZoomIn => 7309006,
        Command::ZoomOut => 11709007,
        Command::ZoomToFit => 10509009,
        Command::ZoomToSelection => 11109015,
        Command::ZoomActualSize => 12209014,
        Command::SnapToGrid => 10508310,
        Command::ToggleMinimap => 9708413,
        Command::TogglePropertiesPanel => 10108421,
        Command::GoToStartView => 10107113,
        Command::SetStartView => 10108312,
        Command::PresentationMode => 10008016,
        Command::KeyboardShortcuts => 11607517,
        Command::Documentation => 11106813,
        Command::About => 11706505,
        Command::StarBoard => 11408309,
        Command::ToggleTranslucency => 9908418,
        Command::ToggleLinkPreviews => 11908418,
        Command::ToggleAlignObjects => 11608418,
    }
}

proof fn names_are_marked(command: Command)
    ensures
        mark(name_of(command)) == mark_of(command),
{
    match command {
        Command::OpenSettings => {
            reveal_strlit("OpenSettings");
        },
        Command::ExportPng => {
            reveal_strlit("ExportPng");
        },
        Command::ExportPdf => {
            reveal_strlit("ExportPdf");
        },
        Command::ExportSvg => {
            reveal_strlit("ExportSvg");
        },
        Command::ExportCsv => {
            reveal_strlit("ExportCsv");
        },
        Command::ExportBackup => {
            reveal_strlit("ExportBackup");
        },
        Command::NewBoard => {
            reveal_strlit("NewBoard");
        },
        Command::OpenBoard => {
            reveal_strlit("OpenBoard");
        },
        Command::ImportFromMiro => {
            reveal_strlit("ImportFromMiro");
        },
        Command::Save => {
            reveal_strlit("Save");
        },
        Command::SaveAs => {
            reveal_strlit("SaveAs");
        },
        Command::CloseBoard => {
            reveal_strlit("CloseBoard");
        },
        Command::BringToFront => {
            reveal_strlit("BringToFront");
        },
        Command::BringForward => {
            reveal_strlit("BringForward");
        },
        Command::SendBackward => {
            reveal_strlit("SendBackward");
        },
        Command::SendToBack => {
            reveal_strlit("SendToBack");
        },
        Command::Group => {
            reveal_strlit("Group");
        },
        Command::Ungroup => {
            reveal_strlit("Ungroup");
        },
        Command::Lock => {
            reveal_strlit("Lock");
        },
        Command::Unlock => {
            reveal_strlit("Unlock");
        },
        Command::AlignLeft => {
            reveal_strlit("AlignLeft");
        },
        Command::AlignCenterHorizontal => {
            reveal_strlit("AlignCenterHorizontal");
        },
        Command::AlignRight => {
            reveal_strlit("AlignRight");
        },
        Command::AlignTop => {
            reveal_strlit("AlignTop");
        },
        Command::AlignMiddleVertical => {
            reveal_strlit("AlignMiddleVertical");
        },
        Command::AlignBottom => {
            reveal_strlit("AlignBottom");
        },
        Command::DistributeHorizontally => {
            reveal_strlit("DistributeHorizontally");
        },
        Command::DistributeVertically => {
            reveal_strlit("DistributeVertically");
        },
        Command::Undo => {
            reveal_strlit("Undo");
        },
        Command::Redo => {
            reveal_strlit("Redo");
        },
        Command::Cut => {
            reveal_strlit("Cut");
        },
        Command::Copy => {
            reveal_strlit("Copy");
        },
        Command::Paste => {
            reveal_strlit("Paste");
        },
        Command::Duplicate => {
            reveal_strlit("Duplicate");
        },
        Command::Delete => {
            reveal_strlit("Delete");
        },
        Command::SelectAll => {
            reveal_strlit("SelectAll");
        },
        Command::Find => {
            reveal_strlit("Find");
        },
        Command::CommandPalette => {
            reveal_strlit("CommandPalette");
        },
        Command::ZoomIn => {
            reveal_strlit("ZoomIn");
        },
        Command::ZoomOut => {
            reveal_strlit("ZoomOut");
        },
        Command::ZoomToFit => {
            reveal_strlit("ZoomToFit");
        },
        Command::ZoomToSelection => {
            reveal_strlit("ZoomToSelection");
        },
        Command::ZoomActualSize => {
            reveal_strlit("ZoomActualSize");
        },
        Command::SnapToGrid => {
            reveal_strlit("SnapToGrid");
        },
        Command::ToggleMinimap => {
            reveal_strlit("ToggleMinimap");
        },
        Command::TogglePropertiesPanel => {
            reveal_strlit("TogglePropertiesPanel");
        },
        Command::GoToStartView => {
            reveal_strlit("GoToStartView");
        },
        Command::SetStartView => {
            reveal_strlit("SetStartView");
        },
        Command::PresentationMode => {
            reveal_strlit("PresentationMode");
        },
        Command::KeyboardShortcuts => {
            reveal_strlit("KeyboardShortcuts");
        },
        Command::Documentation => {
            reveal_strlit("Documentation");
        },
        Command::About => {
            reveal_strlit("About");
        },
        Command::StarBoard => {
            reveal_strlit("StarBoard");
        },
        Command::ToggleTranslucency => {
            reveal_strlit("ToggleTranslucency");
        },
        Command::ToggleLinkPreviews => {
            reveal_strlit("ToggleLinkPreviews");
        },
        Command::ToggleAlignObjects => {
            reveal_strlit("ToggleAlignObjects");
        },
    }
}

/// No two commands have the same name.
pub proof fn names_tell_commands_apart(a: Command, b: Command)
    requires
        name_of(a) == name_of(b),
    ensures
        a == b,
{
    names_are_marked(a);
    names_are_marked(b);
}

/// A row's id is of that row alone: a click never runs a command other than the one that was
/// drawn.
pub proof fn an_id_is_of_one_row(id: Seq<char>, a: Chosen, b: Chosen)
    requires
        is_id_of(id, a),
        is_id_of(id, b),
    ensures
        a == b,
{
    reveal_strlit("cmd:");
    reveal_strlit("extra:");
    match (a, b) {
        (Chosen::Command(x), Chosen::Command(y)) => {
            assert(name_of(x) =~= id.skip(4));
            assert(name_of(y) =~= id.skip(4));
            names_tell_commands_apart(x, y);
        },
        (Chosen::Extra(x), Chosen::Extra(y)) => {
            reveal_strlit("NextTab");
            reveal_strlit("PreviousTab");
            reveal_strlit("NewTab");
            assert(extra_name_of(x) =~= id.skip(6));
            assert(extra_name_of(y) =~= id.skip(6));
        },
        (Chosen::Command(x), Chosen::Extra(y)) => {
            assert(id[0] == 'c' && id[0] == 'e');
        },
        (Chosen::Extra(x), Chosen::Command(y)) => {
            assert(id[0] == 'c' && id[0] == 'e');
        },
    }
}

/// No row steals a key the keyboard owns, whatever the shortcut table says: a verb the
/// keyboard owns never gets a key equivalent, and a bare key never is one.
pub proof fn no_row_steals_a_key_the_keyboard_owns(command: Command, shortcut: Option<Shortcut>)
    requires
        accelerator_of(command, shortcut) is Some,
    ensures
        !keyboard_owns(command),
        accelerator_of(command, shortcut)->0.command || accelerator_of(
            command,
            shortcut,
        )->0.control,
{
}

/// Every other row keeps its shortcut, modifier for modifier, where the platform has a name
/// for the key.
pub proof fn the_ordinary_rows_keep_their_shortcuts(command: Command, shortcut: Shortcut)
    requires
        !keyboard_owns(command),
        shortcut.command || shortcut.ctrl,
        shortcut.key != Key::Other,
    ensures
        accelerator_of(command, Some(shortcut)) is Some,
        accelerator_of(command, Some(shortcut))->0.shift == shortcut.shift,
        accelerator_of(command, Some(shortcut))->0.alt == shortcut.alt,
        accelerator_of(command, Some(shortcut))->0.command == shortcut.command,
        accelerator_of(command, Some(shortcut))->0.control == shortcut.ctrl,
{
}

/// Only a toggle shows a tick, whatever is on.
pub proof fn only_a_toggle_can_be_on(command: Command, flags: MenuFlags)
    requires
        on(command, flags),
    ensures
        command == Command::SnapToGrid || command == Command::ToggleMinimap || command
            == Command::TogglePropertiesPanel || command == Command::PresentationMode || command
            == Command::StarBoard || command == Command::ToggleTranslucency || command
            == Command::ToggleLinkPreviews || command == Command::ToggleAlignObjects,
{
}

// ----- row by row -----------------------------------------------------------------------

/// Each command goes by its own name, and its id is that name behind `cmd:`; a row for tabs by
/// its own behind `extra:`.
pub proof fn each_command_goes_by_its_name(id: Seq<char>)
    ensures
        name_of(Command::OpenSettings) == "OpenSettings"@,
        name_of(Command::ExportPng) == "ExportPng"@,
        name_of(Command::ExportPdf) == "ExportPdf"@,
        name_of(Command::ExportSvg) == "ExportSvg"@,
        name_of(Command::ExportCsv) == "ExportCsv"@,
        name_of(Command::ExportBackup) == "ExportBackup"@,
        name_of(Command::NewBoard) == "NewBoard"@,
        name_of(Command::OpenBoard) == "OpenBoard"@,
        name_of(Command::ImportFromMiro) == "ImportFromMiro"@,
        name_of(Command::Save) == "Save"@,
        name_of(Command::SaveAs) == "SaveAs"@,
        name_of(Command::CloseBoard) == "CloseBoard"@,
        name_of(Command::BringToFront) == "BringToFront"@,
        name_of(Command::BringForward) == "BringForward"@,
        name_of(Command::SendBackward) == "SendBackward"@,
        name_of(Command::SendToBack) == "SendToBack"@,
        name_of(Command::Group) == "Group"@,
        name_of(Command::Ungroup) == "Ungroup"@,
        name_of(Command::Lock) == "Lock"@,
        name_of(Command::Unlock) == "Unlock"@,
        name_of(Command::AlignLeft) == "AlignLeft"@,
        name_of(Command::AlignCenterHorizontal) == "AlignCenterHorizontal"@,
        name_of(Command::AlignRight) == "AlignRight"@,
        name_of(Command::AlignTop) == "AlignTop"@,
        name_of(Command::AlignMiddleVertical) == "AlignMiddleVertical"@,
        name_of(Command::AlignBottom) == "AlignBottom"@,
        name_of(Command::DistributeHorizontally) == "DistributeHorizontally"@,
        name_of(Command::DistributeVertically) == "DistributeVertically"@,
        name_of(Command::Undo) == "Undo"@,
        name_of(Command::Redo) == "Redo"@,
        name_of(Command::Cut) == "Cut"@,
        name_of(Command::Copy) == "Copy"@,
        name_of(Command::Paste) == "Paste"@,
        name_of(Command::Duplicate) == "Duplicate"@,
        name_of(Command::Delete) == "Delete"@,
        name_of(Command::SelectAll) == "SelectAll"@,
        name_of(Command::Find) == "Find"@,
        name_of(Command::CommandPalette) == "CommandPalette"@,
        name_of(Command::ZoomIn) == "ZoomIn"@,
        name_of(Command::ZoomOut) == "ZoomOut"@,
        name_of(Command::ZoomToFit) == "ZoomToFit"@,
        name_of(Command::ZoomToSelection) == "ZoomToSelection"@,
        name_of(Command::ZoomActualSize) == "ZoomActualSize"@,
        name_of(Command::SnapToGrid) == "SnapToGrid"@,
        name_of(Command::ToggleMinimap) == "ToggleMinimap"@,
        name_of(Command::TogglePropertiesPanel) == "TogglePropertiesPanel"@,
        name_of(Command::GoToStartView) == "GoToStartView"@,
        name_of(Command::SetStartView) == "SetStartView"@,
        name_of(Command::PresentationMode) == "PresentationMode"@,
        name_of(Command::KeyboardShortcuts) == "KeyboardShortcuts"@,
        name_of(Command::Documentation) == "Documentation"@,
        name_of(Command::About) == "About"@,
        name_of(Command::StarBoard) == "StarBoard"@,
        name_of(Command::ToggleTranslucency) == "ToggleTranslucency"@,
        name_of(Command::ToggleLinkPreviews) == "ToggleLinkPreviews"@,
        name_of(Command::ToggleAlignObjects) == "ToggleAlignObjects"@,
        extra_name_of(Extra::NextTab) == "NextTab"@,
        extra_name_of(Extra::PreviousTab) == "PreviousTab"@,
        extra_name_of(Extra::NewTab) == "NewTab"@,
        forall|command: Command|
            #[trigger] is_id_of(id, Chosen::Command(command)) <==> id == seq!['c', 'm', 'd', ':']
                + name_of(command),
        forall|which: Extra|
            #[trigger] is_id_of(id, Chosen::Extra(which)) <==> id == seq![
                'e',
                'x',
                't',
                'r',
                'a',
                ':',
            ] + extra_name_of(which),
{
    reveal_strlit("cmd:");
    reveal_strlit("extra:");
    assert("cmd:"@ =~= seq!['c', 'm', 'd', ':']);
    assert("extra:"@ =~= seq!['e', 'x', 't', 'r', 'a', ':']);
}

/// Each menu row by row, from top to bottom.
pub proof fn each_menu_lists_its_rows()
    ensures
        entries_of(Menu::App).len() == 11,
        entries_of(Menu::App)[0] == Entry::Platform(Platform::About),
        entries_of(Menu::App)[1] == Entry::Separator,
        entries_of(Menu::App)[2] == Entry::Row(Command::OpenSettings),
        entries_of(Menu::App)[3] == Entry::Separator,
        entries_of(Menu::App)[4] == Entry::Platform(Platform::Services),
        entries_of(Menu::App)[5] == Entry::Separator,
        entries_of(Menu::App)[6] == Entry::Platform(Platform::Hide),
        entries_of(Menu::App)[7] == Entry::Platform(Platform::HideOthers),
        entries_of(Menu::App)[8] == Entry::Platform(Platform::ShowAll),
        entries_of(Menu::App)[9] == Entry::Separator,
        entries_of(Menu::App)[10] == Entry::Platform(Platform::Quit),
        entries_of(Menu::File).len() == 12,
        entries_of(Menu::File)[0] == Entry::Row(Command::NewBoard),
        entries_of(Menu::File)[1] == Entry::Extra(Extra::NewTab),
        entries_of(Menu::File)[2] == Entry::Row(Command::OpenBoard),
        entries_of(Menu::File)[3] == Entry::Row(Command::ImportFromMiro),
        entries_of(Menu::File)[4] == Entry::Separator,
        entries_of(Menu::File)[5] == Entry::Row(Command::Save),
        entries_of(Menu::File)[6] == Entry::Row(Command::SaveAs),
        entries_of(Menu::File)[7] == Entry::Menu(Menu::Export),
        entries_of(Menu::File)[8] == Entry::Separator,
        entries_of(Menu::File)[9] == Entry::Row(Command::CloseBoard),
        entries_of(Menu::File)[10] == Entry::Extra(Extra::NextTab),
        entries_of(Menu::File)[11] == Entry::Extra(Extra::PreviousTab),
        entries_of(Menu::Export).len() == 6,
        entries_of(Menu::Export)[0] == Entry::Row(Command::ExportPng),
        entries_of(Menu::Export)[1] == Entry::Row(Command::ExportPdf),
        entries_of(Menu::Export)[2] == Entry::Row(Command::ExportSvg),
        entries_of(Menu::Export)[3] == Entry::Row(Command::ExportCsv),
        entries_of(Menu::Export)[4] == Entry::Separator,
        entries_of(Menu::Export)[5] == Entry::Row(Command::ExportBackup),
        entries_of(Menu::Edit).len() == 15,
        entries_of(Menu::Edit)[0] == Entry::Row(Command::Undo),
        entries_of(Menu::Edit)[1] == Entry::Row(Command::Redo),
        entries_of(Menu::Edit)[2] == Entry::Separator,
        entries_of(Menu::Edit)[3] == Entry::Row(Command::Cut),
        entries_of(Menu::Edit)[4] == Entry::Row(Command::Copy),
        entries_of(Menu::Edit)[5] == Entry::Row(Command::Paste),
        entries_of(Menu::Edit)[6] == Entry::Row(Command::Duplicate),
        entries_of(Menu::Edit)[7] == Entry::Row(Command::Delete),
        entries_of(Menu::Edit)[8] == Entry::Separator,
        entries_of(Menu::Edit)[9] == Entry::Row(Command::SelectAll),
        entries_of(Menu::Edit)[10] == Entry::Separator,
        entries_of(Menu::Edit)[11] == Entry::Menu(Menu::Arrange),
        entries_of(Menu::Edit)[12] == Entry::Separator,
        entries_of(Menu::Edit)[13] == Entry::Row(Command::Find),
        entries_of(Menu::Edit)[14] == Entry::Row(Command::CommandPalette),
        entries_of(Menu::Arrange).len() == 20,
        entries_of(Menu::Arrange)[0] == Entry::Row(Command::BringToFront),
        entries_of(Menu::Arrange)[1] == Entry::Row(Command::BringForward),
        entries_of(Menu::Arrange)[2] == Entry::Row(Command::SendBackward),
        entries_of(Menu::Arrange)[3] == Entry::Row(Command::SendToBack),
        entries_of(Menu::Arrange)[4] == Entry::Separator,
        entries_of(Menu::Arrange)[5] == Entry::Row(Command::Group),
        entries_of(Menu::Arrange)[6] == Entry::Row(Command::Ungroup),
        entries_of(Menu::Arrange)[7] == Entry::Separator,
        entries_of(Menu::Arrange)[8] == Entry::Row(Command::Lock),
        entries_of(Menu::Arrange)[9] == Entry::Row(Command::Unlock),
        entries_of(Menu::Arrange)[10] == Entry::Separator,
        entries_of(Menu::Arrange)[11] == Entry::Row(Command::AlignLeft),
        entries_of(Menu::Arrange)[12] == Entry::Row(Command::AlignCenterHorizontal),
        entries_of(Menu::Arrange)[13] == Entry::Row(Command::AlignRight),
        entries_of(Menu::Arrange)[14] == Entry::Row(Command::AlignTop),
        entries_of(Menu::Arrange)[15] == Entry::Row(Command::AlignMiddleVertical),
        entries_of(Menu::Arrange)[16] == Entry::Row(Command::AlignBottom),
        entries_of(Menu::Arrange)[17] == Entry::Separator,
        entries_of(Menu::Arrange)[18] == Entry::Row(Command::DistributeHorizontally),
        entries_of(Menu::Arrange)[19] == Entry::Row(Command::DistributeVertically),
        entries_of(Menu::View).len() == 16,
        entries_of(Menu::View)[0] == Entry::Row(Command::ZoomIn),
        entries_of(Menu::View)[1] == Entry::Row(Command::ZoomOut),
        entries_of(Menu::View)[2] == Entry::Row(Command::ZoomToFit),
        entries_of(Menu::View)[3] == Entry::Row(Command::ZoomToSelection),
        entries_of(Menu::View)[4] == Entry::Row(Command::ZoomActualSize),
        entries_of(Menu::View)[5] == Entry::Separator,
        entries_of(Menu::View)[6] == Entry::Tick(Command::SnapToGrid),
        entries_of(Menu::View)[7] == Entry::Tick(Command::ToggleMinimap),
        entries_of(Menu::View)[8] == Entry::Tick(Command::TogglePropertiesPanel),
        entries_of(Menu::View)[9] == Entry::Separator,
        entries_of(Menu::View)[10] == Entry::Row(Command::GoToStartView),
        entries_of(Menu::View)[11] == Entry::Row(Command::SetStartView),
        entries_of(Menu::View)[12] == Entry::Separator,
        entries_of(Menu::View)[13] == Entry::Tick(Command::PresentationMode),
        entries_of(Menu::View)[14] == Entry::Separator,
        entries_of(Menu::View)[15] == Entry::Platform(Platform::Fullscreen),
        entries_of(Menu::Window).len() == 4,
        entries_of(Menu::Window)[0] == Entry::Platform(Platform::Minimize),
        entries_of(Menu::Window)[1] == Entry::Platform(Platform::Maximize),
        entries_of(Menu::Window)[2] == Entry::Separator,
        entries_of(Menu::Window)[3] == Entry::Platform(Platform::BringAllToFront),
        entries_of(Menu::Help).len() == 4,
        entries_of(Menu::Help)[0] == Entry::Row(Command::KeyboardShortcuts),
        entries_of(Menu::Help)[1] == Entry::Row(Command::Documentation),
        entries_of(Menu::Help)[2] == Entry::Separator,
        entries_of(Menu::Help)[3] == Entry::Row(Command::About),
{
}

/// Each key has the platform's own name for it: a letter, a digit and a mark the key it is
/// printed on, and plus the key of the equals sign.
pub proof fn each_key_has_the_name_of_its_place()
    ensures
        code_of(Key::A) == Some(Code::KeyA),
        code_of(Key::C) == Some(Code::KeyC),
        code_of(Key::D) == Some(Code::KeyD),
        code_of(Key::F) == Some(Code::KeyF),
        code_of(Key::G) == Some(Code::KeyG),
        code_of(Key::K) == Some(Code::KeyK),
        code_of(Key::L) == Some(Code::KeyL),
        code_of(Key::M) == Some(Code::KeyM),
        code_of(Key::N) == Some(Code::KeyN),
        code_of(Key::O) == Some(Code::KeyO),
        code_of(Key::P) == Some(Code::KeyP),
        code_of(Key::S) == Some(Code::KeyS),
        code_of(Key::T) == Some(Code::KeyT),
        code_of(Key::U) == Some(Code::KeyU),
        code_of(Key::V) == Some(Code::KeyV),
        code_of(Key::W) == Some(Code::KeyW),
        code_of(Key::X) == Some(Code::KeyX),
        code_of(Key::Y) == Some(Code::KeyY),
        code_of(Key::Z) == Some(Code::KeyZ),
        code_of(Key::Num0) == Some(Code::Digit0),
        code_of(Key::Num1) == Some(Code::Digit1),
        code_of(Key::Num2) == Some(Code::Digit2),
        code_of(Key::Plus) == Some(Code::Equal),
        code_of(Key::Equals) == Some(Code::Equal),
        code_of(Key::Minus) == Some(Code::Minus),
        code_of(Key::OpenBracket) == Some(Code::BracketLeft),
        code_of(Key::CloseBracket) == Some(Code::BracketRight),
        code_of(Key::Delete) == Some(Code::Delete),
        code_of(Key::Backspace) == Some(Code::Backspace),
        code_of(Key::ArrowLeft) == Some(Code::ArrowLeft),
        code_of(Key::ArrowRight) == Some(Code::ArrowRight),
        code_of(Key::Comma) == Some(Code::Comma),
        code_of(Key::Other) is None,
{
}

/// When a row claims a key, and which: none for the six verbs of whatever has the keyboard,
/// none without command or control, and otherwise the shortcut's own, where its key has a name.
pub proof fn a_row_claims_the_key_of_its_shortcut(command: Command, shortcut: Shortcut)
    ensures
        ({
            let claimed = accelerator_of(command, Some(shortcut));
            let typed = command is Cut || command is Copy || command is Paste || command
                is SelectAll || command is Undo || command is Redo;
            let bare = !shortcut.command && !shortcut.ctrl;
            &&& claimed is None <==> typed || bare || shortcut.key is Other
            &&& claimed is Some ==> {
                &&& claimed->0.command == shortcut.command
                &&& claimed->0.shift == shortcut.shift
                &&& claimed->0.alt == shortcut.alt
                &&& claimed->0.control == shortcut.ctrl
                &&& Some(claimed->0.code) == code_of(shortcut.key)
            }
        }),
        accelerator_of(command, None) is None,
        forall|k: int| #![trigger KEYBOARD_OWNS[k]] 0 <= k < 6 ==> keyboard_owns(KEYBOARD_OWNS[k]),
{
}

/// Each toggle is on with its own flag, and nothing else ever is.
pub proof fn each_toggle_follows_its_flag(command: Command, flags: MenuFlags)
    ensures
        on(Command::SnapToGrid, flags) == flags.snap_to_grid,
        on(Command::ToggleMinimap, flags) == flags.minimap_visible,
        on(Command::TogglePropertiesPanel, flags) == flags.properties_panel,
        on(Command::PresentationMode, flags) == flags.presenting,
        on(Command::StarBoard, flags) == flags.starred,
        on(Command::ToggleTranslucency, flags) == flags.translucent,
        on(Command::ToggleLinkPreviews, flags) == flags.link_previews,
        on(Command::ToggleAlignObjects, flags) == flags.align_objects,
{
}

/// The rows and the ticks among entries are those entries, in their order.
pub proof fn rows_and_ticks_stand_in_the_order_of_their_entries(entries: Seq<Entry>)
    ensures
        rows_among(entries).map_values(|command: Command| Entry::Row(command)) == entries.filter(
            |entry: Entry| entry is Row,
        ),
        ticks_among(entries).map_values(|command: Command| Entry::Tick(command)) == entries.filter(
            |entry: Entry| entry is Tick,
        ),
    decreases entries.len(),
{
    reveal(Seq::filter);
    let rows = rows_among(entries).map_values(|command: Command| Entry::Row(command));
    let ticks = ticks_among(entries).map_values(|command: Command| Entry::Tick(command));
    if entries.len() > 0 {
        let rest = entries.drop_last();
        rows_and_ticks_stand_in_the_order_of_their_entries(rest);
    }
    assert(rows =~= entries.filter(|entry: Entry| entry is Row));
    assert(ticks =~= entries.filter(|entry: Entry| entry is Tick));
}

/// The menus stand in the bar from the application's to the help, and are made in that order,
/// each one inside another just before it.
pub proof fn the_bar_stands_in_its_order()
    ensures
        BAR[0] is App && BAR[1] is File && BAR[2] is Edit && BAR[3] is View && BAR[4] is Window
            && BAR[5] is Help,
        MADE[0] is App && MADE[1] is Export && MADE[2] is File && MADE[3] is Arrange,
        MADE[4] is Edit && MADE[5] is View && MADE[6] is Window && MADE[7] is Help,
        all_entries(8) == entries_of(Menu::App) + entries_of(Menu::Export) + entries_of(Menu::File)
            + entries_of(Menu::Arrange) + entries_of(Menu::Edit) + entries_of(Menu::View)
            + entries_of(Menu::Window) + entries_of(Menu::Help),
{
    reveal_with_fuel(all_entries, 9);
    assert(Seq::<Entry>::empty() + entries_of(Menu::App) =~= entries_of(Menu::App));
}

/// What was clicked is read in its order: one row for each id that is of one, and that id its
/// own.
pub proof fn clicks_are_read_in_their_order(ids: Seq<String>, chosen: Seq<Chosen>)
    requires
        is_reading(ids, chosen),
    ensures
        ({
            let known = ids.filter(
                |id: String| exists|c: Chosen| #[trigger] is_id_of(id@, c),
            );
            &&& chosen.len() == known.len()
            &&& forall|k: int|
                0 <= k < chosen.len() ==> is_id_of(known[k]@, #[trigger] chosen[k])
        }),
    decreases ids.len(),
{
    reveal(Seq::filter);
    let is_known = |id: String| exists|c: Chosen| #[trigger] is_id_of(id@, c);
    if ids.len() > 0 {
        let rest = ids.drop_last();
        let known = ids.filter(is_known);
        let before = rest.filter(is_known);
        if forall|c: Chosen| !(#[trigger] is_id_of(ids.last()@, c)) {
            clicks_are_read_in_their_order(rest, chosen);
            assert(!is_known(ids.last()));
        } else {
            clicks_are_read_in_their_order(rest, chosen.drop_last());
            assert(is_id_of(ids.last()@, chosen.last()));
            assert(is_known(ids.last()));
            assert forall|k: int| 0 <= k < chosen.len() implies is_id_of(
                known[k]@,
                #[trigger] chosen[k],
            ) by {
                if k < before.len() {
                    assert(chosen.drop_last()[k] == chosen[k]);
                    assert(known[k] == before[k]);
                }
            }
        }
    }
}

/// Rows that were last set to something show it, and nothing else: which of them could act,
/// which of the ticked ones could, and what was on.
pub proof fn a_bar_shows_what_it_was_last_set_to(
    bar: MenuBar,
    rows: Seq<bool>,
    ticks: Seq<bool>,
    flags: MenuFlags,
)
    requires
        bar.shows(rows, ticks, flags),
    ensures
        bar.last_flags == Some(flags),
        bar.last_rows@ == rows,
        bar.last_ticks@ == ticks,
{
}

/// Each menu and each row for tabs is called what it is, and the tabs' keys are command with
/// `T`, and command and alt with the arrow of their way.
pub proof fn menus_and_tabs_are_called_what_they_are()
    ensures
        title_of(Menu::App) == "Velm"@,
        title_of(Menu::File) == "File"@,
        title_of(Menu::Export) == "Export"@,
        title_of(Menu::Edit) == "Edit"@,
        title_of(Menu::Arrange) == "Arrange"@,
        title_of(Menu::View) == "View"@,
        title_of(Menu::Window) == "Window"@,
        title_of(Menu::Help) == "Help"@,
        label_of(Extra::NewTab) == "New tab"@,
        label_of(Extra::NextTab) == "Select next tab"@,
        label_of(Extra::PreviousTab) == "Select previous tab"@,
        key_of(Extra::NewTab) == (Accelerator {
            command: true,
            shift: false,
            alt: false,
            control: false,
            code: Code::KeyT,
        }),
        key_of(Extra::NextTab) == (Accelerator {
            command: true,
            shift: false,
            alt: true,
            control: false,
            code: Code::ArrowRight,
        }),
        key_of(Extra::PreviousTab) == (Accelerator {
            command: true,
            shift: false,
            alt: true,
            control: false,
            code: Code::ArrowLeft,
        }),
{
}

} // verus!
