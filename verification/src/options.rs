//! Command-line options.
//!
//! Parsed by hand: `--flag value` and `--flag=value` both work, a later flag overrides an
//! earlier one, and the flags that name a list append. Which number a text spells is read
//! beforehand and comes with each argument; whether the flag accepts it is decided here.

use vstd::prelude::*;

use crate::library::{
    lower, lower_is_the_small_letter, lower_of, small_letter, small_letters,
};
use crate::readback::a_number_reads_back;
use crate::scalar::{Scalar, ONE, ZERO};
use crate::text::{
    a_number_is_written_in_tens, a_text_ends_with_what_was_put_behind, after_first, after_last,
    before_first, blank, chars_of, decimal, ends_with, has_suffix, is_written, joined, past,
    past_last, same, starts_with, text_of, texts, the_first_one_parts_the_text,
    the_last_one_parts_the_text, trim, trimmed, trimming_leaves_what_stands_between, until,
};

verus! {

pub const HELP: &'static str = "\
velm — infinite canvas

USAGE:
    velm [OPTIONS]

BOARD:
    --board PATH       Open (or create) this .vellum board. Defaults to the board
                       in Velm's data directory.
    --open PATH        Open another board in its own tab. May be repeated; the last
                       one is the tab in front.
    --tab N            Bring tab N to the front once everything is open. 0 is the
                       board library, which is always the first tab.
    --import PATH      Import a saved Miro clipboard payload (.html) on startup.
    --rtb PATH         A Miro .rtb backup, or a FOLDER of them, to join image,
                       document and link-card preview bytes against. Repeatable.
                       Archives in the app's own `archives/` folder load anyway.
                       Also used by Cmd+V.
    --bench N          Skip the stored board and generate N stickies in memory.
    --seed N           Seed for the bench board, so runs are comparable (default 1).

VIEW:
    --zoom PERCENT     Open at this zoom instead of fitting the board.
    --hud              Show the performance HUD from the first frame (F1 toggles).

SYNC:
    --sync-server URL  Keep the open board in step with a velmd server, both ways.
                       The bearer token comes from $VELM_SYNC_TOKEN, never from a
                       flag: an argument is visible to every process on the machine
                       through `ps`, and this one guards every board on the server.
    --sync-every SECS  How often to ask (default 3). A failure backs off on its own.

INPUT:
    --pan-sensitivity F    Multiplies scroll and drag panning (default 1.0).
    --zoom-sensitivity F   Multiplies wheel and pinch zoom (default 1.0).
    --invert-pan           Flip both scroll axes.
    --invert-zoom          Flip scroll and pinch zoom direction.
    --wheel-pans           Mouse wheel pans instead of zooming.
    --no-inertia           Disable the glide after a drag-pan.

DIAGNOSTICS:
    --exit-after SECS  Quit after SECS and log the average frame rate.
    --select-all       Select every item on the first frame (diagnostic).
    --select-one       Select a single item on the first frame, so the resize and
                       rotate handles are on screen for `--screenshot`.
    --open-dialog NAME Raise a dialog on the first frame so `--screenshot` can
                       photograph it: shortcuts, documentation, about,
                       new-board, import-steps.
    --show NAME        Raise a chrome surface only a click can otherwise reach, so
                       `--screenshot` can photograph it. Repeatable.
                       Panels:  properties, palette, find
                       Flyouts: shapes, pen, eraser, more
                       Menu:    menu (the ⋮ popup; a named group inside it cannot
                                be forced open — see `menu::force_open_menu`)
    --paste            Paste the system clipboard on the first frame, so the flavour
                       handling can be checked without a hand on the keyboard.
    --demo NAME        Make the open board into a fixture, or drive a live gesture that
                       `--screenshot` cannot photograph. Each reports a verdict as a
                       toast and a log line, so an unattended run can see a pass.
                       Boards:   readme, shapes, empty, table, chart, mindmap, kanban,
                                 links
                       Gestures: card-drag, typing, caret, connector, placing, snapping,
                                 object-eraser, group-handles, locked-arrange,
                                 widget-edit, copy-paste, context-menu,
                                 edit-then-delete
                       Cost:     reproject-cost — what one edit does to the open
                                 board: the rebuild, sampled, and how many of its
                                 cached layouts a one-item change throws away.
                       Menu rows with no other unattended path:
                                 export-svg, export-pdf, export-png, present
    --screenshot PATH  Write one composited frame — board, glass and chrome — to a
                       PNG and carry on. Rendered offscreen rather than read from
                       the swapchain, so it works with the window behind another.
    --no-vsync         Present without waiting for the display. Reports renderer
                       headroom instead of the refresh rate; benchmarking only.
    -h, --help         Show this message.

CONTROLS (Miro's, so muscle memory transfers):
    left drag                  marquee select
    space + drag, middle drag  pan
    right drag                 pan
    right click                everything the selection can do — or the canvas's own
                               menu when it lands on bare board
    two-finger scroll          pan, tracking the fingers
    scroll wheel               zoom about the pointer
    pinch, ctrl/cmd + scroll   zoom about the pointer
    V / H                      select tool / hand tool
    N / T / S / F              sticky, text, shape, frame
    P / E / C                  pen, eraser, connector
    Cmd+V                      paste a Miro board
    Cmd+A, Cmd+Z, Cmd+Shift+Z  select all, undo, redo
    Cmd+K / Cmd+F              commands / find
    Delete                     delete the selection
    Shift+1 / Shift+2          fit the board / fit the selection
    0                          zoom to 100%
    F1                         toggle the performance HUD
    Esc                        clear the selection
    Cmd+Q                      quit

Everything else is in the menus beside the board's name — Board, Edit, View and
Preferences — and Cmd+K lists every command with its shortcut.
";

/// The environment variable the bearer token is read from.
pub const TOKEN_VAR: &'static str = "VELM_SYNC_TOKEN";

/// Seconds between round trips when nobody says otherwise: the bits of 3.0.
pub const DEFAULT_SYNC_PERIOD: u64 = 0x4008_0000_0000_0000;

/// The number a text spells, and a hundredth of it.
#[derive(Clone, Copy, Debug, PartialEq, Eq, Structural)]
pub struct Reading {
    pub value: Scalar,
    pub hundredth: Scalar,
}

/// One argument, with the numbers it spells.
#[derive(Clone, Debug)]
pub struct Argument {
    pub text: String,
    /// The number the whole text spells, if it spells one.
    pub reading: Option<Reading>,
    /// The number that what stands after the first `=` spells, if it spells one.
    pub inline_reading: Option<Reading>,
}

/// Where to sync the open board, and how often.
#[derive(Clone, Debug, PartialEq, Eq)]
pub struct SyncOptions {
    pub server: String,
    /// Seconds between round trips.
    pub period: Scalar,
}

/// Everything the command line can set.
#[derive(Clone, Debug, PartialEq, Eq)]
pub struct Options {
    /// The board file to open. `None` opens the default one.
    pub board: Option<String>,
    /// Further boards to open, each in its own tab, in the order given.
    pub open: Vec<String>,
    /// Bring this tab to the front. `0` is the board library.
    pub tab: Option<usize>,
    /// A clipboard capture to import once, at startup.
    pub import: Option<String>,
    /// Backups to join pictures against. Each is a file or a folder of them.
    pub rtb: Vec<String>,
    /// Generate this many stickies in memory. Zero opens the board.
    pub bench_items: usize,
    pub seed: u64,
    /// Initial zoom as a scale factor, or `None` to fit the board's content.
    pub zoom: Option<Scalar>,
    pub hud: bool,
    pub pan_sensitivity: Scalar,
    pub zoom_sensitivity: Scalar,
    pub invert_pan: bool,
    pub invert_zoom: bool,
    pub wheel_pans: bool,
    pub inertia: bool,
    pub exit_after_secs: Option<Scalar>,
    pub select_all: bool,
    pub select_one: bool,
    pub open_dialog: Option<String>,
    pub show: Vec<String>,
    pub paste: bool,
    pub demo: Option<String>,
    pub screenshot: Option<String>,
    pub no_vsync: bool,
    /// `None`, the default, talks to no network at all.
    pub sync: Option<SyncOptions>,
}

/// An optional text by what it reads.
pub open spec fn reads(text: Option<String>) -> Option<Seq<char>> {
    match text {
        Some(text) => Some(text@),
        None => None,
    }
}

/// The options by what they hold.
#[verifier::ext_equal]
pub struct Settings {
    pub board: Option<Seq<char>>,
    pub open: Seq<Seq<char>>,
    pub tab: Option<usize>,
    pub import: Option<Seq<char>>,
    pub rtb: Seq<Seq<char>>,
    pub bench_items: usize,
    pub seed: u64,
    pub zoom: Option<Scalar>,
    pub hud: bool,
    pub pan_sensitivity: Scalar,
    pub zoom_sensitivity: Scalar,
    pub invert_pan: bool,
    pub invert_zoom: bool,
    pub wheel_pans: bool,
    pub inertia: bool,
    pub exit_after_secs: Option<Scalar>,
    pub select_all: bool,
    pub select_one: bool,
    pub open_dialog: Option<Seq<char>>,
    pub show: Seq<Seq<char>>,
    pub paste: bool,
    pub demo: Option<Seq<char>>,
    pub screenshot: Option<Seq<char>>,
    pub no_vsync: bool,
    /// The server and the seconds between round trips.
    pub sync: Option<(Seq<char>, Scalar)>,
}

impl View for Options {
    type V = Settings;

    open spec fn view(&self) -> Settings {
        Settings {
            board: reads(self.board),
            open: texts(self.open@),
            tab: self.tab,
            import: reads(self.import),
            rtb: texts(self.rtb@),
            bench_items: self.bench_items,
            seed: self.seed,
            zoom: self.zoom,
            hud: self.hud,
            pan_sensitivity: self.pan_sensitivity,
            zoom_sensitivity: self.zoom_sensitivity,
            invert_pan: self.invert_pan,
            invert_zoom: self.invert_zoom,
            wheel_pans: self.wheel_pans,
            inertia: self.inertia,
            exit_after_secs: self.exit_after_secs,
            select_all: self.select_all,
            select_one: self.select_one,
            open_dialog: reads(self.open_dialog),
            show: texts(self.show@),
            paste: self.paste,
            demo: reads(self.demo),
            screenshot: reads(self.screenshot),
            no_vsync: self.no_vsync,
            sync: match self.sync {
                Some(sync) => Some((sync.server@, sync.period)),
                None => None,
            },
        }
    }
}

impl Settings {
    /// What nothing on the command line gives.
    pub open spec fn defaults() -> Settings {
        Settings {
            board: None,
            open: Seq::empty(),
            tab: None,
            import: None,
            rtb: Seq::empty(),
            bench_items: 0,
            seed: 1,
            zoom: None,
            hud: false,
            pan_sensitivity: Scalar { bits: ONE },
            zoom_sensitivity: Scalar { bits: ONE },
            invert_pan: false,
            invert_zoom: false,
            wheel_pans: false,
            inertia: true,
            exit_after_secs: None,
            select_all: false,
            select_one: false,
            open_dialog: None,
            show: Seq::empty(),
            paste: false,
            demo: None,
            screenshot: None,
            no_vsync: false,
            sync: None,
        }
    }
}

impl Default for Options {
    fn default() -> (options: Options)
        ensures
            options@ == Settings::defaults(),
    {
        let options = Options {
            board: None,
            open: Vec::new(),
            tab: None,
            import: None,
            rtb: Vec::new(),
            bench_items: 0,
            seed: 1,
            zoom: None,
            hud: false,
            pan_sensitivity: Scalar { bits: ONE },
            zoom_sensitivity: Scalar { bits: ONE },
            invert_pan: false,
            invert_zoom: false,
            wheel_pans: false,
            inertia: true,
            exit_after_secs: None,
            select_all: false,
            select_one: false,
            open_dialog: None,
            show: Vec::new(),
            paste: false,
            demo: None,
            screenshot: None,
            no_vsync: false,
            sync: None,
        };
        proof {
            assert(options@ =~= Settings::defaults());
        }
        options
    }
}

/// What to do after parsing.
#[derive(Clone, Debug, PartialEq, Eq)]
pub enum Command {
    Run(Box<Options>),
    ShowHelp,
}

/// Why a command line was refused.
#[derive(Clone, Debug)]
pub enum OptionsError {
    /// The flag stands last and takes a value.
    NeedsValue { flag: String },
    /// The flag takes a whole number.
    NotWhole { flag: String, raw: String },
    /// The flag takes a number.
    NotANumber { flag: String, raw: String },
    /// The flag takes a number above zero that is not infinite.
    NotPositive { flag: String, raw: String },
    /// There is no such flag.
    Unknown { flag: String },
    /// The server's address does not say how to reach it.
    NoScheme { server: String },
}

/// Why a command line was refused, by what it reads.
pub enum Complaint {
    NeedsValue { flag: Seq<char> },
    NotWhole { flag: Seq<char>, raw: Seq<char> },
    NotANumber { flag: Seq<char>, raw: Seq<char> },
    NotPositive { flag: Seq<char>, raw: Seq<char> },
    Unknown { flag: Seq<char> },
    NoScheme { server: Seq<char> },
}

impl View for OptionsError {
    type V = Complaint;

    open spec fn view(&self) -> Complaint {
        match *self {
            OptionsError::NeedsValue { flag } => Complaint::NeedsValue { flag: flag@ },
            OptionsError::NotWhole { flag, raw } => Complaint::NotWhole { flag: flag@, raw: raw@ },
            OptionsError::NotANumber { flag, raw } => Complaint::NotANumber {
                flag: flag@,
                raw: raw@,
            },
            OptionsError::NotPositive { flag, raw } => Complaint::NotPositive {
                flag: flag@,
                raw: raw@,
            },
            OptionsError::Unknown { flag } => Complaint::Unknown { flag: flag@ },
            OptionsError::NoScheme { server } => Complaint::NoScheme { server: server@ },
        }
    }
}

impl Complaint {
    /// The sentence that says so.
    pub open spec fn sentence(self) -> Seq<char> {
        match self {
            Complaint::NeedsValue { flag } => flag + " needs a value"@,
            Complaint::NotWhole { flag, raw } => flag + " expects a whole number, got `"@ + raw
                + "`"@,
            Complaint::NotANumber { flag, raw } => flag + " expects a number, got `"@ + raw
                + "`"@,
            Complaint::NotPositive { flag, raw } => flag + " expects a positive number, got `"@
                + raw + "`"@,
            Complaint::Unknown { flag } => "unknown option `"@ + flag + "`\n\n"@ + HELP@,
            Complaint::NoScheme { server } =>
                "--sync-server needs a full address beginning http:// or https://, got `"@
                + server + NO_SCHEME_HINT@,
        }
    }
}

/// What to type in place of an address without a scheme.
pub const NO_SCHEME_HINT: &'static str =
    "`\nFor a server on this machine:      --sync-server http://127.0.0.1:8787\nFor one on the internet:           --sync-server https://boards.example.com";

impl OptionsError {
    /// The sentence that says so, with the flag and what was given.
    pub fn message(&self) -> (sentence: String)
        ensures
            sentence@ == self@.sentence(),
    {
        match self {
            OptionsError::NeedsValue { flag } => joined(flag.as_str(), " needs a value"),
            OptionsError::NotWhole { flag, raw } => got(
                flag.as_str(),
                " expects a whole number, got `",
                raw.as_str(),
            ),
            OptionsError::NotANumber { flag, raw } => got(
                flag.as_str(),
                " expects a number, got `",
                raw.as_str(),
            ),
            OptionsError::NotPositive { flag, raw } => got(
                flag.as_str(),
                " expects a positive number, got `",
                raw.as_str(),
            ),
            OptionsError::Unknown { flag } => {
                let head = joined("unknown option `", flag.as_str());
                let body = joined(head.as_str(), "`\n\n");
                joined(body.as_str(), HELP)
            },
            OptionsError::NoScheme { server } => {
                let head = joined(
                    "--sync-server needs a full address beginning http:// or https://, got `",
                    server.as_str(),
                );
                joined(head.as_str(), NO_SCHEME_HINT)
            },
        }
    }
}

fn got(flag: &str, middle: &str, raw: &str) -> (sentence: String)
    ensures
        sentence@ == flag@ + middle@ + raw@ + "`"@,
{
    let head = joined(flag, middle);
    let body = joined(head.as_str(), raw);
    joined(body.as_str(), "`")
}

// ----- flags ---------------------------------------------------------------------------

/// Every flag there is.
#[derive(Clone, Copy, Debug, PartialEq, Eq, Structural)]
pub enum Flag {
    Help,
    Board,
    Open,
    Tab,
    Import,
    Rtb,
    Bench,
    Seed,
    Zoom,
    PanSensitivity,
    ZoomSensitivity,
    ExitAfter,
    OpenDialog,
    Show,
    Demo,
    Screenshot,
    SyncServer,
    SyncEvery,
    Hud,
    InvertPan,
    InvertZoom,
    WheelPans,
    NoInertia,
    SelectAll,
    SelectOne,
    Paste,
    NoVsync,
}

/// The flag a name is, if it is one.
pub open spec fn flag_of(name: Seq<char>) -> Option<Flag> {
    if name == "-h"@ || name == "--help"@ {
        Some(Flag::Help)
    } else if name == "--board"@ {
        Some(Flag::Board)
    } else if name == "--open"@ {
        Some(Flag::Open)
    } else if name == "--tab"@ {
        Some(Flag::Tab)
    } else if name == "--import"@ {
        Some(Flag::Import)
    } else if name == "--rtb"@ {
        Some(Flag::Rtb)
    } else if name == "--bench"@ {
        Some(Flag::Bench)
    } else if name == "--seed"@ {
        Some(Flag::Seed)
    } else if name == "--zoom"@ {
        Some(Flag::Zoom)
    } else if name == "--pan-sensitivity"@ {
        Some(Flag::PanSensitivity)
    } else if name == "--zoom-sensitivity"@ {
        Some(Flag::ZoomSensitivity)
    } else if name == "--exit-after"@ {
        Some(Flag::ExitAfter)
    } else if name == "--open-dialog"@ {
        Some(Flag::OpenDialog)
    } else if name == "--show"@ {
        Some(Flag::Show)
    } else if name == "--demo"@ {
        Some(Flag::Demo)
    } else if name == "--screenshot"@ {
        Some(Flag::Screenshot)
    } else if name == "--sync-server"@ {
        Some(Flag::SyncServer)
    } else if name == "--sync-every"@ {
        Some(Flag::SyncEvery)
    } else if name == "--hud"@ {
        Some(Flag::Hud)
    } else if name == "--invert-pan"@ {
        Some(Flag::InvertPan)
    } else if name == "--invert-zoom"@ {
        Some(Flag::InvertZoom)
    } else if name == "--wheel-pans"@ {
        Some(Flag::WheelPans)
    } else if name == "--no-inertia"@ {
        Some(Flag::NoInertia)
    } else if name == "--select-all"@ {
        Some(Flag::SelectAll)
    } else if name == "--select-one"@ {
        Some(Flag::SelectOne)
    } else if name == "--paste"@ {
        Some(Flag::Paste)
    } else if name == "--no-vsync"@ {
        Some(Flag::NoVsync)
    } else {
        None
    }
}

/// The flag a name is, if it is one.
pub fn flag_named(name: &str) -> (flag: Option<Flag>)
    ensures
        flag == flag_of(name@),
{
    if same(name, "-h") || same(name, "--help") {
        Some(Flag::Help)
    } else if same(name, "--board") {
        Some(Flag::Board)
    } else if same(name, "--open") {
        Some(Flag::Open)
    } else if same(name, "--tab") {
        Some(Flag::Tab)
    } else if same(name, "--import") {
        Some(Flag::Import)
    } else if same(name, "--rtb") {
        Some(Flag::Rtb)
    } else if same(name, "--bench") {
        Some(Flag::Bench)
    } else if same(name, "--seed") {
        Some(Flag::Seed)
    } else if same(name, "--zoom") {
        Some(Flag::Zoom)
    } else if same(name, "--pan-sensitivity") {
        Some(Flag::PanSensitivity)
    } else if same(name, "--zoom-sensitivity") {
        Some(Flag::ZoomSensitivity)
    } else if same(name, "--exit-after") {
        Some(Flag::ExitAfter)
    } else if same(name, "--open-dialog") {
        Some(Flag::OpenDialog)
    } else if same(name, "--show") {
        Some(Flag::Show)
    } else if same(name, "--demo") {
        Some(Flag::Demo)
    } else if same(name, "--screenshot") {
        Some(Flag::Screenshot)
    } else if same(name, "--sync-server") {
        Some(Flag::SyncServer)
    } else if same(name, "--sync-every") {
        Some(Flag::SyncEvery)
    } else if same(name, "--hud") {
        Some(Flag::Hud)
    } else if same(name, "--invert-pan") {
        Some(Flag::InvertPan)
    } else if same(name, "--invert-zoom") {
        Some(Flag::InvertZoom)
    } else if same(name, "--wheel-pans") {
        Some(Flag::WheelPans)
    } else if same(name, "--no-inertia") {
        Some(Flag::NoInertia)
    } else if same(name, "--select-all") {
        Some(Flag::SelectAll)
    } else if same(name, "--select-one") {
        Some(Flag::SelectOne)
    } else if same(name, "--paste") {
        Some(Flag::Paste)
    } else if same(name, "--no-vsync") {
        Some(Flag::NoVsync)
    } else {
        None
    }
}

/// Whether a flag is followed by a value.
pub open spec fn takes_value(flag: Flag) -> bool {
    match flag {
        Flag::Help => false,
        Flag::Hud => false,
        Flag::InvertPan => false,
        Flag::InvertZoom => false,
        Flag::WheelPans => false,
        Flag::NoInertia => false,
        Flag::SelectAll => false,
        Flag::SelectOne => false,
        Flag::Paste => false,
        Flag::NoVsync => false,
        _ => true,
    }
}

fn wants_value(flag: Flag) -> (answer: bool)
    ensures
        answer == takes_value(flag),
{
    match flag {
        Flag::Help => false,
        Flag::Hud => false,
        Flag::InvertPan => false,
        Flag::InvertZoom => false,
        Flag::WheelPans => false,
        Flag::NoInertia => false,
        Flag::SelectAll => false,
        Flag::SelectOne => false,
        Flag::Paste => false,
        Flag::NoVsync => false,
        _ => true,
    }
}

// ----- whole numbers -------------------------------------------------------------------

/// The number that decimal digits spell.
pub open spec fn digits_value(text: Seq<char>) -> nat
    decreases text.len(),
{
    if text.len() == 0 {
        0
    } else {
        10 * digits_value(text.drop_last()) + (text.last() as u32 - '0' as u32) as nat
    }
}

/// Whether a text is nothing but decimal digits.
pub open spec fn all_digits(text: Seq<char>) -> bool {
    forall|k: int| 0 <= k < text.len() ==> '0' <= #[trigger] text[k] <= '9'
}

/// A text without the plus sign it may start with.
pub open spec fn unsigned(text: Seq<char>) -> Seq<char> {
    if text.len() > 0 && text[0] == '+' {
        text.skip(1)
    } else {
        text
    }
}

/// The whole number a text spells, if it is one and no more than `max`: a plus sign or
/// none, and one digit or more.
pub open spec fn whole_number(text: Seq<char>, max: nat) -> Option<nat> {
    let digits = unsigned(text);
    if digits.len() > 0 && all_digits(digits) && digits_value(digits) <= max {
        Some(digits_value(digits))
    } else {
        None
    }
}

proof fn digits_value_grows(text: Seq<char>, n: int)
    requires
        0 <= n <= text.len(),
        all_digits(text),
    ensures
        digits_value(text.take(n)) <= digits_value(text),
    decreases text.len() - n,
{
    if n < text.len() {
        digits_value_grows(text, n + 1);
        assert(text.take(n + 1).drop_last() =~= text.take(n));
        assert('0' <= text[n] <= '9');
    } else {
        assert(text.take(n) =~= text);
    }
}

/// The whole number a text spells, if it is one and no more than `max`.
pub fn whole(text: &str, max: u64) -> (number: Option<u64>)
    ensures
        number is Some <==> whole_number(text@, max as nat) is Some,
        number is Some ==> number->0 == whole_number(text@, max as nat)->0,
{
    let chars = chars_of(text);
    let from: usize = if chars.len() > 0 && chars[0] == '+' {
        1
    } else {
        0
    };
    let ghost digits = unsigned(text@);
    proof {
        assert(digits =~= chars@.skip(from as int));
    }
    if from == chars.len() {
        return None;
    }
    let mut at: usize = from;
    while at < chars.len()
        invariant
            from <= at <= chars@.len(),
            digits == chars@.skip(from as int),
            digits == unsigned(text@),
            forall|k: int| 0 <= k < at - from ==> '0' <= #[trigger] digits[k] <= '9',
        decreases chars@.len() - at,
    {
        let c = chars[at];
        if !('0' <= c && c <= '9') {
            proof {
                assert(digits[at - from] == c);
            }
            return None;
        }
        at = at + 1;
    }
    proof {
        assert(all_digits(digits));
        assert(digits.take(0) =~= Seq::<char>::empty());
    }
    let mut value: u64 = 0;
    at = from;
    while at < chars.len()
        invariant
            from <= at <= chars@.len(),
            digits == chars@.skip(from as int),
            digits == unsigned(text@),
            all_digits(digits),
            value == digits_value(digits.take(at - from)),
            value <= max,
        decreases chars@.len() - at,
    {
        let c = chars[at];
        proof {
            assert(digits[at - from] == c);
            assert(digits.take(at - from + 1).drop_last() =~= digits.take(at - from));
            digits_value_grows(digits, at - from + 1);
        }
        let d: u64 = (c as u32 - 48) as u64;
        let wide: u128 = value as u128 * 10 + d as u128;
        if wide > max as u128 {
            return None;
        }
        value = wide as u64;
        at = at + 1;
    }
    proof {
        assert(digits.take(digits.len() as int) =~= digits);
    }
    Some(value)
}

// ----- parsing -------------------------------------------------------------------------

/// What has been read so far. The server and the cadence are put together at the end, so
/// that the two flags can come in either order.
#[verifier::ext_equal]
pub struct Progress {
    pub options: Settings,
    pub server: Option<Seq<char>>,
    pub period: Scalar,
}

/// What a command line comes to.
pub enum Outcome {
    Help,
    Run(Settings),
    Refused(Complaint),
}

/// What one flag with its value comes to.
pub enum Step {
    Done(Progress),
    Refused(Complaint),
}

/// Whether a reading is a finite number above zero.
pub open spec fn acceptable(value: Scalar) -> bool {
    value.finite() && (Scalar { bits: ZERO }).below(value)
}

/// The state after a switch.
pub open spec fn switched(progress: Progress, flag: Flag) -> Progress {
    let o = progress.options;
    let options = match flag {
        Flag::Hud => Settings { hud: true, ..o },
        Flag::InvertPan => Settings { invert_pan: true, ..o },
        Flag::InvertZoom => Settings { invert_zoom: true, ..o },
        Flag::WheelPans => Settings { wheel_pans: true, ..o },
        Flag::NoInertia => Settings { inertia: false, ..o },
        Flag::SelectAll => Settings { select_all: true, ..o },
        Flag::SelectOne => Settings { select_one: true, ..o },
        Flag::Paste => Settings { paste: true, ..o },
        Flag::NoVsync => Settings { no_vsync: true, ..o },
        _ => o,
    };
    Progress { options, ..progress }
}

/// The complaint about a value that is not a finite number above zero, if it is not.
pub open spec fn objection(
    name: Seq<char>,
    raw: Seq<char>,
    reading: Option<Reading>,
) -> Option<Complaint> {
    match reading {
        None => Some(Complaint::NotANumber { flag: name, raw }),
        Some(reading) => if acceptable(reading.value) {
            None
        } else {
            Some(Complaint::NotPositive { flag: name, raw })
        },
    }
}

/// The state after a flag with its value, or why the value was refused.
pub open spec fn assigned(
    progress: Progress,
    flag: Flag,
    name: Seq<char>,
    raw: Seq<char>,
    reading: Option<Reading>,
) -> Step {
    let o = progress.options;
    match flag {
        Flag::Board => Step::Done(
            Progress { options: Settings { board: Some(raw), ..o }, ..progress },
        ),
        Flag::Open => Step::Done(
            Progress { options: Settings { open: o.open.push(raw), ..o }, ..progress },
        ),
        Flag::Tab => match whole_number(raw, usize::MAX as nat) {
            Some(n) => Step::Done(
                Progress { options: Settings { tab: Some(n as usize), ..o }, ..progress },
            ),
            None => Step::Refused(Complaint::NotWhole { flag: name, raw }),
        },
        Flag::Import => Step::Done(
            Progress { options: Settings { import: Some(raw), ..o }, ..progress },
        ),
        Flag::Rtb => Step::Done(
            Progress { options: Settings { rtb: o.rtb.push(raw), ..o }, ..progress },
        ),
        Flag::Bench => match whole_number(raw, usize::MAX as nat) {
            Some(n) => Step::Done(
                Progress { options: Settings { bench_items: n as usize, ..o }, ..progress },
            ),
            None => Step::Refused(Complaint::NotWhole { flag: name, raw }),
        },
        Flag::Seed => match whole_number(raw, u64::MAX as nat) {
            Some(n) => Step::Done(
                Progress { options: Settings { seed: n as u64, ..o }, ..progress },
            ),
            None => Step::Refused(Complaint::NotWhole { flag: name, raw }),
        },
        Flag::Zoom => match objection(name, raw, reading) {
            Some(complaint) => Step::Refused(complaint),
            None => Step::Done(
                Progress { options: Settings { zoom: Some(reading->0.hundredth), ..o }, ..progress },
            ),
        },
        Flag::PanSensitivity => match objection(name, raw, reading) {
            Some(complaint) => Step::Refused(complaint),
            None => Step::Done(
                Progress { options: Settings { pan_sensitivity: reading->0.value, ..o }, ..progress },
            ),
        },
        Flag::ZoomSensitivity => match objection(name, raw, reading) {
            Some(complaint) => Step::Refused(complaint),
            None => Step::Done(
                Progress { options: Settings { zoom_sensitivity: reading->0.value, ..o }, ..progress },
            ),
        },
        Flag::ExitAfter => match objection(name, raw, reading) {
            Some(complaint) => Step::Refused(complaint),
            None => Step::Done(
                Progress { options: Settings { exit_after_secs: Some(reading->0.value), ..o }, ..progress },
            ),
        },
        Flag::OpenDialog => Step::Done(
            Progress { options: Settings { open_dialog: Some(raw), ..o }, ..progress },
        ),
        Flag::Show => Step::Done(
            Progress { options: Settings { show: o.show.push(raw), ..o }, ..progress },
        ),
        Flag::Demo => Step::Done(
            Progress { options: Settings { demo: Some(raw), ..o }, ..progress },
        ),
        Flag::Screenshot => Step::Done(
            Progress { options: Settings { screenshot: Some(raw), ..o }, ..progress },
        ),
        Flag::SyncServer => Step::Done(Progress { server: Some(raw), ..progress }),
        Flag::SyncEvery => match objection(name, raw, reading) {
            Some(complaint) => Step::Refused(complaint),
            None => Step::Done(Progress { period: reading->0.value, ..progress }),
        },
        _ => Step::Done(progress),
    }
}

/// Whether an address says how to reach it.
pub open spec fn has_scheme(server: Seq<char>) -> bool {
    "http://"@.is_prefix_of(server) || "https://"@.is_prefix_of(server)
}

/// What the command line comes to once all of it is read. A cadence with nowhere to send is
/// unused, not an error.
pub open spec fn finished(progress: Progress) -> Outcome {
    match progress.server {
        None => Outcome::Run(Settings { sync: None, ..progress.options }),
        Some(server) => if has_scheme(server) {
            Outcome::Run(
                Settings { sync: Some((server, progress.period)), ..progress.options },
            )
        } else {
            Outcome::Refused(Complaint::NoScheme { server })
        },
    }
}

/// What the arguments from `at` on come to.
pub open spec fn read_from(args: Seq<Argument>, at: nat, progress: Progress) -> Outcome
    decreases args.len() - at,
{
    if at >= args.len() {
        finished(progress)
    } else {
        let text = args[at as int].text@;
        let name = before_first(text, '=');
        let inline = after_first(text, '=');
        match flag_of(name) {
            None => Outcome::Refused(Complaint::Unknown { flag: name }),
            Some(flag) => if flag == Flag::Help {
                Outcome::Help
            } else if !takes_value(flag) {
                read_from(args, at + 1, switched(progress, flag))
            } else if inline is Some {
                match assigned(
                    progress,
                    flag,
                    name,
                    inline->0,
                    args[at as int].inline_reading,
                ) {
                    Step::Done(next) => read_from(args, at + 1, next),
                    Step::Refused(complaint) => Outcome::Refused(complaint),
                }
            } else if at + 1 >= args.len() {
                Outcome::Refused(Complaint::NeedsValue { flag: name })
            } else {
                match assigned(
                    progress,
                    flag,
                    name,
                    args[at as int + 1].text@,
                    args[at as int + 1].reading,
                ) {
                    Step::Done(next) => read_from(args, at + 2, next),
                    Step::Refused(complaint) => Outcome::Refused(complaint),
                }
            },
        }
    }
}

/// What a command line comes to.
pub open spec fn parsed(args: Seq<Argument>) -> Outcome {
    read_from(args, 0, starting_point())
}

/// Nothing has been read.
pub open spec fn starting_point() -> Progress {
    Progress {
        options: Settings::defaults(),
        server: None,
        period: Scalar { bits: DEFAULT_SYNC_PERIOD },
    }
}

/// The options being put together.
struct Draft {
    options: Options,
    server: Option<String>,
    period: Scalar,
}

impl View for Draft {
    type V = Progress;

    closed spec fn view(&self) -> Progress {
        Progress { options: self.options@, server: reads(self.server), period: self.period }
    }
}

fn positive(flag: &str, raw: &str, reading: Option<Reading>) -> (value: Result<
    Reading,
    OptionsError,
>)
    ensures
        value is Ok <==> objection(flag@, raw@, reading) is None,
        value is Ok ==> reading == Some(value->Ok_0),
        value is Err ==> value->Err_0@ == objection(flag@, raw@, reading)->0,
{
    match reading {
        None => Err(OptionsError::NotANumber { flag: flag.to_owned(), raw: raw.to_owned() }),
        Some(reading) => {
            let zero = Scalar { bits: ZERO };
            if reading.value.is_finite() && zero.lt(reading.value) {
                Ok(reading)
            } else {
                Err(OptionsError::NotPositive { flag: flag.to_owned(), raw: raw.to_owned() })
            }
        },
    }
}

fn whole_or(flag: &str, raw: &str, max: u64) -> (value: Result<u64, OptionsError>)
    ensures
        value is Ok <==> whole_number(raw@, max as nat) is Some,
        value is Ok ==> value->Ok_0 == whole_number(raw@, max as nat)->0,
        value is Err ==> value->Err_0@ == (Complaint::NotWhole { flag: flag@, raw: raw@ }),
{
    match whole(raw, max) {
        Some(value) => Ok(value),
        None => Err(OptionsError::NotWhole { flag: flag.to_owned(), raw: raw.to_owned() }),
    }
}

fn push_text(list: &mut Vec<String>, text: &str)
    ensures
        texts(final(list)@) == texts(old(list)@).push(text@),
{
    list.push(text.to_owned());
    proof {
        assert(texts(list@) =~= texts(old(list)@).push(text@));
    }
}

impl Draft {
    fn switch(&mut self, flag: Flag)
        ensures
            final(self)@ == switched(old(self)@, flag),
    {
        match flag {
            Flag::Hud => self.options.hud = true,
            Flag::InvertPan => self.options.invert_pan = true,
            Flag::InvertZoom => self.options.invert_zoom = true,
            Flag::WheelPans => self.options.wheel_pans = true,
            Flag::NoInertia => self.options.inertia = false,
            Flag::SelectAll => self.options.select_all = true,
            Flag::SelectOne => self.options.select_one = true,
            Flag::Paste => self.options.paste = true,
            Flag::NoVsync => self.options.no_vsync = true,
            _ => {},
        }
        proof {
            assert(self@ =~= switched(old(self)@, flag));
        }
    }

    fn assign_text(
        &mut self,
        flag: Flag,
        name: &str,
        raw: &str,
        reading: Option<Reading>,
    ) -> (refused: Option<OptionsError>)
        requires
            flag == Flag::Board || flag == Flag::Open || flag == Flag::Import || flag == Flag::Rtb || flag == Flag::OpenDialog || flag == Flag::Show || flag == Flag::Demo || flag == Flag::Screenshot || flag == Flag::SyncServer,
        ensures
            match assigned(old(self)@, flag, name@, raw@, reading) {
                Step::Done(next) => refused is None && final(self)@ == next,
                Step::Refused(complaint) => refused is Some && refused->0@ == complaint,
            },
    {
        match flag {
            Flag::Board => self.options.board = Some(raw.to_owned()),
            Flag::Open => push_text(&mut self.options.open, raw),
            Flag::Import => self.options.import = Some(raw.to_owned()),
            Flag::Rtb => push_text(&mut self.options.rtb, raw),
            Flag::OpenDialog => self.options.open_dialog = Some(raw.to_owned()),
            Flag::Show => push_text(&mut self.options.show, raw),
            Flag::Demo => self.options.demo = Some(raw.to_owned()),
            Flag::Screenshot => self.options.screenshot = Some(raw.to_owned()),
            Flag::SyncServer => self.server = Some(raw.to_owned()),
            _ => {},
        }
        proof {
            assert(assigned(old(self)@, flag, name@, raw@, reading) is Done);
            assert(self@ =~= assigned(old(self)@, flag, name@, raw@, reading)->Done_0);
        }
        None
    }

    fn assign_whole(
        &mut self,
        flag: Flag,
        name: &str,
        raw: &str,
        reading: Option<Reading>,
    ) -> (refused: Option<OptionsError>)
        requires
            flag == Flag::Tab || flag == Flag::Bench || flag == Flag::Seed,
        ensures
            match assigned(old(self)@, flag, name@, raw@, reading) {
                Step::Done(next) => refused is None && final(self)@ == next,
                Step::Refused(complaint) => refused is Some && refused->0@ == complaint,
            },
    {
        match flag {
            Flag::Tab => match whole_or(name, raw, usize::MAX as u64) {
                Ok(n) => self.options.tab = Some(n as usize),
                Err(error) => return Some(error),
            },
            Flag::Bench => match whole_or(name, raw, usize::MAX as u64) {
                Ok(n) => self.options.bench_items = n as usize,
                Err(error) => return Some(error),
            },
            Flag::Seed => match whole_or(name, raw, u64::MAX) {
                Ok(n) => self.options.seed = n,
                Err(error) => return Some(error),
            },
            _ => {},
        }
        proof {
            assert(assigned(old(self)@, flag, name@, raw@, reading) is Done);
            assert(self@ =~= assigned(old(self)@, flag, name@, raw@, reading)->Done_0);
        }
        None
    }

    fn assign_number(
        &mut self,
        flag: Flag,
        name: &str,
        raw: &str,
        reading: Option<Reading>,
    ) -> (refused: Option<OptionsError>)
        requires
            flag == Flag::Zoom || flag == Flag::PanSensitivity || flag == Flag::ZoomSensitivity || flag == Flag::ExitAfter || flag == Flag::SyncEvery,
        ensures
            match assigned(old(self)@, flag, name@, raw@, reading) {
                Step::Done(next) => refused is None && final(self)@ == next,
                Step::Refused(complaint) => refused is Some && refused->0@ == complaint,
            },
    {
        match flag {
            Flag::Zoom => match positive(name, raw, reading) {
                Ok(number) => self.options.zoom = Some(number.hundredth),
                Err(error) => return Some(error),
            },
            Flag::PanSensitivity => match positive(name, raw, reading) {
                Ok(number) => self.options.pan_sensitivity = number.value,
                Err(error) => return Some(error),
            },
            Flag::ZoomSensitivity => match positive(name, raw, reading) {
                Ok(number) => self.options.zoom_sensitivity = number.value,
                Err(error) => return Some(error),
            },
            Flag::ExitAfter => match positive(name, raw, reading) {
                Ok(number) => self.options.exit_after_secs = Some(number.value),
                Err(error) => return Some(error),
            },
            Flag::SyncEvery => match positive(name, raw, reading) {
                Ok(number) => self.period = number.value,
                Err(error) => return Some(error),
            },
            _ => {},
        }
        proof {
            assert(assigned(old(self)@, flag, name@, raw@, reading) is Done);
            assert(self@ =~= assigned(old(self)@, flag, name@, raw@, reading)->Done_0);
        }
        None
    }

    fn assign(
        &mut self,
        flag: Flag,
        name: &str,
        raw: &str,
        reading: Option<Reading>,
    ) -> (refused: Option<OptionsError>)
        requires
            takes_value(flag),
        ensures
            match assigned(old(self)@, flag, name@, raw@, reading) {
                Step::Done(next) => refused is None && final(self)@ == next,
                Step::Refused(complaint) => refused is Some && refused->0@ == complaint,
            },
    {
        match flag {
            Flag::Tab | Flag::Bench | Flag::Seed => self.assign_whole(flag, name, raw, reading),
            Flag::Zoom
            | Flag::PanSensitivity
            | Flag::ZoomSensitivity
            | Flag::ExitAfter
            | Flag::SyncEvery => self.assign_number(flag, name, raw, reading),
            _ => self.assign_text(flag, name, raw, reading),
        }
    }
}

/// Whether a result is what a command line comes to.
pub open spec fn is_outcome(result: Result<Command, OptionsError>, outcome: Outcome) -> bool {
    match outcome {
        Outcome::Help => result is Ok && result->Ok_0 is ShowHelp,
        Outcome::Run(settings) => result is Ok && result->Ok_0 is Run && result->Ok_0->Run_0@
            == settings,
        Outcome::Refused(complaint) => result is Err && result->Err_0@ == complaint,
    }
}

/// Reads the command line.
pub fn parse_args(args: &Vec<Argument>) -> (result: Result<Command, OptionsError>)
    ensures
        is_outcome(result, parsed(args@)),
{
    let mut draft = Draft {
        options: Options::default(),
        server: None,
        period: Scalar { bits: DEFAULT_SYNC_PERIOD },
    };
    let mut at: usize = 0;
    while at < args.len()
        invariant
            at <= args@.len(),
            parsed(args@) == read_from(args@, at as nat, draft@),
        decreases args@.len() - at,
    {
        let name = until(args[at].text.as_str(), '=');
        let inline = past(args[at].text.as_str(), '=');
        let flag = match flag_named(name.as_str()) {
            Some(flag) => flag,
            None => return Err(OptionsError::Unknown { flag: name }),
        };
        if flag == Flag::Help {
            return Ok(Command::ShowHelp);
        }
        if !wants_value(flag) {
            draft.switch(flag);
            at = at + 1;
            continue ;
        }
        match inline {
            Some(raw) => {
                let refused = draft.assign(
                    flag,
                    name.as_str(),
                    raw.as_str(),
                    args[at].inline_reading,
                );
                if let Some(error) = refused {
                    return Err(error);
                }
                at = at + 1;
            },
            None => {
                if at + 1 >= args.len() {
                    return Err(OptionsError::NeedsValue { flag: name });
                }
                let refused = draft.assign(
                    flag,
                    name.as_str(),
                    args[at + 1].text.as_str(),
                    args[at + 1].reading,
                );
                if let Some(error) = refused {
                    return Err(error);
                }
                at = at + 2;
            },
        }
    }
    let ghost progress = draft@;
    let Draft { mut options, server, period } = draft;
    options.sync = None;
    if let Some(server) = server {
        if !starts_with(server.as_str(), "http://") && !starts_with(server.as_str(), "https://") {
            return Err(OptionsError::NoScheme { server });
        }
        options.sync = Some(SyncOptions { server, period });
    }
    proof {
        assert(finished(progress) is Run);
        assert(options@ =~= finished(progress)->Run_0);
    }
    Ok(Command::Run(Box::new(options)))
}

// ----- the token and the server --------------------------------------------------------

/// The sync token that an environment variable carries: its value without the space around
/// it, and none where nothing is left. An empty token would be refused by the server, which
/// reads as the wrong problem.
pub fn sync_token(value: Option<&str>) -> (token: Option<String>)
    ensures
        token is Some <==> value is Some && trimmed(value->0@).len() > 0,
        token is Some ==> token->0@ == trimmed(value->0@),
{
    match value {
        Some(value) => {
            let token = trim(value);
            if token.as_str().is_empty() {
                None
            } else {
                Some(token)
            }
        },
        None => None,
    }
}

/// Where `://` first stands, or -1.
pub open spec fn scheme_at(text: Seq<char>) -> int
    decreases text.len(),
{
    if text.len() < 3 {
        -1
    } else if text[0] == ':' && text[1] == '/' && text[2] == '/' {
        0
    } else {
        let rest = scheme_at(text.skip(1));
        if rest < 0 {
            -1
        } else {
            1 + rest
        }
    }
}

/// An address without its scheme.
pub open spec fn after_scheme(server: Seq<char>) -> Seq<char> {
    if scheme_at(server) < 0 {
        server
    } else {
        server.skip(scheme_at(server) + 3)
    }
}

fn past_scheme(server: &str) -> (rest: String)
    ensures
        rest@ == after_scheme(server@),
{
    let chars = chars_of(server);
    let mut at: usize = 0;
    proof {
        assert(server@.skip(0) =~= server@);
    }
    while chars.len() - at >= 3
        invariant
            at <= chars@.len(),
            chars@ == server@,
            scheme_at(server@) == (if scheme_at(server@.skip(at as int)) < 0 {
                -1
            } else {
                at + scheme_at(server@.skip(at as int))
            }),
        decreases chars@.len() - at,
    {
        let ghost tail = server@.skip(at as int);
        proof {
            assert(tail[0] == chars@[at as int] && tail[1] == chars@[at + 1] && tail[2]
                == chars@[at + 2]);
            assert(tail.skip(1) =~= server@.skip(at + 1));
        }
        if chars[at] == ':' && chars[at + 1] == '/' && chars[at + 2] == '/' {
            proof {
                assert(chars@.subrange(at + 3, chars@.len() as int) =~= server@.skip(at + 3));
            }
            return text_of(&chars, at + 3, chars.len());
        }
        at = at + 1;
    }
    server.to_owned()
}

/// A text without the dots it ends with.
pub open spec fn without_dots(text: Seq<char>) -> Seq<char>
    decreases text.len(),
{
    if text.len() > 0 && text.last() == '.' {
        without_dots(text.drop_last())
    } else {
        text
    }
}

fn strip_dots(text: &str) -> (stripped: String)
    ensures
        stripped@ == without_dots(text@),
{
    let chars = chars_of(text);
    let mut to: usize = chars.len();
    proof {
        assert(text@.take(to as int) =~= text@);
    }
    while to > 0 && chars[to - 1] == '.'
        invariant
            to <= chars@.len(),
            chars@ == text@,
            without_dots(text@) == without_dots(text@.take(to as int)),
        decreases to,
    {
        proof {
            assert(text@.take(to as int).drop_last() =~= text@.take(to - 1));
        }
        to = to - 1;
    }
    proof {
        assert(chars@.subrange(0, to as int) =~= text@.take(to as int));
    }
    text_of(&chars, 0, to)
}

/// A text with its ASCII capitals made small.
pub open spec fn small(text: Seq<char>) -> Seq<char> {
    text.map_values(|c: char| lower(c))
}

fn make_small(text: &str) -> (made: String)
    ensures
        made@ == small(text@),
{
    let chars = chars_of(text);
    let mut made = String::new();
    let mut at: usize = 0;
    proof {
        assert(made@ =~= small(text@).take(0));
    }
    while at < chars.len()
        invariant
            at <= chars@.len(),
            chars@ == text@,
            made@ == small(text@).take(at as int),
        decreases chars@.len() - at,
    {
        made.push(lower_of(chars[at]));
        at = at + 1;
        proof {
            assert(small(text@).take(at as int) =~= small(text@).take(at - 1).push(
                small(text@)[at - 1],
            ));
        }
    }
    proof {
        assert(small(text@).take(text@.len() as int) =~= small(text@));
    }
    made
}

/// What stands before the first of `/`, `?` and `#`.
pub open spec fn authority(rest: Seq<char>) -> Seq<char> {
    before_first(before_first(before_first(rest, '/'), '?'), '#')
}

/// The host of an address: without scheme, path, user, port and the dots it ends with, in
/// small letters. The colons of a bracketed IPv6 address are no port.
pub open spec fn host_of(server: Seq<char>) -> Seq<char> {
    let host = after_last(authority(after_scheme(server)), '@');
    let bare = if host.len() > 0 && host[0] == '[' {
        before_first(host.skip(1), ']')
    } else {
        before_first(host, ':')
    };
    small(without_dots(trimmed(bare)))
}

fn host_named(server: &str) -> (host: String)
    ensures
        host@ == host_of(server@),
{
    let rest = past_scheme(server);
    let no_path = until(rest.as_str(), '/');
    let no_query = until(no_path.as_str(), '?');
    let no_fragment = until(no_query.as_str(), '#');
    let host = past_last(no_fragment.as_str(), '@');
    let chars = chars_of(host.as_str());
    let bare = if chars.len() > 0 && chars[0] == '[' {
        let inner = text_of(&chars, 1, chars.len());
        proof {
            assert(inner@ =~= host@.skip(1));
        }
        until(inner.as_str(), ']')
    } else {
        until(host.as_str(), ':')
    };
    let tight = trim(bare.as_str());
    let undotted = strip_dots(tight.as_str());
    make_small(undotted.as_str())
}

/// The number a part of an IPv4 address spells: one to three digits, no zero in front, and
/// at most 255.
pub open spec fn octet(text: Seq<char>) -> Option<nat> {
    if 1 <= text.len() <= 3 && all_digits(text) && (text.len() > 1 ==> text[0] != '0')
        && digits_value(text) <= 255 {
        Some(digits_value(text))
    } else {
        None
    }
}

fn octet_of(text: &str) -> (value: Option<u64>)
    ensures
        value is Some <==> octet(text@) is Some,
        value is Some ==> value->0 == octet(text@)->0,
{
    let chars = chars_of(text);
    if chars.len() < 1 || chars.len() > 3 || (chars.len() > 1 && chars[0] == '0') || chars[0]
        == '+' {
        proof {
            if chars@.len() >= 1 && chars@[0] == '+' {
                assert(!('0' <= text@[0] <= '9'));
                assert(!all_digits(text@));
            }
        }
        return None;
    }
    proof {
        assert(unsigned(text@) == text@);
    }
    whole(text, 255)
}

/// The first part of a dotted IPv4 address, if a text is one.
pub open spec fn first_octet(host: Seq<char>) -> Option<nat> {
    let a = after_first(host, '.');
    let b = if a is Some {
        after_first(a->0, '.')
    } else {
        None
    };
    let c = if b is Some {
        after_first(b->0, '.')
    } else {
        None
    };
    if c is Some && octet(before_first(a->0, '.')) is Some && octet(before_first(b->0, '.')) is Some
        && octet(c->0) is Some {
        octet(before_first(host, '.'))
    } else {
        None
    }
}

fn first_octet_of(host: &str) -> (value: Option<u64>)
    ensures
        value is Some <==> first_octet(host@) is Some,
        value is Some ==> value->0 == first_octet(host@)->0,
{
    let a = match past(host, '.') {
        Some(a) => a,
        None => return None,
    };
    let b = match past(a.as_str(), '.') {
        Some(b) => b,
        None => return None,
    };
    let c = match past(b.as_str(), '.') {
        Some(c) => c,
        None => return None,
    };
    let second = until(a.as_str(), '.');
    let third = until(b.as_str(), '.');
    if octet_of(second.as_str()).is_none() || octet_of(third.as_str()).is_none() || octet_of(
        c.as_str(),
    ).is_none() {
        return None;
    }
    let first = until(host, '.');
    octet_of(first.as_str())
}

/// Whether a host is this machine: `localhost` or a name under it, the IPv6 loopback in
/// either spelling, or an address of the whole block that starts with 127.
pub open spec fn is_this_machine(host: Seq<char>) -> bool {
    ||| host == "localhost"@
    ||| has_suffix(host, ".localhost"@)
    ||| host == "::1"@
    ||| host == "0:0:0:0:0:0:0:1"@
    ||| first_octet(host) == Some(127nat)
}

/// Whether a server address is this machine, so that a missing token is a legitimate setup.
/// What is not recognised is not loopback, and a name is not looked up.
pub fn is_loopback(server: &str) -> (answer: bool)
    ensures
        answer == is_this_machine(host_of(server@)),
{
    let host = host_named(server);
    if same(host.as_str(), "localhost") || ends_with(host.as_str(), ".localhost") || same(
        host.as_str(),
        "::1",
    ) || same(host.as_str(), "0:0:0:0:0:0:0:1") {
        return true;
    }
    match first_octet_of(host.as_str()) {
        Some(first) => first == 127,
        None => false,
    }
}

// ----- laws ----------------------------------------------------------------------------

/// The two sync flags compose in either order: a server and a cadence, whichever comes
/// first, lead to the same state, for every state they start from.
pub proof fn the_sync_flags_commute(
    progress: Progress,
    server: Seq<char>,
    server_name: Seq<char>,
    unused: Option<Reading>,
    every_name: Seq<char>,
    every: Seq<char>,
    reading: Option<Reading>,
)
    ensures
        ({
            let server_first = assigned(progress, Flag::SyncServer, server_name, server, unused);
            let every_first = assigned(progress, Flag::SyncEvery, every_name, every, reading);
            &&& server_first is Done
            &&& every_first is Done ==> assigned(
                server_first->Done_0,
                Flag::SyncEvery,
                every_name,
                every,
                reading,
            ) == assigned(every_first->Done_0, Flag::SyncServer, server_name, server, unused)
            &&& every_first is Refused ==> assigned(
                server_first->Done_0,
                Flag::SyncEvery,
                every_name,
                every,
                reading,
            ) == every_first
        }),
{
}

/// Nothing but the server flag names a server, so a command line without it talks to no
/// network.
pub proof fn only_the_server_flag_names_a_server(
    progress: Progress,
    flag: Flag,
    name: Seq<char>,
    raw: Seq<char>,
    reading: Option<Reading>,
)
    requires
        flag != Flag::SyncServer,
        progress.server is None,
    ensures
        switched(progress, flag).server is None,
        assigned(progress, flag, name, raw, reading) is Done ==> assigned(
            progress,
            flag,
            name,
            raw,
            reading,
        )->Done_0.server is None,
        finished(progress) is Run,
        finished(progress)->Run_0.sync is None,
{
}

/// Every number a flag takes is finite and above zero: whatever the readings, no state that
/// the flags lead to holds another, if the state before held none.
pub proof fn every_number_is_positive(
    progress: Progress,
    flag: Flag,
    name: Seq<char>,
    raw: Seq<char>,
    reading: Option<Reading>,
)
    requires
        acceptable(progress.options.pan_sensitivity),
        acceptable(progress.options.zoom_sensitivity),
        acceptable(progress.period),
        progress.options.exit_after_secs is Some ==> acceptable(
            progress.options.exit_after_secs->0,
        ),
        assigned(progress, flag, name, raw, reading) is Done,
    ensures
        ({
            let next = assigned(progress, flag, name, raw, reading)->Done_0;
            &&& acceptable(next.options.pan_sensitivity)
            &&& acceptable(next.options.zoom_sensitivity)
            &&& acceptable(next.period)
            &&& next.options.exit_after_secs is Some ==> acceptable(
                next.options.exit_after_secs->0,
            )
        }),
{
}

/// The two spellings of a flag with a value are the same flag with the same value: an
/// argument whose value stands after `=` leads where the flag and the value as two
/// arguments lead.
pub proof fn both_spellings_agree(
    rest: Seq<Argument>,
    joint: Argument,
    flag: Argument,
    value: Argument,
    progress: Progress,
)
    requires
        flag_of(flag.text@) is Some,
        takes_value(flag_of(flag.text@)->0),
        after_first(flag.text@, '=') is None,
        before_first(joint.text@, '=') == flag.text@,
        after_first(joint.text@, '=') == Some(value.text@),
        joint.inline_reading == value.reading,
    ensures
        read_from(seq![joint] + rest, 0, progress) == read_from(
            seq![flag, value] + rest,
            0,
            progress,
        ),
{
    let one = seq![joint] + rest;
    let two = seq![flag, value] + rest;
    assert(one[0] == joint);
    assert(two[0] == flag && two[1] == value);
    assert(before_first(flag.text@, '=') =~= flag.text@) by {
        first_at_bound(flag.text@, '=');
    }
    let name = flag.text@;
    match assigned(progress, flag_of(name)->0, name, value.text@, value.reading) {
        Step::Done(next) => {
            assert(one.skip(1) =~= rest);
            assert(two.skip(2) =~= rest);
            reading_shifts(one, 1, two, 2, next);
        },
        Step::Refused(_) => {},
    }
}

proof fn first_at_bound(text: Seq<char>, c: char)
    ensures
        0 <= crate::text::first_at(text, c) <= text.len(),
    decreases text.len(),
{
    if text.len() > 0 && text[0] != c {
        first_at_bound(text.skip(1), c);
    }
}

proof fn reading_shifts(a: Seq<Argument>, i: nat, b: Seq<Argument>, j: nat, progress: Progress)
    requires
        i <= a.len(),
        j <= b.len(),
        a.skip(i as int) == b.skip(j as int),
    ensures
        read_from(a, i, progress) == read_from(b, j, progress),
    decreases a.len() - i,
{
    assert(a.skip(i as int).len() == a.len() - i);
    assert(b.skip(j as int).len() == b.len() - j);
    if i < a.len() {
        assert(a[i as int] == a.skip(i as int)[0]);
        assert(b[j as int] == b.skip(j as int)[0]);
        assert(a.skip(i as int).skip(1) =~= a.skip(i as int + 1));
        assert(b.skip(j as int).skip(1) =~= b.skip(j as int + 1));
        let text = a[i as int].text@;
        let name = before_first(text, '=');
        let inline = after_first(text, '=');
        if flag_of(name) is Some && flag_of(name)->0 != Flag::Help {
            let flag = flag_of(name)->0;
            if !takes_value(flag) {
                reading_shifts(a, i + 1, b, j + 1, switched(progress, flag));
            } else if inline is Some {
                match assigned(progress, flag, name, inline->0, a[i as int].inline_reading) {
                    Step::Done(next) => reading_shifts(a, i + 1, b, j + 1, next),
                    Step::Refused(_) => {},
                }
            } else if i + 1 < a.len() {
                assert(a[i as int + 1] == a.skip(i as int)[1]);
                assert(b[j as int + 1] == b.skip(j as int)[1]);
                assert(a.skip(i as int).skip(2) =~= a.skip(i as int + 2));
                assert(b.skip(j as int).skip(2) =~= b.skip(j as int + 2));
                match assigned(
                    progress,
                    flag,
                    name,
                    a[i as int + 1].text@,
                    a[i as int + 1].reading,
                ) {
                    Step::Done(next) => reading_shifts(a, i + 2, b, j + 2, next),
                    Step::Refused(_) => {},
                }
            }
        }
    }
}

// ----- flag by flag ---------------------------------------------------------------------

/// Each flag is written one way, but for the two that ask for help.
pub proof fn each_flag_is_written_one_way(name: Seq<char>)
    ensures
        flag_of(name) == Some(Flag::Help) <==> name == "-h"@ || name == "--help"@,
        flag_of(name) == Some(Flag::Board) <==> name == "--board"@,
        flag_of(name) == Some(Flag::Open) <==> name == "--open"@,
        flag_of(name) == Some(Flag::Tab) <==> name == "--tab"@,
        flag_of(name) == Some(Flag::Import) <==> name == "--import"@,
        flag_of(name) == Some(Flag::Rtb) <==> name == "--rtb"@,
        flag_of(name) == Some(Flag::Bench) <==> name == "--bench"@,
        flag_of(name) == Some(Flag::Seed) <==> name == "--seed"@,
        flag_of(name) == Some(Flag::Zoom) <==> name == "--zoom"@,
        flag_of(name) == Some(Flag::PanSensitivity) <==> name == "--pan-sensitivity"@,
        flag_of(name) == Some(Flag::ZoomSensitivity) <==> name == "--zoom-sensitivity"@,
        flag_of(name) == Some(Flag::ExitAfter) <==> name == "--exit-after"@,
        flag_of(name) == Some(Flag::OpenDialog) <==> name == "--open-dialog"@,
        flag_of(name) == Some(Flag::Show) <==> name == "--show"@,
        flag_of(name) == Some(Flag::Demo) <==> name == "--demo"@,
        flag_of(name) == Some(Flag::Screenshot) <==> name == "--screenshot"@,
        flag_of(name) == Some(Flag::SyncServer) <==> name == "--sync-server"@,
        flag_of(name) == Some(Flag::SyncEvery) <==> name == "--sync-every"@,
        flag_of(name) == Some(Flag::Hud) <==> name == "--hud"@,
        flag_of(name) == Some(Flag::InvertPan) <==> name == "--invert-pan"@,
        flag_of(name) == Some(Flag::InvertZoom) <==> name == "--invert-zoom"@,
        flag_of(name) == Some(Flag::WheelPans) <==> name == "--wheel-pans"@,
        flag_of(name) == Some(Flag::NoInertia) <==> name == "--no-inertia"@,
        flag_of(name) == Some(Flag::SelectAll) <==> name == "--select-all"@,
        flag_of(name) == Some(Flag::SelectOne) <==> name == "--select-one"@,
        flag_of(name) == Some(Flag::Paste) <==> name == "--paste"@,
        flag_of(name) == Some(Flag::NoVsync) <==> name == "--no-vsync"@,
{
    reveal_strlit("-h");
    reveal_strlit("--help");
    reveal_strlit("--board");
    reveal_strlit("--open");
    reveal_strlit("--tab");
    reveal_strlit("--import");
    reveal_strlit("--rtb");
    reveal_strlit("--bench");
    reveal_strlit("--seed");
    reveal_strlit("--zoom");
    reveal_strlit("--pan-sensitivity");
    reveal_strlit("--zoom-sensitivity");
    reveal_strlit("--exit-after");
    reveal_strlit("--open-dialog");
    reveal_strlit("--show");
    reveal_strlit("--demo");
    reveal_strlit("--screenshot");
    reveal_strlit("--sync-server");
    reveal_strlit("--sync-every");
    reveal_strlit("--hud");
    reveal_strlit("--invert-pan");
    reveal_strlit("--invert-zoom");
    reveal_strlit("--wheel-pans");
    reveal_strlit("--no-inertia");
    reveal_strlit("--select-all");
    reveal_strlit("--select-one");
    reveal_strlit("--paste");
    reveal_strlit("--no-vsync");
    assert("-h"@.len() == 2);
    assert("--help"@.len() == 6 && "--help"@[2] == 'h');
    assert("--board"@.len() == 7 && "--board"@[2] == 'b' && "--board"@[3] == 'o');
    assert("--open"@.len() == 6 && "--open"@[2] == 'o');
    assert("--tab"@.len() == 5 && "--tab"@[2] == 't');
    assert("--import"@.len() == 8);
    assert("--rtb"@.len() == 5 && "--rtb"@[2] == 'r');
    assert("--bench"@.len() == 7 && "--bench"@[2] == 'b' && "--bench"@[3] == 'e');
    assert("--seed"@.len() == 6 && "--seed"@[2] == 's' && "--seed"@[3] == 'e');
    assert("--zoom"@.len() == 6 && "--zoom"@[2] == 'z');
    assert("--pan-sensitivity"@.len() == 17);
    assert("--zoom-sensitivity"@.len() == 18);
    assert("--exit-after"@.len() == 12 && "--exit-after"@[2] == 'e');
    assert("--open-dialog"@.len() == 13 && "--open-dialog"@[2] == 'o');
    assert("--show"@.len() == 6 && "--show"@[2] == 's' && "--show"@[3] == 'h');
    assert("--demo"@.len() == 6 && "--demo"@[2] == 'd');
    assert("--screenshot"@.len() == 12 && "--screenshot"@[2] == 's' && "--screenshot"@[3] == 'c');
    assert("--sync-server"@.len() == 13 && "--sync-server"@[2] == 's');
    assert("--sync-every"@.len() == 12 && "--sync-every"@[2] == 's' && "--sync-every"@[3] == 'y');
    assert("--hud"@.len() == 5 && "--hud"@[2] == 'h');
    assert("--invert-pan"@.len() == 12 && "--invert-pan"@[2] == 'i');
    assert("--invert-zoom"@.len() == 13 && "--invert-zoom"@[2] == 'i');
    assert("--wheel-pans"@.len() == 12 && "--wheel-pans"@[2] == 'w');
    assert("--no-inertia"@.len() == 12 && "--no-inertia"@[2] == 'n');
    assert("--select-all"@.len() == 12 && "--select-all"@[2] == 's' && "--select-all"@[3] == 'e' && "--select-all"@[9] == 'a');
    assert("--select-one"@.len() == 12 && "--select-one"@[2] == 's' && "--select-one"@[3] == 'e' && "--select-one"@[9] == 'o');
    assert("--paste"@.len() == 7 && "--paste"@[2] == 'p');
    assert("--no-vsync"@.len() == 10);
}

/// What each switch sets, and that it sets nothing else; it takes no value.
pub proof fn each_switch_sets_one_thing(progress: Progress)
    ensures
        ({
            let o = progress.options;
            let server = progress.server;
            let period = progress.period;
            &&& !takes_value(Flag::Hud)
            &&& switched(progress, Flag::Hud) == (Progress {
                options: Settings { hud: true, ..o },
                server,
                period,
            })
            &&& !takes_value(Flag::InvertPan)
            &&& switched(progress, Flag::InvertPan) == (Progress {
                options: Settings { invert_pan: true, ..o },
                server,
                period,
            })
            &&& !takes_value(Flag::InvertZoom)
            &&& switched(progress, Flag::InvertZoom) == (Progress {
                options: Settings { invert_zoom: true, ..o },
                server,
                period,
            })
            &&& !takes_value(Flag::WheelPans)
            &&& switched(progress, Flag::WheelPans) == (Progress {
                options: Settings { wheel_pans: true, ..o },
                server,
                period,
            })
            &&& !takes_value(Flag::NoInertia)
            &&& switched(progress, Flag::NoInertia) == (Progress {
                options: Settings { inertia: false, ..o },
                server,
                period,
            })
            &&& !takes_value(Flag::SelectAll)
            &&& switched(progress, Flag::SelectAll) == (Progress {
                options: Settings { select_all: true, ..o },
                server,
                period,
            })
            &&& !takes_value(Flag::SelectOne)
            &&& switched(progress, Flag::SelectOne) == (Progress {
                options: Settings { select_one: true, ..o },
                server,
                period,
            })
            &&& !takes_value(Flag::Paste)
            &&& switched(progress, Flag::Paste) == (Progress {
                options: Settings { paste: true, ..o },
                server,
                period,
            })
            &&& !takes_value(Flag::NoVsync)
            &&& switched(progress, Flag::NoVsync) == (Progress {
                options: Settings { no_vsync: true, ..o },
                server,
                period,
            })
            &&& !takes_value(Flag::Help)
        }),
{
}

/// What each flag with a value sets, and that it sets nothing else: a text as it stands, a list
/// one entry longer.
pub proof fn each_text_is_kept_under_its_flag(
    progress: Progress,
    name: Seq<char>,
    raw: Seq<char>,
    reading: Option<Reading>,
)
    ensures
        ({
            let o = progress.options;
            let server = progress.server;
            let period = progress.period;
            &&& takes_value(Flag::Board)
            &&& assigned(progress, Flag::Board, name, raw, reading) == Step::Done(
                (Progress { options: Settings { board: Some(raw), ..o }, server, period }),
            )
            &&& takes_value(Flag::Import)
            &&& assigned(progress, Flag::Import, name, raw, reading) == Step::Done(
                (Progress { options: Settings { import: Some(raw), ..o }, server, period }),
            )
            &&& takes_value(Flag::OpenDialog)
            &&& assigned(progress, Flag::OpenDialog, name, raw, reading) == Step::Done(
                (Progress { options: Settings { open_dialog: Some(raw), ..o }, server, period }),
            )
            &&& takes_value(Flag::Demo)
            &&& assigned(progress, Flag::Demo, name, raw, reading) == Step::Done(
                (Progress { options: Settings { demo: Some(raw), ..o }, server, period }),
            )
            &&& takes_value(Flag::Screenshot)
            &&& assigned(progress, Flag::Screenshot, name, raw, reading) == Step::Done(
                (Progress { options: Settings { screenshot: Some(raw), ..o }, server, period }),
            )
            &&& takes_value(Flag::Open)
            &&& assigned(progress, Flag::Open, name, raw, reading) == Step::Done(
                (Progress { options: Settings { open: o.open.push(raw), ..o }, server, period }),
            )
            &&& takes_value(Flag::Rtb)
            &&& assigned(progress, Flag::Rtb, name, raw, reading) == Step::Done(
                (Progress { options: Settings { rtb: o.rtb.push(raw), ..o }, server, period }),
            )
            &&& takes_value(Flag::Show)
            &&& assigned(progress, Flag::Show, name, raw, reading) == Step::Done(
                (Progress { options: Settings { show: o.show.push(raw), ..o }, server, period }),
            )
            &&& takes_value(Flag::SyncServer)
            &&& assigned(progress, Flag::SyncServer, name, raw, reading) == Step::Done(
                (Progress { options: o, server: Some(raw), period }),
            )
        }),
{
}

/// A whole number is kept under its flag where the text is one, and refused by the flag's name
/// where it is not.
pub proof fn each_whole_number_is_kept_under_its_flag(
    progress: Progress,
    name: Seq<char>,
    raw: Seq<char>,
    reading: Option<Reading>,
)
    ensures
        ({
            let o = progress.options;
            let server = progress.server;
            let period = progress.period;
            let count = whole_number(raw, usize::MAX as nat);
            let wide = whole_number(raw, 0xFFFF_FFFF_FFFF_FFFF);
            let refused = Step::Refused(Complaint::NotWhole { flag: name, raw });
            &&& takes_value(Flag::Tab) && takes_value(Flag::Bench) && takes_value(Flag::Seed)
            &&& assigned(progress, Flag::Tab, name, raw, reading) == (match count {
                Some(n) => Step::Done(
                    (Progress { options: Settings { tab: Some(n as usize), ..o }, server, period }),
                ),
                None => refused,
            })
            &&& assigned(progress, Flag::Bench, name, raw, reading) == (match count {
                Some(n) => Step::Done(
                    (Progress { options: Settings { bench_items: n as usize, ..o }, server, period }),
                ),
                None => refused,
            })
            &&& assigned(progress, Flag::Seed, name, raw, reading) == (match wide {
                Some(n) => Step::Done(
                    (Progress { options: Settings { seed: n as u64, ..o }, server, period }),
                ),
                None => refused,
            })
        }),
{
}

/// A number is kept under its flag where it is above zero and finite, a zoom as the hundredth
/// of it; what spells no number is refused as none, and what does but is not above zero or not
/// finite as not positive, each by the flag's name and with the text given.
pub proof fn each_number_is_kept_under_its_flag(
    progress: Progress,
    name: Seq<char>,
    raw: Seq<char>,
    reading: Reading,
)
    ensures
        ({
            let o = progress.options;
            let server = progress.server;
            let period = progress.period;
            let bits = reading.value.bits;
            let fits = 0 < bits < 0x7FF0_0000_0000_0000u64;
            let none = Step::Refused(Complaint::NotANumber { flag: name, raw });
            let unfit = Step::Refused(Complaint::NotPositive { flag: name, raw });
            &&& takes_value(Flag::Zoom)
            &&& assigned(progress, Flag::Zoom, name, raw, None) == none
            &&& assigned(progress, Flag::Zoom, name, raw, Some(reading)) == (if fits {
                Step::Done((Progress { options: Settings { zoom: Some(reading.hundredth), ..o }, server, period }))
            } else {
                unfit
            })
            &&& takes_value(Flag::PanSensitivity)
            &&& assigned(progress, Flag::PanSensitivity, name, raw, None) == none
            &&& assigned(progress, Flag::PanSensitivity, name, raw, Some(reading)) == (if fits {
                Step::Done((Progress { options: Settings { pan_sensitivity: reading.value, ..o }, server, period }))
            } else {
                unfit
            })
            &&& takes_value(Flag::ZoomSensitivity)
            &&& assigned(progress, Flag::ZoomSensitivity, name, raw, None) == none
            &&& assigned(progress, Flag::ZoomSensitivity, name, raw, Some(reading)) == (if fits {
                Step::Done((Progress { options: Settings { zoom_sensitivity: reading.value, ..o }, server, period }))
            } else {
                unfit
            })
            &&& takes_value(Flag::ExitAfter)
            &&& assigned(progress, Flag::ExitAfter, name, raw, None) == none
            &&& assigned(progress, Flag::ExitAfter, name, raw, Some(reading)) == (if fits {
                Step::Done((Progress { options: Settings { exit_after_secs: Some(reading.value), ..o }, server, period }))
            } else {
                unfit
            })
            &&& takes_value(Flag::SyncEvery)
            &&& assigned(progress, Flag::SyncEvery, name, raw, None) == none
            &&& assigned(progress, Flag::SyncEvery, name, raw, Some(reading)) == (if fits {
                Step::Done((Progress { options: o, server, period: reading.value }))
            } else {
                unfit
            })
        }),
{
}

/// A number is read digit by digit, each new one worth ten of what stood before it and itself;
/// a plus sign may stand in front, and anything else that is no digit makes it no number.
pub proof fn a_number_is_read_digit_by_digit(digits: Seq<char>, c: char, d: nat, max: nat)
    requires
        d < 10,
        is_written(d, c),
    ensures
        whole_number(Seq::empty(), max) is None,
        whole_number(seq!['+'], max) is None,
        whole_number(seq![c], max) == (if d <= max {
            Some(d)
        } else {
            None
        }),
        whole_number(seq!['+', c], max) == whole_number(seq![c], max),
        whole_number(digits, max) is Some ==> whole_number(digits.push(c), max) == (if 10
            * whole_number(digits, max)->0 + d <= max {
            Some((10 * whole_number(digits, max)->0 + d) as nat)
        } else {
            None
        }),
{
    let none = Seq::<char>::empty();
    assert('0' <= c <= '9' && c != '+' && c as u32 - '0' as u32 == d);
    let one = seq![c];
    assert(one.drop_last() =~= none);
    assert(digits_value(none) == 0);
    assert(digits_value(one) == d);
    assert(seq!['+', c].skip(1) =~= one);
    assert(seq!['+'].skip(1) =~= none);
    assert(all_digits(one));
    if whole_number(digits, max) is Some {
        let before = unsigned(digits);
        let after = unsigned(digits.push(c));
        assert(after =~= before.push(c));
        assert(after.drop_last() =~= before);
        assert forall|k: int| 0 <= k < after.len() implies '0' <= #[trigger] after[k] <= '9' by {
            if k < before.len() {
                assert('0' <= before[k] <= '9');
            }
        }
    }
}

/// What holds anything but digits behind the sign spells no whole number.
pub proof fn anything_but_a_digit_spells_no_number(front: Seq<char>, c: char, back: Seq<char>, max: nat)
    requires
        !('0' <= c <= '9'),
        c != '+' || front.len() > 0,
    ensures
        whole_number(front.push(c) + back, max) is None,
{
    let all = front.push(c) + back;
    let digits = unsigned(all);
    if front.len() > 0 && front[0] == '+' {
        assert(digits[front.len() - 1] == c);
    } else {
        assert(digits[front.len() as int] == c);
    }
}

/// Without an argument nothing is set: no board, no list, no server, the seed 1, both
/// sensitivities at one, and the glide on.
pub proof fn nothing_given_sets_nothing()
    ensures
        parsed(Seq::empty()) is Run,
        ({
            let o = parsed(Seq::empty())->Run_0;
            &&& o.board is None && o.tab is None && o.import is None && o.zoom is None
            &&& o.exit_after_secs is None && o.open_dialog is None && o.demo is None
            &&& o.screenshot is None && o.sync is None
            &&& o.open.len() == 0 && o.rtb.len() == 0 && o.show.len() == 0
            &&& o.bench_items == 0 && o.seed == 1
            &&& o.pan_sensitivity.bits == 0x3FF0_0000_0000_0000
            &&& o.zoom_sensitivity.bits == 0x3FF0_0000_0000_0000
            &&& !o.hud && !o.invert_pan && !o.invert_zoom && !o.wheel_pans && o.inertia
            &&& !o.select_all && !o.select_one && !o.paste && !o.no_vsync
        }),
        starting_point().server is None,
        starting_point().period.bits == 0x4008_0000_0000_0000,
{
}

/// A command line ends with where to sync: nowhere without a server, at the server's address
/// with the cadence read where the address starts with its scheme, and with a refusal that
/// gives the address otherwise.
pub proof fn a_server_needs_its_scheme(progress: Progress, server: Seq<char>, host: Seq<char>)
    requires
        progress.server == Some(server),
    ensures
        ({
            let plain = seq!['h', 't', 't', 'p', ':', '/', '/'];
            let secure = seq!['h', 't', 't', 'p', 's', ':', '/', '/'];
            let run = Outcome::Run(
                (Settings { sync: Some((server, progress.period)), ..progress.options }),
            );
            &&& server == plain + host ==> finished(progress) == run
            &&& server == secure + host ==> finished(progress) == run
            &&& !plain.is_prefix_of(server) && !secure.is_prefix_of(server) ==> finished(progress)
                == Outcome::Refused((Complaint::NoScheme { server }))
        }),
        finished((Progress { server: None, ..progress })) == Outcome::Run(
            (Settings { sync: None, ..progress.options }),
        ),
{
    reveal_strlit("http://");
    reveal_strlit("https://");
    assert("http://"@ =~= seq!['h', 't', 't', 'p', ':', '/', '/']);
    assert("https://"@ =~= seq!['h', 't', 't', 'p', 's', ':', '/', '/']);
}

/// Arguments are read one after another: a switch takes one, a flag with its value behind it
/// two; help ends the reading, and so does a name that no flag has, or a flag at the end
/// without its value.
pub proof fn arguments_are_read_in_order(
    name: Argument,
    value: Argument,
    rest: Seq<Argument>,
    progress: Progress,
)
    requires
        !name.text@.contains('='),
    ensures
        ({
            let text = name.text@;
            let read = read_from(seq![name] + rest, 0, progress);
            let pair = read_from(seq![name, value] + rest, 0, progress);
            match flag_of(text) {
                None => read == Outcome::Refused((Complaint::Unknown { flag: text })),
                Some(Flag::Help) => read is Help,
                Some(flag) => if !takes_value(flag) {
                    read == read_from(rest, 0, switched(progress, flag))
                } else {
                    &&& read_from(seq![name], 0, progress) == Outcome::Refused(
                        (Complaint::NeedsValue { flag: text }),
                    )
                    &&& match assigned(progress, flag, text, value.text@, value.reading) {
                        Step::Done(next) => pair == read_from(rest, 0, next),
                        Step::Refused(complaint) => pair == Outcome::Refused(complaint),
                    }
                },
            }
        }),
{
    the_first_one_parts_the_text(name.text@, '=', Seq::empty());
    let one = seq![name] + rest;
    let two = seq![name, value] + rest;
    assert(one[0] == name && two[0] == name && two[1] == value);
    assert(one.skip(1) =~= rest.skip(0));
    assert(two.skip(2) =~= rest.skip(0));
    let text = name.text@;
    if flag_of(text) is Some && flag_of(text)->0 != Flag::Help {
        let flag = flag_of(text)->0;
        if !takes_value(flag) {
            reading_shifts(one, 1, rest, 0, switched(progress, flag));
        } else {
            match assigned(progress, flag, text, value.text@, value.reading) {
                Step::Done(next) => reading_shifts(two, 2, rest, 0, next),
                Step::Refused(_) => {},
            }
        }
    }
}

proof fn a_cut_leaves_the_front(front: Seq<char>, rest: Seq<char>, c: char)
    requires
        !front.contains(c),
    ensures
        before_first(front + rest, c) == front + before_first(rest, c),
{
    first_at_bound(rest, c);
    if crate::text::first_at(rest, c) < rest.len() {
        let head = rest.take(crate::text::first_at(rest, c));
        let tail = rest.skip(crate::text::first_at(rest, c) + 1);
        nothing_stands_before_the_first(rest, c);
        assert(rest =~= head.push(c) + tail);
        assert(!(front + head).contains(c)) by {
            assert forall|k: int| 0 <= k < (front + head).len() implies (front + head)[k] != c by {
                if k < front.len() {
                    assert(front.contains(front[k]));
                } else {
                    assert((front + head)[k] == rest[k - front.len()]);
                }
            }
        }
        the_first_one_parts_the_text(front + head, c, tail);
        assert((front + head).push(c) + tail =~= front + rest);
    } else {
        nothing_stands_before_the_first(rest, c);
        assert(!(front + rest).contains(c)) by {
            assert forall|k: int| 0 <= k < (front + rest).len() implies (front + rest)[k] != c by {
                if k < front.len() {
                    assert(front.contains(front[k]));
                } else {
                    assert((front + rest)[k] == rest[k - front.len()]);
                }
            }
        }
        the_first_one_parts_the_text(front + rest, c, Seq::empty());
        assert(rest.take(rest.len() as int) =~= rest);
    }
}

proof fn nothing_stands_before_the_first(text: Seq<char>, c: char)
    ensures
        0 <= crate::text::first_at(text, c) <= text.len(),
        crate::text::first_at(text, c) < text.len() ==> text[crate::text::first_at(text, c)] == c,
        forall|k: int| 0 <= k < crate::text::first_at(text, c) ==> text[k] != c,
    decreases text.len(),
{
    if text.len() > 0 && text[0] != c {
        let rest = text.skip(1);
        nothing_stands_before_the_first(rest, c);
        assert forall|k: int| 0 <= k < crate::text::first_at(text, c) implies text[k] != c by {
            if k > 0 {
                assert(text[k] == rest[k - 1]);
            }
        }
    }
}

proof fn the_authority_ends_at_the_path(front: Seq<char>, path: Seq<char>)
    requires
        !front.contains('/') && !front.contains('?') && !front.contains('#'),
        path.len() == 0 || path[0] == '/' || path[0] == '?' || path[0] == '#',
    ensures
        authority(front + path) == front,
{
    let none = Seq::<char>::empty();
    a_cut_leaves_the_front(front, path, '/');
    let first = before_first(path, '/');
    a_cut_leaves_the_front(front, first, '?');
    let second = before_first(first, '?');
    a_cut_leaves_the_front(front, second, '#');
    let third = before_first(second, '#');
    nothing_stands_before_the_first(path, '/');
    nothing_stands_before_the_first(first, '?');
    nothing_stands_before_the_first(second, '#');
    assert(third =~= none) by {
        if third.len() > 0 {
            assert(third[0] == path[0]);
        }
    }
    assert(front + none =~= front);
}

proof fn the_scheme_ends_at_its_mark(scheme: Seq<char>, rest: Seq<char>)
    requires
        !scheme.contains(':'),
    ensures
        scheme_at(scheme + seq![':', '/', '/'] + rest) == scheme.len(),
    decreases scheme.len(),
{
    let all = scheme + seq![':', '/', '/'] + rest;
    if scheme.len() > 0 {
        let less = scheme.skip(1);
        assert(scheme.contains(scheme[0]));
        assert(all[0] != ':');
        assert(all.skip(1) =~= less + seq![':', '/', '/'] + rest);
        assert forall|k: int| 0 <= k < less.len() implies less[k] != ':' by {
            assert(scheme.contains(scheme[k + 1]));
        }
        the_scheme_ends_at_its_mark(less, rest);
    } else {
        assert(all[0] == ':' && all[1] == '/' && all[2] == '/');
    }
}

proof fn no_mark_is_no_scheme(text: Seq<char>)
    requires
        !text.contains(':'),
    ensures
        scheme_at(text) == -1,
    decreases text.len(),
{
    if text.len() >= 3 {
        assert(text.contains(text[0]));
        let less = text.skip(1);
        assert forall|k: int| 0 <= k < less.len() implies less[k] != ':' by {
            assert(text.contains(text[k + 1]));
        }
        no_mark_is_no_scheme(less);
    }
}

proof fn small_is_in_small_letters(text: Seq<char>)
    ensures
        small(text) == small_letters(text),
{
    assert forall|k: int| 0 <= k < text.len() implies lower(text[k]) == small_letter(text[k]) by {
        lower_is_the_small_letter(text[k]);
    }
    assert(small(text) =~= small_letters(text));
}

/// Whether a text can be a host as it stands: nothing in it that parts an address, no space at
/// either end and no dot behind it.
pub open spec fn is_host(text: Seq<char>) -> bool {
    &&& text.len() > 0
    &&& !text.contains('/') && !text.contains('?') && !text.contains('#')
    &&& !text.contains('@') && !text.contains(':')
    &&& text[0] != '[' && text.last() != '.'
    &&& !blank(text[0]) && !blank(text.last())
}

proof fn a_host_is_read_from_its_authority(user: Seq<char>, host: Seq<char>, port: Seq<char>, server: Seq<char>)
    requires
        is_host(host),
        user.len() == 0 || user.last() == '@',
        port.len() == 0 || port[0] == ':',
        !port.contains('@'),
        authority(after_scheme(server)) == user + host + port,
    ensures
        host_of(server) == small_letters(host),
{
    let none = Seq::<char>::empty();
    let back = host + port;
    assert(!back.contains('@')) by {
        assert forall|k: int| 0 <= k < back.len() implies back[k] != '@' by {
            if k < host.len() {
                assert(host.contains(host[k]));
            } else {
                assert(port.contains(port[k - host.len()]));
            }
        }
    }
    if user.len() > 0 {
        the_last_one_parts_the_text(user.drop_last(), '@', back);
        assert(user.drop_last().push('@') + back =~= user + host + port);
    } else {
        the_last_one_parts_the_text(none, '@', back);
        assert(user + host + port =~= back);
    }
    a_cut_leaves_the_front(host, port, ':');
    nothing_stands_before_the_first(port, ':');
    assert(before_first(port, ':') =~= none) by {
        if port.len() > 0 {
            assert(crate::text::first_at(port, ':') == 0);
        }
    }
    assert(host + none =~= host);
    assert(back[0] == host[0]);
    trimming_leaves_what_stands_between(none, host, none);
    assert(none + host + none =~= host);
    small_is_in_small_letters(host);
}

/// The host of an address is what stands between the scheme and the user in front, and the port
/// and the path behind, in small letters; an address without a scheme has one all the same.
pub proof fn a_host_stands_between_user_and_port(
    scheme: Seq<char>,
    user: Seq<char>,
    host: Seq<char>,
    port: Seq<char>,
    path: Seq<char>,
)
    requires
        !scheme.contains(':'),
        is_host(host),
        user.len() == 0 || user.last() == '@',
        !user.contains('/') && !user.contains('?') && !user.contains('#'),
        port.len() == 0 || port[0] == ':',
        !port.contains('/') && !port.contains('?') && !port.contains('#') && !port.contains('@'),
        path.len() == 0 || path[0] == '/' || path[0] == '?' || path[0] == '#',
    ensures
        host_of(scheme + seq![':', '/', '/'] + (user + host + port + path)) == small_letters(host),
        !path.contains(':') ==> host_of(host + path) == small_letters(host),
{
    let none = Seq::<char>::empty();
    let front = user + host + port;
    assert(!front.contains('/') && !front.contains('?') && !front.contains('#')) by {
        assert forall|k: int| 0 <= k < front.len() implies front[k] != '/' && front[k] != '?'
            && front[k] != '#' by {
            if k < user.len() {
                assert(user.contains(user[k]));
            } else if k < user.len() + host.len() {
                assert(host.contains(host[k - user.len()]));
            } else {
                assert(port.contains(port[k - user.len() - host.len()]));
            }
        }
    }
    let rest = front + path;
    let server = scheme + seq![':', '/', '/'] + rest;
    the_scheme_ends_at_its_mark(scheme, rest);
    assert(server.skip(scheme.len() as int + 3) =~= rest);
    the_authority_ends_at_the_path(front, path);
    a_host_is_read_from_its_authority(user, host, port, server);
    if !path.contains(':') {
        let bare = host + path;
        assert(!bare.contains(':')) by {
            assert forall|k: int| 0 <= k < bare.len() implies bare[k] != ':' by {
                if k < host.len() {
                    assert(host.contains(host[k]));
                } else {
                    assert(path.contains(path[k - host.len()]));
                }
            }
        }
        no_mark_is_no_scheme(bare);
        the_authority_ends_at_the_path(host, path);
        assert(none + host + none =~= host);
        a_host_is_read_from_its_authority(none, host, none, bare);
    }
}

proof fn a_number_of_three_digits_is_an_octet(n: nat)
    requires
        n <= 255,
    ensures
        octet(decimal(n)) == Some(n),
        !decimal(n).contains('.'),
{
    a_number_reads_back(n);
    assert(!decimal(n).contains('.')) by {
        assert forall|k: int| 0 <= k < decimal(n).len() implies decimal(n)[k] != '.' by {
            assert('0' <= decimal(n)[k] <= '9');
        }
    }
    if n >= 10 {
        a_number_is_written_in_tens(n / 10, n % 10);
        assert(n == 10 * (n / 10) + n % 10);
        let tens = n / 10;
        if tens >= 10 {
            a_number_is_written_in_tens(tens / 10, tens % 10);
            assert(tens == 10 * (tens / 10) + tens % 10);
            a_number_is_written_in_tens(0, tens / 10);
        } else {
            a_number_is_written_in_tens(0, tens);
        }
    } else {
        a_number_is_written_in_tens(0, n);
    }
}

/// An address of four numbers up to 255 is this machine exactly where the first is 127.
pub proof fn the_block_of_127_is_this_machine(a: nat, b: nat, c: nat, d: nat)
    requires
        a <= 255 && b <= 255 && c <= 255 && d <= 255,
    ensures
        is_this_machine(
            decimal(a) + seq!['.'] + decimal(b) + seq!['.'] + decimal(c) + seq!['.'] + decimal(d),
        ) <==> a == 127,
{
    let host = decimal(a) + seq!['.'] + decimal(b) + seq!['.'] + decimal(c) + seq!['.'] + decimal(
        d,
    );
    a_number_of_three_digits_is_an_octet(a);
    a_number_of_three_digits_is_an_octet(b);
    a_number_of_three_digits_is_an_octet(c);
    a_number_of_three_digits_is_an_octet(d);
    a_number_reads_back(a);
    a_number_reads_back(d);
    let two = decimal(c).push('.') + decimal(d);
    let three = decimal(b).push('.') + two;
    assert(host =~= decimal(a).push('.') + three);
    the_first_one_parts_the_text(decimal(a), '.', three);
    the_first_one_parts_the_text(decimal(b), '.', two);
    the_first_one_parts_the_text(decimal(c), '.', decimal(d));
    reveal_strlit("localhost");
    reveal_strlit(".localhost");
    reveal_strlit("::1");
    reveal_strlit("0:0:0:0:0:0:0:1");
    assert(host[0] == decimal(a)[0]);
    assert("localhost"@[0] == 'l' && "::1"@[0] == ':');
    assert("0:0:0:0:0:0:0:1"@[1] == ':' && "0:0:0:0:0:0:0:1"@.len() == 15);
    assert(host.last() == decimal(d).last());
    assert('0' <= decimal(d)[decimal(d).len() - 1] <= '9');
    assert(host != "0:0:0:0:0:0:0:1"@) by {
        if host == "0:0:0:0:0:0:0:1"@ {
            assert(host[1] == ':');
            if decimal(a).len() == 1 {
                assert(host[1] == '.');
            } else {
                assert(host[1] == decimal(a)[1]);
            }
        }
    }
    if has_suffix(host, ".localhost"@) {
        assert(host.skip(host.len() - 10)[9] == host.last());
        assert(".localhost"@[9] == 't');
    }
}

/// The names of this machine, one by one.
pub proof fn this_machine_goes_by_its_names(front: Seq<char>)
    ensures
        is_this_machine(seq!['l', 'o', 'c', 'a', 'l', 'h', 'o', 's', 't']),
        is_this_machine(front + seq!['.', 'l', 'o', 'c', 'a', 'l', 'h', 'o', 's', 't']),
        is_this_machine(seq![':', ':', '1']),
        is_this_machine("0:0:0:0:0:0:0:1"@),
{
    reveal_strlit("localhost");
    reveal_strlit(".localhost");
    reveal_strlit("::1");
    let name = seq!['l', 'o', 'c', 'a', 'l', 'h', 'o', 's', 't'];
    let under = seq!['.', 'l', 'o', 'c', 'a', 'l', 'h', 'o', 's', 't'];
    assert("localhost"@ =~= name);
    assert(".localhost"@ =~= under);
    assert("::1"@ =~= seq![':', ':', '1']);
    a_text_ends_with_what_was_put_behind(front, under, under);
}

/// What each complaint says: the flag and what was given, and what it wanted.
pub proof fn each_complaint_says_what_it_wanted(flag: Seq<char>, raw: Seq<char>)
    ensures
        (Complaint::NeedsValue { flag }).sentence() == flag + " needs a value"@,
        (Complaint::NotWhole { flag, raw }).sentence() == flag + " expects a whole number, got `"@
            + raw + "`"@,
        (Complaint::NotANumber { flag, raw }).sentence() == flag + " expects a number, got `"@
            + raw + "`"@,
        (Complaint::NotPositive { flag, raw }).sentence() == flag
            + " expects a positive number, got `"@ + raw + "`"@,
        (Complaint::Unknown { flag }).sentence() == "unknown option `"@ + flag + "`\n\n"@ + HELP@,
        (Complaint::NoScheme { server: raw }).sentence()
            == "--sync-server needs a full address beginning http:// or https://, got `"@ + raw
            + NO_SCHEME_HINT@,
{
}

/// What is no number of an address: nothing, more than three digits, a zero in front of another
/// digit, a number above 255, and anything with another character in it.
pub proof fn an_address_is_read_strictly(text: Seq<char>, k: int)
    ensures
        text.len() == 0 ==> octet(text) is None,
        text.len() > 3 ==> octet(text) is None,
        text.len() > 1 && text[0] == '0' ==> octet(text) is None,
        0 <= k < text.len() && !('0' <= text[k] <= '9') ==> octet(text) is None,
        octet(text) is Some ==> octet(text)->0 <= 255 && Some(octet(text)->0) == whole_number(
            text,
            255,
        ),
{
    if octet(text) is Some {
        assert('0' <= text[0] <= '9');
        assert(unsigned(text) == text);
    }
}

/// A host in brackets is what stands between them, colons and all.
pub proof fn a_host_stands_between_its_brackets(
    scheme: Seq<char>,
    address: Seq<char>,
    port: Seq<char>,
    path: Seq<char>,
)
    requires
        !scheme.contains(':'),
        address.len() > 0,
        !address.contains('/') && !address.contains('?') && !address.contains('#'),
        !address.contains('@') && !address.contains(']'),
        address.last() != '.' && !blank(address[0]) && !blank(address.last()),
        !port.contains('/') && !port.contains('?') && !port.contains('#') && !port.contains('@'),
        path.len() == 0 || path[0] == '/' || path[0] == '?' || path[0] == '#',
    ensures
        host_of(
            scheme + seq![':', '/', '/'] + (seq!['['] + address + seq![']'] + port + path),
        ) == small_letters(address),
{
    let none = Seq::<char>::empty();
    let front = seq!['['] + address + seq![']'] + port;
    assert forall|k: int| 0 <= k < front.len() implies front[k] != '/' && front[k] != '?'
        && front[k] != '#' && front[k] != '@' by {
        if 1 <= k <= address.len() {
            assert(address.contains(address[k - 1]));
            assert(front[k] == address[k - 1]);
        } else if k > address.len() + 1 {
            assert(port.contains(port[k - address.len() - 2]));
            assert(front[k] == port[k - address.len() - 2]);
        }
    }
    let rest = front + path;
    let server = scheme + seq![':', '/', '/'] + rest;
    the_scheme_ends_at_its_mark(scheme, rest);
    assert(server.skip(scheme.len() as int + 3) =~= rest);
    the_authority_ends_at_the_path(front, path);
    the_last_one_parts_the_text(none, '@', front);
    assert(front.skip(1) =~= address.push(']') + port);
    the_first_one_parts_the_text(address, ']', port);
    trimming_leaves_what_stands_between(none, address, none);
    assert(none + address + none =~= address);
    small_is_in_small_letters(address);
}

/// Where the token is read from, and what an address without a scheme is answered.
pub proof fn the_token_has_its_own_variable()
    ensures
        TOKEN_VAR@ == "VELM_SYNC_TOKEN"@,
        NO_SCHEME_HINT@
            == "`\nFor a server on this machine:      --sync-server http://127.0.0.1:8787\nFor one on the internet:           --sync-server https://boards.example.com"@,
{
}

proof fn dots_behind_go(text: Seq<char>, dots: Seq<char>)
    requires
        text.len() > 0,
        text.last() != '.',
        forall|k: int| 0 <= k < dots.len() ==> #[trigger] dots[k] == '.',
    ensures
        without_dots(text + dots) == text,
    decreases dots.len(),
{
    if dots.len() > 0 {
        let less = dots.drop_last();
        assert(dots[dots.len() - 1] == '.');
        assert forall|k: int| 0 <= k < less.len() implies #[trigger] less[k] == '.' by {
            assert(dots[k] == '.');
        }
        assert((text + dots).drop_last() =~= text + less);
        dots_behind_go(text, less);
    } else {
        assert(text + dots =~= text);
    }
}

/// Dots behind a host do not count: it is the same host with them.
pub proof fn dots_behind_a_host_do_not_count(
    scheme: Seq<char>,
    host: Seq<char>,
    dots: Seq<char>,
    path: Seq<char>,
)
    requires
        !scheme.contains(':'),
        is_host(host),
        forall|k: int| 0 <= k < dots.len() ==> #[trigger] dots[k] == '.',
        path.len() == 0 || path[0] == '/' || path[0] == '?' || path[0] == '#',
    ensures
        host_of(scheme + seq![':', '/', '/'] + (host + dots + path)) == small_letters(host),
{
    let none = Seq::<char>::empty();
    let front = host + dots;
    assert forall|k: int| 0 <= k < front.len() implies front[k] != '/' && front[k] != '?'
        && front[k] != '#' && front[k] != '@' && front[k] != ':' by {
        if k < host.len() {
            assert(host.contains(host[k]));
        } else {
            assert(dots[k - host.len()] == '.');
        }
    }
    let rest = front + path;
    let server = scheme + seq![':', '/', '/'] + rest;
    the_scheme_ends_at_its_mark(scheme, rest);
    assert(server.skip(scheme.len() as int + 3) =~= rest);
    the_authority_ends_at_the_path(front, path);
    the_last_one_parts_the_text(none, '@', front);
    the_first_one_parts_the_text(front, ':', none);
    assert(front[0] == host[0]);
    assert(!blank(front.last())) by {
        if dots.len() > 0 {
            assert(front.last() == dots[dots.len() - 1]);
        } else {
            assert(front.last() == host.last());
        }
    }
    trimming_leaves_what_stands_between(none, front, none);
    assert(none + front + none =~= front);
    dots_behind_go(host, dots);
    small_is_in_small_letters(host);
}

/// An address has four numbers, no fewer and no more.
pub proof fn an_address_has_four_numbers(
    a: Seq<char>,
    b: Seq<char>,
    c: Seq<char>,
    d: Seq<char>,
    more: Seq<char>,
)
    requires
        !a.contains('.') && !b.contains('.') && !c.contains('.') && !d.contains('.'),
    ensures
        first_octet(a) is None,
        first_octet(a.push('.') + b) is None,
        first_octet(a.push('.') + (b.push('.') + c)) is None,
        first_octet(a.push('.') + (b.push('.') + (c.push('.') + (d.push('.') + more)))) is None,
        first_octet(a.push('.') + (b.push('.') + (c.push('.') + d))) == (if octet(b) is Some
            && octet(c) is Some && octet(d) is Some {
            octet(a)
        } else {
            None
        }),
{
    let none = Seq::<char>::empty();
    the_first_one_parts_the_text(a, '.', none);
    the_first_one_parts_the_text(b, '.', none);
    the_first_one_parts_the_text(c, '.', none);
    the_first_one_parts_the_text(a, '.', b);
    the_first_one_parts_the_text(a, '.', b.push('.') + c);
    the_first_one_parts_the_text(b, '.', c);
    the_first_one_parts_the_text(a, '.', b.push('.') + (c.push('.') + d));
    the_first_one_parts_the_text(b, '.', c.push('.') + d);
    the_first_one_parts_the_text(c, '.', d);
    let tail = d.push('.') + more;
    the_first_one_parts_the_text(a, '.', b.push('.') + (c.push('.') + tail));
    the_first_one_parts_the_text(b, '.', c.push('.') + tail);
    the_first_one_parts_the_text(c, '.', tail);
    an_address_is_read_strictly(tail, d.len() as int);
}

/// What a command line is answered: help where it asks for it, the options it comes to, or what
/// is wrong with it.
pub proof fn a_command_line_is_answered(
    result: Result<Command, OptionsError>,
    settings: Settings,
    complaint: Complaint,
)
    ensures
        is_outcome(result, Outcome::Help) <==> result is Ok && result->Ok_0 is ShowHelp,
        is_outcome(result, Outcome::Run(settings)) <==> result is Ok && result->Ok_0 is Run
            && result->Ok_0->Run_0@ == settings,
        is_outcome(result, Outcome::Refused(complaint)) <==> result is Err && result->Err_0@
            == complaint,
{
}

/// The options are read field by field, each text by its letters.
pub proof fn options_are_read_field_by_field(options: Options)
    ensures
        ({
            let o = options@;
            &&& o.board is Some <==> options.board is Some
            &&& o.board is Some ==> o.board->0 == options.board->0@
            &&& o.import is Some <==> options.import is Some
            &&& o.import is Some ==> o.import->0 == options.import->0@
            &&& o.open_dialog is Some <==> options.open_dialog is Some
            &&& o.open_dialog is Some ==> o.open_dialog->0 == options.open_dialog->0@
            &&& o.demo is Some <==> options.demo is Some
            &&& o.demo is Some ==> o.demo->0 == options.demo->0@
            &&& o.screenshot is Some <==> options.screenshot is Some
            &&& o.screenshot is Some ==> o.screenshot->0 == options.screenshot->0@
            &&& o.open == texts(options.open@) && o.rtb == texts(options.rtb@) && o.show == texts(
                options.show@,
            )
            &&& o.tab == options.tab && o.bench_items == options.bench_items && o.seed
                == options.seed
            &&& o.zoom == options.zoom && o.hud == options.hud
            &&& o.pan_sensitivity == options.pan_sensitivity
            &&& o.zoom_sensitivity == options.zoom_sensitivity
            &&& o.invert_pan == options.invert_pan && o.invert_zoom == options.invert_zoom
            &&& o.wheel_pans == options.wheel_pans && o.inertia == options.inertia
            &&& o.exit_after_secs == options.exit_after_secs
            &&& o.select_all == options.select_all && o.select_one == options.select_one
            &&& o.paste == options.paste && o.no_vsync == options.no_vsync
            &&& o.sync is Some <==> options.sync is Some
            &&& o.sync is Some ==> o.sync->0 == (
                options.sync->0.server@,
                options.sync->0.period,
            )
        }),
{
}

/// Each error is read by its own kind, with the flag and what was given.
pub proof fn each_error_is_read_by_its_kind(error: OptionsError)
    ensures
        match error {
            OptionsError::NeedsValue { flag } => error@ == (Complaint::NeedsValue { flag: flag@ }),
            OptionsError::NotWhole { flag, raw } => error@ == (Complaint::NotWhole {
                flag: flag@,
                raw: raw@,
            }),
            OptionsError::NotANumber { flag, raw } => error@ == (Complaint::NotANumber {
                flag: flag@,
                raw: raw@,
            }),
            OptionsError::NotPositive { flag, raw } => error@ == (Complaint::NotPositive {
                flag: flag@,
                raw: raw@,
            }),
            OptionsError::Unknown { flag } => error@ == (Complaint::Unknown { flag: flag@ }),
            OptionsError::NoScheme { server } => error@ == (Complaint::NoScheme {
                server: server@,
            }),
        },
{
}

} // verus!
