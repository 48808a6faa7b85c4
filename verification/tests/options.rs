//! The command line.

use vellum_app::options::{
    is_loopback, parse_args, sync_token, whole, Argument, Command, Options, OptionsError, Reading,
    DEFAULT_SYNC_PERIOD, HELP,
};
use vellum_app::scalar::Scalar;

fn scalar(value: f64) -> Scalar {
    Scalar { bits: value.to_bits() }
}

fn reading(text: &str) -> Option<Reading> {
    let value: f64 = text.parse().ok()?;
    Some(Reading { value: scalar(value), hundredth: scalar(value / 100.0) })
}

fn argument(text: &str) -> Argument {
    Argument {
        text: text.to_owned(),
        reading: reading(text),
        inline_reading: text.split_once('=').and_then(|(_, value)| reading(value)),
    }
}

fn parse(args: &[&str]) -> Result<Command, OptionsError> {
    parse_args(&args.iter().map(|text| argument(text)).collect())
}

fn options(args: &[&str]) -> Options {
    match parse(args) {
        Ok(Command::Run(options)) => *options,
        other => panic!("expected a run, got {other:?}"),
    }
}

fn message(args: &[&str]) -> String {
    parse(args).expect_err("this is refused").message()
}

#[test]
fn sync_is_off_unless_a_server_is_named() {
    assert!(options(&["--hud"]).sync.is_none());
}

#[test]
fn the_two_sync_flags_compose_in_either_order() {
    let after = options(&["--sync-server", "https://boards.example.com", "--sync-every", "10"]);
    let before = options(&["--sync-every=10", "--sync-server=https://boards.example.com"]);
    let (after, before) = (after.sync.expect("a server was named"), before.sync.unwrap());
    assert_eq!(after.server, before.server);
    assert_eq!(after.period, before.period);
    assert_eq!(after.server, "https://boards.example.com");
    assert_eq!(after.period, scalar(10.0));
}

#[test]
fn a_server_address_must_carry_its_scheme() {
    for good in ["http://127.0.0.1:8787", "https://boards.example.com"] {
        assert!(options(&["--sync-server", good]).sync.is_some(), "{good} should be accepted");
    }
    for bad in ["localhost:8787", "boards.example.com", "127.0.0.1:8787", "ftp://x"] {
        let message = message(&["--sync-server", bad]);
        assert!(message.contains("http://"), "the message must say what to type: {message}");
        assert!(message.contains(bad));
    }
    assert_eq!(
        message(&["--sync-server", "x"]),
        "--sync-server needs a full address beginning http:// or https://, got `x`\n\
         For a server on this machine:      --sync-server http://127.0.0.1:8787\n\
         For one on the internet:           --sync-server https://boards.example.com"
    );
}

#[test]
fn a_cadence_with_no_server_is_not_an_error() {
    assert!(options(&["--sync-every", "5"]).sync.is_none());
    assert_eq!(options(&["--sync-server=http://x"]).sync.unwrap().period.bits, DEFAULT_SYNC_PERIOD);
    assert_eq!(DEFAULT_SYNC_PERIOD, 3.0_f64.to_bits());
}

#[test]
fn the_token_cannot_be_passed_as_an_argument() {
    let message = message(&["--sync-token", "hunter2"]);
    assert!(message.contains("unknown option"), "{message}");
}

#[test]
fn loopback_is_recognised_in_the_spellings_people_actually_type() {
    for here in [
        "http://127.0.0.1:8787",
        "http://127.0.0.1",
        "http://127.0.0.2:8787/",
        "http://localhost:8787",
        "https://LOCALHOST",
        "http://[::1]:8787",
        "http://user@localhost:8787/api",
    ] {
        assert!(is_loopback(here), "{here} should be loopback");
    }
    for away in [
        "https://boards.example.com",
        "http://192.168.1.10:8787",
        "http://127.0.0.1.example.com",
        "https://example.com/127.0.0.1",
        "http://[2001:db8::1]:8787",
        "",
    ] {
        assert!(!is_loopback(away), "{away} should not be loopback");
    }
}

#[test]
fn loopback_reads_addresses_strictly() {
    for here in [
        "localhost:8787",
        "http://a.b.localhost.",
        "http://x:y@127.255.0.9?q",
        "http://[0:0:0:0:0:0:0:1]",
        "http://localhost#frag/@example.com",
        "HTTP://127.0.0.1..",
    ] {
        assert!(is_loopback(here), "{here} should be loopback");
    }
    for away in [
        "http://127.0.0",
        "http://127.0.0.01",
        "http://127.0.0.256",
        "http://127.0.0.1.1",
        "http://0127.0.0.1",
        "http://+127.0.0.1",
        "http://notlocalhost",
        "http://example.com@",
    ] {
        assert!(!is_loopback(away), "{away} should not be loopback");
    }
}

#[test]
fn no_arguments_opens_the_stored_board() {
    let o = options(&[]);
    let default = Options::default();
    assert_eq!(o, default);
    assert_eq!(o.board, None);
    assert_eq!(o.bench_items, 0, "the default must not be a synthetic board");
    assert!(o.inertia);
    assert_eq!((o.seed, default.seed), (1, 1));
    assert_eq!(o.pan_sensitivity, scalar(1.0));
    assert_eq!(default.zoom_sensitivity, scalar(1.0));
    assert!(o.zoom.is_none() && !o.hud && !o.wheel_pans && o.show.is_empty());
}

#[test]
fn flags_accept_both_spellings() {
    assert_eq!(options(&["--bench", "100000"]).bench_items, 100_000);
    assert_eq!(options(&["--bench=100000"]).bench_items, 100_000);
    assert_eq!(options(&["--board=/tmp/x.vellum"]).board, Some("/tmp/x.vellum".to_owned()));
}

#[test]
fn board_import_and_archive_are_paths() {
    let o = options(&[
        "--board",
        "/boards/engine.vellum",
        "--import",
        "/captures/board.html",
        "--rtb",
        "/backups/backup.rtb",
    ]);
    assert_eq!(o.board.as_deref(), Some("/boards/engine.vellum"));
    assert_eq!(o.import.as_deref(), Some("/captures/board.html"));
    assert_eq!(o.rtb, vec!["/backups/backup.rtb"]);
}

#[test]
fn open_appends_a_tab_per_occurrence_and_tab_picks_one() {
    let o = options(&[
        "--board=/boards/a.vellum",
        "--open",
        "/boards/b.vellum",
        "--open=/boards/c.vellum",
        "--tab",
        "2",
    ]);
    assert_eq!(o.board.as_deref(), Some("/boards/a.vellum"));
    assert_eq!(
        o.open,
        vec!["/boards/b.vellum", "/boards/c.vellum"],
        "the order is the order the tabs open in"
    );
    assert_eq!(o.tab, Some(2));

    assert!(options(&[]).open.is_empty());
    assert_eq!(options(&[]).tab, None);
    // Tab zero is the board library, so it has to survive a parser that treats a zero as
    // "not given".
    assert_eq!(options(&["--tab=0"]).tab, Some(0));
    assert_eq!(
        options(&["--board=/a", "--board=/b"]).board.as_deref(),
        Some("/b"),
        "--board still names one board"
    );
}

#[test]
fn view_and_input_flags_combine() {
    let o = options(&[
        "--bench",
        "50000",
        "--seed=9",
        "--zoom",
        "100",
        "--hud",
        "--pan-sensitivity=1.5",
        "--zoom-sensitivity",
        "0.5",
        "--invert-pan",
        "--invert-zoom",
        "--no-inertia",
        "--exit-after",
        "3.5",
        "--no-vsync",
    ]);
    assert_eq!(o.bench_items, 50_000);
    assert_eq!(o.seed, 9);
    assert_eq!(o.zoom, Some(scalar(1.0)));
    assert!(o.hud && o.invert_pan && o.invert_zoom && o.no_vsync);
    assert!(!o.inertia);
    assert_eq!(o.pan_sensitivity, scalar(1.5));
    assert_eq!(o.zoom_sensitivity, scalar(0.5));
    assert_eq!(o.exit_after_secs, Some(scalar(3.5)));
}

#[test]
fn zoom_is_a_percentage_on_the_way_in() {
    assert_eq!(options(&["--zoom", "25"]).zoom, Some(scalar(0.25)));
    assert_eq!(options(&["--zoom=400"]).zoom, Some(scalar(4.0)));
    assert!(parse(&["--zoom", "0"]).is_err());
    assert!(parse(&["--zoom", "-50"]).is_err());
}

#[test]
fn sensitivities_must_be_positive() {
    assert!(parse(&["--pan-sensitivity", "0"]).is_err());
    assert!(parse(&["--zoom-sensitivity", "-1"]).is_err());
    assert!(parse(&["--pan-sensitivity", "nan"]).is_err());
    assert!(parse(&["--pan-sensitivity", "-0"]).is_err());
    assert!(parse(&["--pan-sensitivity", "inf"]).is_err());
    assert_eq!(
        message(&["--pan-sensitivity", "0"]),
        "--pan-sensitivity expects a positive number, got `0`"
    );
    assert_eq!(
        message(&["--sync-every=soon"]),
        "--sync-every expects a number, got `soon`"
    );
}

#[test]
fn help_short_circuits() {
    assert!(matches!(parse(&["--help"]), Ok(Command::ShowHelp)));
    assert!(matches!(parse(&["-h"]), Ok(Command::ShowHelp)));
    assert!(matches!(parse(&["--bench", "10", "--help"]), Ok(Command::ShowHelp)));
    assert!(parse(&["--bench", "x", "--help"]).is_err(), "what comes first is said first");
}

#[test]
fn a_missing_value_is_an_error_not_a_default() {
    let err = message(&["--bench"]);
    assert!(err.contains("--bench needs a value"), "got: {err}");
    assert!(parse(&["--board"]).is_err());
    // An empty value is one.
    assert_eq!(options(&["--board="]).board.as_deref(), Some(""));
}

#[test]
fn a_malformed_value_names_the_flag_and_the_input() {
    let err = message(&["--bench", "lots"]);
    assert!(err.contains("--bench"), "got: {err}");
    assert!(err.contains("lots"), "got: {err}");
    assert_eq!(err, "--bench expects a whole number, got `lots`");
}

#[test]
fn a_nonsense_duration_is_rejected() {
    assert!(parse(&["--exit-after", "0"]).is_err());
    assert!(parse(&["--exit-after", "-1"]).is_err());
    assert!(parse(&["--exit-after", "nan"]).is_err());
}

#[test]
fn an_unknown_flag_shows_the_usage() {
    let err = message(&["--turbo"]);
    assert!(err.contains("--turbo"), "got: {err}");
    assert!(err.contains("USAGE"), "the error should show usage: {err}");
}

#[test]
fn the_help_documents_every_binding_that_moves_the_camera() {
    for binding in [
        "marquee select",
        "space + drag",
        "middle drag",
        "two-finger scroll",
        "pinch",
        "scroll wheel",
        "right drag",
        "Cmd+V",
        "Cmd+K",
        "F1",
    ] {
        assert!(HELP.contains(binding), "the help never mentions `{binding}`");
    }
}

#[test]
fn every_flag_is_documented_and_accepted() {
    const TAKES_VALUE: [&str; 9] = [
        "--board",
        "--import",
        "--rtb",
        "--bench",
        "--seed",
        "--zoom",
        "--pan-sensitivity",
        "--zoom-sensitivity",
        "--screenshot",
    ];
    const SWITCHES: [&str; 5] =
        ["--hud", "--invert-pan", "--invert-zoom", "--no-inertia", "--no-vsync"];

    for flag in TAKES_VALUE {
        assert!(HELP.contains(flag), "`{flag}` is undocumented");
        assert!(parse(&[flag, "1"]).is_ok(), "`{flag}` is documented but not accepted");
        assert!(parse(&[flag]).is_err(), "`{flag}` accepted a missing value");
    }
    for flag in SWITCHES {
        assert!(HELP.contains(flag), "`{flag}` is undocumented");
        assert!(parse(&[flag]).is_ok(), "`{flag}` is documented but not accepted");
    }
    assert!(HELP.contains("--exit-after"));
    assert!(parse(&["--exit-after", "1"]).is_ok());
}

#[test]
fn the_diagnostic_flags_are_taken() {
    let o = options(&[
        "--select-all",
        "--select-one",
        "--paste",
        "--wheel-pans",
        "--open-dialog=about",
        "--show",
        "properties",
        "--show=find",
        "--demo",
        "kanban",
        "--screenshot=/tmp/a.png",
    ]);
    assert!(o.select_all && o.select_one && o.paste && o.wheel_pans);
    assert_eq!(o.open_dialog.as_deref(), Some("about"));
    assert_eq!(o.show, ["properties", "find"]);
    assert_eq!(o.demo.as_deref(), Some("kanban"));
    assert_eq!(o.screenshot.as_deref(), Some("/tmp/a.png"));
}

#[test]
fn whole_numbers_are_read_to_their_limit() {
    assert_eq!(whole("18446744073709551615", u64::MAX), Some(u64::MAX));
    assert_eq!(whole("18446744073709551616", u64::MAX), None);
    assert_eq!(whole("+7", u64::MAX), Some(7));
    assert_eq!(whole("007", u64::MAX), Some(7));
    for bad in ["", "+", "-1", "1.0", " 1", "1 ", "++1", "٣"] {
        assert_eq!(whole(bad, u64::MAX), None, "{bad}");
    }
    assert_eq!(whole("256", 255), None);
}

#[test]
fn a_blank_token_is_none() {
    assert_eq!(sync_token(None), None);
    assert_eq!(sync_token(Some("")), None);
    assert_eq!(sync_token(Some(" \t\n")), None);
    assert_eq!(sync_token(Some(" s3cret \n")).as_deref(), Some("s3cret"));
}
