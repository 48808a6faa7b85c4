//! Pointer, wheel and gestures, with a camera that does no more than pan and note a zoom.

use vellum_app::handle::Handle;
use vellum_app::input::{
    handle_cursor, CursorIcon, ElementState, Input, InputConfig, Intent, Key, Modifiers,
    MouseButton, Readings, Scroll, Tool, TouchPhase, CLICK_SLOP, DOUBLE_CLICK_WINDOW,
    INERTIA_CUTOFF,
};
use vellum_app::scalar::Scalar;

type Point = (f64, f64);

const CENTRE: Point = (800.0, 450.0);

fn scalar(value: f64) -> Scalar {
    Scalar { bits: value.to_bits() }
}

fn value(scalar: Scalar) -> f64 {
    f64::from_bits(scalar.bits)
}

fn distance(a: Point, b: Point) -> f64 {
    (a.0 - b.0).hypot(a.1 - b.1)
}

/// The input, a clock in milliseconds, and where the camera has got to.
struct Hands {
    input: Input<Point>,
    now: u64,
    centre: Point,
    zooms: Vec<bool>,
}

impl Hands {
    fn new() -> Hands {
        let mut input = Input::new(InputConfig::new(false), (0.0, 0.0));
        input.set_scale_factor(scalar(2.0));
        Hands { input, now: 0, centre: (0.0, 0.0), zooms: vec![] }
    }

    fn nanos(&self) -> u64 {
        self.now * 1_000_000
    }

    fn speed(&self) -> f64 {
        value(self.input.velocity_x).hypot(value(self.input.velocity_y))
    }

    fn pan(&mut self, dx: f64, dy: f64) {
        if !self.input.pans_by(scalar(dx), scalar(dy)) {
            return;
        }
        self.centre = (self.centre.0 - dx, self.centre.1 - dy);
        let gap = self
            .input
            .last_motion
            .map_or(1.0 / 120.0, |then| (self.nanos() - then) as f64 / 1e9)
            .clamp(1e-4, 0.5);
        let blend = 1.0 - (-gap / 0.05).exp();
        let (vx, vy) = (value(self.input.velocity_x), value(self.input.velocity_y));
        self.input.panned(
            scalar(vx + (dx / gap - vx) * blend),
            scalar(vy + (dy / gap - vy) * blend),
            self.nanos(),
        );
    }

    fn move_to(&mut self, x: f64, y: f64) -> Intent<Point> {
        let travelled = value(self.input.press_travel) + distance(self.input.cursor, (x, y));
        let motion = self.input.cursor_moved((x, y), scalar(travelled));
        if let Some(from) = motion.pan_from {
            self.pan(x - from.0, y - from.1);
        }
        motion.intent
    }

    fn button(&mut self, button: MouseButton, state: ElementState) -> Intent<Point> {
        let at = self.input.cursor(CENTRE);
        let from_last_click = self.input.last_click.map_or(0.0, |last| distance(last.place, at));
        let readings = Readings {
            centre: CENTRE,
            now: self.nanos(),
            from_last_click: scalar(from_last_click),
            speed: scalar(self.speed()),
        };
        self.input.mouse_input(button, state, readings)
    }

    fn press(&mut self, button: MouseButton) -> Intent<Point> {
        self.button(button, ElementState::Pressed)
    }

    fn release(&mut self, button: MouseButton) -> Intent<Point> {
        self.button(button, ElementState::Released)
    }

    fn wheel(&mut self, from_wheel: bool, dx: f64, dy: f64, phase: TouchPhase) -> Scroll {
        let speed = scalar(self.speed());
        let now = self.nanos();
        let scroll = self.input.wheel(from_wheel, scalar(dx), phase, now, speed);
        match scroll {
            Scroll::Nothing => {}
            Scroll::Zoom { notches } => self.zooms.push(notches),
            Scroll::Pan { sideways: true } => self.pan(dy, 0.0),
            Scroll::Pan { sideways: false } => self.pan(dx, dy),
        }
        scroll
    }

    fn tick(&mut self, frame_ms: u64) -> bool {
        let dt = (frame_ms as f64 / 1e3).clamp(0.0, 0.1);
        let (vx, vy) = (value(self.input.velocity_x), value(self.input.velocity_y));
        let decay = (-dt / 0.16).exp();
        let moves = self.input.tick(
            frame_ms * 1_000_000,
            scalar(vx * decay),
            scalar(vy * decay),
            scalar((vx * decay).hypot(vy * decay)),
        );
        if moves {
            self.centre = (self.centre.0 - vx * dt, self.centre.1 - vy * dt);
        }
        moves
    }

    fn configure(&mut self, change: impl FnOnce(&mut InputConfig)) {
        change(self.input.config_mut());
    }

    /// Throws the canvas with the middle button: `step` pixels every 8 ms, six times.
    fn throw(&mut self, step: f64) {
        self.move_to(0.0, 0.0);
        self.press(MouseButton::Middle);
        for n in 1..=6 {
            self.now += 8;
            self.move_to(step * f64::from(n), 0.0);
        }
        self.release(MouseButton::Middle);
    }
}

fn held(change: impl FnOnce(&mut Modifiers)) -> Modifiers {
    let mut modifiers = Modifiers::empty();
    change(&mut modifiers);
    modifiers
}

fn character(text: &str) -> Key {
    Key::Character(text.to_owned())
}

#[test]
fn the_thresholds_are_what_they_say() {
    assert_eq!(f64::from_bits(CLICK_SLOP), 5.0);
    assert_eq!(f64::from_bits(INERTIA_CUTOFF), 24.0);
    assert_eq!(DOUBLE_CLICK_WINDOW, 400_000_000);
}

#[test]
fn a_plain_left_drag_selects_and_never_pans() {
    let mut hands = Hands::new();
    hands.move_to(100.0, 100.0);
    let before = hands.centre;

    hands.press(MouseButton::Left);
    hands.move_to(400.0, 300.0);
    assert_eq!(hands.centre, before, "left-drag moved the camera");
    assert_eq!(hands.input.marquee(), Some(((100.0, 100.0), (400.0, 300.0))));

    let intent = hands.release(MouseButton::Left);
    assert_eq!(
        intent,
        Intent::Marquee { from: (100.0, 100.0), to: (400.0, 300.0), additive: false }
    );
    assert_eq!(hands.centre, before);
    assert!(hands.input.marquee().is_none(), "the marquee outlived the gesture");
}

#[test]
fn a_left_click_picks_on_press_and_a_wobble_does_not_sweep() {
    let mut hands = Hands::new();
    hands.move_to(640.0, 480.0);

    assert_eq!(
        hands.press(MouseButton::Left),
        Intent::Press { at: (640.0, 480.0), additive: false, double: false }
    );
    hands.input.resolve_press(false);
    hands.move_to(642.0, 481.0);

    assert_eq!(hands.release(MouseButton::Left), Intent::Nothing);
}

#[test]
fn shift_click_extends_the_selection() {
    let mut hands = Hands::new();
    hands.input.set_modifiers(held(|keys| keys.shift = true));
    hands.move_to(10.0, 10.0);

    assert_eq!(
        hands.press(MouseButton::Left),
        Intent::Press { at: (10.0, 10.0), additive: true, double: false }
    );
    assert!(hands.input.modifiers().shift);
}

#[test]
fn a_drag_from_an_item_moves_it_and_never_marquees() {
    let mut hands = Hands::new();
    hands.move_to(200.0, 200.0);
    let before = hands.centre;

    hands.press(MouseButton::Left);
    hands.input.resolve_press(true);

    // Under the threshold: nothing has moved yet.
    assert_eq!(hands.move_to(203.0, 200.0), Intent::Nothing);
    assert!(hands.input.marquee().is_none(), "a drag from an item swept a rectangle");

    assert_eq!(
        hands.move_to(260.0, 240.0),
        Intent::Move { from: (200.0, 200.0), to: (260.0, 240.0) }
    );
    assert!(hands.input.is_moving());
    assert_eq!(hands.centre, before, "moving an item moved the camera");

    assert_eq!(hands.release(MouseButton::Left), Intent::MoveEnd { moved: true });
    assert!(!hands.input.is_moving());
}

#[test]
fn a_move_reports_the_offset_from_the_press_not_from_the_last_sample() {
    let mut hands = Hands::new();
    hands.move_to(0.0, 0.0);
    hands.press(MouseButton::Left);
    hands.input.resolve_press(true);

    for step in 1..=100 {
        let intent = hands.move_to(f64::from(step), 0.0);
        if step > 5 {
            assert_eq!(intent, Intent::Move { from: (0.0, 0.0), to: (f64::from(step), 0.0) });
        } else {
            assert_eq!(intent, Intent::Nothing);
        }
    }
}

#[test]
fn pressing_an_item_without_moving_commits_nothing() {
    let mut hands = Hands::new();
    hands.move_to(50.0, 50.0);
    hands.press(MouseButton::Left);
    hands.input.resolve_press(true);
    hands.move_to(52.0, 51.0);

    assert_eq!(hands.release(MouseButton::Left), Intent::MoveEnd { moved: false });
}

#[test]
fn an_unresolved_press_falls_back_to_a_marquee() {
    let mut hands = Hands::new();
    hands.move_to(0.0, 0.0);
    hands.press(MouseButton::Left);
    hands.move_to(100.0, 100.0);

    assert!(hands.input.marquee().is_some());
    assert!(matches!(hands.release(MouseButton::Left), Intent::Marquee { .. }));
}

#[test]
fn escape_abandons_a_drag_and_reports_whether_there_was_one() {
    let mut hands = Hands::new();
    assert!(!hands.input.cancel_gesture(), "nothing was in flight");

    hands.move_to(0.0, 0.0);
    hands.press(MouseButton::Left);
    hands.input.resolve_press(true);
    hands.move_to(90.0, 0.0);
    assert!(hands.input.is_gesturing());

    assert!(hands.input.cancel_gesture());
    assert!(!hands.input.is_moving());
    assert_eq!(hands.release(MouseButton::Left), Intent::Nothing);
}

#[test]
fn a_placement_tool_drags_out_a_box_rather_than_a_marquee() {
    let mut hands = Hands::new();
    hands.input.set_tool(Tool::Place);
    hands.move_to(100.0, 100.0);

    // The press is the first sample: a pen starts where the nib was put down.
    assert_eq!(hands.press(MouseButton::Left), Intent::PlaceSample { at: (100.0, 100.0) });
    assert_eq!(hands.move_to(400.0, 300.0), Intent::PlaceSample { at: (400.0, 300.0) });
    assert!(hands.input.marquee().is_none(), "a create tool swept a selection rectangle");
    assert_eq!(hands.input.placement(), Some(((100.0, 100.0), (400.0, 300.0))));

    assert_eq!(
        hands.release(MouseButton::Left),
        Intent::Place { at: (100.0, 100.0), to: (400.0, 300.0) }
    );
}

#[test]
fn a_placement_tool_click_places_at_one_point() {
    let mut hands = Hands::new();
    hands.input.set_tool(Tool::Place);
    hands.move_to(640.0, 360.0);
    hands.press(MouseButton::Left);

    let at = (640.0, 360.0);
    assert_eq!(hands.release(MouseButton::Left), Intent::Place { at, to: at });
}

#[test]
fn a_placement_tool_still_pans_with_space_and_the_middle_button() {
    let mut hands = Hands::new();
    hands.input.set_tool(Tool::Place);
    hands.move_to(0.0, 0.0);
    hands.press(MouseButton::Middle);
    hands.move_to(40.0, 0.0);
    assert_eq!(hands.centre.0, -40.0);
    assert!(hands.input.placement().is_none());
}

#[test]
fn only_a_pending_press_becomes_a_placement() {
    let mut hands = Hands::new();
    hands.move_to(5.0, 6.0);
    hands.press(MouseButton::Left);
    hands.input.begin_placement();
    assert_eq!(hands.input.placement(), Some(((5.0, 6.0), (5.0, 6.0))));
    hands.release(MouseButton::Left);

    hands.press(MouseButton::Left);
    hands.input.resolve_press(true);
    hands.input.begin_placement();
    assert!(hands.input.placement().is_none(), "a move under way was hijacked");
}

#[test]
fn two_quick_clicks_in_the_same_place_are_a_double_click() {
    let mut hands = Hands::new();
    hands.move_to(300.0, 300.0);

    let first = hands.press(MouseButton::Left);
    assert!(matches!(first, Intent::Press { double: false, .. }));
    assert_eq!(hands.input.click_run(), 1);
    hands.input.resolve_press(true);
    hands.release(MouseButton::Left);

    hands.now = 180;
    let second = hands.press(MouseButton::Left);
    assert!(matches!(second, Intent::Press { double: true, .. }), "{second:?}");
    hands.input.resolve_press(true);
    hands.release(MouseButton::Left);

    // Three clicks are not two double clicks: the pair is consumed.
    hands.now = 340;
    let third = hands.press(MouseButton::Left);
    assert!(matches!(third, Intent::Press { double: false, .. }), "{third:?}");
    assert_eq!(hands.input.click_run(), 3);
}

#[test]
fn two_slow_or_distant_clicks_are_two_single_clicks() {
    for (delay, at) in [(900, (300.0, 300.0)), (100, (400.0, 300.0))] {
        let mut hands = Hands::new();
        hands.move_to(300.0, 300.0);
        hands.press(MouseButton::Left);
        hands.input.resolve_press(true);
        hands.release(MouseButton::Left);

        hands.now = delay;
        hands.move_to(at.0, at.1);
        let second = hands.press(MouseButton::Left);
        assert!(matches!(second, Intent::Press { double: false, .. }), "{second:?}");
    }
}

#[test]
fn space_drag_pans_and_releasing_space_ends_it() {
    let mut hands = Hands::new();
    hands.move_to(200.0, 200.0);
    assert!(hands.input.key(&Key::Space, ElementState::Pressed));
    assert!(hands.input.pan_armed());

    hands.press(MouseButton::Left);
    assert!(hands.input.is_panning());
    hands.move_to(300.0, 260.0);
    assert_eq!(hands.centre, (-100.0, -60.0));
    assert!(hands.input.marquee().is_none(), "space-drag started a marquee");

    hands.input.key(&Key::Space, ElementState::Released);
    let after_release = hands.centre;
    hands.move_to(900.0, 900.0);
    assert_eq!(hands.centre, after_release, "the pan continued after space came up");
}

#[test]
fn middle_drag_pans_without_any_modifier() {
    let mut hands = Hands::new();
    hands.move_to(0.0, 0.0);
    hands.press(MouseButton::Middle);
    hands.move_to(40.0, -25.0);

    assert_eq!(hands.centre, (-40.0, 25.0));
    assert!(hands.input.marquee().is_none());
}

#[test]
fn the_hand_tool_makes_left_drag_pan() {
    let mut hands = Hands::new();
    hands.input.key(&character("h"), ElementState::Pressed);
    assert_eq!(hands.input.tool(), Tool::Hand);

    hands.move_to(0.0, 0.0);
    hands.press(MouseButton::Left);
    hands.move_to(100.0, 0.0);
    assert_eq!(hands.centre, (-100.0, 0.0));

    hands.input.key(&character("v"), ElementState::Pressed);
    assert_eq!(hands.input.tool(), Tool::Select);
    assert!(!hands.input.key(&character("x"), ElementState::Pressed));
    assert!(!hands.input.key(&character("H"), ElementState::Released));
    assert!(!hands.input.key(&Key::Other, ElementState::Pressed));
    assert_eq!(hands.input.tool(), Tool::Select);
}

#[test]
fn a_command_chord_is_never_a_tool_shortcut() {
    let mut hands = Hands::new();
    hands.input.set_modifiers(held(|keys| keys.command = true));

    hands.input.set_tool(Tool::Hand);
    assert!(!hands.input.key(&character("v"), ElementState::Pressed));
    assert_eq!(hands.input.tool(), Tool::Hand);

    hands.input.set_tool(Tool::Select);
    assert!(!hands.input.key(&character("h"), ElementState::Pressed));
    assert_eq!(hands.input.tool(), Tool::Select);
}

#[test]
fn shift_scroll_pans_sideways_on_a_one_axis_wheel() {
    let mut hands = Hands::new();
    hands.input.set_modifiers(held(|keys| keys.shift = true));
    hands.wheel(true, 0.0, 80.0, TouchPhase::Moved);

    assert_eq!(hands.centre.1, 0.0, "a shift-scroll moved vertically");
    assert!(hands.centre.0 < 0.0, "a shift-scroll did not move horizontally");
}

#[test]
fn nonsense_pinch_deltas_are_ignored() {
    let hands = Hands::new();
    assert!(!hands.input.pinch(scalar(f64::NAN)));
    assert!(!hands.input.pinch(scalar(f64::INFINITY)));
    assert!(hands.input.pinch(scalar(0.3)));
}

#[test]
fn nonsense_pan_deltas_are_ignored() {
    let mut hands = Hands::new();
    hands.wheel(false, f64::NAN, 1.0, TouchPhase::Moved);
    hands.wheel(false, 1.0, f64::NEG_INFINITY, TouchPhase::Moved);
    assert_eq!(hands.centre, (0.0, 0.0));
    assert!(hands.input.last_motion.is_none());
}

#[test]
fn zoom_before_the_pointer_is_known_anchors_on_the_viewport_centre() {
    let mut hands = Hands::new();
    hands.input.set_modifiers(held(|keys| keys.control = true));
    assert_eq!(
        hands.wheel(false, 0.0, 200.0, TouchPhase::Moved),
        Scroll::Zoom { notches: false }
    );
    assert_eq!(hands.input.cursor(CENTRE), CENTRE);
    hands.input.note_cursor((3.0, 4.0));
    assert_eq!(hands.input.cursor(CENTRE), (3.0, 4.0));
}

#[test]
fn a_flick_glides_on_after_the_button_comes_up_and_then_stops() {
    let mut hands = Hands::new();
    hands.configure(|config| config.drag_inertia = true);
    hands.throw(100.0);
    let released = hands.centre.0;

    let mut frames = 0;
    while hands.tick(8) {
        frames += 1;
        assert!(frames < 500, "the glide never stopped");
    }

    assert!(frames > 5, "the glide lasted only {frames} frames");
    assert!(hands.centre.0 < released, "the glide did not continue the drag's direction");
    assert!(!hands.tick(8));
}

#[test]
fn pressing_a_button_cancels_a_glide() {
    let mut hands = Hands::new();
    hands.configure(|config| config.drag_inertia = true);
    hands.throw(120.0);
    assert!(hands.tick(8));
    assert!(!hands.tick(0), "no time, no way");

    hands.press(MouseButton::Left);
    let before = hands.centre;
    assert!(!hands.tick(8));
    assert_eq!(hands.centre, before);
}

#[test]
fn releasing_a_stationary_drag_does_not_glide() {
    let mut hands = Hands::new();
    hands.configure(|config| config.drag_inertia = true);
    hands.move_to(0.0, 0.0);
    hands.press(MouseButton::Middle);
    hands.now = 200;
    hands.move_to(3.0, 0.0);
    hands.release(MouseButton::Middle);
    assert!(!hands.tick(8));

    // And neither does a fast one that has been held still since.
    hands.press(MouseButton::Middle);
    hands.now += 8;
    hands.move_to(200.0, 0.0);
    hands.now += 81;
    hands.release(MouseButton::Middle);
    assert!(!hands.tick(8));
}

#[test]
fn inertia_can_be_switched_off() {
    let mut hands = Hands::new();
    hands.configure(|config| config.drag_inertia = false);
    hands.throw(150.0);
    assert!(!hands.tick(8));
}

#[test]
fn platform_momentum_suppresses_our_own_glide() {
    let mut hands = Hands::new();
    hands.configure(|config| config.scroll_inertia = true);

    hands.wheel(false, 0.0, 0.0, TouchPhase::Started);
    for step in 1..=6 {
        hands.now = 8 * step;
        hands.wheel(false, 0.0, 100.0, TouchPhase::Moved);
    }
    hands.now = 56;
    hands.wheel(false, 0.0, 100.0, TouchPhase::Ended);

    // The window server takes over within a frame. The glide has to give way.
    hands.now = 64;
    hands.wheel(false, 0.0, 80.0, TouchPhase::Started);
    assert!(!hands.tick(8), "our glide survived the platform taking over");
    for step in 1..=6 {
        hands.now = 64 + 8 * step;
        hands.wheel(false, 0.0, 40.0, TouchPhase::Moved);
    }
    hands.now = 120;
    hands.wheel(false, 0.0, 10.0, TouchPhase::Ended);

    assert!(!hands.tick(8), "glided on after the platform's own momentum finished");
}

#[test]
fn a_scroll_flick_glides_where_the_platform_sends_no_momentum() {
    let mut hands = Hands::new();
    hands.configure(|config| config.scroll_inertia = true);

    hands.wheel(false, 0.0, 0.0, TouchPhase::Started);
    for step in 1..=6 {
        hands.now = 8 * step;
        hands.wheel(false, 0.0, 100.0, TouchPhase::Moved);
    }
    hands.now = 56;
    assert_eq!(hands.wheel(false, 0.0, 100.0, TouchPhase::Ended), Scroll::Nothing);

    assert!(hands.tick(8), "the flick stopped dead");
}

#[test]
fn a_drag_that_leaves_the_window_does_not_resume_with_a_jump() {
    let mut hands = Hands::new();
    hands.move_to(100.0, 100.0);
    hands.press(MouseButton::Middle);
    hands.move_to(120.0, 100.0);
    let left_at = hands.centre;

    hands.input.cursor_left();
    hands.move_to(1500.0, 800.0);
    assert_eq!(hands.centre, left_at, "re-entering the window flung the board");
}

#[test]
fn a_right_button_release_does_not_end_a_middle_drag() {
    let mut hands = Hands::new();
    hands.move_to(0.0, 0.0);
    hands.press(MouseButton::Middle);
    hands.release(MouseButton::Right);
    assert!(hands.input.is_panning());

    hands.move_to(50.0, 0.0);
    assert_eq!(hands.centre.0, -50.0);
}

#[test]
fn the_default_configuration_matches_the_platform_momentum_story() {
    for platform_momentum in [false, true] {
        let config = InputConfig::new(platform_momentum);
        assert!(!config.drag_inertia, "a mouse has no momentum to model");
        assert_eq!(config.scroll_inertia, !platform_momentum);
        assert_eq!(value(config.pan_sensitivity), 1.0, "the default must track the fingers");
    }
}

#[test]
fn a_wheel_zooms_but_a_trackpad_pans() {
    let mut hands = Hands::new();
    hands.move_to(100.0, 100.0);
    assert_eq!(
        hands.wheel(true, 0.0, 80.0, TouchPhase::Moved),
        Scroll::Zoom { notches: true },
        "a wheel notch should zoom"
    );

    let mut hands = Hands::new();
    hands.move_to(100.0, 100.0);
    hands.wheel(false, 0.0, 40.0, TouchPhase::Moved);
    assert!(hands.zooms.is_empty(), "two fingers must not zoom");
    assert_ne!(hands.centre, (0.0, 0.0), "they pan");
}

#[test]
fn shift_wheel_still_pans_horizontally() {
    let mut hands = Hands::new();
    hands.move_to(100.0, 100.0);
    hands.input.set_modifiers(held(|keys| keys.shift = true));
    hands.wheel(true, 0.0, 80.0, TouchPhase::Moved);

    assert!(hands.zooms.is_empty(), "shift+wheel must pan, not zoom");
    assert_ne!(hands.centre.0, 0.0, "and it must move the x axis");
    assert_eq!(hands.centre.1, 0.0);
    // A scroll that has a horizontal part of its own keeps it.
    assert_eq!(
        hands.wheel(false, 3.0, 4.0, TouchPhase::Moved),
        Scroll::Pan { sideways: false }
    );
}

#[test]
fn wheel_zoom_can_be_switched_off() {
    let mut hands = Hands::new();
    hands.configure(|config| config.wheel_zooms = false);
    hands.move_to(100.0, 100.0);
    hands.wheel(true, 0.0, 80.0, TouchPhase::Moved);
    assert!(hands.zooms.is_empty());
    assert_ne!(hands.centre.1, 0.0, "it falls back to panning");
}

#[test]
fn the_right_button_pans_like_the_middle_one() {
    for button in [MouseButton::Middle, MouseButton::Right] {
        let mut hands = Hands::new();
        hands.move_to(0.0, 0.0);
        hands.press(button);
        assert!(hands.input.is_panning(), "{button:?} should grab the canvas");
        hands.move_to(40.0, -25.0);
        assert_eq!(hands.centre, (-40.0, 25.0), "{button:?} did not pan");
        hands.release(button);
        assert!(!hands.input.is_panning());
        assert!(hands.input.marquee().is_none(), "{button:?} must never marquee");
    }
}

#[test]
fn a_right_drag_pans_without_opening_a_menu() {
    let hands = Hands::new();
    assert!(
        hands.input.opens_context_menu(MouseButton::Right, scalar(0.0)),
        "a right click that did not move is a menu"
    );
    assert!(
        !hands.input.opens_context_menu(MouseButton::Right, scalar(6.0)),
        "a right drag is a pan, not a menu"
    );
    assert!(!hands.input.opens_context_menu(MouseButton::Left, scalar(0.0)));
}

#[test]
fn a_right_click_opens_the_menu_on_release() {
    let mut hands = Hands::new();
    hands.move_to(30.0, 40.0);
    assert_eq!(hands.press(MouseButton::Right), Intent::Nothing);
    hands.move_to(33.0, 40.0);
    assert_eq!(hands.release(MouseButton::Right), Intent::ContextMenu { at: (33.0, 40.0) });

    hands.press(MouseButton::Right);
    hands.move_to(39.0, 40.0);
    assert_eq!(hands.release(MouseButton::Right), Intent::Nothing);
    assert_eq!(hands.press(MouseButton::Back), Intent::Nothing);
    assert!(!hands.input.is_panning());
}

#[test]
fn a_nonsense_scale_is_ignored() {
    let mut hands = Hands::new();
    for bad in [0.0, -1.0, f64::NAN, f64::INFINITY] {
        hands.input.set_scale_factor(scalar(bad));
        assert_eq!(value(hands.input.scale_factor), 2.0);
    }
    hands.input.set_scale_factor(scalar(1.5));
    assert_eq!(value(hands.input.scale_factor), 1.5);
}

#[test]
fn the_cursor_reports_what_the_next_click_will_do() {
    let mut hands = Hands::new();
    assert_eq!(hands.input.cursor_icon(None), CursorIcon::Default);

    hands.input.key(&Key::Space, ElementState::Pressed);
    assert_eq!(hands.input.cursor_icon(None), CursorIcon::Grab, "space arms a pan");

    hands.press(MouseButton::Middle);
    assert_eq!(hands.input.cursor_icon(None), CursorIcon::Grabbing, "mid-pan");
    hands.release(MouseButton::Middle);

    hands.input.key(&Key::Space, ElementState::Released);
    hands.move_to(0.0, 0.0);
    hands.press(MouseButton::Left);
    hands.input.resolve_press(false);
    hands.move_to(60.0, 60.0);
    assert_eq!(hands.input.cursor_icon(None), CursorIcon::Crosshair, "marquee in flight");

    let mut armed = Hands::new();
    armed.input.set_tool(Tool::Place);
    assert_eq!(armed.input.cursor_icon(None), CursorIcon::Crosshair, "a create tool is armed");

    let mut dragging = Hands::new();
    dragging.move_to(0.0, 0.0);
    dragging.press(MouseButton::Left);
    dragging.input.resolve_press(true);
    dragging.move_to(60.0, 60.0);
    assert_eq!(dragging.input.cursor_icon(None), CursorIcon::Move, "a move in flight");
}

#[test]
fn every_grip_names_its_direction() {
    assert_eq!(handle_cursor(Handle::TopLeft), CursorIcon::NwseResize);
    assert_eq!(handle_cursor(Handle::BottomRight), CursorIcon::NwseResize);
    assert_eq!(handle_cursor(Handle::TopRight), CursorIcon::NeswResize);
    assert_eq!(handle_cursor(Handle::BottomLeft), CursorIcon::NeswResize);
    assert_ne!(
        handle_cursor(Handle::TopLeft),
        handle_cursor(Handle::TopRight),
        "the two diagonals must not share an arrow"
    );
    assert_eq!(handle_cursor(Handle::Top), CursorIcon::NsResize);
    assert_eq!(handle_cursor(Handle::Left), CursorIcon::EwResize);
    assert_eq!(handle_cursor(Handle::Rotate), CursorIcon::Grab);
}

#[test]
fn a_grip_outranks_the_move_gesture_it_is_made_of() {
    let mut hands = Hands::new();
    hands.move_to(100.0, 100.0);
    hands.press(MouseButton::Left);
    hands.input.resolve_press(true);

    assert_eq!(
        hands.input.cursor_icon(None),
        CursorIcon::Move,
        "no grip: an ordinary move in flight still says Move"
    );
    assert_eq!(
        hands.input.cursor_icon(Some(Handle::BottomRight)),
        CursorIcon::NwseResize,
        "a grip in flight must not report Move"
    );
}

#[test]
fn a_pan_still_wins() {
    let mut hands = Hands::new();
    hands.move_to(100.0, 100.0);
    hands.press(MouseButton::Middle);
    assert_eq!(hands.input.cursor_icon(Some(Handle::Top)), CursorIcon::Grabbing);
}

#[test]
fn only_a_press_that_continues_a_run_counts_up() {
    let mut hands = Hands::new();
    hands.move_to(10.0, 10.0);
    hands.press(MouseButton::Left);
    hands.release(MouseButton::Left);
    hands.input.clicks = u32::MAX;
    let readings = |now: u64| Readings {
        centre: CENTRE,
        now,
        from_last_click: scalar(0.0),
        speed: scalar(0.0),
    };
    assert!(hands.input.counts_up(MouseButton::Left, readings(0)));
    assert!(!hands.input.counts_up(MouseButton::Middle, readings(0)));
    assert!(!hands.input.counts_up(MouseButton::Left, readings(DOUBLE_CLICK_WINDOW + 1)));
    hands.press(MouseButton::Right);
    hands.release(MouseButton::Right);
    hands.now = 500;
    assert!(matches!(hands.press(MouseButton::Left), Intent::Press { double: false, .. }));
    assert_eq!(hands.input.click_run(), 1);
}
