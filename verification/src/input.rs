//! Pointer, wheel and gesture handling: what the hands do, and what is to be done about it.
//!
//! | Gesture | Does |
//! |---|---|
//! | Left press on an item | Select it, and arm a move |
//! | Left drag from an item | Move the selection |
//! | Left drag on empty canvas | Marquee select, never pan |
//! | Space + drag, middle drag, right drag, `H` then drag | Pan |
//! | Two-finger trackpad scroll | Pan |
//! | Mouse wheel | Zoom about the pointer |
//! | Pinch, or command + scroll | Zoom about the pointer |
//! | Shift + wheel | Pan horizontally |
//!
//! [`Input`] is the state machine behind that table. It carries points of the screen without
//! computing with them, so it is generic over what a point is; a distance or a speed that a
//! rule depends on arrives measured, as a [`Scalar`]. Times are nanoseconds of a clock that
//! does not go back.

use vstd::prelude::*;

use crate::handle::Handle;
use crate::scalar::{Scalar, ONE, ZERO};
use crate::text::same;

verus! {

/// A pointer that moved no more than this between press and release was a click. The bits
/// of 5.0 physical pixels; a double click's two halves may be as far apart.
pub const CLICK_SLOP: u64 = 0x4014_0000_0000_0000;

/// Speed below which a glide is over: the bits of 24.0 physical pixels per second.
pub const INERTIA_CUTOFF: u64 = 0x4038_0000_0000_0000;

/// Longest gap between two clicks that still reads as a double click.
pub const DOUBLE_CLICK_WINDOW: u64 = 400_000_000;

/// How soon after a scroll sequence ends a new one must start to be the platform's momentum.
pub const MOMENTUM_HANDOVER: u64 = 80_000_000;

/// A hand that has not moved for longer than this has stopped, and throws nothing.
pub const STALE_MOTION: u64 = 80_000_000;

/// How the input maps onto the camera.
#[derive(Clone, Copy, Debug, PartialEq, Eq, Structural)]
pub struct InputConfig {
    /// Multiplies scroll and drag panning. 1.0 tracks the fingers exactly.
    pub pan_sensitivity: Scalar,
    /// Multiplies the zoom exponent, for both wheel and pinch.
    pub zoom_sensitivity: Scalar,
    pub invert_pan: bool,
    pub invert_zoom: bool,
    /// Glide after a drag-pan is released. Off by default: a mouse has no momentum.
    pub drag_inertia: bool,
    /// Whether a mouse wheel notch zooms rather than pans.
    pub wheel_zooms: bool,
    /// Glide after a two-finger scroll stops.
    pub scroll_inertia: bool,
}

impl InputConfig {
    /// The defaults, on a platform that sends its own scroll momentum or on one that sends
    /// none. Gliding on top of the platform's momentum would double every throw.
    pub fn new(platform_momentum: bool) -> (config: InputConfig)
        ensures
            config == (InputConfig {
                pan_sensitivity: Scalar { bits: ONE },
                zoom_sensitivity: Scalar { bits: ONE },
                invert_pan: false,
                invert_zoom: false,
                drag_inertia: false,
                wheel_zooms: true,
                scroll_inertia: !platform_momentum,
            }),
    {
        InputConfig {
            pan_sensitivity: Scalar { bits: ONE },
            zoom_sensitivity: Scalar { bits: ONE },
            invert_pan: false,
            invert_zoom: false,
            drag_inertia: false,
            wheel_zooms: true,
            scroll_inertia: !platform_momentum,
        }
    }
}

/// Which tool the pointer is holding.
#[derive(Clone, Copy, Debug, PartialEq, Eq, Structural)]
pub enum Tool {
    /// `V`: select, marquee, drag items.
    Select,
    /// `H`: left-drag pans.
    Hand,
    /// Any tool whose click creates something.
    Place,
}

#[derive(Clone, Copy, Debug, PartialEq, Eq, Structural)]
pub enum MouseButton {
    Left,
    Right,
    Middle,
    Back,
    Forward,
    Other(u16),
}

#[derive(Clone, Copy, Debug, PartialEq, Eq, Structural)]
pub enum ElementState {
    Pressed,
    Released,
}

#[derive(Clone, Copy, Debug, PartialEq, Eq, Structural)]
pub enum TouchPhase {
    Started,
    Moved,
    Ended,
    Cancelled,
}

/// The modifier keys that are down.
#[derive(Clone, Copy, Debug, PartialEq, Eq, Structural)]
pub struct Modifiers {
    pub shift: bool,
    pub control: bool,
    pub alt: bool,
    pub command: bool,
}

impl Modifiers {
    /// Nothing held.
    pub fn empty() -> (modifiers: Modifiers)
        ensures
            modifiers == (Modifiers { shift: false, control: false, alt: false, command: false }),
    {
        Modifiers { shift: false, control: false, alt: false, command: false }
    }

    /// Control and the command key both: a chord is a chord on either keyboard.
    pub open spec fn chord(self) -> bool {
        self.command || self.control
    }

    /// Whether a click extends the selection rather than replacing it.
    pub open spec fn extends(self) -> bool {
        self.shift || self.chord()
    }
}

/// A key, as far as the pointer cares.
#[derive(Clone, Debug)]
pub enum Key {
    Space,
    Character(String),
    Other,
}

/// The pointer's shape.
#[derive(Clone, Copy, Debug, PartialEq, Eq, Structural)]
pub enum CursorIcon {
    Default,
    Grab,
    Grabbing,
    Crosshair,
    Move,
    NwseResize,
    NeswResize,
    NsResize,
    EwResize,
}

/// What a pointer gesture is currently doing.
#[derive(Clone, Copy, Debug, PartialEq, Eq)]
pub enum Gesture<P> {
    Idle,
    /// Dragging the canvas. `last` is the previous pointer position.
    Pan { button: MouseButton, last: P },
    /// A left press whose meaning the application has not settled yet.
    Pending { origin: P, additive: bool },
    /// Sweeping out a selection rectangle.
    Marquee { origin: P, current: P, additive: bool },
    /// Dragging the selection. `moved` records whether the threshold was ever crossed.
    Move { origin: P, current: P, moved: bool },
    /// A placement tool sweeping out the new item's box.
    Place { origin: P, current: P },
}

/// What the application has to do about a gesture, beyond moving the camera.
#[derive(Clone, Copy, Debug, PartialEq, Eq)]
pub enum Intent<P> {
    /// Nothing but the camera moved.
    Nothing,
    /// The left button went down on the canvas. The application picks whatever is under
    /// `at` and answers with [`Input::resolve_press`].
    Press { at: P, additive: bool, double: bool },
    /// The selection is being dragged. Both points come from the same press.
    Move { from: P, to: P },
    /// The drag ended. `moved` is false when the pointer never crossed the threshold.
    MoveEnd { moved: bool },
    /// A marquee finished.
    Marquee { from: P, to: P, additive: bool },
    /// A placement tool was released: opposite corners, or one point twice for a click.
    Place { at: P, to: P },
    /// One pointer sample during a placing drag.
    PlaceSample { at: P },
    /// The right button came up without the pointer having moved.
    ContextMenu { at: P },
}

/// What a motion of the pointer asks for.
#[derive(Clone, Copy, Debug, PartialEq, Eq)]
pub struct Motion<P> {
    pub intent: Intent<P>,
    /// The canvas is being dragged: pan the camera by the way from here to the new position.
    pub pan_from: Option<P>,
}

/// What a scroll asks for.
#[derive(Clone, Copy, Debug, PartialEq, Eq, Structural)]
pub enum Scroll {
    /// Nothing: the sequence ended.
    Nothing,
    /// Zoom about the pointer. By notches for a wheel, by pixels for anything else.
    Zoom { notches: bool },
    /// Pan by the scroll. Sideways swaps a vertical scroll onto the horizontal axis.
    Pan { sideways: bool },
}

/// What is measured at the moment a button goes down or up.
#[derive(Clone, Copy, Debug, PartialEq, Eq)]
pub struct Readings<P> {
    /// The viewport's centre, where the pointer counts as being until it has been seen.
    pub centre: P,
    /// The time.
    pub now: u64,
    /// How far the pointer is from where the last left click landed. Read only when there
    /// was one.
    pub from_last_click: Scalar,
    /// How fast the canvas is being thrown.
    pub speed: Scalar,
}

/// When and where a left click landed.
#[derive(Clone, Copy, Debug, PartialEq, Eq)]
pub struct Click<P> {
    pub when: u64,
    pub place: P,
}

/// The pointer, the modifiers, and the gesture in flight.
#[derive(Clone, Copy, Debug)]
pub struct Input<P> {
    pub config: InputConfig,
    pub modifiers: Modifiers,
    pub cursor: P,
    pub cursor_known: bool,
    pub space_held: bool,
    pub tool: Tool,
    pub gesture: Gesture<P>,
    /// How far the pointer has travelled since it went down.
    pub press_travel: Scalar,
    /// Set while a glide is running.
    pub gliding: bool,
    /// How fast the canvas is moving, one number per axis. Zero when nothing was thrown.
    pub velocity_x: Scalar,
    pub velocity_y: Scalar,
    /// Whether the scroll sequence in flight is the platform's own momentum.
    pub scroll_momentum: bool,
    /// When the last scroll sequence ended.
    pub scroll_ended_at: Option<u64>,
    pub last_motion: Option<u64>,
    /// When and where the last left click landed.
    pub last_click: Option<Click<P>>,
    /// How many presses in the current run of clicks.
    pub clicks: u32,
    /// Physical pixels per logical pixel. Rates only, never positions.
    pub scale_factor: Scalar,
}

/// How long after `then` it is at `now`, never less than nothing.
pub open spec fn since(now: u64, then: u64) -> int {
    if now >= then {
        now - then
    } else {
        0
    }
}

fn elapsed(now: u64, then: u64) -> (gap: u64)
    ensures
        gap == since(now, then),
{
    if now >= then {
        now - then
    } else {
        0
    }
}

/// Whether a distance is that of a click rather than a drag.
pub open spec fn within_slop(distance: Scalar) -> bool {
    distance.below(Scalar { bits: CLICK_SLOP }) || distance.equal_to(
        Scalar { bits: CLICK_SLOP },
    )
}

fn is_click(distance: Scalar) -> (answer: bool)
    ensures
        answer == within_slop(distance),
{
    distance.lt(Scalar { bits: CLICK_SLOP }) || distance.equals(Scalar { bits: CLICK_SLOP })
}

/// The double-headed arrow that names which way a grip resizes.
pub open spec fn cursor_of_handle(handle: Handle) -> CursorIcon {
    match handle {
        Handle::TopLeft => CursorIcon::NwseResize,
        Handle::BottomRight => CursorIcon::NwseResize,
        Handle::TopRight => CursorIcon::NeswResize,
        Handle::BottomLeft => CursorIcon::NeswResize,
        Handle::Top => CursorIcon::NsResize,
        Handle::Bottom => CursorIcon::NsResize,
        Handle::Left => CursorIcon::EwResize,
        Handle::Right => CursorIcon::EwResize,
        Handle::Rotate => CursorIcon::Grab,
    }
}

/// The double-headed arrow that names which way a grip resizes. Rotate gets a hand: it is
/// a thing to take hold of.
pub fn handle_cursor(handle: Handle) -> (icon: CursorIcon)
    ensures
        icon == cursor_of_handle(handle),
{
    match handle {
        Handle::TopLeft | Handle::BottomRight => CursorIcon::NwseResize,
        Handle::TopRight | Handle::BottomLeft => CursorIcon::NeswResize,
        Handle::Top | Handle::Bottom => CursorIcon::NsResize,
        Handle::Left | Handle::Right => CursorIcon::EwResize,
        Handle::Rotate => CursorIcon::Grab,
    }
}

impl<P: Copy> Input<P> {
    // ----- what the state means --------------------------------------------------------

    /// Whether a pan would start on the next left press.
    pub open spec fn armed(self) -> bool {
        self.space_held || self.tool == Tool::Hand
    }

    /// Whether pressing `button` grabs the canvas.
    pub open spec fn grabs(self, button: MouseButton) -> bool {
        match button {
            MouseButton::Middle => true,
            MouseButton::Right => true,
            MouseButton::Left => self.armed(),
            _ => false,
        }
    }

    /// Whether a left gesture that touches the document is in flight.
    pub open spec fn busy(self) -> bool {
        !(self.gesture is Idle || self.gesture is Pan)
    }

    /// Where the pointer is, given the viewport's centre.
    pub open spec fn place(self, centre: P) -> P {
        if self.cursor_known {
            self.cursor
        } else {
            centre
        }
    }

    /// Whether a left press now is one more of a run of clicks.
    pub open spec fn continues_run(self, readings: Readings<P>) -> bool {
        self.last_click is Some && since(readings.now, self.last_click->0.when)
            <= DOUBLE_CLICK_WINDOW && within_slop(readings.from_last_click)
    }

    /// Whether a press now adds one to a run of clicks: a left press that picks, close enough
    /// to the last in time and place.
    pub open spec fn counts(self, button: MouseButton, readings: Readings<P>) -> bool {
        button == MouseButton::Left && !self.armed() && self.tool != Tool::Place
            && self.continues_run(readings)
    }

    /// The state with any glide stopped.
    pub open spec fn still(self) -> Input<P> {
        Input {
            gliding: false,
            velocity_x: Scalar { bits: ZERO },
            velocity_y: Scalar { bits: ZERO },
            last_motion: None,
            ..self
        }
    }

    /// The state after a throw at `speed`: it glides only if the hand was still moving, and
    /// fast enough.
    pub open spec fn thrown(self, now: u64, speed: Scalar) -> Input<P> {
        if self.last_motion is None || since(now, self.last_motion->0) > STALE_MOTION
            || speed.below(Scalar { bits: INERTIA_CUTOFF }) {
            self.still()
        } else {
            Input { gliding: true, ..self }
        }
    }

    /// The state as soon as any button goes down: nothing glides, the gesture's clock
    /// starts, and no way has been travelled.
    pub open spec fn grabbed(self, now: u64) -> Input<P> {
        Input { last_motion: Some(now), press_travel: Scalar { bits: ZERO }, ..self.still() }
    }

    /// The state after a press, and what it asks for.
    pub open spec fn after_press(self, button: MouseButton, readings: Readings<P>) -> (
        Input<P>,
        Intent<P>,
    ) {
        let at = self.place(readings.centre);
        let held = self.grabbed(readings.now);
        if self.grabs(button) {
            (Input { gesture: Gesture::Pan { button, last: at }, ..held }, Intent::Nothing)
        } else if button != MouseButton::Left {
            (Input { gesture: Gesture::Idle, ..held }, Intent::Nothing)
        } else if self.tool == Tool::Place {
            (
                Input { gesture: Gesture::Place { origin: at, current: at }, ..held },
                Intent::PlaceSample { at },
            )
        } else {
            let clicks = if self.continues_run(readings) {
                (self.clicks + 1) as u32
            } else {
                1
            };
            (
                Input {
                    clicks,
                    last_click: Some(Click { when: readings.now, place: at }),
                    gesture: Gesture::Pending { origin: at, additive: self.modifiers.extends() },
                    ..held
                },
                Intent::Press { at, additive: self.modifiers.extends(), double: clicks == 2 },
            )
        }
    }

    /// Whether a release of `button` ends the gesture in flight. A pan ends with the button
    /// that began it, everything else with the left one.
    pub open spec fn ends_with(self, button: MouseButton) -> bool {
        match self.gesture {
            Gesture::Idle => false,
            Gesture::Pan { button: held, .. } => held == button,
            _ => button == MouseButton::Left,
        }
    }

    /// The state after a release, and what it asks for.
    pub open spec fn after_release(self, button: MouseButton, readings: Readings<P>) -> (
        Input<P>,
        Intent<P>,
    ) {
        let at = self.place(readings.centre);
        let done = Input { gesture: Gesture::Idle, ..self };
        if !self.ends_with(button) {
            (self, Intent::Nothing)
        } else {
            match self.gesture {
                Gesture::Pan { .. } => (
                    if self.config.drag_inertia {
                        done.thrown(readings.now, readings.speed)
                    } else {
                        done
                    },
                    if button == MouseButton::Right && within_slop(self.press_travel) {
                        Intent::ContextMenu { at }
                    } else {
                        Intent::Nothing
                    },
                ),
                Gesture::Marquee { origin, current, additive } => (
                    done,
                    if within_slop(self.press_travel) {
                        Intent::Nothing
                    } else {
                        Intent::Marquee { from: origin, to: current, additive }
                    },
                ),
                Gesture::Move { moved, .. } => (done, Intent::MoveEnd { moved }),
                Gesture::Place { origin, current } => (
                    done,
                    Intent::Place { at: origin, to: current },
                ),
                _ => (done, Intent::Nothing),
            }
        }
    }

    /// The gesture after the pointer moved, having travelled `travelled` since the press.
    pub open spec fn gesture_after_motion(self, position: P, travelled: Scalar) -> Gesture<P> {
        match self.gesture {
            Gesture::Idle => Gesture::Idle,
            Gesture::Pan { button, last } => if self.cursor_known {
                Gesture::Pan { button, last: position }
            } else {
                Gesture::Pan { button, last }
            },
            Gesture::Marquee { origin, additive, .. } => Gesture::Marquee {
                origin,
                current: position,
                additive,
            },
            Gesture::Pending { origin, additive } => Gesture::Marquee {
                origin,
                current: position,
                additive,
            },
            Gesture::Move { origin, moved, .. } => Gesture::Move {
                origin,
                current: position,
                moved: moved || (Scalar { bits: CLICK_SLOP }).below(travelled),
            },
            Gesture::Place { origin, .. } => Gesture::Place { origin, current: position },
        }
    }

    /// Whether a motion counts towards the way travelled since the press. One that brings
    /// the pointer back into the window during a pan does not: it has no previous position.
    pub open spec fn travels(self) -> bool {
        !(self.gesture is Idle) && !(self.gesture is Pan && !self.cursor_known)
    }

    pub open spec fn after_motion(self, position: P, travelled: Scalar) -> Input<P> {
        Input {
            cursor: position,
            cursor_known: true,
            gesture: self.gesture_after_motion(position, travelled),
            press_travel: if self.travels() {
                travelled
            } else {
                self.press_travel
            },
            ..self
        }
    }

    pub open spec fn motion(self, position: P, travelled: Scalar) -> Motion<P> {
        Motion {
            intent: match self.gesture_after_motion(position, travelled) {
                Gesture::Move { origin, moved, .. } => if moved {
                    Intent::Move { from: origin, to: position }
                } else {
                    Intent::Nothing
                },
                Gesture::Place { .. } => Intent::PlaceSample { at: position },
                _ => Intent::Nothing,
            },
            pan_from: if self.gesture is Pan && self.cursor_known {
                Some(self.cursor)
            } else {
                None
            },
        }
    }

    /// The state once a press is answered for.
    pub open spec fn answered(self, over_item: bool) -> Input<P> {
        match self.gesture {
            Gesture::Pending { origin, additive } => if over_item {
                Input { gesture: Gesture::Move { origin, current: origin, moved: false }, ..self }
            } else {
                Input { gesture: Gesture::Marquee { origin, current: origin, additive }, ..self }
            },
            _ => self,
        }
    }

    /// The state once a press is made a placement.
    pub open spec fn placing(self) -> Input<P> {
        match self.gesture {
            Gesture::Pending { origin, .. } => Input {
                gesture: Gesture::Place { origin, current: origin },
                ..self
            },
            _ => self,
        }
    }

    /// The state once the left gesture is abandoned.
    pub open spec fn escaped(self) -> Input<P> {
        if self.gesture is Pan {
            self
        } else {
            Input { gesture: Gesture::Idle, ..self }
        }
    }

    /// The state once the pointer has left.
    pub open spec fn away(self) -> Input<P> {
        Input {
            cursor_known: false,
            gesture: if self.gesture is Pan {
                Gesture::Idle
            } else {
                self.gesture
            },
            ..self
        }
    }

    /// The pointer's shape.
    pub open spec fn icon(self, handle: Option<Handle>) -> CursorIcon {
        match (self.gesture, handle) {
            (Gesture::Pan { .. }, _) => CursorIcon::Grabbing,
            (_, Some(handle)) => cursor_of_handle(handle),
            (Gesture::Marquee { .. }, None) => CursorIcon::Crosshair,
            (Gesture::Move { .. }, None) => CursorIcon::Move,
            (Gesture::Place { .. }, None) => CursorIcon::Crosshair,
            _ => if self.armed() {
                CursorIcon::Grab
            } else if self.tool == Tool::Place {
                CursorIcon::Crosshair
            } else {
                CursorIcon::Default
            },
        }
    }

    /// The state after a key, and whether it was one that the pointer takes.
    pub open spec fn after_key(self, key: Key, state: ElementState) -> (Input<P>, bool) {
        let pressed = state == ElementState::Pressed;
        let free = pressed && !self.modifiers.chord();
        match key {
            Key::Space => {
                let ends = !pressed && self.tool != Tool::Hand && self.gesture is Pan
                    && self.gesture->Pan_button == MouseButton::Left;
                let gesture = if ends {
                    Gesture::Idle
                } else {
                    self.gesture
                };
                (Input { space_held: pressed, gesture, ..self }, true)
            },
            Key::Character(c) => if free && (c@ == "h"@ || c@ == "H"@) {
                (Input { tool: Tool::Hand, ..self }, true)
            } else if free && (c@ == "v"@ || c@ == "V"@) {
                (Input { tool: Tool::Select, ..self }, true)
            } else {
                (self, false)
            },
            Key::Other => (self, false),
        }
    }

    /// The state after a frame of a glide.
    pub open spec fn ticked(
        self,
        frame: u64,
        velocity_x: Scalar,
        velocity_y: Scalar,
        speed: Scalar,
    ) -> Input<P> {
        if !self.gliding || frame == 0 {
            self
        } else if speed.below(Scalar { bits: INERTIA_CUTOFF }) {
            self.still()
        } else {
            Input { velocity_x, velocity_y, ..self }
        }
    }

    // ----- construction and settings ---------------------------------------------------

    /// A pointer that has not been seen yet. `origin` is the corner of the window.
    pub fn new(config: InputConfig, origin: P) -> (input: Input<P>)
        ensures
            input == (Input {
                config,
                modifiers: Modifiers { shift: false, control: false, alt: false, command: false },
                cursor: origin,
                cursor_known: false,
                space_held: false,
                tool: Tool::Select,
                gesture: Gesture::Idle,
                press_travel: Scalar { bits: ZERO },
                gliding: false,
                velocity_x: Scalar { bits: ZERO },
                velocity_y: Scalar { bits: ZERO },
                scroll_momentum: false,
                scroll_ended_at: None,
                last_motion: None,
                last_click: None,
                clicks: 0,
                scale_factor: Scalar { bits: ONE },
            }),
    {
        Input {
            config,
            modifiers: Modifiers::empty(),
            cursor: origin,
            cursor_known: false,
            space_held: false,
            tool: Tool::Select,
            gesture: Gesture::Idle,
            press_travel: Scalar { bits: ZERO },
            gliding: false,
            velocity_x: Scalar { bits: ZERO },
            velocity_y: Scalar { bits: ZERO },
            scroll_momentum: false,
            scroll_ended_at: None,
            last_motion: None,
            last_click: None,
            clicks: 0,
            scale_factor: Scalar { bits: ONE },
        }
    }

    /// Sets the display's scale. One that is not finite and above zero is ignored.
    pub fn set_scale_factor(&mut self, scale_factor: Scalar)
        ensures
            *final(self) == (if scale_factor.finite() && (Scalar { bits: ZERO }).below(
                scale_factor,
            ) {
                Input { scale_factor, ..*old(self) }
            } else {
                *old(self)
            }),
    {
        let zero = Scalar { bits: ZERO };
        if scale_factor.is_finite() && zero.lt(scale_factor) {
            self.scale_factor = scale_factor;
        }
    }

    pub fn config(&self) -> (config: InputConfig)
        ensures
            config == self.config,
    {
        self.config
    }

    /// The configuration, to be changed in place.
    pub fn config_mut(&mut self) -> (config: &mut InputConfig)
        ensures
            *config == old(self).config,
            *final(self) == (Input { config: *final(config), ..*old(self) }),
    {
        &mut self.config
    }

    pub fn tool(&self) -> (tool: Tool)
        ensures
            tool == self.tool,
    {
        self.tool
    }

    pub fn set_tool(&mut self, tool: Tool)
        ensures
            *final(self) == (Input { tool, ..*old(self) }),
    {
        self.tool = tool;
    }

    pub fn modifiers(&self) -> (modifiers: Modifiers)
        ensures
            modifiers == self.modifiers,
    {
        self.modifiers
    }

    pub fn set_modifiers(&mut self, modifiers: Modifiers)
        ensures
            *final(self) == (Input { modifiers, ..*old(self) }),
    {
        self.modifiers = modifiers;
    }

    /// The pointer. Falls back to the viewport's centre until the pointer has been seen, so
    /// that a gesture that arrives first still has an anchor.
    pub fn cursor(&self, centre: P) -> (at: P)
        ensures
            at == self.place(centre),
    {
        if self.cursor_known {
            self.cursor
        } else {
            centre
        }
    }

    /// The marquee in flight, as two opposite corners.
    pub fn marquee(&self) -> (corners: Option<(P, P)>)
        ensures
            corners == (match self.gesture {
                Gesture::Marquee { origin, current, .. } => Some((origin, current)),
                _ => None,
            }),
    {
        match self.gesture {
            Gesture::Marquee { origin, current, .. } => Some((origin, current)),
            _ => None,
        }
    }

    /// The box a placement tool is sweeping out, as two opposite corners.
    pub fn placement(&self) -> (corners: Option<(P, P)>)
        ensures
            corners == (match self.gesture {
                Gesture::Place { origin, current } => Some((origin, current)),
                _ => None,
            }),
    {
        match self.gesture {
            Gesture::Place { origin, current } => Some((origin, current)),
            _ => None,
        }
    }

    /// Whether the canvas is being dragged.
    pub fn is_panning(&self) -> (answer: bool)
        ensures
            answer == self.gesture is Pan,
    {
        matches!(self.gesture, Gesture::Pan { .. })
    }

    /// Whether a left gesture that touches the document is in flight.
    pub fn is_gesturing(&self) -> (answer: bool)
        ensures
            answer == self.busy(),
    {
        !matches!(self.gesture, Gesture::Idle | Gesture::Pan { .. })
    }

    /// Whether the selection is being dragged right now.
    pub fn is_moving(&self) -> (answer: bool)
        ensures
            answer == (match self.gesture {
                Gesture::Move { moved, .. } => moved,
                _ => false,
            }),
    {
        matches!(self.gesture, Gesture::Move { moved: true, .. })
    }

    /// How many clicks the press being handled is part of.
    pub fn click_run(&self) -> (clicks: u32)
        ensures
            clicks == self.clicks,
    {
        self.clicks
    }

    // ----- what the application answers ------------------------------------------------

    /// Answers [`Intent::Press`]: `true` when the press landed on something the application
    /// is willing to move.
    pub fn resolve_press(&mut self, over_item: bool)
        ensures
            *final(self) == (match old(self).gesture {
                Gesture::Pending { origin, additive } => Input {
                    gesture: if over_item {
                        Gesture::Move { origin, current: origin, moved: false }
                    } else {
                        Gesture::Marquee { origin, current: origin, additive }
                    },
                    ..*old(self)
                },
                _ => *old(self),
            }),
            *final(self) == old(self).answered(over_item),
    {
        if let Gesture::Pending { origin, additive } = self.gesture {
            self.gesture = if over_item {
                Gesture::Move { origin, current: origin, moved: false }
            } else {
                Gesture::Marquee { origin, current: origin, additive }
            };
        }
    }

    /// Turns the press that is being resolved into a placement sweep. Converts nothing but
    /// a pending press, so it cannot hijack a move or a marquee that is under way.
    pub fn begin_placement(&mut self)
        ensures
            *final(self) == (match old(self).gesture {
                Gesture::Pending { origin, .. } => Input {
                    gesture: Gesture::Place { origin, current: origin },
                    ..*old(self)
                },
                _ => *old(self),
            }),
            *final(self) == old(self).placing(),
    {
        if let Gesture::Pending { origin, .. } = self.gesture {
            self.gesture = Gesture::Place { origin, current: origin };
        }
    }

    /// Abandons whatever left gesture is in flight. Returns whether there was one.
    pub fn cancel_gesture(&mut self) -> (cancelled: bool)
        ensures
            cancelled == old(self).busy(),
            *final(self) == (if old(self).busy() {
                Input { gesture: Gesture::Idle, ..*old(self) }
            } else {
                *old(self)
            }),
            *final(self) == old(self).escaped(),
    {
        if self.is_gesturing() {
            self.gesture = Gesture::Idle;
            true
        } else {
            false
        }
    }

    /// Whether a pan would start on the next left press: space held, or the hand tool.
    pub fn pan_armed(&self) -> (answer: bool)
        ensures
            answer == self.armed(),
    {
        self.space_held || self.tool == Tool::Hand
    }

    /// The pointer's shape, given the grip it is on or is dragging. A grip outranks
    /// everything but a pan; a gesture reports what is happening; otherwise the shape says
    /// what the next click does.
    pub fn cursor_icon(&self, handle: Option<Handle>) -> (icon: CursorIcon)
        ensures
            icon == self.icon(handle),
            icon == (if self.gesture is Pan {
                CursorIcon::Grabbing
            } else if handle is Some {
                cursor_of_handle(handle->0)
            } else {
                match self.gesture {
                    Gesture::Marquee { .. } => CursorIcon::Crosshair,
                    Gesture::Move { .. } => CursorIcon::Move,
                    Gesture::Place { .. } => CursorIcon::Crosshair,
                    _ => if self.armed() {
                        CursorIcon::Grab
                    } else if self.tool == Tool::Place {
                        CursorIcon::Crosshair
                    } else {
                        CursorIcon::Default
                    },
                }
            }),
    {
        if let Some(handle) = handle {
            if !self.is_panning() {
                return handle_cursor(handle);
            }
        }
        match self.gesture {
            Gesture::Pan { .. } => CursorIcon::Grabbing,
            Gesture::Marquee { .. } => CursorIcon::Crosshair,
            Gesture::Move { .. } => CursorIcon::Move,
            Gesture::Place { .. } => CursorIcon::Crosshair,
            _ => if self.pan_armed() {
                CursorIcon::Grab
            } else {
                match self.tool {
                    Tool::Hand => CursorIcon::Grab,
                    Tool::Place => CursorIcon::Crosshair,
                    Tool::Select => CursorIcon::Default,
                }
            },
        }
    }

    // ----- events ----------------------------------------------------------------------

    /// Records a key that changes what the pointer does. Returns whether it was one. Space
    /// is held rather than toggled, and letting it go ends a left drag of the canvas that
    /// only space had armed. A tool key defers to a held command key.
    pub fn key(&mut self, key: &Key, state: ElementState) -> (taken: bool)
        ensures
            (*final(self), taken) == old(self).after_key(*key, state),
            ({
                let pressed = state == ElementState::Pressed;
                let ends_pan = !pressed && old(self).tool != Tool::Hand
                    && (match old(self).gesture {
                    Gesture::Pan { button, .. } => button == MouseButton::Left,
                    _ => false,
                });
                let free = pressed && !old(self).modifiers.chord();
                match *key {
                    Key::Space => taken && *final(self) == (Input {
                        space_held: pressed,
                        gesture: if ends_pan {
                            Gesture::Idle
                        } else {
                            old(self).gesture
                        },
                        ..*old(self)
                    }),
                    Key::Character(c) => if free && (c@ == "h"@ || c@ == "H"@) {
                        taken && *final(self) == (Input { tool: Tool::Hand, ..*old(self) })
                    } else if free && (c@ == "v"@ || c@ == "V"@) {
                        taken && *final(self) == (Input { tool: Tool::Select, ..*old(self) })
                    } else {
                        !taken && *final(self) == *old(self)
                    },
                    Key::Other => !taken && *final(self) == *old(self),
                }
            }),
    {
        let pressed = state == ElementState::Pressed;
        match key {
            Key::Space => {
                self.space_held = pressed;
                if let Gesture::Pan { button, .. } = self.gesture {
                    if !pressed && self.tool != Tool::Hand && button == MouseButton::Left {
                        self.gesture = Gesture::Idle;
                    }
                }
                true
            },
            Key::Character(c) => {
                if !pressed || self.modifiers.command || self.modifiers.control {
                    return false;
                }
                if same(c.as_str(), "h") || same(c.as_str(), "H") {
                    self.tool = Tool::Hand;
                    true
                } else if same(c.as_str(), "v") || same(c.as_str(), "V") {
                    self.tool = Tool::Select;
                    true
                } else {
                    false
                }
            },
            Key::Other => false,
        }
    }

    /// Records where the pointer is without acting on the move, for the frames where
    /// something other than the canvas owns the pointer.
    pub fn note_cursor(&mut self, position: P)
        ensures
            *final(self) == (Input { cursor: position, cursor_known: true, ..*old(self) }),
    {
        self.cursor = position;
        self.cursor_known = true;
    }

    /// The pointer moved, and has travelled `travelled` since the press, this motion
    /// counted in.
    pub fn cursor_moved(&mut self, position: P, travelled: Scalar) -> (motion: Motion<P>)
        ensures
            *final(self) == old(self).after_motion(position, travelled),
            motion == old(self).motion(position, travelled),
    {
        let previous = self.cursor;
        let first_sighting = !self.cursor_known;
        self.cursor = position;
        self.cursor_known = true;
        match self.gesture {
            Gesture::Pan { button, .. } => {
                if first_sighting {
                    return Motion { intent: Intent::Nothing, pan_from: None };
                }
                self.press_travel = travelled;
                self.gesture = Gesture::Pan { button, last: position };
                Motion { intent: Intent::Nothing, pan_from: Some(previous) }
            },
            Gesture::Marquee { origin, additive, .. } | Gesture::Pending { origin, additive } => {
                self.press_travel = travelled;
                self.gesture = Gesture::Marquee { origin, current: position, additive };
                Motion { intent: Intent::Nothing, pan_from: None }
            },
            Gesture::Move { origin, moved, .. } => {
                self.press_travel = travelled;
                let slop = Scalar { bits: CLICK_SLOP };
                let moved = moved || slop.lt(travelled);
                self.gesture = Gesture::Move { origin, current: position, moved };
                let intent = if moved {
                    Intent::Move { from: origin, to: position }
                } else {
                    Intent::Nothing
                };
                Motion { intent, pan_from: None }
            },
            Gesture::Place { origin, .. } => {
                self.press_travel = travelled;
                self.gesture = Gesture::Place { origin, current: position };
                Motion { intent: Intent::PlaceSample { at: position }, pan_from: None }
            },
            Gesture::Idle => Motion { intent: Intent::Nothing, pan_from: None },
        }
    }

    /// The camera was panned: the estimate of its velocity, at this time.
    pub fn panned(&mut self, velocity_x: Scalar, velocity_y: Scalar, now: u64)
        ensures
            *final(self) == (Input {
                velocity_x,
                velocity_y,
                last_motion: Some(now),
                ..*old(self)
            }),
    {
        self.velocity_x = velocity_x;
        self.velocity_y = velocity_y;
        self.last_motion = Some(now);
    }

    /// Whether pressing `button` grabs the canvas rather than selecting. The right button
    /// does, so the context menu opens on a release without motion.
    pub fn pans_with(&self, button: MouseButton) -> (answer: bool)
        ensures
            answer == self.grabs(button),
    {
        match button {
            MouseButton::Middle | MouseButton::Right => true,
            MouseButton::Left => self.pan_armed(),
            _ => false,
        }
    }

    /// Whether a released button should open a context menu: the right one, and only if the
    /// pointer stayed put.
    pub fn opens_context_menu(&self, button: MouseButton, travelled: Scalar) -> (answer: bool)
        ensures
            answer == (button == MouseButton::Right && within_slop(travelled)),
    {
        button == MouseButton::Right && is_click(travelled)
    }

    /// Whether a press now adds one to a run of clicks.
    pub fn counts_up(&self, button: MouseButton, readings: Readings<P>) -> (answer: bool)
        ensures
            answer == self.counts(button, readings),
    {
        button == MouseButton::Left && !self.pan_armed() && self.tool != Tool::Place
            && self.is_second_click(readings)
    }

    fn is_second_click(&self, readings: Readings<P>) -> (answer: bool)
        ensures
            answer == self.continues_run(readings),
    {
        match self.last_click {
            Some(last) => elapsed(readings.now, last.when) <= DOUBLE_CLICK_WINDOW && is_click(
                readings.from_last_click,
            ),
            None => false,
        }
    }

    fn start_glide(&mut self, now: u64, speed: Scalar)
        ensures
            *final(self) == old(self).thrown(now, speed),
    {
        let stale = match self.last_motion {
            Some(then) => elapsed(now, then) > STALE_MOTION,
            None => true,
        };
        if stale || speed.lt(Scalar { bits: INERTIA_CUTOFF }) {
            self.stop_glide();
            return;
        }
        self.gliding = true;
    }

    fn stop_glide(&mut self)
        ensures
            *final(self) == old(self).still(),
    {
        self.gliding = false;
        self.velocity_x = Scalar { bits: ZERO };
        self.velocity_y = Scalar { bits: ZERO };
        self.last_motion = None;
    }

    fn press(&mut self, button: MouseButton, readings: Readings<P>) -> (intent: Intent<P>)
        requires
            old(self).counts(button, readings) ==> old(self).clicks < u32::MAX,
        ensures
            *final(self) == old(self).after_press(button, readings).0,
            intent == old(self).after_press(button, readings).1,
    {
        let at = self.cursor(readings.centre);
        let again = self.is_second_click(readings);
        self.stop_glide();
        self.last_motion = Some(readings.now);
        self.press_travel = Scalar { bits: ZERO };
        if self.pans_with(button) {
            self.gesture = Gesture::Pan { button, last: at };
            return Intent::Nothing;
        }
        if button != MouseButton::Left {
            self.gesture = Gesture::Idle;
            return Intent::Nothing;
        }
        if self.tool == Tool::Place {
            self.gesture = Gesture::Place { origin: at, current: at };
            return Intent::PlaceSample { at };
        }
        self.clicks = if again {
            self.clicks + 1
        } else {
            1
        };
        let double = self.clicks == 2;
        self.last_click = Some(Click { when: readings.now, place: at });
        let additive = self.modifiers.shift || self.modifiers.command || self.modifiers.control;
        self.gesture = Gesture::Pending { origin: at, additive };
        Intent::Press { at, additive, double }
    }

    fn release(&mut self, button: MouseButton, readings: Readings<P>) -> (intent: Intent<P>)
        ensures
            *final(self) == old(self).after_release(button, readings).0,
            intent == old(self).after_release(button, readings).1,
    {
        let at = self.cursor(readings.centre);
        match self.gesture {
            Gesture::Idle => Intent::Nothing,
            Gesture::Pan { button: held, .. } => {
                if held != button {
                    return Intent::Nothing;
                }
                self.gesture = Gesture::Idle;
                let menu = self.opens_context_menu(button, self.press_travel);
                if self.config.drag_inertia {
                    self.start_glide(readings.now, readings.speed);
                }
                if menu {
                    Intent::ContextMenu { at }
                } else {
                    Intent::Nothing
                }
            },
            Gesture::Marquee { origin, current, additive } => {
                if button != MouseButton::Left {
                    return Intent::Nothing;
                }
                self.gesture = Gesture::Idle;
                if is_click(self.press_travel) {
                    Intent::Nothing
                } else {
                    Intent::Marquee { from: origin, to: current, additive }
                }
            },
            Gesture::Move { moved, .. } => {
                if button != MouseButton::Left {
                    return Intent::Nothing;
                }
                self.gesture = Gesture::Idle;
                Intent::MoveEnd { moved }
            },
            Gesture::Place { origin, current } => {
                if button != MouseButton::Left {
                    return Intent::Nothing;
                }
                self.gesture = Gesture::Idle;
                Intent::Place { at: origin, to: current }
            },
            Gesture::Pending { .. } => {
                if button == MouseButton::Left {
                    self.gesture = Gesture::Idle;
                }
                Intent::Nothing
            },
        }
    }

    /// A mouse button went down or up.
    pub fn mouse_input(
        &mut self,
        button: MouseButton,
        state: ElementState,
        readings: Readings<P>,
    ) -> (intent: Intent<P>)
        requires
            state == ElementState::Pressed && old(self).counts(button, readings) ==> old(
                self,
            ).clicks < u32::MAX,
        ensures
            (*final(self), intent) == (if state == ElementState::Pressed {
                old(self).after_press(button, readings)
            } else {
                old(self).after_release(button, readings)
            }),
    {
        match state {
            ElementState::Pressed => self.press(button, readings),
            ElementState::Released => self.release(button, readings),
        }
    }

    /// The pointer left the window. A drag of the canvas that resumed on re-entry would
    /// arrive with a viewport-sized delta.
    pub fn cursor_left(&mut self)
        ensures
            *final(self) == (Input {
                cursor_known: false,
                gesture: if old(self).gesture is Pan {
                    Gesture::Idle
                } else {
                    old(self).gesture
                },
                ..*old(self)
            }),
            *final(self) == old(self).away(),
    {
        if self.is_panning() {
            self.gesture = Gesture::Idle;
        }
        self.cursor_known = false;
    }

    /// The state after a scroll event.
    pub open spec fn after_scroll(self, phase: TouchPhase, now: u64, speed: Scalar) -> Input<P> {
        match phase {
            TouchPhase::Started => Input {
                scroll_momentum: self.scroll_ended_at is Some && since(
                    now,
                    self.scroll_ended_at->0,
                ) < MOMENTUM_HANDOVER,
                ..self.still()
            },
            TouchPhase::Ended => {
                let ended = Input { scroll_ended_at: Some(now), ..self };
                if self.config.scroll_inertia && !self.scroll_momentum {
                    ended.thrown(now, speed)
                } else {
                    ended
                }
            },
            _ => self,
        }
    }

    /// What a scroll asks for. Shift on a wheel pans, whatever else is held or configured.
    pub open spec fn scroll(self, from_wheel: bool, dx: Scalar, phase: TouchPhase) -> Scroll {
        if phase == TouchPhase::Ended {
            Scroll::Nothing
        } else if !(from_wheel && self.modifiers.shift) && (self.modifiers.chord() || (from_wheel
            && self.config.wheel_zooms)) {
            Scroll::Zoom { notches: from_wheel }
        } else {
            Scroll::Pan { sideways: self.modifiers.shift && dx.equal_to(Scalar { bits: ZERO }) }
        }
    }

    /// A wheel notch or a trackpad scroll. `dx` is its horizontal part and `speed` the
    /// current speed of the canvas.
    pub fn wheel(
        &mut self,
        from_wheel: bool,
        dx: Scalar,
        phase: TouchPhase,
        now: u64,
        speed: Scalar,
    ) -> (scroll: Scroll)
        ensures
            *final(self) == old(self).after_scroll(phase, now, speed),
            scroll == old(self).scroll(from_wheel, dx, phase),
    {
        match phase {
            TouchPhase::Started => {
                self.scroll_momentum = match self.scroll_ended_at {
                    Some(ended) => elapsed(now, ended) < MOMENTUM_HANDOVER,
                    None => false,
                };
                self.stop_glide();
            },
            TouchPhase::Ended => {
                self.scroll_ended_at = Some(now);
                if self.config.scroll_inertia && !self.scroll_momentum {
                    self.start_glide(now, speed);
                }
                return Scroll::Nothing;
            },
            TouchPhase::Moved | TouchPhase::Cancelled => {},
        }
        let shift_pans = from_wheel && self.modifiers.shift;
        let zoom_key = self.modifiers.control || self.modifiers.command;
        if !shift_pans && (zoom_key || (from_wheel && self.config.wheel_zooms)) {
            return Scroll::Zoom { notches: from_wheel };
        }
        Scroll::Pan { sideways: self.modifiers.shift && dx.equals(Scalar { bits: ZERO }) }
    }

    /// Whether a trackpad magnification zooms: nonsense deltas are ignored.
    pub fn pinch(&self, delta: Scalar) -> (zooms: bool)
        ensures
            zooms == delta.finite(),
    {
        delta.is_finite()
    }

    /// Whether a screen delta pans at all: nonsense deltas are ignored.
    pub fn pans_by(&self, dx: Scalar, dy: Scalar) -> (pans: bool)
        ensures
            pans == (dx.finite() && dy.finite()),
    {
        dx.is_finite() && dy.is_finite()
    }

    /// Advances any inertial glide by a frame of `frame` nanoseconds, given the velocity and
    /// the speed it decays to. Returns whether the camera is to move by it.
    pub fn tick(
        &mut self,
        frame: u64,
        velocity_x: Scalar,
        velocity_y: Scalar,
        speed: Scalar,
    ) -> (moves: bool)
        ensures
            *final(self) == old(self).ticked(frame, velocity_x, velocity_y, speed),
            moves == (old(self).gliding && frame > 0),
            *final(self) == (if !(old(self).gliding && frame > 0) {
                *old(self)
            } else if speed.below(Scalar { bits: INERTIA_CUTOFF }) {
                old(self).still()
            } else {
                Input { velocity_x, velocity_y, ..*old(self) }
            }),
    {
        if !self.gliding || frame == 0 {
            return false;
        }
        self.velocity_x = velocity_x;
        self.velocity_y = velocity_y;
        if speed.lt(Scalar { bits: INERTIA_CUTOFF }) {
            self.stop_glide();
        }
        true
    }
}

// ----- laws ----------------------------------------------------------------------------

/// A plain left drag selects and never pans: unless space is held or the hand tool is
/// chosen, a left press grabs no canvas, and no motion before the release asks for a pan.
pub proof fn a_plain_left_drag_never_pans<P: Copy>(
    input: Input<P>,
    readings: Readings<P>,
    position: P,
    travelled: Scalar,
)
    requires
        !input.armed(),
    ensures
        ({
            let pressed = input.after_press(MouseButton::Left, readings).0;
            &&& !(pressed.gesture is Pan)
            &&& pressed.busy()
            &&& pressed.motion(position, travelled).pan_from is None
        }),
{
}

/// Only a drag of the canvas asks for a pan, and whatever the pointer does, a gesture that
/// is no pan does not become one by moving.
pub proof fn motion_never_starts_a_pan<P: Copy>(input: Input<P>, position: P, travelled: Scalar)
    requires
        !(input.gesture is Pan),
    ensures
        input.motion(position, travelled).pan_from is None,
        !(input.after_motion(position, travelled).gesture is Pan),
{
}

/// A press that is never answered falls back to a marquee: whatever the travel, no item is
/// moved that the user did not grab.
pub proof fn an_unanswered_press_sweeps<P: Copy>(input: Input<P>, position: P, travelled: Scalar)
    requires
        input.gesture is Pending,
    ensures
        input.after_motion(position, travelled).gesture is Marquee,
        input.motion(position, travelled).intent is Nothing,
{
}

/// The offset of a move is measured from the press, over any two samples of the same drag:
/// nothing accumulates.
pub proof fn a_move_is_measured_from_the_press<P: Copy>(
    input: Input<P>,
    first: P,
    first_travel: Scalar,
    second: P,
    second_travel: Scalar,
)
    requires
        input.gesture is Move,
    ensures
        ({
            let later = input.after_motion(first, first_travel);
            &&& later.gesture is Move
            &&& later.gesture->Move_origin == input.gesture->Move_origin
            &&& later.motion(second, second_travel).intent is Move ==> {
                &&& later.motion(second, second_travel).intent->Move_from
                    == input.gesture->Move_origin
                &&& later.motion(second, second_travel).intent->Move_to == second
            }
        }),
{
}

/// Once a drag has crossed the threshold it stays a drag, and its end says so.
pub proof fn a_drag_stays_a_drag<P: Copy>(
    input: Input<P>,
    position: P,
    travelled: Scalar,
    readings: Readings<P>,
)
    requires
        input.gesture is Move,
        input.gesture->Move_moved,
    ensures
        input.motion(position, travelled).intent is Move,
        input.after_motion(position, travelled).after_release(MouseButton::Left, readings).1
            == (Intent::<P>::MoveEnd { moved: true }),
{
}

/// Any press stops a glide dead, and so does a new scroll.
pub proof fn a_press_or_a_scroll_stops_a_glide<P: Copy>(
    input: Input<P>,
    button: MouseButton,
    readings: Readings<P>,
)
    ensures
        !input.after_press(button, readings).0.gliding,
        !input.after_scroll(TouchPhase::Started, readings.now, readings.speed).gliding,
{
}

/// A release of some other button leaves the gesture in flight, and everything else, alone.
pub proof fn another_button_ends_nothing<P: Copy>(
    input: Input<P>,
    button: MouseButton,
    readings: Readings<P>,
)
    requires
        !input.ends_with(button),
    ensures
        input.after_release(button, readings) == (input, Intent::<P>::Nothing),
{
}

/// After the release that ends a gesture nothing is in flight.
pub proof fn a_finished_gesture_is_over<P: Copy>(
    input: Input<P>,
    button: MouseButton,
    readings: Readings<P>,
)
    requires
        input.ends_with(button),
    ensures
        input.after_release(button, readings).0.gesture is Idle,
{
}

/// Three clicks are not two double clicks: a press is the double only as the second of a
/// run, and the one after it never is.
pub proof fn three_clicks_are_one_double<P: Copy>(
    input: Input<P>,
    second: Readings<P>,
    third: Readings<P>,
)
    requires
        input.counts(MouseButton::Left, second) ==> input.clicks < u32::MAX,
        !input.armed(),
        input.tool == Tool::Select,
        input.after_press(MouseButton::Left, second).1->Press_double,
    ensures
        input.clicks == 1 && input.continues_run(second),
        !input.after_press(MouseButton::Left, second).0.after_press(
            MouseButton::Left,
            third,
        ).1->Press_double,
{
}

/// The platform's momentum suppresses the glide of the library: a scroll sequence that
/// starts within the handover of the last one's end never throws, however fast it is.
pub proof fn platform_momentum_suppresses_the_glide<P: Copy>(
    input: Input<P>,
    started: u64,
    ended: u64,
    speed: Scalar,
)
    requires
        input.scroll_ended_at is Some,
        since(started, input.scroll_ended_at->0) < MOMENTUM_HANDOVER,
    ensures
        !input.after_scroll(TouchPhase::Started, started, speed).after_scroll(
            TouchPhase::Ended,
            ended,
            speed,
        ).gliding,
{
}

/// A right drag that moved the canvas does not also open a menu, and a right click that did
/// not move does.
pub proof fn a_right_drag_opens_no_menu<P: Copy>(input: Input<P>, readings: Readings<P>)
    requires
        input.gesture is Pan,
        input.gesture->Pan_button == MouseButton::Right,
    ensures
        input.after_release(MouseButton::Right, readings).1 is ContextMenu <==> within_slop(
            input.press_travel,
        ),
{
}

/// The pointer coming back into the window never flings the board.
pub proof fn re_entry_never_pans<P: Copy>(input: Input<P>, position: P, travelled: Scalar)
    requires
        !input.cursor_known,
    ensures
        input.motion(position, travelled).pan_from is None,
{
}

// ----- button by button, phase by phase -------------------------------------------------

/// Whether a distance is at most five pixels.
pub open spec fn at_most_five(distance: Scalar) -> bool {
    &&& !distance.not_a_number()
    &&& !(Scalar { bits: 0x4014_0000_0000_0000 }).below(distance)
}

/// A press that takes hold of the canvas: the middle and the right button always, the left one
/// while space is down or with the hand. Every press stops a glide, and begins a way of its own
/// at the time it came; a button other than these three begins nothing.
pub proof fn a_press_takes_hold_of_the_canvas<P: Copy>(
    input: Input<P>,
    button: MouseButton,
    readings: Readings<P>,
)
    ensures
        ({
            let (after, intent) = input.after_press(button, readings);
            let left = button == MouseButton::Left;
            let holds = button == MouseButton::Middle || button == MouseButton::Right || (left && (
            input.space_held || input.tool == Tool::Hand));
            let at = if input.cursor_known {
                input.cursor
            } else {
                readings.centre
            };
            &&& !after.gliding
            &&& after.velocity_x.bits == 0 && after.velocity_y.bits == 0
            &&& after.press_travel.bits == 0
            &&& after.last_motion == Some(readings.now)
            &&& after.config == input.config && after.modifiers == input.modifiers
            &&& after.cursor == input.cursor && after.cursor_known == input.cursor_known
            &&& after.space_held == input.space_held && after.tool == input.tool
            &&& after.scroll_momentum == input.scroll_momentum
            &&& after.scroll_ended_at == input.scroll_ended_at
            &&& after.scale_factor == input.scale_factor
            &&& holds ==> after.gesture == (Gesture::Pan { button, last: at })
            &&& !holds && !left ==> after.gesture is Idle
            &&& holds || !left ==> intent is Nothing && after.clicks == input.clicks
                && after.last_click == input.last_click
        }),
{
}

/// A left press that takes hold of nothing: with a placing tool it begins a box where the
/// pointer is; otherwise it waits for an answer, extends the selection where shift, control or
/// command is down, and is the second half of a double click where the last left click is the
/// first of its run, at most four tenths of a second ago and at most five pixels away.
pub proof fn a_left_press_picks_or_places<P: Copy>(input: Input<P>, readings: Readings<P>)
    requires
        !input.space_held,
        input.tool != Tool::Hand,
        input.clicks < u32::MAX,
    ensures
        ({
            let (after, intent) = input.after_press(MouseButton::Left, readings);
            let at = if input.cursor_known {
                input.cursor
            } else {
                readings.centre
            };
            let keys = input.modifiers;
            let additive = keys.shift || keys.control || keys.command;
            let near = input.last_click is Some && readings.now <= input.last_click->0.when
                + 400_000_000 && at_most_five(readings.from_last_click);
            &&& input.tool == Tool::Place ==> {
                &&& after.gesture == (Gesture::Place { origin: at, current: at })
                &&& intent == (Intent::PlaceSample { at })
                &&& after.clicks == input.clicks && after.last_click == input.last_click
            }
            &&& input.tool == Tool::Select ==> {
                &&& after.gesture == (Gesture::Pending { origin: at, additive })
                &&& after.last_click == Some((Click { when: readings.now, place: at }))
                &&& near ==> after.clicks == input.clicks + 1
                &&& !near ==> after.clicks == 1
                &&& intent == (Intent::Press { at, additive, double: near && input.clicks == 1 })
            }
        }),
{
    if input.last_click is Some {
        assert(since(readings.now, input.last_click->0.when) <= 400_000_000 <==> readings.now
            <= input.last_click->0.when + 400_000_000);
    }
}

/// What a release ends, and what comes of it: a pan ends with its own button and everything
/// else with the left one; a right press that went at most five pixels opens a menu; a sweep
/// that went further selects; a drag reports whether it ever moved; a box is placed; and any
/// other button changes nothing.
pub proof fn a_release_ends_its_gesture<P: Copy>(
    input: Input<P>,
    button: MouseButton,
    readings: Readings<P>,
)
    ensures
        ({
            let (after, intent) = input.after_release(button, readings);
            let at = if input.cursor_known {
                input.cursor
            } else {
                readings.centre
            };
            let left = button == MouseButton::Left;
            &&& match input.gesture {
                Gesture::Idle => after == input && intent is Nothing,
                Gesture::Pan { button: held, .. } => if held == button {
                    &&& after.gesture is Idle
                    &&& button == MouseButton::Right && at_most_five(input.press_travel) ==> intent
                        == (Intent::ContextMenu { at })
                    &&& !(button == MouseButton::Right && at_most_five(input.press_travel))
                        ==> intent is Nothing
                    &&& !input.config.drag_inertia ==> after == (Input {
                        gesture: Gesture::Idle,
                        ..input
                    })
                } else {
                    after == input && intent is Nothing
                },
                Gesture::Pending { .. } => if left {
                    after == (Input { gesture: Gesture::Idle, ..input }) && intent is Nothing
                } else {
                    after == input && intent is Nothing
                },
                Gesture::Marquee { origin, current, additive } => if left {
                    &&& after == (Input { gesture: Gesture::Idle, ..input })
                    &&& at_most_five(input.press_travel) ==> intent is Nothing
                    &&& !at_most_five(input.press_travel) ==> intent == (Intent::Marquee {
                        from: origin,
                        to: current,
                        additive,
                    })
                } else {
                    after == input && intent is Nothing
                },
                Gesture::Move { moved, .. } => if left {
                    &&& after == (Input { gesture: Gesture::Idle, ..input })
                    &&& intent is MoveEnd && intent->MoveEnd_moved == moved
                } else {
                    after == input && intent is Nothing
                },
                Gesture::Place { origin, current } => if left {
                    &&& after == (Input { gesture: Gesture::Idle, ..input })
                    &&& intent == (Intent::Place { at: origin, to: current })
                } else {
                    after == input && intent is Nothing
                },
            }
        }),
{
}

/// When a released canvas glides: with the glide of drags on, where the hand last moved at
/// most eight hundredths of a second ago and not slower than twenty-four pixels a second;
/// otherwise it stands still.
pub proof fn a_thrown_canvas_glides<P: Copy>(
    input: Input<P>,
    button: MouseButton,
    readings: Readings<P>,
)
    requires
        input.gesture is Pan,
        input.gesture->Pan_button == button,
        input.config.drag_inertia,
        !readings.speed.not_a_number(),
    ensures
        ({
            let after = input.after_release(button, readings).0;
            let slow = readings.speed.below((Scalar { bits: 0x4038_0000_0000_0000 }));
            let moving = input.last_motion is Some && readings.now <= input.last_motion->0
                + 80_000_000 && !slow;
            &&& moving ==> after == (Input { gesture: Gesture::Idle, gliding: true, ..input })
            &&& !moving ==> after == (Input {
                gesture: Gesture::Idle,
                gliding: false,
                velocity_x: Scalar { bits: 0 },
                velocity_y: Scalar { bits: 0 },
                last_motion: None,
                ..input
            })
        }),
{
    if input.last_motion is Some {
        assert(since(readings.now, input.last_motion->0) <= 80_000_000 <==> readings.now
            <= input.last_motion->0 + 80_000_000);
    }
}

/// What a motion does to each gesture: a press without an answer becomes a sweep from where it
/// was, a sweep and a box follow the pointer, a drag moves once it went further than five
/// pixels and from then on, and a pan goes on from where the pointer was last seen.
pub proof fn a_motion_carries_its_gesture_on<P: Copy>(
    input: Input<P>,
    position: P,
    travelled: Scalar,
)
    ensures
        ({
            let after = input.after_motion(position, travelled);
            let asked = input.motion(position, travelled);
            let far = (Scalar { bits: 0x4014_0000_0000_0000 }).below(travelled);
            &&& after.cursor == position && after.cursor_known
            &&& after == (Input {
                cursor: position,
                cursor_known: true,
                gesture: after.gesture,
                press_travel: after.press_travel,
                ..input
            })
            &&& !(input.gesture is Pan) ==> asked.pan_from is None
            &&& match input.gesture {
                Gesture::Idle => {
                    &&& after.gesture is Idle && asked.intent is Nothing
                    &&& after.press_travel == input.press_travel
                },
                Gesture::Pan { button, last } => {
                    &&& asked.intent is Nothing
                    &&& input.cursor_known ==> {
                        &&& after.gesture == (Gesture::Pan { button, last: position })
                        &&& asked.pan_from == Some(input.cursor)
                        &&& after.press_travel == travelled
                    }
                    &&& !input.cursor_known ==> {
                        &&& after.gesture == input.gesture
                        &&& asked.pan_from is None
                        &&& after.press_travel == input.press_travel
                    }
                },
                Gesture::Pending { origin, additive } => {
                    &&& after.gesture == (Gesture::Marquee { origin, current: position, additive })
                    &&& asked.intent is Nothing && after.press_travel == travelled
                },
                Gesture::Marquee { origin, additive, .. } => {
                    &&& after.gesture == (Gesture::Marquee { origin, current: position, additive })
                    &&& asked.intent is Nothing && after.press_travel == travelled
                },
                Gesture::Move { origin, moved, .. } => {
                    &&& after.gesture == (Gesture::Move {
                        origin,
                        current: position,
                        moved: moved || far,
                    })
                    &&& moved || far ==> asked.intent == (Intent::Move {
                        from: origin,
                        to: position,
                    })
                    &&& !moved && !far ==> asked.intent is Nothing
                    &&& after.press_travel == travelled
                },
                Gesture::Place { origin, .. } => {
                    &&& after.gesture == (Gesture::Place { origin, current: position })
                    &&& asked.intent == (Intent::PlaceSample { at: position })
                    &&& after.press_travel == travelled
                },
            }
        }),
{
}

/// What a scroll asks for: a wheel pans with shift down and otherwise zooms where it is set to,
/// and anything zooms with control or command; a pan is sideways with shift where the scroll
/// itself is not; and the end of a scroll asks for nothing.
pub proof fn a_scroll_pans_or_zooms<P: Copy>(input: Input<P>, dx: Scalar, phase: TouchPhase)
    ensures
        ({
            let keys = input.modifiers;
            let wheel = input.scroll(true, dx, phase);
            let fingers = input.scroll(false, dx, phase);
            let held = keys.control || keys.command;
            let upright = dx.bits == 0 || dx.bits == 0x8000_0000_0000_0000u64;
            &&& phase == TouchPhase::Ended ==> wheel is Nothing && fingers is Nothing
            &&& phase != TouchPhase::Ended ==> {
                &&& keys.shift ==> wheel == (Scroll::Pan { sideways: upright })
                &&& !keys.shift && (held || input.config.wheel_zooms) ==> wheel == (Scroll::Zoom {
                    notches: true,
                })
                &&& !keys.shift && !held && !input.config.wheel_zooms ==> wheel == (Scroll::Pan {
                    sideways: false,
                })
                &&& held ==> fingers == (Scroll::Zoom { notches: false })
                &&& !held ==> fingers == (Scroll::Pan { sideways: keys.shift && upright })
            }
        }),
{
}

/// What a scroll leaves: a new one stops the glide and is the platform's own where it comes
/// less than eight hundredths of a second behind the last; an end is noted, and glides only
/// where that is on and the scroll was not the platform's own; between them nothing changes.
pub proof fn a_scroll_leaves_its_traces<P: Copy>(input: Input<P>, now: u64, speed: Scalar)
    requires
        !speed.not_a_number(),
    ensures
        ({
            let started = input.after_scroll(TouchPhase::Started, now, speed);
            let ended = input.after_scroll(TouchPhase::Ended, now, speed);
            let soon = input.scroll_ended_at is Some && now < input.scroll_ended_at->0
                + 80_000_000;
            let slow = speed.below((Scalar { bits: 0x4038_0000_0000_0000 }));
            let moving = input.last_motion is Some && now <= input.last_motion->0 + 80_000_000
                && !slow;
            let own = input.config.scroll_inertia && !input.scroll_momentum;
            &&& input.after_scroll(TouchPhase::Moved, now, speed) == input
            &&& input.after_scroll(TouchPhase::Cancelled, now, speed) == input
            &&& started == (Input {
                scroll_momentum: soon,
                gliding: false,
                velocity_x: Scalar { bits: 0 },
                velocity_y: Scalar { bits: 0 },
                last_motion: None,
                ..input
            })
            &&& !own ==> ended == (Input { scroll_ended_at: Some(now), ..input })
            &&& own && moving ==> ended == (Input {
                scroll_ended_at: Some(now),
                gliding: true,
                ..input
            })
            &&& own && !moving ==> ended == (Input {
                scroll_ended_at: Some(now),
                gliding: false,
                velocity_x: Scalar { bits: 0 },
                velocity_y: Scalar { bits: 0 },
                last_motion: None,
                ..input
            })
        }),
{
    if input.last_motion is Some {
        assert(since(now, input.last_motion->0) <= 80_000_000 <==> now <= input.last_motion->0
            + 80_000_000);
    }
    if input.scroll_ended_at is Some {
        assert(since(now, input.scroll_ended_at->0) < 80_000_000 <==> now
            < input.scroll_ended_at->0 + 80_000_000);
    }
}

/// Each grip names the way it pulls: opposite ones the same, and the one that turns a hand.
pub proof fn each_grip_names_its_way()
    ensures
        cursor_of_handle(Handle::TopLeft) == CursorIcon::NwseResize,
        cursor_of_handle(Handle::BottomRight) == CursorIcon::NwseResize,
        cursor_of_handle(Handle::TopRight) == CursorIcon::NeswResize,
        cursor_of_handle(Handle::BottomLeft) == CursorIcon::NeswResize,
        cursor_of_handle(Handle::Top) == CursorIcon::NsResize,
        cursor_of_handle(Handle::Bottom) == CursorIcon::NsResize,
        cursor_of_handle(Handle::Left) == CursorIcon::EwResize,
        cursor_of_handle(Handle::Right) == CursorIcon::EwResize,
        cursor_of_handle(Handle::Rotate) == CursorIcon::Grab,
{
}

/// What counts as one more click of a run: a left press that picks, at most four tenths of a
/// second after the last left click and at most five pixels from it.
pub proof fn a_click_counts_near_the_last<P: Copy>(
    input: Input<P>,
    button: MouseButton,
    readings: Readings<P>,
)
    ensures
        input.counts(button, readings) <==> button == MouseButton::Left && !input.space_held
            && input.tool == Tool::Select && input.last_click is Some && readings.now
            <= input.last_click->0.when + 400_000_000 && at_most_five(readings.from_last_click),
{
    if input.last_click is Some {
        assert(since(readings.now, input.last_click->0.when) <= 400_000_000 <==> readings.now
            <= input.last_click->0.when + 400_000_000);
    }
}

/// The keys and tools a state is read by: a chord is control or command, a click extends with
/// shift or a chord, a pan is armed by space or the hand, and the pointer is where it was seen,
/// or in the middle.
pub proof fn a_state_is_read_by_its_keys<P: Copy>(input: Input<P>, centre: P, button: MouseButton)
    ensures
        input.modifiers.chord() <==> input.modifiers.control || input.modifiers.command,
        input.modifiers.extends() <==> input.modifiers.shift || input.modifiers.control
            || input.modifiers.command,
        input.armed() <==> input.space_held || input.tool is Hand,
        input.grabs(button) <==> button is Middle || button is Right || (button is Left && (
        input.space_held || input.tool is Hand)),
        input.busy() <==> input.gesture is Pending || input.gesture is Marquee || input.gesture
            is Move || input.gesture is Place,
        input.cursor_known ==> input.place(centre) == input.cursor,
        !input.cursor_known ==> input.place(centre) == centre,
{
}

/// What an answer makes of a press: over something that moves it is a drag that has not moved
/// yet, over nothing a sweep, each from where the press was; and with a placing tool a box.
/// Nothing that is under way is turned into anything else.
pub proof fn an_answer_settles_a_press<P: Copy>(input: Input<P>, origin: P, additive: bool)
    ensures
        input.gesture == (Gesture::Pending { origin, additive }) ==> {
            &&& input.answered(true) == (Input {
                gesture: Gesture::Move { origin, current: origin, moved: false },
                ..input
            })
            &&& input.answered(false) == (Input {
                gesture: Gesture::Marquee { origin, current: origin, additive },
                ..input
            })
            &&& input.placing() == (Input {
                gesture: Gesture::Place { origin, current: origin },
                ..input
            })
        },
        !(input.gesture is Pending) ==> input.answered(true) == input && input.answered(false)
            == input && input.placing() == input,
{
}

/// What ends a gesture from outside: an escape ends what the left button began and leaves a
/// pan, and a pointer that leaves ends a pan and leaves the rest.
pub proof fn an_escape_and_a_departure_part_the_gestures<P: Copy>(input: Input<P>)
    ensures
        input.escaped().gesture == (match input.gesture {
            Gesture::Pan { button, last } => Gesture::Pan { button, last },
            _ => Gesture::Idle,
        }),
        input.away().gesture == (match input.gesture {
            Gesture::Pan { .. } => Gesture::Idle,
            other => other,
        }),
        !input.away().cursor_known,
        input.escaped() == (Input { gesture: input.escaped().gesture, ..input }),
        input.away() == (Input {
            gesture: input.away().gesture,
            cursor_known: false,
            ..input
        }),
{
}

/// The pointer's shape by what is going on: a closed hand in a pan, a grip's own arrow on it,
/// crosshairs in a sweep and in a box, four arrows in a drag; and at rest an open hand with
/// space or the hand, crosshairs with a placing tool, an arrow otherwise.
pub proof fn the_pointer_shows_what_goes_on<P: Copy>(input: Input<P>, handle: Handle)
    ensures
        input.gesture is Pan ==> input.icon(None) is Grabbing && input.icon(
            Some(handle),
        ) is Grabbing,
        !(input.gesture is Pan) ==> input.icon(Some(handle)) == cursor_of_handle(handle),
        input.gesture is Marquee ==> input.icon(None) is Crosshair,
        input.gesture is Place ==> input.icon(None) is Crosshair,
        input.gesture is Move ==> input.icon(None) is Move,
        input.gesture is Idle || input.gesture is Pending ==> {
            &&& input.space_held || input.tool is Hand ==> input.icon(None) is Grab
            &&& !input.space_held && input.tool is Place ==> input.icon(None) is Crosshair
            &&& !input.space_held && input.tool is Select ==> input.icon(None) is Default
        },
{
}

/// What a key does: space is held as long as it is down, and letting it go ends a left pan that
/// the hand does not hold; `h` and `v`, capital or not, choose a tool as they go down, but not
/// with control or command; and nothing else does anything.
pub proof fn a_key_holds_or_chooses<P: Copy>(input: Input<P>, key: Key, letter: char)
    ensures
        ({
            let pressed = input.after_key(key, ElementState::Pressed);
            let released = input.after_key(key, ElementState::Released);
            let held = input.modifiers.control || input.modifiers.command;
            let left = input.gesture is Pan && input.gesture->Pan_button is Left;
            &&& key is Space ==> pressed == (Input { space_held: true, ..input }, true)
            &&& key is Space && left && !(input.tool is Hand) ==> released == (
                Input { space_held: false, gesture: Gesture::Idle, ..input },
                true,
            )
            &&& key is Space && (!left || input.tool is Hand) ==> released == (
                Input { space_held: false, ..input },
                true,
            )
            &&& !(key is Space) ==> released == (input, false)
            &&& key is Other || held && !(key is Space) ==> pressed == (input, false)
            &&& key is Character && key->Character_0@ == seq![letter] && !held ==> {
                &&& letter == 'h' || letter == 'H' ==> pressed == (
                    Input { tool: Tool::Hand, ..input },
                    true,
                )
                &&& letter == 'v' || letter == 'V' ==> pressed == (
                    Input { tool: Tool::Select, ..input },
                    true,
                )
                &&& letter != 'h' && letter != 'H' && letter != 'v' && letter != 'V' ==> pressed
                    == (input, false)
            }
            &&& key is Character && key->Character_0@.len() != 1 ==> pressed == (input, false)
        }),
{
    reveal_strlit("h");
    reveal_strlit("H");
    reveal_strlit("v");
    reveal_strlit("V");
    assert("h"@ =~= seq!['h'] && "H"@ =~= seq!['H']);
    assert("v"@ =~= seq!['v'] && "V"@ =~= seq!['V']);
    assert(seq![letter][0] == letter);
    assert("h"@[0] == 'h' && "H"@[0] == 'H' && "v"@[0] == 'v' && "V"@[0] == 'V');
}

/// A frame of a glide moves on at what it slows to, and ends it below twenty-four pixels a
/// second; without a glide, or without time, nothing moves.
pub proof fn a_glide_slows_to_an_end<P: Copy>(
    input: Input<P>,
    frame: u64,
    velocity_x: Scalar,
    velocity_y: Scalar,
    speed: Scalar,
)
    ensures
        ({
            let after = input.ticked(frame, velocity_x, velocity_y, speed);
            let slow = speed.below((Scalar { bits: 0x4038_0000_0000_0000 }));
            &&& !input.gliding || frame == 0 ==> after == input
            &&& input.gliding && frame > 0 && !slow ==> after == (Input {
                velocity_x,
                velocity_y,
                ..input
            })
            &&& input.gliding && frame > 0 && slow ==> after == (Input {
                gliding: false,
                velocity_x: Scalar { bits: 0 },
                velocity_y: Scalar { bits: 0 },
                last_motion: None,
                ..input
            })
        }),
{
}

} // verus!
