//! What a board holds: items, what kind each is, and how it is styled.
//!
//! Only what the rules of this library read or write is here. What a kind carries beyond
//! that (the points of a drawing, the spans of a text) stays with the document.

use vstd::prelude::*;

use crate::scalar::Scalar;

verus! {

/// A colour with an alpha channel.
#[derive(Clone, Copy, Debug, PartialEq, Eq, Structural)]
pub struct Color {
    pub r: u8,
    pub g: u8,
    pub b: u8,
    pub a: u8,
}

impl Color {
    /// An opaque colour.
    pub fn rgb(r: u8, g: u8, b: u8) -> (color: Color)
        ensures
            color == (Color { r, g, b, a: 255 }),
    {
        Color { r, g, b, a: 255 }
    }

    /// The colour packed as `0xRRGGBBAA`, if `value` is one: anything outside 32 bits is
    /// refused.
    pub fn from_packed(value: i64) -> (color: Option<Color>)
        ensures
            color is Some <==> 0 <= value <= 0xFFFF_FFFF,
            color is Some ==> color->0.packed() == value,
    {
        if value < 0 || value > 0xFFFF_FFFF {
            return None;
        }
        let v: u64 = value as u64;
        let high: u64 = v / 256;
        let higher: u64 = high / 256;
        let a: u8 = (v % 256) as u8;
        let b: u8 = (high % 256) as u8;
        let g: u8 = (higher % 256) as u8;
        let r: u8 = (higher / 256) as u8;
        proof {
            assert(v == 256 * high + v % 256);
            assert(high == 256 * higher + high % 256);
            assert(higher == 256 * (higher / 256) + higher % 256);
            assert(higher / 256 <= 255);
        }
        Some(Color { r, g, b, a })
    }

    /// `0xRRGGBBAA`.
    pub open spec fn packed(self) -> int {
        self.r * 0x100_0000 + self.g * 0x1_0000 + self.b * 0x100 + self.a
    }

    /// The colour as `0xRRGGBBAA`.
    pub fn to_packed(self) -> (value: i64)
        ensures
            value == self.packed(),
    {
        self.r as i64 * 0x100_0000 + self.g as i64 * 0x1_0000 + self.b as i64 * 0x100
            + self.a as i64
    }
}

/// Two colours that pack alike are the same colour.
pub proof fn packing_is_injective(a: Color, b: Color)
    requires
        a.packed() == b.packed(),
    ensures
        a == b,
{
}

/// Which item on a board.
pub type ItemId = u128;

/// Horizontal alignment of text.
#[derive(Clone, Copy, Debug, PartialEq, Eq, Structural)]
pub enum Align {
    Left,
    Center,
    Right,
}

/// How much of a link card is drawn.
#[derive(Clone, Copy, Debug, PartialEq, Eq, Structural)]
pub enum CardMode {
    Link,
    Card,
    Large,
}

/// How a connector finds its way, as the document stores it.
#[derive(Clone, Copy, Debug, PartialEq, Eq, Structural)]
pub enum Routing {
    Straight,
    Curved,
    Orthogonal,
}

/// A connector's line pattern, as the document stores it.
#[derive(Clone, Copy, Debug, PartialEq, Eq, Structural)]
pub enum Dash {
    Solid,
    Dashed,
    Dotted,
}

/// What a connector ends in, as the document stores it.
#[derive(Clone, Copy, Debug, PartialEq, Eq, Structural)]
pub enum ArrowKind {
    Bare,
    LineArrow,
    FilledTriangle,
    OpenTriangle,
    Circle,
    FilledCircle,
    Diamond,
    FilledDiamond,
}

/// A point of a rectangle, as fractions of its width and height.
#[derive(Clone, Copy, Debug, PartialEq, Eq, Structural)]
pub struct Anchor {
    pub x: Scalar,
    pub y: Scalar,
}

/// One end of a connector.
#[derive(Clone, Copy, Debug, PartialEq, Eq, Structural)]
pub struct ConnectorEnd {
    /// The item the end is attached to; `None` is a free end.
    pub target: Option<ItemId>,
    /// A fraction of the target's rectangle, or of the connector's own for a free end.
    pub anchor: Anchor,
    pub arrowhead: ArrowKind,
}

/// What an item is, with the fields the rules read.
#[derive(Clone, Debug)]
#[allow(inconsistent_fields)]
pub enum ItemKind {
    Sticky { text: String, background: Option<Color> },
    Text { text: String },
    Ink { color: Option<Color>, thickness: Scalar },
    LinkPreview {
        title: Option<String>,
        url: Option<String>,
        description: Option<String>,
        thumbnail: Option<String>,
        provider: Option<String>,
        favicon: Option<String>,
        mode: CardMode,
    },
    Image { asset_id: String },
    Document { asset_id: String, page_count: u32, current_page: u32 },
    Connector {
        start: ConnectorEnd,
        end: ConnectorEnd,
        routing: Routing,
        dash: Dash,
        thickness: Scalar,
        color: Option<Color>,
    },
    Frame { title: String },
    Shape { form: String, text: String },
    Group,
    Embed {
        title: Option<String>,
        url: Option<String>,
        description: Option<String>,
        provider: Option<String>,
        html: Option<String>,
        thumbnail: Option<String>,
        favicon: Option<String>,
        mode: CardMode,
    },
    Table { model: String },
    Chart { spec_token: String },
    MindMap { model: String },
    Kanban { board: String },
    Agent { model: String, label: String },
    FileTree { model: String },
    AgentNote { model: String, title: String },
    Browser { model: String },
}

/// How an item is drawn where its kind does not say. An absent field inherits.
#[derive(Clone, Debug)]
pub struct Style {
    pub font_family: Option<String>,
    pub font_size: Option<Scalar>,
    pub text_color: Option<Color>,
    pub align: Option<Align>,
    pub line_height: Option<Scalar>,
    pub opacity: Option<Scalar>,
    pub fill: Option<Color>,
    pub stroke: Option<Color>,
    pub stroke_width: Option<Scalar>,
    pub locked: bool,
}

impl Style {
    /// Whether the style says nothing at all.
    pub open spec fn inherits_everything(self) -> bool {
        &&& self.font_family is None
        &&& self.font_size is None
        &&& self.text_color is None
        &&& self.align is None
        &&& self.line_height is None
        &&& self.opacity is None
        &&& self.fill is None
        &&& self.stroke is None
        &&& self.stroke_width is None
        &&& !self.locked
    }

    /// Whether the style says nothing at all.
    pub fn is_default(&self) -> (answer: bool)
        ensures
            answer == self.inherits_everything(),
    {
        self.font_family.is_none() && self.font_size.is_none() && self.text_color.is_none()
            && self.align.is_none() && self.line_height.is_none() && self.opacity.is_none()
            && self.fill.is_none() && self.stroke.is_none() && self.stroke_width.is_none()
            && !self.locked
    }
}

impl Default for Style {
    fn default() -> (style: Style)
        ensures
            style.inherits_everything(),
    {
        Style {
            font_family: None,
            font_size: None,
            text_color: None,
            align: None,
            line_height: None,
            opacity: None,
            fill: None,
            stroke: None,
            stroke_width: None,
            locked: false,
        }
    }
}

/// Where an item is: its centre, its size before scaling, and how far it is turned
/// clockwise, in degrees.
#[derive(Clone, Copy, Debug, PartialEq, Eq, Structural)]
pub struct Placement {
    pub x: Scalar,
    pub y: Scalar,
    pub width: Scalar,
    pub height: Scalar,
    pub scale: Scalar,
    pub rotation: Scalar,
}

/// One thing on a board.
#[derive(Clone, Debug)]
pub struct Item {
    pub kind: ItemKind,
    pub style: Style,
    pub placement: Placement,
}

/// A packed colour is read byte by byte: red, green, blue and how opaque it is.
pub proof fn a_packed_color_is_read_byte_by_byte(color: Color)
    ensures
        0 <= color.packed() <= 0xFFFF_FFFF,
        color.packed() / 0x100_0000 == color.r,
        color.packed() / 0x1_0000 % 0x100 == color.g,
        color.packed() / 0x100 % 0x100 == color.b,
        color.packed() % 0x100 == color.a,
{
}

/// A style that sets anything at all is not the default one.
pub proof fn a_style_that_sets_anything_is_not_the_default(style: Style)
    ensures
        style.inherits_everything() ==> style == (Style {
            font_family: None,
            font_size: None,
            text_color: None,
            align: None,
            line_height: None,
            opacity: None,
            fill: None,
            stroke: None,
            stroke_width: None,
            locked: false,
        }),
        style.font_family is None && style.font_size is None && style.text_color is None
            && style.align is None && style.line_height is None && style.opacity is None
            && style.fill is None && style.stroke is None && style.stroke_width is None
            && !style.locked ==> style.inherits_everything(),
{
}

} // verus!
