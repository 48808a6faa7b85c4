//! The properties panel, in both directions.
//!
//! Out: an item becomes what the panel shows of it. In: one control of the panel becomes
//! changes to the items it can reach, and a verdict the caller can report.
//!
//! An ink stroke and a connector *are* a stroke, so colour, width and dash sit on the kind.
//! A shape merely *has* an outline, so its colour and width sit on the style, like a fill.
//! [`stroke_home`] names that split once.

use vstd::prelude::*;

use crate::item::{
    Align, Anchor, ArrowKind, CardMode, Color, ConnectorEnd, Dash, Item, ItemId, ItemKind,
    Placement, Routing, Style,
};
use crate::note::NoteScope;
use crate::options::reads;
use crate::scalar::{Scalar, INFINITE, LINE_HEIGHT, ONE, QUARTER, ZERO};
use crate::text::same;

verus! {

/// Which set of controls an item answers to.
#[derive(Clone, Copy, Debug, PartialEq, Eq, Structural)]
pub enum ItemFacet {
    Sticky,
    Text,
    Ink,
    Link,
    Image,
    Connector,
    Frame,
    Shape,
    Table,
    Chart,
    MindMap,
    Kanban,
    Group,
    Agent,
    FileTree,
    Note,
    Browser,
}

/// A connector's line pattern, as the panel offers it.
#[derive(Clone, Copy, Debug, PartialEq, Eq, Structural)]
pub enum LineStyle {
    Solid,
    Dashed,
    Dotted,
}

/// How a connector finds its way, as the panel offers it.
#[derive(Clone, Copy, Debug, PartialEq, Eq, Structural)]
pub enum RoutingMode {
    Straight,
    Curved,
    Orthogonal,
}

/// What a connector ends in, as the panel offers it.
#[derive(Clone, Copy, Debug, PartialEq, Eq, Structural)]
pub enum Arrowhead {
    Bare,
    LineArrow,
    FilledTriangle,
    OpenTriangle,
    Circle,
    FilledCircle,
    Diamond,
    FilledDiamond,
}

/// Which named point of its target an end is tied to. `Free` is an end tied to nothing.
#[derive(Clone, Copy, Debug, PartialEq, Eq, Structural)]
pub enum AnchorSide {
    Free,
    Centre,
    Top,
    Right,
    Bottom,
    Left,
    Custom,
}

/// An outline, as the panel shows it.
#[derive(Clone, Copy, Debug, PartialEq, Eq, Structural)]
pub struct Border {
    pub color: Color,
    pub width: Scalar,
    pub style: LineStyle,
}

/// The typography of an item, as the panel shows it.
#[derive(Clone, Debug)]
pub struct TextSummary {
    pub content: String,
    pub family: Option<String>,
    pub size: Option<Scalar>,
    pub color: Color,
    pub align: Align,
    pub line_height: Scalar,
}

/// A connector, as the panel shows it.
#[derive(Clone, Copy, Debug, PartialEq, Eq, Structural)]
pub struct ConnectorSummary {
    pub routing: RoutingMode,
    pub start_arrow: Arrowhead,
    pub end_arrow: Arrowhead,
    pub start_anchor: AnchorSide,
    pub end_anchor: AnchorSide,
}

/// A link card, as the panel shows it.
#[derive(Clone, Debug)]
pub struct LinkSummary {
    pub url: Option<String>,
    pub provider: Option<String>,
    pub mode: CardMode,
    pub has_image: bool,
}

/// One control of the panel, moved to a value.
#[derive(Clone, Debug)]
pub enum StyleEdit {
    Fill(Option<Color>),
    Opacity(Scalar),
    FontFamily(Option<String>),
    FontSize(Option<Scalar>),
    FontWeight,
    TextColor(Color),
    Align(Align),
    VerticalAlign,
    LineHeight(Scalar),
    BorderColor(Color),
    BorderWidth(Scalar),
    BorderStyle(LineStyle),
    BorderCleared,
    Routing(RoutingMode),
    StartArrow(Arrowhead),
    EndArrow(Arrowhead),
    /// The point the chosen side stands for; `None` for a side that names no point.
    StartAnchor(Option<Anchor>),
    /// The point the chosen side stands for; `None` for a side that names no point.
    EndAnchor(Option<Anchor>),
    CardMode(CardMode),
    Locked(bool),
}

// ----- document to panel ---------------------------------------------------------------

/// The facet of a kind. A link card and an embed are links; a PDF presents as a picture.
pub open spec fn facet(kind: ItemKind) -> ItemFacet {
    match kind {
        ItemKind::Sticky { .. } => ItemFacet::Sticky,
        ItemKind::Text { .. } => ItemFacet::Text,
        ItemKind::Ink { .. } => ItemFacet::Ink,
        ItemKind::LinkPreview { .. } => ItemFacet::Link,
        ItemKind::Embed { .. } => ItemFacet::Link,
        ItemKind::Image { .. } => ItemFacet::Image,
        ItemKind::Document { .. } => ItemFacet::Image,
        ItemKind::Connector { .. } => ItemFacet::Connector,
        ItemKind::Frame { .. } => ItemFacet::Frame,
        ItemKind::Shape { .. } => ItemFacet::Shape,
        ItemKind::Table { .. } => ItemFacet::Table,
        ItemKind::Chart { .. } => ItemFacet::Chart,
        ItemKind::MindMap { .. } => ItemFacet::MindMap,
        ItemKind::Kanban { .. } => ItemFacet::Kanban,
        ItemKind::Group => ItemFacet::Group,
        ItemKind::Agent { .. } => ItemFacet::Agent,
        ItemKind::FileTree { .. } => ItemFacet::FileTree,
        ItemKind::AgentNote { .. } => ItemFacet::Note,
        ItemKind::Browser { .. } => ItemFacet::Browser,
    }
}

/// Which set of controls an item answers to.
pub fn facet_of(kind: &ItemKind) -> (answer: ItemFacet)
    ensures
        answer == facet(*kind),
{
    match kind {
        ItemKind::Sticky { .. } => ItemFacet::Sticky,
        ItemKind::Text { .. } => ItemFacet::Text,
        ItemKind::Ink { .. } => ItemFacet::Ink,
        ItemKind::LinkPreview { .. } | ItemKind::Embed { .. } => ItemFacet::Link,
        ItemKind::Image { .. } | ItemKind::Document { .. } => ItemFacet::Image,
        ItemKind::Connector { .. } => ItemFacet::Connector,
        ItemKind::Frame { .. } => ItemFacet::Frame,
        ItemKind::Shape { .. } => ItemFacet::Shape,
        ItemKind::Table { .. } => ItemFacet::Table,
        ItemKind::Chart { .. } => ItemFacet::Chart,
        ItemKind::MindMap { .. } => ItemFacet::MindMap,
        ItemKind::Kanban { .. } => ItemFacet::Kanban,
        ItemKind::Group => ItemFacet::Group,
        ItemKind::Agent { .. } => ItemFacet::Agent,
        ItemKind::FileTree { .. } => ItemFacet::FileTree,
        ItemKind::AgentNote { .. } => ItemFacet::Note,
        ItemKind::Browser { .. } => ItemFacet::Browser,
    }
}

/// The canonical sticky yellow, shown as a sticky's fill when the document says nothing.
pub open spec fn miro_yellow() -> Color {
    Color { r: 0xFF, g: 0xF7, b: 0x9E, a: 255 }
}

/// The ink colour, shown when the document carries no colour of its own.
pub open spec fn default_stroke() -> Color {
    Color { r: 0x1A, g: 0x1D, b: 0x1F, a: 255 }
}

/// The light theme's border, which a shape with no stroke of its own is drawn with.
pub open spec fn border_of_the_theme() -> Color {
    Color { r: 0xE5, g: 0xEA, b: 0xED, a: 255 }
}

/// The light theme's border colour.
pub fn theme_border() -> (color: Color)
    ensures
        color == border_of_the_theme(),
{
    Color::rgb(0xE5, 0xEA, 0xED)
}

/// The ink colour.
pub fn ink_color() -> (color: Color)
    ensures
        color == default_stroke(),
{
    Color::rgb(0x1A, 0x1D, 0x1F)
}

/// `None` for a kind with no fill at all; `Some(None)` for "no fill", which a frame and a
/// shape can say and a sticky cannot.
pub open spec fn fill(item: Item) -> Option<Option<Color>> {
    match item.kind {
        ItemKind::Sticky { background, .. } => Some(
            Some(
                match background {
                    Some(color) => color,
                    None => miro_yellow(),
                },
            ),
        ),
        ItemKind::Frame { .. } => Some(item.style.fill),
        ItemKind::Shape { .. } => Some(item.style.fill),
        _ => None,
    }
}

/// What the panel's fill swatch shows of an item.
pub fn fill_of(item: &Item) -> (answer: Option<Option<Color>>)
    ensures
        answer == fill(*item),
{
    match &item.kind {
        ItemKind::Sticky { background, .. } => match background {
            Some(color) => Some(Some(*color)),
            None => Some(Some(Color::rgb(0xFF, 0xF7, 0x9E))),
        },
        ItemKind::Frame { .. } | ItemKind::Shape { .. } => Some(item.style.fill),
        _ => None,
    }
}

/// Where an item's outline is stored.
#[derive(Clone, Copy, Debug, PartialEq, Eq, Structural)]
pub enum StrokeHome {
    /// Ink and connectors: the stroke is the geometry.
    Kind,
    /// Shapes: an outline the item merely has.
    Style,
    /// Everything else: nothing the panel can edit.
    Nowhere,
}

/// Where an item of this kind keeps its outline.
pub open spec fn home_of_stroke(kind: ItemKind) -> StrokeHome {
    match kind {
        ItemKind::Ink { .. } => StrokeHome::Kind,
        ItemKind::Connector { .. } => StrokeHome::Kind,
        ItemKind::Shape { .. } => StrokeHome::Style,
        _ => StrokeHome::Nowhere,
    }
}

/// Where an item of this kind keeps its outline.
pub fn stroke_home(kind: &ItemKind) -> (home: StrokeHome)
    ensures
        home == home_of_stroke(*kind),
{
    match kind {
        ItemKind::Ink { .. } | ItemKind::Connector { .. } => StrokeHome::Kind,
        ItemKind::Shape { .. } => StrokeHome::Style,
        _ => StrokeHome::Nowhere,
    }
}

pub open spec fn color_or(color: Option<Color>, fallback: Color) -> Color {
    match color {
        Some(c) => c,
        None => fallback,
    }
}

pub open spec fn scalar_or(value: Option<Scalar>, fallback: Scalar) -> Scalar {
    match value {
        Some(v) => v,
        None => fallback,
    }
}

/// The outline of an item, wherever its kind keeps it. A colour or a width that the
/// document leaves out shows as what is drawn in its place.
pub open spec fn stroke(item: Item) -> Option<Border> {
    match item.kind {
        ItemKind::Ink { color, thickness } => Some(
            Border {
                color: color_or(color, default_stroke()),
                width: thickness,
                style: LineStyle::Solid,
            },
        ),
        ItemKind::Connector { color, thickness, dash, .. } => Some(
            Border {
                color: color_or(color, default_stroke()),
                width: thickness,
                style: line_of_dash(dash),
            },
        ),
        ItemKind::Shape { .. } => Some(
            Border {
                color: color_or(item.style.stroke, border_of_the_theme()),
                width: scalar_or(item.style.stroke_width, Scalar { bits: ONE }),
                style: LineStyle::Solid,
            },
        ),
        _ => None,
    }
}

/// What the panel's border section shows of an item.
pub fn stroke_of(item: &Item) -> (answer: Option<Border>)
    ensures
        answer == stroke(*item),
{
    match &item.kind {
        ItemKind::Ink { color, thickness } => Some(
            Border {
                color: color.unwrap_or(ink_color()),
                width: *thickness,
                style: LineStyle::Solid,
            },
        ),
        ItemKind::Connector { color, thickness, dash, .. } => Some(
            Border {
                color: color.unwrap_or(ink_color()),
                width: *thickness,
                style: line_style(*dash),
            },
        ),
        ItemKind::Shape { .. } => Some(
            Border {
                color: item.style.stroke.unwrap_or(theme_border()),
                width: item.style.stroke_width.unwrap_or(Scalar { bits: ONE }),
                style: LineStyle::Solid,
            },
        ),
        _ => None,
    }
}

/// The words of a kind that the panel's typography section edits. A link card's title is
/// fetched, so it is not among them.
pub open spec fn editable_text(kind: ItemKind) -> Option<String> {
    match kind {
        ItemKind::Sticky { text, .. } => Some(text),
        ItemKind::Text { text } => Some(text),
        ItemKind::Frame { title } => Some(title),
        _ => None,
    }
}

/// The typography section of an item, for the kinds that hold editable text.
pub open spec fn text_shown(item: Item) -> Option<TextSummary> {
    match editable_text(item.kind) {
        None => None,
        Some(content) => Some(
            TextSummary {
                content,
                family: item.style.font_family,
                size: item.style.font_size,
                color: color_or(item.style.text_color, default_stroke()),
                align: match item.style.align {
                    Some(align) => align,
                    None => Align::Left,
                },
                line_height: scalar_or(item.style.line_height, Scalar { bits: LINE_HEIGHT }),
            },
        ),
    }
}

/// The typography section of an item, for the kinds that hold editable text.
pub fn text_of(item: &Item) -> (answer: Option<TextSummary>)
    ensures
        answer == text_shown(*item),
{
    let content: String = match &item.kind {
        ItemKind::Sticky { text, .. } => text.clone(),
        ItemKind::Text { text } => text.clone(),
        ItemKind::Frame { title } => title.clone(),
        _ => return None,
    };
    Some(
        TextSummary {
            content,
            family: copy_text(&item.style.font_family),
            size: item.style.font_size,
            color: item.style.text_color.unwrap_or(ink_color()),
            align: item.style.align.unwrap_or(Align::Left),
            line_height: item.style.line_height.unwrap_or(Scalar { bits: LINE_HEIGHT }),
        },
    )
}

/// A copy of an optional text.
pub fn copy_text(text: &Option<String>) -> (copy: Option<String>)
    ensures
        copy == *text,
{
    match text {
        Some(text) => Some(text.clone()),
        None => None,
    }
}

/// Whether two optional texts read alike.
fn same_words(a: &Option<String>, b: &Option<String>) -> (answer: bool)
    ensures
        answer == (reads(*a) == reads(*b)),
{
    match (a, b) {
        (None, None) => true,
        (Some(a), Some(b)) => same(a.as_str(), b.as_str()),
        _ => false,
    }
}

/// The link properties of a card: nothing for any other kind.
pub open spec fn link_shown(kind: ItemKind) -> Option<LinkSummary> {
    match kind {
        ItemKind::LinkPreview { url, provider, thumbnail, mode, .. } => Some(
            LinkSummary { url, provider, mode, has_image: thumbnail is Some },
        ),
        ItemKind::Embed { url, provider, thumbnail, mode, .. } => Some(
            LinkSummary { url, provider, mode, has_image: thumbnail is Some },
        ),
        _ => None,
    }
}

/// The link properties of a card: nothing for any other kind.
pub fn link_of(kind: &ItemKind) -> (answer: Option<LinkSummary>)
    ensures
        answer == link_shown(*kind),
{
    match kind {
        ItemKind::LinkPreview { url, provider, thumbnail, mode, .. } => Some(
            LinkSummary {
                url: copy_text(url),
                provider: copy_text(provider),
                mode: *mode,
                has_image: thumbnail.is_some(),
            },
        ),
        ItemKind::Embed { url, provider, thumbnail, mode, .. } => Some(
            LinkSummary {
                url: copy_text(url),
                provider: copy_text(provider),
                mode: *mode,
                has_image: thumbnail.is_some(),
            },
        ),
        _ => None,
    }
}

/// The side an end reports, given the side its fraction reads as: a free end is on no side,
/// whichever fraction it holds.
pub open spec fn side_of(end: ConnectorEnd, reads_as: AnchorSide) -> AnchorSide {
    if end.target is None {
        AnchorSide::Free
    } else {
        reads_as
    }
}

/// The side an end reports, given the side its fraction reads as.
pub fn anchor_side(end: &ConnectorEnd, reads_as: AnchorSide) -> (side: AnchorSide)
    ensures
        side == side_of(*end, reads_as),
{
    if end.target.is_none() {
        AnchorSide::Free
    } else {
        reads_as
    }
}

/// The connector section, given the side each end's fraction reads as: nothing for any
/// other kind.
pub open spec fn connector_shown(
    kind: ItemKind,
    start_reads_as: AnchorSide,
    end_reads_as: AnchorSide,
) -> Option<ConnectorSummary> {
    match kind {
        ItemKind::Connector { start, end, routing, .. } => Some(
            ConnectorSummary {
                routing: mode_of_routing(routing),
                start_arrow: head_of_arrow(start.arrowhead),
                end_arrow: head_of_arrow(end.arrowhead),
                start_anchor: side_of(start, start_reads_as),
                end_anchor: side_of(end, end_reads_as),
            },
        ),
        _ => None,
    }
}

/// The connector section of an item.
pub fn connector_of(
    kind: &ItemKind,
    start_reads_as: AnchorSide,
    end_reads_as: AnchorSide,
) -> (answer: Option<ConnectorSummary>)
    ensures
        answer == connector_shown(*kind, start_reads_as, end_reads_as),
{
    match kind {
        ItemKind::Connector { start, end, routing, .. } => Some(
            ConnectorSummary {
                routing: routing_mode(*routing),
                start_arrow: arrowhead(start.arrowhead),
                end_arrow: arrowhead(end.arrowhead),
                start_anchor: anchor_side(start, start_reads_as),
                end_anchor: anchor_side(end, end_reads_as),
            },
        ),
        _ => None,
    }
}

/// What the token of an item reads as, for the kinds that hold a node of their own.
#[derive(Clone, Debug)]
pub enum NodeModel {
    /// An item that is no such node.
    Plain,
    Agent(AgentModel),
    Note(NoteModel),
    FileTree(FileTreeModel),
    Browser(BrowserModel),
}

/// Whether a model is that of a kind.
pub open spec fn is_model_of(model: NodeModel, kind: ItemKind) -> bool {
    match kind {
        ItemKind::Agent { .. } => model is Agent,
        ItemKind::AgentNote { .. } => model is Note,
        ItemKind::FileTree { .. } => model is FileTree,
        ItemKind::Browser { .. } => model is Browser,
        _ => model is Plain,
    }
}

/// One item, as the panel sees it.
#[derive(Clone, Debug)]
pub struct SelectionItem {
    pub id: ItemId,
    pub facet: ItemFacet,
    pub placement: Placement,
    pub locked: bool,
    pub fill: Option<Option<Color>>,
    pub border: Option<Border>,
    pub opacity: Scalar,
    pub text: Option<TextSummary>,
    pub connector: Option<ConnectorSummary>,
    pub link: Option<LinkSummary>,
    pub agent: Option<AgentSummary>,
    pub note: Option<NoteSummary>,
    pub file_tree: Option<FileTreeSummary>,
    pub browser: Option<BrowserSummary>,
}

/// One selected item, if the board still has it, and what the panel needs beside it: the
/// side each end of a connector reads as, what its token reads as, and what is not in the
/// document.
#[derive(Clone, Debug)]
pub struct Selected {
    pub id: ItemId,
    pub item: Option<Item>,
    pub start_reads_as: AnchorSide,
    pub end_reads_as: AnchorSide,
    pub model: NodeModel,
    pub facts: AgentFacts,
}

/// Whether `shown` is what the panel shows of an item that is selected.
pub open spec fn is_description(shown: SelectionItem, item: Item, selected: Selected) -> bool {
    &&& shown.id == selected.id
    &&& shown.facet == facet(item.kind)
    &&& shown.placement == item.placement
    &&& shown.locked == item.style.locked
    &&& shown.fill == fill(item)
    &&& shown.border == stroke(item)
    &&& shown.opacity == scalar_or(item.style.opacity, Scalar { bits: ONE })
    &&& shown.text == text_shown(item)
    &&& shown.connector == connector_shown(
        item.kind,
        selected.start_reads_as,
        selected.end_reads_as,
    )
    &&& shown.link == link_shown(item.kind)
    &&& shown.agent == (match selected.model {
        NodeModel::Agent(config) => agent_shown(item.kind, config, selected.facts),
        _ => None,
    })
    &&& shown.note == (match selected.model {
        NodeModel::Note(note) => note_shown(item.kind, note, selected.facts),
        _ => None,
    })
    &&& shown.file_tree == (match selected.model {
        NodeModel::FileTree(tree) => file_tree_shown(item.kind, tree, selected.facts),
        _ => None,
    })
    &&& shown.browser == (match selected.model {
        NodeModel::Browser(page) => browser_shown(item.kind, page, selected.facts),
        _ => None,
    })
}

/// Everything the panel shows of a selected item: nothing where the board no longer has it.
/// The lock is read from the document: it is what decides whether the control that unlocks
/// can be reached.
pub fn describe(selected: Selected) -> (shown: Option<SelectionItem>)
    requires
        selected.item is Some ==> is_model_of(selected.model, selected.item->0.kind),
    ensures
        shown is Some <==> selected.item is Some,
        shown is Some ==> is_description(shown->0, selected.item->0, selected),
        shown is Some ==> (shown->0.agent is Some <==> selected.item->0.kind is Agent),
        shown is Some ==> (shown->0.note is Some <==> selected.item->0.kind is AgentNote),
        shown is Some ==> (shown->0.file_tree is Some <==> selected.item->0.kind is FileTree),
        shown is Some ==> (shown->0.browser is Some <==> selected.item->0.kind is Browser),
        shown is Some ==> (shown->0.text is Some <==> selected.item->0.kind is Sticky
            || selected.item->0.kind is Text || selected.item->0.kind is Frame),
        shown is Some ==> (match selected.item->0.kind {
            ItemKind::Sticky { text, .. } => shown->0.text->0.content == text,
            ItemKind::Text { text } => shown->0.text->0.content == text,
            ItemKind::Frame { title } => shown->0.text->0.content == title,
            _ => true,
        }),
        shown is Some ==> (shown->0.connector is Some <==> selected.item->0.kind is Connector),
        shown is Some ==> (shown->0.link is Some <==> selected.item->0.kind is LinkPreview
            || selected.item->0.kind is Embed),
        shown is Some ==> (shown->0.fill is Some <==> selected.item->0.kind is Sticky
            || selected.item->0.kind is Frame || selected.item->0.kind is Shape),
        shown is Some ==> (shown->0.border is Some <==> selected.item->0.kind is Ink
            || selected.item->0.kind is Connector || selected.item->0.kind is Shape),
{
    let item = match selected.item {
        Some(item) => item,
        None => return None,
    };
    let mut shown = SelectionItem {
        id: selected.id,
        facet: facet_of(&item.kind),
        placement: item.placement,
        locked: item.style.locked,
        fill: fill_of(&item),
        border: stroke_of(&item),
        opacity: item.style.opacity.unwrap_or(Scalar { bits: ONE }),
        text: text_of(&item),
        connector: connector_of(&item.kind, selected.start_reads_as, selected.end_reads_as),
        link: link_of(&item.kind),
        agent: None,
        note: None,
        file_tree: None,
        browser: None,
    };
    match selected.model {
        NodeModel::Plain => {},
        NodeModel::Agent(config) => {
            shown.agent = agent_of(&item.kind, config, selected.facts);
        },
        NodeModel::Note(note) => {
            shown.note = note_of(&item.kind, note, selected.facts);
        },
        NodeModel::FileTree(tree) => {
            shown.file_tree = file_tree_of(&item.kind, tree, selected.facts);
        },
        NodeModel::Browser(page) => {
            shown.browser = browser_of(&item.kind, page, &selected.facts);
        },
    }
    Some(shown)
}

/// Whether `shown` describes the selected items that are still there, in order.
pub open spec fn describes_all(shown: Seq<SelectionItem>, selected: Seq<Selected>) -> bool
    decreases selected.len(),
{
    if selected.len() == 0 {
        shown.len() == 0
    } else {
        let last = selected.last();
        match last.item {
            None => describes_all(shown, selected.drop_last()),
            Some(item) => shown.len() > 0 && is_description(shown.last(), item, last)
                && describes_all(shown.drop_last(), selected.drop_last()),
        }
    }
}

/// Flattens a selection into what the panel reads, in the selection's order. An item that is
/// no longer there is passed over.
pub fn selection_items(selected: Vec<Selected>) -> (shown: Vec<SelectionItem>)
    requires
        forall|i: int|
            0 <= i < selected@.len() && (#[trigger] selected@[i]).item is Some ==> is_model_of(
                selected@[i].model,
                selected@[i].item->0.kind,
            ),
    ensures
        describes_all(shown@, selected@),
{
    let ghost all = selected@;
    let mut left = selected;
    let mut shown: Vec<SelectionItem> = Vec::new();
    let mut at: Ghost<int> = Ghost(0);
    proof {
        assert(all.take(0) =~= Seq::<Selected>::empty());
        assert(all.skip(0) =~= all);
    }
    while left.len() > 0
        invariant
            0 <= at@ <= all.len(),
            left@ == all.skip(at@),
            forall|i: int|
                0 <= i < all.len() && (#[trigger] all[i]).item is Some ==> is_model_of(
                    all[i].model,
                    all[i].item->0.kind,
                ),
            describes_all(shown@, all.take(at@)),
        decreases left@.len(),
    {
        let ghost before = shown@;
        proof {
            assert(left@[0] == all[at@]);
            assert(all.take(at@ + 1).drop_last() =~= all.take(at@));
            assert(all.skip(at@).skip(1) =~= all.skip(at@ + 1));
        }
        let one = left.remove(0);
        if let Some(item) = describe(one) {
            shown.push(item);
            proof {
                assert(shown@.drop_last() =~= before);
            }
        }
        proof {
            assert(left@ =~= all.skip(at@ + 1));
        }
        at = Ghost(at@ + 1);
    }
    proof {
        assert(all.take(all.len() as int) =~= all);
    }
    shown
}

// ----- panel to document ---------------------------------------------------------------

/// What happened to an edit, so the caller can say so rather than guess.
#[derive(Clone, Copy, Debug, PartialEq, Eq, Structural)]
pub enum Applied {
    /// At least one item changed.
    Changed,
    /// Nothing in the selection carries this property.
    NotApplicable,
    /// The panel offers it and the document has nowhere to put it.
    Unsupported(Refusal),
}

/// Which property the document has nowhere to put.
#[derive(Clone, Copy, Debug, PartialEq, Eq, Structural)]
pub enum Refusal {
    FontWeight,
    VerticalAlign,
    ShapeDash,
}

impl Refusal {
    /// The sentence that says so.
    pub fn sentence(self) -> (sentence: &'static str)
        ensures
            sentence@ == (match self {
                Refusal::FontWeight =>
                    "Font weight lives in the text's own spans, which are not editable yet"@,
                Refusal::VerticalAlign =>
                    "Vertical alignment is a layout parameter the document does not carry yet"@,
                Refusal::ShapeDash =>
                    "A shape's outline is solid — only a connector's line carries a dash"@,
            }),
    {
        match self {
            Refusal::FontWeight =>
                "Font weight lives in the text's own spans, which are not editable yet",
            Refusal::VerticalAlign =>
                "Vertical alignment is a layout parameter the document does not carry yet",
            Refusal::ShapeDash =>
                "A shape's outline is solid — only a connector's line carries a dash",
        }
    }
}

/// Which halves of an item an edit wrote.
#[derive(Clone, Copy, Debug, PartialEq, Eq, Structural)]
pub struct Touched {
    pub kind: bool,
    pub style: bool,
}

/// The end of a connector after its anchor picker chose `anchor`: only an attached end
/// moves, and only to a named point it is not already on.
pub open spec fn end_can_move(end: ConnectorEnd, anchor: Option<Anchor>) -> bool {
    end.target is Some && anchor is Some && !(end.anchor.x.equal_to(anchor->0.x)
        && end.anchor.y.equal_to(anchor->0.y))
}

/// What an item's kind becomes under an edit, and whether the edit writes the kind at all.
pub open spec fn kind_after(kind: ItemKind, edit: StyleEdit) -> Option<ItemKind> {
    match (edit, kind) {
        (StyleEdit::Fill(fill), ItemKind::Sticky { text, .. }) => Some(
            ItemKind::Sticky { text, background: fill },
        ),
        (StyleEdit::BorderColor(c), ItemKind::Ink { thickness, .. }) => Some(
            ItemKind::Ink { color: Some(c), thickness },
        ),
        (StyleEdit::BorderCleared, ItemKind::Ink { thickness, .. }) => Some(
            ItemKind::Ink { color: None, thickness },
        ),
        (StyleEdit::BorderWidth(w), ItemKind::Ink { color, .. }) => Some(
            ItemKind::Ink { color, thickness: w.larger(Scalar { bits: QUARTER }) },
        ),
        (StyleEdit::CardMode(next), ItemKind::LinkPreview {
            title,
            url,
            description,
            thumbnail,
            provider,
            favicon,
            mode,
        }) => if mode == next {
            None
        } else {
            Some(
                ItemKind::LinkPreview {
                    title,
                    url,
                    description,
                    thumbnail,
                    provider,
                    favicon,
                    mode: next,
                },
            )
        },
        (StyleEdit::CardMode(next), ItemKind::Embed {
            title,
            url,
            description,
            provider,
            html,
            thumbnail,
            favicon,
            mode,
        }) => if mode == next {
            None
        } else {
            Some(
                ItemKind::Embed {
                    title,
                    url,
                    description,
                    provider,
                    html,
                    thumbnail,
                    favicon,
                    mode: next,
                },
            )
        },
        (edit, ItemKind::Connector { start, end, routing, dash, thickness, color }) => {
            match edit {
                StyleEdit::BorderColor(c) => Some(
                    ItemKind::Connector { start, end, routing, dash, thickness, color: Some(c) },
                ),
                StyleEdit::BorderCleared => Some(
                    ItemKind::Connector { start, end, routing, dash, thickness, color: None },
                ),
                StyleEdit::BorderWidth(w) => Some(
                    ItemKind::Connector {
                        start,
                        end,
                        routing,
                        dash,
                        thickness: w.larger(Scalar { bits: QUARTER }),
                        color,
                    },
                ),
                StyleEdit::BorderStyle(line) => Some(
                    ItemKind::Connector {
                        start,
                        end,
                        routing,
                        dash: dash_of_line(line),
                        thickness,
                        color,
                    },
                ),
                StyleEdit::Routing(mode) => Some(
                    ItemKind::Connector {
                        start,
                        end,
                        routing: routing_of_mode(mode),
                        dash,
                        thickness,
                        color,
                    },
                ),
                StyleEdit::StartArrow(head) => Some(
                    ItemKind::Connector {
                        start: ConnectorEnd { arrowhead: arrow_of_head(head), ..start },
                        end,
                        routing,
                        dash,
                        thickness,
                        color,
                    },
                ),
                StyleEdit::EndArrow(head) => Some(
                    ItemKind::Connector {
                        start,
                        end: ConnectorEnd { arrowhead: arrow_of_head(head), ..end },
                        routing,
                        dash,
                        thickness,
                        color,
                    },
                ),
                StyleEdit::StartAnchor(anchor) => if end_can_move(start, anchor) {
                    Some(
                        ItemKind::Connector {
                            start: ConnectorEnd { anchor: anchor->0, ..start },
                            end,
                            routing,
                            dash,
                            thickness,
                            color,
                        },
                    )
                } else {
                    None
                },
                StyleEdit::EndAnchor(anchor) => if end_can_move(end, anchor) {
                    Some(
                        ItemKind::Connector {
                            start,
                            end: ConnectorEnd { anchor: anchor->0, ..end },
                            routing,
                            dash,
                            thickness,
                            color,
                        },
                    )
                } else {
                    None
                },
                _ => None,
            }
        },
        _ => None,
    }
}

/// What an item's style becomes under an edit, and whether the edit writes the style at
/// all. Clearing a shape's border is a transparent stroke: an absent one would inherit the
/// theme's.
pub open spec fn style_after(kind: ItemKind, style: Style, edit: StyleEdit) -> Option<Style> {
    match edit {
        StyleEdit::Fill(fill) => if kind is Frame || kind is Shape {
            Some(Style { fill, ..style })
        } else {
            None
        },
        StyleEdit::Opacity(opacity) => Some(
            Style {
                opacity: Some(opacity.between(Scalar { bits: ZERO }, Scalar { bits: ONE })),
                ..style
            },
        ),
        StyleEdit::FontFamily(family) => Some(
            Style {
                font_family: if reads(family) == reads(style.font_family) {
                    style.font_family
                } else {
                    family
                },
                ..style
            },
        ),
        StyleEdit::FontSize(size) => Some(Style { font_size: size, ..style }),
        StyleEdit::TextColor(color) => Some(Style { text_color: Some(color), ..style }),
        StyleEdit::Align(align) => Some(Style { align: Some(align), ..style }),
        StyleEdit::LineHeight(height) => Some(Style { line_height: Some(height), ..style }),
        StyleEdit::Locked(locked) => Some(Style { locked, ..style }),
        StyleEdit::BorderColor(color) => if kind is Shape {
            Some(Style { stroke: Some(color), ..style })
        } else {
            None
        },
        StyleEdit::BorderWidth(width) => if kind is Shape {
            Some(Style { stroke_width: Some(width.larger(Scalar { bits: ZERO })), ..style })
        } else {
            None
        },
        StyleEdit::BorderCleared => if kind is Shape {
            Some(Style { stroke: Some(Color { r: 0, g: 0, b: 0, a: 0 }), ..style })
        } else {
            None
        },
        _ => None,
    }
}

/// Which halves of an item an edit writes.
pub open spec fn touches(item: Item, edit: StyleEdit) -> Touched {
    Touched {
        kind: kind_after(item.kind, edit) is Some,
        style: style_after(item.kind, item.style, edit) is Some,
    }
}

/// An item after an edit.
pub open spec fn edited(item: Item, edit: StyleEdit) -> Item {
    Item {
        kind: match kind_after(item.kind, edit) {
            Some(kind) => kind,
            None => item.kind,
        },
        style: match style_after(item.kind, item.style, edit) {
            Some(style) => style,
            None => item.style,
        },
        placement: item.placement,
    }
}

/// Whether an edit changes an item at all. One that writes what is already there does not.
pub open spec fn alters(item: Item, edit: StyleEdit) -> bool {
    edited(item, edit) != item
}

fn set_stroke_color(kind: &mut ItemKind, value: Option<Color>) -> (touched: bool)
    ensures
        touched == (home_of_stroke(*old(kind)) == StrokeHome::Kind),
        *final(kind) == (match *old(kind) {
            ItemKind::Ink { thickness, .. } => ItemKind::Ink { color: value, thickness },
            ItemKind::Connector { start, end, routing, dash, thickness, .. } =>
                ItemKind::Connector { start, end, routing, dash, thickness, color: value },
            other => other,
        }),
{
    match kind {
        ItemKind::Ink { color, .. } => {
            *color = value;
            true
        },
        ItemKind::Connector { color, .. } => {
            *color = value;
            true
        },
        _ => false,
    }
}

/// A stroke of zero width would be invisible and impossible to hit, so a stroke that is the
/// geometry never goes below a quarter.
fn set_stroke_width(kind: &mut ItemKind, width: Scalar) -> (touched: bool)
    ensures
        touched == (home_of_stroke(*old(kind)) == StrokeHome::Kind),
        *final(kind) == (match *old(kind) {
            ItemKind::Ink { color, .. } => ItemKind::Ink {
                color,
                thickness: width.larger(Scalar { bits: QUARTER }),
            },
            ItemKind::Connector { start, end, routing, dash, color, .. } => ItemKind::Connector {
                start,
                end,
                routing,
                dash,
                thickness: width.larger(Scalar { bits: QUARTER }),
                color,
            },
            other => other,
        }),
{
    let width = width.max(Scalar { bits: QUARTER });
    match kind {
        ItemKind::Ink { thickness, .. } => {
            *thickness = width;
            true
        },
        ItemKind::Connector { thickness, .. } => {
            *thickness = width;
            true
        },
        _ => false,
    }
}

fn set_dash(kind: &mut ItemKind, line: LineStyle) -> (touched: bool)
    ensures
        touched == (*old(kind) is Connector),
        *final(kind) == (match *old(kind) {
            ItemKind::Connector { start, end, routing, thickness, color, .. } =>
                ItemKind::Connector {
                start,
                end,
                routing,
                dash: dash_of_line(line),
                thickness,
                color,
            },
            other => other,
        }),
{
    match kind {
        ItemKind::Connector { dash, .. } => {
            *dash = dash_of(line);
            true
        },
        _ => false,
    }
}

fn set_arrow(kind: &mut ItemKind, at_start: bool, head: Arrowhead) -> (touched: bool)
    ensures
        touched == (*old(kind) is Connector),
        *final(kind) == (match *old(kind) {
            ItemKind::Connector { start, end, routing, dash, thickness, color } =>
                ItemKind::Connector {
                start: if at_start {
                    ConnectorEnd { arrowhead: arrow_of_head(head), ..start }
                } else {
                    start
                },
                end: if at_start {
                    end
                } else {
                    ConnectorEnd { arrowhead: arrow_of_head(head), ..end }
                },
                routing,
                dash,
                thickness,
                color,
            },
            other => other,
        }),
{
    match kind {
        ItemKind::Connector { start, end, .. } => {
            if at_start {
                start.arrowhead = arrow_of(head);
            } else {
                end.arrowhead = arrow_of(head);
            }
            true
        },
        _ => false,
    }
}

/// Moves one end to a named attachment point. A free end is refused: its fraction is of the
/// connector's own rectangle, so a side would attach it to nothing.
fn set_anchor(kind: &mut ItemKind, at_start: bool, anchor: Option<Anchor>) -> (touched: bool)
    ensures
        touched == (match *old(kind) {
            ItemKind::Connector { start, end, .. } => if at_start {
                end_can_move(start, anchor)
            } else {
                end_can_move(end, anchor)
            },
            _ => false,
        }),
        *final(kind) == (match *old(kind) {
            ItemKind::Connector { start, end, routing, dash, thickness, color } =>
                ItemKind::Connector {
                start: if at_start && end_can_move(start, anchor) {
                    ConnectorEnd { anchor: anchor->0, ..start }
                } else {
                    start
                },
                end: if !at_start && end_can_move(end, anchor) {
                    ConnectorEnd { anchor: anchor->0, ..end }
                } else {
                    end
                },
                routing,
                dash,
                thickness,
                color,
            },
            other => other,
        }),
{
    let next = match anchor {
        Some(next) => next,
        None => return false,
    };
    match kind {
        ItemKind::Connector { start, end, .. } => {
            if at_start {
                if start.target.is_none() || (start.anchor.x.equals(next.x)
                    && start.anchor.y.equals(next.y)) {
                    return false;
                }
                start.anchor = next;
            } else {
                if end.target.is_none() || (end.anchor.x.equals(next.x) && end.anchor.y.equals(
                    next.y,
                )) {
                    return false;
                }
                end.anchor = next;
            }
            true
        },
        _ => false,
    }
}

fn set_mode(kind: &mut ItemKind, next: CardMode) -> (touched: bool)
    ensures
        touched == (kind_after(*old(kind), StyleEdit::CardMode(next)) is Some),
        *final(kind) == (match kind_after(*old(kind), StyleEdit::CardMode(next)) {
            Some(kind) => kind,
            None => *old(kind),
        }),
{
    match kind {
        ItemKind::LinkPreview { mode, .. } => {
            let changed = *mode != next;
            *mode = next;
            changed
        },
        ItemKind::Embed { mode, .. } => {
            let changed = *mode != next;
            *mode = next;
            changed
        },
        _ => false,
    }
}

/// Applies one control to one item.
pub fn apply_one(item: &mut Item, edit: &StyleEdit) -> (touched: Touched)
    ensures
        touched == touches(*old(item), *edit),
        *final(item) == edited(*old(item), *edit),
{
    let mut kind = false;
    let mut style = false;
    match edit {
        StyleEdit::Fill(fill) => match &mut item.kind {
            ItemKind::Sticky { background, .. } => {
                *background = *fill;
                kind = true;
            },
            ItemKind::Frame { .. } | ItemKind::Shape { .. } => {
                item.style.fill = *fill;
                style = true;
            },
            _ => {},
        },
        StyleEdit::Opacity(opacity) => {
            item.style.opacity = Some(
                opacity.clamp(Scalar { bits: ZERO }, Scalar { bits: ONE }),
            );
            style = true;
        },
        StyleEdit::FontFamily(family) => {
            if !same_words(family, &item.style.font_family) {
                item.style.font_family = copy_text(family);
            }
            style = true;
        },
        StyleEdit::FontSize(size) => {
            item.style.font_size = *size;
            style = true;
        },
        StyleEdit::TextColor(color) => {
            item.style.text_color = Some(*color);
            style = true;
        },
        StyleEdit::Align(align) => {
            item.style.align = Some(*align);
            style = true;
        },
        StyleEdit::LineHeight(height) => {
            item.style.line_height = Some(*height);
            style = true;
        },
        StyleEdit::BorderColor(color) => match stroke_home(&item.kind) {
            StrokeHome::Kind => kind = set_stroke_color(&mut item.kind, Some(*color)),
            StrokeHome::Style => {
                item.style.stroke = Some(*color);
                style = true;
            },
            StrokeHome::Nowhere => {},
        },
        StyleEdit::BorderWidth(width) => match stroke_home(&item.kind) {
            StrokeHome::Kind => kind = set_stroke_width(&mut item.kind, *width),
            StrokeHome::Style => {
                item.style.stroke_width = Some(width.max(Scalar { bits: ZERO }));
                style = true;
            },
            StrokeHome::Nowhere => {},
        },
        StyleEdit::BorderStyle(line) => kind = set_dash(&mut item.kind, *line),
        StyleEdit::BorderCleared => match stroke_home(&item.kind) {
            StrokeHome::Kind => kind = set_stroke_color(&mut item.kind, None),
            StrokeHome::Style => {
                item.style.stroke = Some(Color { r: 0, g: 0, b: 0, a: 0 });
                style = true;
            },
            StrokeHome::Nowhere => {},
        },
        StyleEdit::Routing(mode) => match &mut item.kind {
            ItemKind::Connector { routing, .. } => {
                *routing = routing_of(*mode);
                kind = true;
            },
            _ => {},
        },
        StyleEdit::StartArrow(head) => kind = set_arrow(&mut item.kind, true, *head),
        StyleEdit::EndArrow(head) => kind = set_arrow(&mut item.kind, false, *head),
        StyleEdit::CardMode(next) => kind = set_mode(&mut item.kind, *next),
        StyleEdit::StartAnchor(anchor) => kind = set_anchor(&mut item.kind, true, *anchor),
        StyleEdit::EndAnchor(anchor) => kind = set_anchor(&mut item.kind, false, *anchor),
        StyleEdit::Locked(locked) => {
            item.style.locked = *locked;
            style = true;
        },
        StyleEdit::FontWeight | StyleEdit::VerticalAlign => {},
    }
    Touched { kind, style }
}

/// Whether an edit changes the kind of an item.
fn alters_kind(kind: &ItemKind, edit: &StyleEdit) -> (answer: bool)
    ensures
        answer == (kind_after(*kind, *edit) is Some && kind_after(*kind, *edit)->0 != *kind),
{
    match kind {
        ItemKind::Sticky { background, .. } => match edit {
            StyleEdit::Fill(fill) => *background != *fill,
            _ => false,
        },
        ItemKind::Ink { color, thickness } => match edit {
            StyleEdit::BorderColor(next) => *color != Some(*next),
            StyleEdit::BorderCleared => color.is_some(),
            StyleEdit::BorderWidth(width) => *thickness != width.max(Scalar { bits: QUARTER }),
            _ => false,
        },
        ItemKind::LinkPreview { mode, .. } => match edit {
            StyleEdit::CardMode(next) => *mode != *next,
            _ => false,
        },
        ItemKind::Embed { mode, .. } => match edit {
            StyleEdit::CardMode(next) => *mode != *next,
            _ => false,
        },
        ItemKind::Connector { start, end, routing, dash, thickness, color } => match edit {
            StyleEdit::BorderColor(next) => *color != Some(*next),
            StyleEdit::BorderCleared => color.is_some(),
            StyleEdit::BorderWidth(width) => *thickness != width.max(Scalar { bits: QUARTER }),
            StyleEdit::BorderStyle(line) => *dash != dash_of(*line),
            StyleEdit::Routing(mode) => *routing != routing_of(*mode),
            StyleEdit::StartArrow(head) => start.arrowhead != arrow_of(*head),
            StyleEdit::EndArrow(head) => end.arrowhead != arrow_of(*head),
            StyleEdit::StartAnchor(anchor) => moves_end(start, *anchor),
            StyleEdit::EndAnchor(anchor) => moves_end(end, *anchor),
            _ => false,
        },
        _ => false,
    }
}

fn moves_end(end: &ConnectorEnd, anchor: Option<Anchor>) -> (answer: bool)
    ensures
        answer == (end_can_move(*end, anchor) && end.anchor != anchor->0),
{
    match anchor {
        Some(next) => end.target.is_some() && !(end.anchor.x.equals(next.x)
            && end.anchor.y.equals(next.y)) && end.anchor != next,
        None => false,
    }
}

/// Whether an edit changes the style of an item.
fn alters_style(kind: &ItemKind, style: &Style, edit: &StyleEdit) -> (answer: bool)
    ensures
        answer == (style_after(*kind, *style, *edit) is Some && style_after(*kind, *style, *edit)->0
            != *style),
{
    let shape = matches!(kind, ItemKind::Shape { .. });
    match edit {
        StyleEdit::Fill(fill) => (shape || matches!(kind, ItemKind::Frame { .. })) && style.fill
            != *fill,
        StyleEdit::Opacity(opacity) => style.opacity != Some(
            opacity.clamp(Scalar { bits: ZERO }, Scalar { bits: ONE }),
        ),
        StyleEdit::FontFamily(family) => !same_words(family, &style.font_family),
        StyleEdit::FontSize(size) => style.font_size != *size,
        StyleEdit::TextColor(color) => style.text_color != Some(*color),
        StyleEdit::Align(align) => style.align != Some(*align),
        StyleEdit::LineHeight(height) => style.line_height != Some(*height),
        StyleEdit::Locked(locked) => style.locked != *locked,
        StyleEdit::BorderColor(color) => shape && style.stroke != Some(*color),
        StyleEdit::BorderWidth(width) => shape && style.stroke_width != Some(
            width.max(Scalar { bits: ZERO }),
        ),
        StyleEdit::BorderCleared => shape && style.stroke != Some(
            Color { r: 0, g: 0, b: 0, a: 0 },
        ),
        _ => false,
    }
}

/// Whether an edit changes an item.
pub fn is_altered(item: &Item, edit: &StyleEdit) -> (answer: bool)
    ensures
        answer == alters(*item, *edit),
{
    alters_kind(&item.kind, edit) || alters_style(&item.kind, &item.style, edit)
}

/// What a control did to a selection.
#[derive(Clone, Debug)]
pub struct StyleReport {
    pub applied: Applied,
    /// Which halves of each selected item the edit reaches, in the selection's order. Empty
    /// where the edit was refused. Nothing is written unless something changed.
    pub touched: Vec<Touched>,
}

pub open spec fn any_shape(items: Seq<Option<Item>>) -> bool {
    exists|i: int|
        0 <= i < items.len() && (#[trigger] items[i]) is Some && items[i]->0.kind is Shape
}

pub open spec fn any_connector(items: Seq<Option<Item>>) -> bool {
    exists|i: int|
        0 <= i < items.len() && (#[trigger] items[i]) is Some && items[i]->0.kind is Connector
}

/// Whether an edit is refused for the whole selection, and why. A dash is refused only
/// where a shape asks for it and nothing selected can take it.
pub open spec fn refusal(items: Seq<Option<Item>>, edit: StyleEdit) -> Option<Refusal> {
    match edit {
        StyleEdit::FontWeight => Some(Refusal::FontWeight),
        StyleEdit::VerticalAlign => Some(Refusal::VerticalAlign),
        StyleEdit::BorderStyle(_) => if any_shape(items) && !any_connector(items) {
            Some(Refusal::ShapeDash)
        } else {
            None
        },
        _ => None,
    }
}

/// An item of a selection after an edit. `None` is an item the board no longer has.
pub open spec fn edited_slot(item: Option<Item>, edit: StyleEdit) -> Option<Item> {
    match item {
        Some(item) => Some(edited(item, edit)),
        None => None,
    }
}

pub open spec fn touches_slot(item: Option<Item>, edit: StyleEdit) -> Touched {
    match item {
        Some(item) => touches(item, edit),
        None => Touched { kind: false, style: false },
    }
}

/// Whether an edit changes any item of a selection.
pub open spec fn alters_any(items: Seq<Option<Item>>, edit: StyleEdit) -> bool {
    exists|i: int| 0 <= i < items.len() && edited_slot(#[trigger] items[i], edit) != items[i]
}

/// Applies one styling control to every selected item. The caller writes back what the
/// report says was touched, as one undo step.
pub fn apply_style(items: &mut Vec<Option<Item>>, edit: &StyleEdit) -> (report: StyleReport)
    ensures
        old(items)@.len() == 0 ==> report.applied == Applied::NotApplicable,
        old(items)@.len() > 0 ==> report.applied == (match refusal(old(items)@, *edit) {
            Some(why) => Applied::Unsupported(why),
            None => if alters_any(old(items)@, *edit) {
                Applied::Changed
            } else {
                Applied::NotApplicable
            },
        }),
        final(items)@.len() == old(items)@.len(),
        refusal(old(items)@, *edit) is Some ==> final(items)@ == old(items)@
            && report.touched@.len() == 0,
        refusal(old(items)@, *edit) is None ==> {
            &&& report.touched@.len() == old(items)@.len()
            &&& forall|i: int|
                #![trigger final(items)@[i]]
                0 <= i < old(items)@.len() ==> final(items)@[i] == edited_slot(
                    old(items)@[i],
                    *edit,
                )
            &&& forall|i: int|
                #![trigger report.touched@[i]]
                0 <= i < old(items)@.len() ==> report.touched@[i] == touches_slot(
                    old(items)@[i],
                    *edit,
                )
        },
{
    let mut touched: Vec<Touched> = Vec::new();
    match edit {
        StyleEdit::FontWeight => {
            let applied = if items.len() == 0 {
                Applied::NotApplicable
            } else {
                Applied::Unsupported(Refusal::FontWeight)
            };
            return StyleReport { applied, touched };
        },
        StyleEdit::VerticalAlign => {
            let applied = if items.len() == 0 {
                Applied::NotApplicable
            } else {
                Applied::Unsupported(Refusal::VerticalAlign)
            };
            return StyleReport { applied, touched };
        },
        StyleEdit::BorderStyle(_) => {
            let mut shapes = false;
            let mut dashable = false;
            let mut i: usize = 0;
            while i < items.len()
                invariant
                    i <= items@.len(),
                    *items == *old(items),
                    shapes == any_shape(items@.take(i as int)),
                    dashable == any_connector(items@.take(i as int)),
                decreases items@.len() - i,
            {
                let ghost seen = items@.take(i as int);
                let ghost next = items@.take(i as int + 1);
                let mut shape = false;
                let mut wire = false;
                match &items[i] {
                    Some(item) => match item.kind {
                        ItemKind::Shape { .. } => {
                            shape = true;
                        },
                        ItemKind::Connector { .. } => {
                            wire = true;
                        },
                        _ => {},
                    },
                    None => {},
                }
                proof {
                    assert(forall|k: int| 0 <= k < i ==> next[k] == seen[k]);
                    assert(next[i as int] == items@[i as int]);
                    if shapes {
                        let k = choose|k: int|
                            0 <= k < seen.len() && (#[trigger] seen[k]) is Some
                                && seen[k]->0.kind is Shape;
                        assert(next[k] is Some && next[k]->0.kind is Shape);
                    }
                    if dashable {
                        let k = choose|k: int|
                            0 <= k < seen.len() && (#[trigger] seen[k]) is Some
                                && seen[k]->0.kind is Connector;
                        assert(next[k] is Some && next[k]->0.kind is Connector);
                    }
                    if any_shape(next) && !shape {
                        let k = choose|k: int|
                            0 <= k < next.len() && (#[trigger] next[k]) is Some
                                && next[k]->0.kind is Shape;
                        assert(seen[k] is Some);
                    }
                    if any_connector(next) && !wire {
                        let k = choose|k: int|
                            0 <= k < next.len() && (#[trigger] next[k]) is Some
                                && next[k]->0.kind is Connector;
                        assert(seen[k] is Some);
                    }
                }
                shapes = shapes || shape;
                dashable = dashable || wire;
                i = i + 1;
            }
            proof {
                assert(items@.take(items@.len() as int) =~= items@);
            }
            if shapes && !dashable {
                return StyleReport {
                    applied: Applied::Unsupported(Refusal::ShapeDash),
                    touched,
                };
            }
        },
        _ => {},
    }
    let mut changed = false;
    let mut i: usize = 0;
    while i < items.len()
        invariant
            i <= items@.len(),
            items@.len() == old(items)@.len(),
            touched@.len() == i,
            forall|k: int| i <= k < items@.len() ==> items@[k] == old(items)@[k],
            forall|k: int|
                #![trigger items@[k]]
                0 <= k < i ==> items@[k] == edited_slot(old(items)@[k], *edit),
            forall|k: int|
                #![trigger touched@[k]]
                0 <= k < i ==> touched@[k] == touches_slot(old(items)@[k], *edit),
            changed == alters_any(old(items)@.take(i as int), *edit),
        decreases items@.len() - i,
    {
        let ghost seen = old(items)@.take(i as int);
        let ghost next = old(items)@.take(i as int + 1);
        let altered = match &items[i] {
            Some(item) => is_altered(item, edit),
            None => false,
        };
        let wrote = match &mut items[i] {
            Some(item) => apply_one(item, edit),
            None => Touched { kind: false, style: false },
        };
        touched.push(wrote);
        proof {
            assert(forall|k: int| 0 <= k < i ==> next[k] == seen[k]);
            assert(next[i as int] == old(items)@[i as int]);
            assert(altered == (edited_slot(next[i as int], *edit) != next[i as int]));
            if changed {
                let k = choose|k: int|
                    0 <= k < seen.len() && edited_slot(#[trigger] seen[k], *edit) != seen[k];
                assert(edited_slot(next[k], *edit) != next[k]);
            }
            if alters_any(next, *edit) && !altered {
                let k = choose|k: int|
                    0 <= k < next.len() && edited_slot(#[trigger] next[k], *edit) != next[k];
                assert(edited_slot(seen[k], *edit) != seen[k]);
            }
        }
        changed = changed || altered;
        i = i + 1;
    }
    proof {
        assert(old(items)@.take(old(items)@.len() as int) =~= old(items)@);
    }
    StyleReport {
        applied: if changed {
            Applied::Changed
        } else {
            Applied::NotApplicable
        },
        touched,
    }
}

/// The corner a selection's box starts from.
#[derive(Clone, Copy, Debug, PartialEq, Eq, Structural)]
pub struct Corner {
    pub x: Scalar,
    pub y: Scalar,
}

/// The least of `values`, a NaN counting as none, or infinity where there is none.
pub open spec fn least(values: Seq<Scalar>) -> Scalar
    decreases values.len(),
{
    if values.len() == 0 {
        Scalar { bits: INFINITE }
    } else {
        least(values.drop_last()).smaller(values.last())
    }
}

/// Where the items of a selection that are still there are, in order.
pub open spec fn present(items: Seq<Option<Item>>) -> Seq<Placement>
    decreases items.len(),
{
    if items.len() == 0 {
        Seq::empty()
    } else {
        match items.last() {
            Some(item) => present(items.drop_last()).push(item.placement),
            None => present(items.drop_last()),
        }
    }
}

/// The corner a selection's box starts from, if any of it is there. A position field moves
/// the whole box to its value, so that the items keep their places in it.
pub fn selection_corner(items: &Vec<Option<Item>>) -> (corner: Option<Corner>)
    ensures
        corner is Some <==> present(items@).len() > 0,
        corner is Some ==> corner->0 == (Corner {
            x: least(present(items@).map_values(|place: Placement| place.x)),
            y: least(present(items@).map_values(|place: Placement| place.y)),
        }),
{
    let mut x = Scalar { bits: INFINITE };
    let mut y = Scalar { bits: INFINITE };
    let mut any = false;
    let mut at: usize = 0;
    proof {
        let none = present(items@.take(0));
        assert(items@.take(0) =~= Seq::<Option<Item>>::empty());
        assert(none.map_values(|place: Placement| place.x) =~= Seq::<Scalar>::empty());
        assert(none.map_values(|place: Placement| place.y) =~= Seq::<Scalar>::empty());
    }
    while at < items.len()
        invariant
            at <= items@.len(),
            any == (present(items@.take(at as int)).len() > 0),
            x == least(present(items@.take(at as int)).map_values(|place: Placement| place.x)),
            y == least(present(items@.take(at as int)).map_values(|place: Placement| place.y)),
        decreases items@.len() - at,
    {
        let ghost seen = present(items@.take(at as int));
        proof {
            assert(items@.take(at as int + 1).drop_last() =~= items@.take(at as int));
        }
        if let Some(item) = &items[at] {
            x = x.min(item.placement.x);
            y = y.min(item.placement.y);
            any = true;
            proof {
                let next = present(items@.take(at as int + 1));
                assert(next == seen.push(item.placement));
                let xs = next.map_values(|place: Placement| place.x);
                let ys = next.map_values(|place: Placement| place.y);
                assert(xs.drop_last() =~= seen.map_values(|place: Placement| place.x));
                assert(ys.drop_last() =~= seen.map_values(|place: Placement| place.y));
            }
        }
        at = at + 1;
    }
    proof {
        assert(items@.take(items@.len() as int) =~= items@);
    }
    if any {
        Some(Corner { x, y })
    } else {
        None
    }
}

/// A position, size or rotation field of the panel.
#[derive(Clone, Copy, Debug, PartialEq, Eq, Structural)]
pub enum TransformField {
    X,
    Y,
    Width,
    Height,
    Rotation,
}

/// What a placement says under a field.
pub open spec fn field_of(place: Placement, field: TransformField) -> Scalar {
    match field {
        TransformField::X => place.x,
        TransformField::Y => place.y,
        TransformField::Width => place.width,
        TransformField::Height => place.height,
        TransformField::Rotation => place.rotation,
    }
}

/// A placement with another value in a field, and in no other.
pub open spec fn with_field(place: Placement, field: TransformField, value: Scalar) -> Placement {
    match field {
        TransformField::X => Placement { x: value, ..place },
        TransformField::Y => Placement { y: value, ..place },
        TransformField::Width => Placement { width: value, ..place },
        TransformField::Height => Placement { height: value, ..place },
        TransformField::Rotation => Placement { rotation: value, ..place },
    }
}

/// Whether a field's new value is another number than the one that is there.
pub open spec fn moves(place: Placement, field: TransformField, value: Scalar) -> bool {
    field_of(place, field) != value && !field_of(place, field).equal_to(value)
}

/// An item of a selection once a field has its new value. One that already has it stays as
/// it is, and so does one the board no longer has.
pub open spec fn moved_slot(
    item: Option<Item>,
    field: TransformField,
    value: Scalar,
) -> Option<Item> {
    match item {
        Some(item) => if moves(item.placement, field, value) {
            Some(Item { placement: with_field(item.placement, field, value), ..item })
        } else {
            Some(item)
        },
        None => None,
    }
}

/// What a position, size or rotation field did to a selection.
#[derive(Clone, Debug)]
pub struct TransformReport {
    pub applied: Applied,
    /// Which of the selected items were moved, in the selection's order. The others are not
    /// written.
    pub moved: Vec<bool>,
}

fn move_one(item: &mut Item, field: TransformField, value: Scalar) -> (moved: bool)
    ensures
        moved == moves(old(item).placement, field, value),
        Some(*final(item)) == moved_slot(Some(*old(item)), field, value),
{
    let was = match field {
        TransformField::X => item.placement.x,
        TransformField::Y => item.placement.y,
        TransformField::Width => item.placement.width,
        TransformField::Height => item.placement.height,
        TransformField::Rotation => item.placement.rotation,
    };
    if was == value || was.equals(value) {
        return false;
    }
    match field {
        TransformField::X => {
            item.placement.x = value;
        },
        TransformField::Y => {
            item.placement.y = value;
        },
        TransformField::Width => {
            item.placement.width = value;
        },
        TransformField::Height => {
            item.placement.height = value;
        },
        TransformField::Rotation => {
            item.placement.rotation = value;
        },
    }
    true
}

/// Gives each selected item its new value of one field. The caller writes back the items
/// that moved, as one undo step.
pub fn apply_transform(
    items: &mut Vec<Option<Item>>,
    field: TransformField,
    values: &Vec<Scalar>,
) -> (report: TransformReport)
    requires
        values@.len() == old(items)@.len(),
    ensures
        final(items)@.len() == old(items)@.len(),
        report.moved@.len() == old(items)@.len(),
        forall|i: int|
            #![trigger final(items)@[i]]
            0 <= i < old(items)@.len() ==> final(items)@[i] == moved_slot(
                old(items)@[i],
                field,
                values@[i],
            ),
        forall|i: int|
            #![trigger report.moved@[i]]
            0 <= i < old(items)@.len() ==> report.moved@[i] == (final(items)@[i] != old(items)@[i]),
        report.applied == Applied::Changed <==> exists|i: int|
            0 <= i < old(items)@.len() && (#[trigger] final(items)@[i]) != old(items)@[i],
        report.applied != Applied::Changed ==> report.applied == Applied::NotApplicable
            && final(items)@ == old(items)@,
{
    let mut moved: Vec<bool> = Vec::new();
    let mut changed = false;
    let mut i: usize = 0;
    while i < items.len()
        invariant
            i <= items@.len(),
            items@.len() == old(items)@.len(),
            values@.len() == items@.len(),
            moved@.len() == i,
            forall|k: int| i <= k < items@.len() ==> items@[k] == old(items)@[k],
            forall|k: int|
                #![trigger items@[k]]
                0 <= k < i ==> items@[k] == moved_slot(old(items)@[k], field, values@[k]),
            forall|k: int|
                #![trigger moved@[k]]
                0 <= k < i ==> moved@[k] == (items@[k] != old(items)@[k]),
            changed ==> exists|k: int| 0 <= k < i && (#[trigger] items@[k]) != old(items)@[k],
            !changed ==> forall|k: int| 0 <= k < i ==> (#[trigger] items@[k]) == old(items)@[k],
        decreases items@.len() - i,
    {
        let ghost before = items@;
        let one = match &mut items[i] {
            Some(item) => move_one(item, field, values[i]),
            None => false,
        };
        proof {
            assert forall|k: int| 0 <= k < items@.len() && k != i implies items@[k]
                == before[k] by {}
            assert(items@[i as int] == moved_slot(
                old(items)@[i as int],
                field,
                values@[i as int],
            ));
            assert(one == (items@[i as int] != old(items)@[i as int]));
            if changed {
                let k = choose|k: int| 0 <= k < i && (#[trigger] before[k]) != old(items)@[k];
                assert(items@[k] != old(items)@[k]);
            }
        }
        moved.push(one);
        changed = changed || one;
        i = i + 1;
    }
    proof {
        if !changed {
            assert(items@ =~= old(items)@);
        }
    }
    TransformReport {
        applied: if changed {
            Applied::Changed
        } else {
            Applied::NotApplicable
        },
        moved,
    }
}

/// A default [`Style`] carrying nothing: a newly placed item inherits everything.
pub fn inherited_style() -> (style: Style)
    ensures
        style.inherits_everything(),
{
    Style::default()
}

// ----- the connector's two vocabularies ------------------------------------------------

pub open spec fn routing_of_mode(mode: RoutingMode) -> Routing {
    match mode {
        RoutingMode::Straight => Routing::Straight,
        RoutingMode::Curved => Routing::Curved,
        RoutingMode::Orthogonal => Routing::Orthogonal,
    }
}

pub fn routing_of(mode: RoutingMode) -> (routing: Routing)
    ensures
        routing == routing_of_mode(mode),
{
    match mode {
        RoutingMode::Straight => Routing::Straight,
        RoutingMode::Curved => Routing::Curved,
        RoutingMode::Orthogonal => Routing::Orthogonal,
    }
}

pub open spec fn mode_of_routing(routing: Routing) -> RoutingMode {
    match routing {
        Routing::Straight => RoutingMode::Straight,
        Routing::Curved => RoutingMode::Curved,
        Routing::Orthogonal => RoutingMode::Orthogonal,
    }
}

pub fn routing_mode(routing: Routing) -> (mode: RoutingMode)
    ensures
        mode == mode_of_routing(routing),
{
    match routing {
        Routing::Straight => RoutingMode::Straight,
        Routing::Curved => RoutingMode::Curved,
        Routing::Orthogonal => RoutingMode::Orthogonal,
    }
}

pub open spec fn dash_of_line(style: LineStyle) -> Dash {
    match style {
        LineStyle::Solid => Dash::Solid,
        LineStyle::Dashed => Dash::Dashed,
        LineStyle::Dotted => Dash::Dotted,
    }
}

pub fn dash_of(style: LineStyle) -> (dash: Dash)
    ensures
        dash == dash_of_line(style),
{
    match style {
        LineStyle::Solid => Dash::Solid,
        LineStyle::Dashed => Dash::Dashed,
        LineStyle::Dotted => Dash::Dotted,
    }
}

pub open spec fn line_of_dash(dash: Dash) -> LineStyle {
    match dash {
        Dash::Solid => LineStyle::Solid,
        Dash::Dashed => LineStyle::Dashed,
        Dash::Dotted => LineStyle::Dotted,
    }
}

pub fn line_style(dash: Dash) -> (style: LineStyle)
    ensures
        style == line_of_dash(dash),
{
    match dash {
        Dash::Solid => LineStyle::Solid,
        Dash::Dashed => LineStyle::Dashed,
        Dash::Dotted => LineStyle::Dotted,
    }
}

pub open spec fn arrow_of_head(head: Arrowhead) -> ArrowKind {
    match head {
        Arrowhead::Bare => ArrowKind::Bare,
        Arrowhead::LineArrow => ArrowKind::LineArrow,
        Arrowhead::FilledTriangle => ArrowKind::FilledTriangle,
        Arrowhead::OpenTriangle => ArrowKind::OpenTriangle,
        Arrowhead::Circle => ArrowKind::Circle,
        Arrowhead::FilledCircle => ArrowKind::FilledCircle,
        Arrowhead::Diamond => ArrowKind::Diamond,
        Arrowhead::FilledDiamond => ArrowKind::FilledDiamond,
    }
}

pub fn arrow_of(head: Arrowhead) -> (arrow: ArrowKind)
    ensures
        arrow == arrow_of_head(head),
{
    match head {
        Arrowhead::Bare => ArrowKind::Bare,
        Arrowhead::LineArrow => ArrowKind::LineArrow,
        Arrowhead::FilledTriangle => ArrowKind::FilledTriangle,
        Arrowhead::OpenTriangle => ArrowKind::OpenTriangle,
        Arrowhead::Circle => ArrowKind::Circle,
        Arrowhead::FilledCircle => ArrowKind::FilledCircle,
        Arrowhead::Diamond => ArrowKind::Diamond,
        Arrowhead::FilledDiamond => ArrowKind::FilledDiamond,
    }
}

pub open spec fn head_of_arrow(arrow: ArrowKind) -> Arrowhead {
    match arrow {
        ArrowKind::Bare => Arrowhead::Bare,
        ArrowKind::LineArrow => Arrowhead::LineArrow,
        ArrowKind::FilledTriangle => Arrowhead::FilledTriangle,
        ArrowKind::OpenTriangle => Arrowhead::OpenTriangle,
        ArrowKind::Circle => Arrowhead::Circle,
        ArrowKind::FilledCircle => Arrowhead::FilledCircle,
        ArrowKind::Diamond => Arrowhead::Diamond,
        ArrowKind::FilledDiamond => Arrowhead::FilledDiamond,
    }
}

pub fn arrowhead(arrow: ArrowKind) -> (head: Arrowhead)
    ensures
        head == head_of_arrow(arrow),
{
    match arrow {
        ArrowKind::Bare => Arrowhead::Bare,
        ArrowKind::LineArrow => Arrowhead::LineArrow,
        ArrowKind::FilledTriangle => Arrowhead::FilledTriangle,
        ArrowKind::OpenTriangle => Arrowhead::OpenTriangle,
        ArrowKind::Circle => Arrowhead::Circle,
        ArrowKind::FilledCircle => Arrowhead::FilledCircle,
        ArrowKind::Diamond => Arrowhead::Diamond,
        ArrowKind::FilledDiamond => Arrowhead::FilledDiamond,
    }
}

// ----- agents, notes and pages ---------------------------------------------------------

/// An agent an item is joined to by a connector.
#[derive(Clone, Debug)]
pub struct AgentLink {
    pub id: String,
    pub label: String,
}

/// What the panel has to show of one item that is not in the document.
#[derive(Clone, Debug)]
pub struct AgentFacts {
    /// The board's project directory, which is what an unset working directory means.
    pub project_dir: Option<String>,
    /// What a node that never chose a display mode resolves to.
    pub inherited_display: String,
    /// What a node that never chose a provider resolves to.
    pub inherited_provider: String,
    /// Whether browser nodes are permitted at all.
    pub browser_nodes_allowed: bool,
    /// Whether this build can capture audio at all.
    pub voice_available: bool,
    /// Whether this node has a live session.
    pub running: bool,
    /// The agents it is joined to.
    pub connected: Vec<AgentLink>,
    /// The rules in force for it, every layer taken together.
    pub rules: Vec<String>,
    /// A readable name for the agent that a note or a tree names.
    pub owner_label: Option<String>,
    /// Whether a note's file exists.
    pub on_disk: bool,
    /// Whether a note's file is in conflict.
    pub conflicted: bool,
}

impl AgentFacts {
    /// The facts as they are when nobody has any: nothing running, nothing connected, no
    /// rules, no project. What the build can do, and what a node that chose nothing resolves
    /// to, is still known.
    pub fn unknown(
        voice_available: bool,
        inherited_display: String,
        inherited_provider: String,
    ) -> (facts: AgentFacts)
        ensures
            facts.project_dir is None,
            facts.inherited_display == inherited_display,
            facts.inherited_provider == inherited_provider,
            !facts.browser_nodes_allowed,
            facts.voice_available == voice_available,
            !facts.running,
            facts.connected@.len() == 0,
            facts.rules@.len() == 0,
            facts.owner_label is None,
            !facts.on_disk,
            !facts.conflicted,
    {
        AgentFacts {
            project_dir: None,
            inherited_display,
            inherited_provider,
            browser_nodes_allowed: false,
            voice_available,
            running: false,
            connected: Vec::new(),
            rules: Vec::new(),
            owner_label: None,
            on_disk: false,
            conflicted: false,
        }
    }
}

/// Where an agent works. A path without a worktree would mean nothing.
#[derive(Clone, Debug)]
pub enum WorktreeState {
    Off,
    /// Wanted, and not made yet.
    Pending,
    At(String),
}

/// An agent node's settings. What the node's token spells in a vocabulary of its own is
/// carried as it is spelt.
#[derive(Clone, Debug)]
pub struct AgentModel {
    pub role_kind: String,
    /// `None` inherits.
    pub provider: Option<String>,
    /// `None` inherits.
    pub display: Option<String>,
    pub working_dir: Option<String>,
    pub worktree: bool,
    pub worktree_path: Option<String>,
    pub schedule: Option<String>,
    pub territory: Option<String>,
    /// The cap in force.
    pub spawn_cap: u32,
    pub context: Vec<String>,
    /// The node's own rules.
    pub rules: Vec<String>,
    pub accepts_messages: bool,
    pub voice: bool,
}

/// An agent node, for the panel.
#[derive(Clone, Debug)]
pub struct AgentSummary {
    /// The node's own words. Empty for one that nobody has named.
    pub role: String,
    pub role_kind: String,
    pub provider: Option<String>,
    pub inherited_provider: String,
    pub display: Option<String>,
    pub inherited_display: String,
    pub working_dir: Option<String>,
    pub project_dir: Option<String>,
    pub worktree: WorktreeState,
    pub schedule: Option<String>,
    pub territory: Option<String>,
    pub spawn_cap: u32,
    pub context: Vec<String>,
    pub running: bool,
    /// The rules in force.
    pub rules: Vec<String>,
    /// The node's own among them.
    pub own_rules: Vec<String>,
    pub connected: Vec<AgentLink>,
    pub accepts_messages: bool,
    pub voice: bool,
    pub voice_available: bool,
}

/// The state of a worktree: off whatever path is left over, pending until it has one.
pub open spec fn worktree_of(wanted: bool, path: Option<String>) -> WorktreeState {
    match (wanted, path) {
        (false, _) => WorktreeState::Off,
        (true, None) => WorktreeState::Pending,
        (true, Some(path)) => WorktreeState::At(path),
    }
}

/// The agent section: nothing for any other kind.
pub open spec fn agent_shown(
    kind: ItemKind,
    config: AgentModel,
    facts: AgentFacts,
) -> Option<AgentSummary> {
    match kind {
        ItemKind::Agent { label, .. } => Some(
            AgentSummary {
                role: label,
                role_kind: config.role_kind,
                provider: config.provider,
                inherited_provider: facts.inherited_provider,
                display: config.display,
                inherited_display: facts.inherited_display,
                working_dir: config.working_dir,
                project_dir: facts.project_dir,
                worktree: worktree_of(config.worktree, config.worktree_path),
                schedule: config.schedule,
                territory: config.territory,
                spawn_cap: config.spawn_cap,
                context: config.context,
                running: facts.running,
                rules: facts.rules,
                own_rules: config.rules,
                connected: facts.connected,
                accepts_messages: config.accepts_messages,
                voice: config.voice,
                voice_available: facts.voice_available,
            },
        ),
        _ => None,
    }
}

/// An agent node, for the panel: nothing for any other kind.
pub fn agent_of(kind: &ItemKind, config: AgentModel, facts: AgentFacts) -> (answer: Option<
    AgentSummary,
>)
    ensures
        answer == agent_shown(*kind, config, facts),
{
    match kind {
        ItemKind::Agent { label, .. } => {
            let worktree = match (config.worktree, config.worktree_path) {
                (false, _) => WorktreeState::Off,
                (true, None) => WorktreeState::Pending,
                (true, Some(path)) => WorktreeState::At(path),
            };
            Some(
                AgentSummary {
                    role: label.clone(),
                    role_kind: config.role_kind,
                    provider: config.provider,
                    inherited_provider: facts.inherited_provider,
                    display: config.display,
                    inherited_display: facts.inherited_display,
                    working_dir: config.working_dir,
                    project_dir: facts.project_dir,
                    worktree,
                    schedule: config.schedule,
                    territory: config.territory,
                    spawn_cap: config.spawn_cap,
                    context: config.context,
                    running: facts.running,
                    rules: facts.rules,
                    own_rules: config.rules,
                    connected: facts.connected,
                    accepts_messages: config.accepts_messages,
                    voice: config.voice,
                    voice_available: facts.voice_available,
                },
            )
        },
        _ => None,
    }
}

/// A note node's settings.
#[derive(Clone, Debug)]
pub struct NoteModel {
    pub path: String,
    pub scope: NoteScope,
    pub links: Vec<String>,
}

/// A note node, for the panel.
#[derive(Clone, Debug)]
pub struct NoteSummary {
    pub title: String,
    pub connected: Vec<AgentLink>,
    /// The owner's name, for a note that is private.
    pub owner: Option<String>,
    pub scope: NoteScope,
    pub links: usize,
    pub path: String,
    pub conflicted: bool,
    pub on_disk: bool,
}

/// The note section: nothing for any other kind. Only a private note has an owner.
pub open spec fn note_shown(
    kind: ItemKind,
    note: NoteModel,
    facts: AgentFacts,
) -> Option<NoteSummary> {
    match kind {
        ItemKind::AgentNote { title, .. } => Some(
            NoteSummary {
                title,
                connected: facts.connected,
                owner: if note.scope is Private {
                    facts.owner_label
                } else {
                    None
                },
                scope: note.scope,
                links: note.links@.len() as usize,
                path: note.path,
                conflicted: facts.conflicted,
                on_disk: facts.on_disk,
            },
        ),
        _ => None,
    }
}

/// A note node, for the panel: nothing for any other kind. Only a private note has an owner.
pub fn note_of(kind: &ItemKind, note: NoteModel, facts: AgentFacts) -> (answer: Option<
    NoteSummary,
>)
    ensures
        answer == note_shown(*kind, note, facts),
{
    match kind {
        ItemKind::AgentNote { title, .. } => {
            let links: usize = note.links.len();
            let owner = match &note.scope {
                NoteScope::Private { .. } => facts.owner_label,
                NoteScope::Shared => None,
            };
            Some(
                NoteSummary {
                    title: title.clone(),
                    connected: facts.connected,
                    owner,
                    scope: note.scope,
                    links,
                    path: note.path,
                    conflicted: facts.conflicted,
                    on_disk: facts.on_disk,
                },
            )
        },
        _ => None,
    }
}

/// A file tree's settings.
#[derive(Clone, Debug)]
pub struct FileTreeModel {
    pub agent: Option<String>,
    pub root: String,
    pub show_ignored: bool,
}

/// A file tree, for the panel. The owner is reported twice: by the name a row shows, and by
/// the id a write has to carry, because two agents may share a name.
#[derive(Clone, Debug)]
pub struct FileTreeSummary {
    pub agent: Option<String>,
    pub agent_id: Option<String>,
    pub connected: Vec<AgentLink>,
    pub project_dir: Option<String>,
    pub root: String,
    pub show_ignored: bool,
}

/// The file tree section: nothing for any other kind.
pub open spec fn file_tree_shown(
    kind: ItemKind,
    tree: FileTreeModel,
    facts: AgentFacts,
) -> Option<FileTreeSummary> {
    match kind {
        ItemKind::FileTree { .. } => Some(
            FileTreeSummary {
                agent: if tree.agent is Some {
                    facts.owner_label
                } else {
                    None
                },
                agent_id: tree.agent,
                connected: facts.connected,
                project_dir: facts.project_dir,
                root: tree.root,
                show_ignored: tree.show_ignored,
            },
        ),
        _ => None,
    }
}

/// A file tree, for the panel: nothing for any other kind.
pub fn file_tree_of(kind: &ItemKind, tree: FileTreeModel, facts: AgentFacts) -> (answer: Option<
    FileTreeSummary,
>)
    ensures
        answer == file_tree_shown(*kind, tree, facts),
{
    match kind {
        ItemKind::FileTree { .. } => {
            let agent = if tree.agent.is_some() {
                facts.owner_label
            } else {
                None
            };
            Some(
                FileTreeSummary {
                    agent,
                    agent_id: tree.agent,
                    connected: facts.connected,
                    project_dir: facts.project_dir,
                    root: tree.root,
                    show_ignored: tree.show_ignored,
                },
            )
        },
        _ => None,
    }
}

/// A browser node's page.
#[derive(Clone, Debug)]
pub struct BrowserModel {
    pub url: String,
    pub title: String,
    pub live: bool,
}

/// A browser node, for the panel. Both switches are reported: one is a permission of the
/// application, the other an instruction to this page.
#[derive(Clone, Debug)]
pub struct BrowserSummary {
    pub url: String,
    pub title: String,
    pub live: bool,
    pub allowed: bool,
}

/// The browser section: nothing for any other kind.
pub open spec fn browser_shown(
    kind: ItemKind,
    page: BrowserModel,
    facts: AgentFacts,
) -> Option<BrowserSummary> {
    match kind {
        ItemKind::Browser { .. } => Some(
            BrowserSummary {
                url: page.url,
                title: page.title,
                live: page.live,
                allowed: facts.browser_nodes_allowed,
            },
        ),
        _ => None,
    }
}

/// A browser node, for the panel: nothing for any other kind.
pub fn browser_of(kind: &ItemKind, page: BrowserModel, facts: &AgentFacts) -> (answer: Option<
    BrowserSummary,
>)
    ensures
        answer == browser_shown(*kind, page, *facts),
{
    match kind {
        ItemKind::Browser { .. } => Some(
            BrowserSummary {
                url: page.url,
                title: page.title,
                live: page.live,
                allowed: facts.browser_nodes_allowed,
            },
        ),
        _ => None,
    }
}

// ----- laws ----------------------------------------------------------------------------

/// The two vocabularies of a connector say the same things: translating to the panel's and
/// back gives what the document had, and the other way round.
pub proof fn connector_vocabularies_round_trip(
    routing: Routing,
    dash: Dash,
    arrow: ArrowKind,
    mode: RoutingMode,
    line: LineStyle,
    head: Arrowhead,
)
    ensures
        routing_of_mode(mode_of_routing(routing)) == routing,
        dash_of_line(line_of_dash(dash)) == dash,
        arrow_of_head(head_of_arrow(arrow)) == arrow,
        mode_of_routing(routing_of_mode(mode)) == mode,
        line_of_dash(dash_of_line(line)) == line,
        head_of_arrow(arrow_of_head(head)) == head,
{
}

/// Whatever kind an item is, editing it never turns it into another kind, and the panel
/// goes on offering the same controls.
pub proof fn an_edit_keeps_the_kind(item: Item, edit: StyleEdit)
    ensures
        facet(edited(item, edit).kind) == facet(item.kind),
{
}

/// Applying a control twice is applying it once: what is already chosen is not a change the
/// second time.
pub proof fn an_edit_is_idempotent(item: Item, edit: StyleEdit)
    ensures
        edited(edited(item, edit), edit) == edited(item, edit),
        !alters(edited(item, edit), edit),
{
    let once = edited(item, edit);
    let twice = edited(once, edit);
    assert(twice.style == once.style);
    assert(twice.kind == once.kind);
}

/// An outline the panel shows after its colour was edited is the colour that was chosen,
/// for every kind that has an outline.
pub proof fn a_chosen_border_color_is_the_one_shown(item: Item, color: Color)
    requires
        stroke(item) is Some,
    ensures
        stroke(edited(item, StyleEdit::BorderColor(color))) is Some,
        stroke(edited(item, StyleEdit::BorderColor(color)))->0.color == color,
{
}

/// A fill the panel shows after it was edited is the fill that was chosen, for every kind
/// that has one. A sticky cannot say "no fill": cleared, it shows the default yellow.
pub proof fn a_chosen_fill_is_the_one_shown(item: Item, choice: Option<Color>)
    requires
        fill(item) is Some,
    ensures
        fill(edited(item, StyleEdit::Fill(choice))) == (if item.kind is Sticky {
            Some(Some(color_or(choice, miro_yellow())))
        } else {
            Some(choice)
        }),
{
}

/// Typography the panel shows after it was edited is what was chosen, for every kind that
/// holds editable text, and the words stay.
pub proof fn chosen_typography_is_the_one_shown(
    item: Item,
    family: Option<String>,
    size: Option<Scalar>,
    color: Color,
    align: Align,
    height: Scalar,
)
    requires
        text_shown(item) is Some,
    ensures
        ({
            let was = text_shown(item)->0;
            &&& ({
                let now = text_shown(edited(item, StyleEdit::FontFamily(family)));
                &&& now is Some
                &&& now == Some((TextSummary { family: now->0.family, ..was }))
                &&& reads(now->0.family) == reads(family)
            })
            &&& text_shown(edited(item, StyleEdit::FontSize(size))) == Some(
                (TextSummary { size, ..was }),
            )
            &&& text_shown(edited(item, StyleEdit::TextColor(color))) == Some(
                (TextSummary { color, ..was }),
            )
            &&& text_shown(edited(item, StyleEdit::Align(align))) == Some(
                (TextSummary { align, ..was }),
            )
            &&& text_shown(edited(item, StyleEdit::LineHeight(height))) == Some(
                (TextSummary { line_height: height, ..was }),
            )
        }),
{
}

/// What a connector's section shows after it was edited is what was chosen, and each end's
/// arrow is its own.
pub proof fn a_chosen_connector_is_the_one_shown(
    item: Item,
    mode: RoutingMode,
    head: Arrowhead,
    start: AnchorSide,
    end: AnchorSide,
)
    requires
        item.kind is Connector,
    ensures
        ({
            let was = connector_shown(item.kind, start, end)->0;
            &&& connector_shown(edited(item, StyleEdit::Routing(mode)).kind, start, end)
                == Some((ConnectorSummary { routing: mode, ..was }))
            &&& connector_shown(edited(item, StyleEdit::StartArrow(head)).kind, start, end)
                == Some((ConnectorSummary { start_arrow: head, ..was }))
            &&& connector_shown(edited(item, StyleEdit::EndArrow(head)).kind, start, end)
                == Some((ConnectorSummary { end_arrow: head, ..was }))
        }),
{
}

/// A card shows the mode that was chosen for it, and is the same card in every other way.
pub proof fn a_chosen_card_mode_is_the_one_shown(item: Item, mode: CardMode)
    requires
        link_shown(item.kind) is Some,
    ensures
        link_shown(edited(item, StyleEdit::CardMode(mode)).kind) == Some(
            (LinkSummary { mode, ..link_shown(item.kind)->0 }),
        ),
{
}

/// A stroke that is the geometry is never narrower than a quarter after an edit of its
/// width, so it can still be seen and hit.
pub proof fn a_stroke_never_vanishes(item: Item, width: Scalar)
    requires
        home_of_stroke(item.kind) == StrokeHome::Kind,
    ensures
        stroke(edited(item, StyleEdit::BorderWidth(width))) is Some,
        !stroke(edited(item, StyleEdit::BorderWidth(width)))->0.width.below(
            Scalar { bits: QUARTER },
        ),
        !stroke(edited(item, StyleEdit::BorderWidth(width)))->0.width.not_a_number(),
{
}

/// The padlock works in both directions, on every kind, and touches nothing else.
pub proof fn the_padlock_locks_and_unlocks(item: Item, locked: bool)
    ensures
        edited(item, StyleEdit::Locked(locked)).style.locked == locked,
        edited(item, StyleEdit::Locked(locked)).kind == item.kind,
        edited(edited(item, StyleEdit::Locked(locked)), StyleEdit::Locked(item.style.locked))
            == item,
{
}

// ----- name by name ---------------------------------------------------------------------

/// The panel's words for a connector are the document's: each head, each way and each line
/// stands for the one of its own name, in both directions.
pub proof fn each_name_stands_for_its_own()
    ensures
        arrow_of_head(Arrowhead::Bare) == ArrowKind::Bare,
        head_of_arrow(ArrowKind::Bare) == Arrowhead::Bare,
        arrow_of_head(Arrowhead::LineArrow) == ArrowKind::LineArrow,
        head_of_arrow(ArrowKind::LineArrow) == Arrowhead::LineArrow,
        arrow_of_head(Arrowhead::FilledTriangle) == ArrowKind::FilledTriangle,
        head_of_arrow(ArrowKind::FilledTriangle) == Arrowhead::FilledTriangle,
        arrow_of_head(Arrowhead::OpenTriangle) == ArrowKind::OpenTriangle,
        head_of_arrow(ArrowKind::OpenTriangle) == Arrowhead::OpenTriangle,
        arrow_of_head(Arrowhead::Circle) == ArrowKind::Circle,
        head_of_arrow(ArrowKind::Circle) == Arrowhead::Circle,
        arrow_of_head(Arrowhead::FilledCircle) == ArrowKind::FilledCircle,
        head_of_arrow(ArrowKind::FilledCircle) == Arrowhead::FilledCircle,
        arrow_of_head(Arrowhead::Diamond) == ArrowKind::Diamond,
        head_of_arrow(ArrowKind::Diamond) == Arrowhead::Diamond,
        arrow_of_head(Arrowhead::FilledDiamond) == ArrowKind::FilledDiamond,
        head_of_arrow(ArrowKind::FilledDiamond) == Arrowhead::FilledDiamond,
        routing_of_mode(RoutingMode::Straight) == Routing::Straight,
        mode_of_routing(Routing::Straight) == RoutingMode::Straight,
        routing_of_mode(RoutingMode::Curved) == Routing::Curved,
        mode_of_routing(Routing::Curved) == RoutingMode::Curved,
        routing_of_mode(RoutingMode::Orthogonal) == Routing::Orthogonal,
        mode_of_routing(Routing::Orthogonal) == RoutingMode::Orthogonal,
        dash_of_line(LineStyle::Solid) == Dash::Solid,
        line_of_dash(Dash::Solid) == LineStyle::Solid,
        dash_of_line(LineStyle::Dashed) == Dash::Dashed,
        line_of_dash(Dash::Dashed) == LineStyle::Dashed,
        dash_of_line(LineStyle::Dotted) == Dash::Dotted,
        line_of_dash(Dash::Dotted) == LineStyle::Dotted,
{
}

/// Whether an arrow of the document is the one a head of the panel names.
pub open spec fn is_named(head: Arrowhead, arrow: ArrowKind) -> bool {
    &&& head is Bare <==> arrow is Bare
    &&& head is LineArrow <==> arrow is LineArrow
    &&& head is FilledTriangle <==> arrow is FilledTriangle
    &&& head is OpenTriangle <==> arrow is OpenTriangle
    &&& head is Circle <==> arrow is Circle
    &&& head is FilledCircle <==> arrow is FilledCircle
    &&& head is Diamond <==> arrow is Diamond
    &&& head is FilledDiamond <==> arrow is FilledDiamond
}

/// A connector ends in what was picked for that end: the head picked is the arrow drawn, by
/// name, at that end and not at the other; and so are its way and its line. Nothing else of
/// the item changes.
pub proof fn a_connector_is_drawn_as_it_was_picked(
    item: Item,
    head: Arrowhead,
    mode: RoutingMode,
    line: LineStyle,
)
    requires
        item.kind is Connector,
    ensures
        ({
            let started = edited(item, StyleEdit::StartArrow(head));
            let ended = edited(item, StyleEdit::EndArrow(head));
            let routed = edited(item, StyleEdit::Routing(mode));
            let lined = edited(item, StyleEdit::BorderStyle(line));
            let was = item.kind;
            &&& is_named(head, started.kind->Connector_start.arrowhead)
            &&& started == (Item {
                kind: ItemKind::Connector {
                    start: ConnectorEnd {
                        arrowhead: started.kind->Connector_start.arrowhead,
                        ..was->Connector_start
                    },
                    end: was->Connector_end,
                    routing: was->Connector_routing,
                    dash: was->Connector_dash,
                    thickness: was->Connector_thickness,
                    color: was->Connector_color,
                },
                ..item
            })
            &&& is_named(head, ended.kind->Connector_end.arrowhead)
            &&& ended == (Item {
                kind: ItemKind::Connector {
                    start: was->Connector_start,
                    end: ConnectorEnd {
                        arrowhead: ended.kind->Connector_end.arrowhead,
                        ..was->Connector_end
                    },
                    routing: was->Connector_routing,
                    dash: was->Connector_dash,
                    thickness: was->Connector_thickness,
                    color: was->Connector_color,
                },
                ..item
            })
            &&& mode is Straight <==> routed.kind->Connector_routing is Straight
            &&& mode is Curved <==> routed.kind->Connector_routing is Curved
            &&& mode is Orthogonal <==> routed.kind->Connector_routing is Orthogonal
            &&& routed == (Item {
                kind: ItemKind::Connector {
                    start: was->Connector_start,
                    end: was->Connector_end,
                    routing: routed.kind->Connector_routing,
                    dash: was->Connector_dash,
                    thickness: was->Connector_thickness,
                    color: was->Connector_color,
                },
                ..item
            })
            &&& line is Solid <==> lined.kind->Connector_dash is Solid
            &&& line is Dashed <==> lined.kind->Connector_dash is Dashed
            &&& line is Dotted <==> lined.kind->Connector_dash is Dotted
            &&& lined == (Item {
                kind: ItemKind::Connector {
                    start: was->Connector_start,
                    end: was->Connector_end,
                    routing: was->Connector_routing,
                    dash: lined.kind->Connector_dash,
                    thickness: was->Connector_thickness,
                    color: was->Connector_color,
                },
                ..item
            })
        }),
{
}

/// A connector's picker moves an attached end to the point picked and leaves a free end, and
/// the other end, where they are.
pub proof fn an_attached_end_goes_where_it_was_put(item: Item, point: Anchor)
    requires
        item.kind is Connector,
        !point.x.not_a_number(),
        !point.y.not_a_number(),
    ensures
        ({
            let start = item.kind->Connector_start;
            let end = item.kind->Connector_end;
            let first = edited(item, StyleEdit::StartAnchor(Some(point)));
            let second = edited(item, StyleEdit::EndAnchor(Some(point)));
            &&& start.target is None ==> first == item
            &&& end.target is None ==> second == item
            &&& start.target is Some ==> {
                let now = first.kind->Connector_start;
                let there = start.anchor.x.equal_to(point.x) && start.anchor.y.equal_to(point.y);
                &&& there ==> first == item
                &&& !there ==> now == (ConnectorEnd { anchor: point, ..start })
                &&& first.kind->Connector_end == end
                &&& first.style == item.style && first.placement == item.placement
            }
            &&& end.target is Some ==> {
                let now = second.kind->Connector_end;
                let there = end.anchor.x.equal_to(point.x) && end.anchor.y.equal_to(point.y);
                &&& there ==> second == item
                &&& !there ==> now == (ConnectorEnd { anchor: point, ..end })
                &&& second.kind->Connector_start == start
                &&& second.style == item.style && second.placement == item.placement
            }
            &&& edited(item, StyleEdit::StartAnchor(None)) == item
            &&& edited(item, StyleEdit::EndAnchor(None)) == item
        }),
{
}

/// What each kind shows of its fill and its outline: a sticky its colour, or the yellow it
/// has without one; a frame and a shape what their style says; ink and a connector their
/// stroke, in the ink colour where they have none of their own; a shape its outline, in the
/// theme's colour and one pixel wide where its style says nothing; and nothing else either.
pub proof fn each_kind_shows_its_own_colours(item: Item)
    ensures
        match item.kind {
            ItemKind::Sticky { background, .. } => {
                &&& background is Some ==> fill(item) == Some(background)
                &&& background is None ==> fill(item) == Some(
                    Some((Color { r: 255, g: 247, b: 158, a: 255 })),
                )
                &&& stroke(item) is None
            },
            ItemKind::Frame { .. } => fill(item) == Some(item.style.fill) && stroke(item) is None,
            ItemKind::Shape { .. } => {
                &&& fill(item) == Some(item.style.fill)
                &&& stroke(item) is Some
                &&& stroke(item)->0.style == LineStyle::Solid
                &&& item.style.stroke is Some ==> stroke(item)->0.color == item.style.stroke->0
                &&& item.style.stroke is None ==> stroke(item)->0.color == (Color {
                    r: 229,
                    g: 234,
                    b: 237,
                    a: 255,
                })
                &&& item.style.stroke_width is Some ==> stroke(item)->0.width
                    == item.style.stroke_width->0
                &&& item.style.stroke_width is None ==> stroke(item)->0.width.bits
                    == 0x3FF0_0000_0000_0000
            },
            ItemKind::Ink { color, thickness } => {
                &&& fill(item) is None
                &&& stroke(item) is Some
                &&& stroke(item)->0.width == thickness
                &&& stroke(item)->0.style == LineStyle::Solid
                &&& color is Some ==> stroke(item)->0.color == color->0
                &&& color is None ==> stroke(item)->0.color == (Color {
                    r: 26,
                    g: 29,
                    b: 31,
                    a: 255,
                })
            },
            ItemKind::Connector { color, thickness, dash, .. } => {
                &&& fill(item) is None
                &&& stroke(item) is Some
                &&& stroke(item)->0.width == thickness
                &&& stroke(item)->0.style is Solid <==> dash is Solid
                &&& stroke(item)->0.style is Dashed <==> dash is Dashed
                &&& color is Some ==> stroke(item)->0.color == color->0
                &&& color is None ==> stroke(item)->0.color == (Color {
                    r: 26,
                    g: 29,
                    b: 31,
                    a: 255,
                })
            },
            _ => fill(item) is None && stroke(item) is None,
        },
{
}

/// What the typography section shows where the style says nothing: the ink colour, the left
/// side, a line height of 1.36, and no family and no size; and the words of the item.
pub proof fn unstyled_text_is_shown_as_it_is_drawn(item: Item)
    ensures
        text_shown(item) is Some <==> item.kind is Sticky || item.kind is Text || item.kind is Frame,
        item.kind matches ItemKind::Sticky { text, .. } ==> text_shown(item)->0.content == text,
        item.kind matches ItemKind::Text { text } ==> text_shown(item)->0.content == text,
        item.kind matches ItemKind::Frame { title } ==> text_shown(item)->0.content == title,
        text_shown(item) is Some ==> ({
            let shown = text_shown(item)->0;
            let style = item.style;
            &&& shown.family == style.font_family
            &&& shown.size == style.font_size
            &&& style.text_color is Some ==> shown.color == style.text_color->0
            &&& style.text_color is None ==> shown.color == (Color { r: 26, g: 29, b: 31, a: 255 })
            &&& style.align is Some ==> shown.align == style.align->0
            &&& style.align is None ==> shown.align == Align::Left
            &&& style.line_height is Some ==> shown.line_height == style.line_height->0
            &&& style.line_height is None ==> shown.line_height.bits == 0x3FF5_C28F_5C28_F5C3
        }),
{
}

/// What a card shows: its page, who provides it, its mode, and whether it has a picture.
pub proof fn a_card_shows_its_page(kind: ItemKind)
    ensures
        link_shown(kind) is Some <==> kind is LinkPreview || kind is Embed,
        kind matches ItemKind::LinkPreview { url, provider, thumbnail, mode, .. } ==> link_shown(
            kind,
        ) == Some((LinkSummary { url, provider, mode, has_image: thumbnail is Some })),
        kind matches ItemKind::Embed { url, provider, thumbnail, mode, .. } ==> link_shown(kind)
            == Some((LinkSummary { url, provider, mode, has_image: thumbnail is Some })),
{
}

/// Each kind answers to its own controls: the facet bears the kind's name, but that a card
/// and an embed are both links, a picture and a document both images, and a note is one.
pub proof fn each_kind_answers_to_its_own_controls(kind: ItemKind)
    ensures
        facet(kind) is Sticky <==> kind is Sticky,
        facet(kind) is Text <==> kind is Text,
        facet(kind) is Ink <==> kind is Ink,
        facet(kind) is Link <==> kind is LinkPreview || kind is Embed,
        facet(kind) is Image <==> kind is Image || kind is Document,
        facet(kind) is Connector <==> kind is Connector,
        facet(kind) is Frame <==> kind is Frame,
        facet(kind) is Shape <==> kind is Shape,
        facet(kind) is Table <==> kind is Table,
        facet(kind) is Chart <==> kind is Chart,
        facet(kind) is MindMap <==> kind is MindMap,
        facet(kind) is Kanban <==> kind is Kanban,
        facet(kind) is Group <==> kind is Group,
        facet(kind) is Agent <==> kind is Agent,
        facet(kind) is FileTree <==> kind is FileTree,
        facet(kind) is Note <==> kind is AgentNote,
        facet(kind) is Browser <==> kind is Browser,
{
}

/// What each control writes, and on what: nothing else of the item changes.
pub proof fn a_control_writes_what_it_says(
    item: Item,
    color: Color,
    choice: Option<Color>,
    width: Scalar,
    opacity: Scalar,
    size: Option<Scalar>,
    align: Align,
    height: Scalar,
    locked: bool,
)
    ensures
        ({
            let style = item.style;
            let filled = edited(item, StyleEdit::Fill(choice));
            let colored = edited(item, StyleEdit::BorderColor(color));
            let cleared = edited(item, StyleEdit::BorderCleared);
            let widened = edited(item, StyleEdit::BorderWidth(width));
            &&& edited(item, StyleEdit::FontSize(size)) == (Item {
                style: Style { font_size: size, ..style },
                ..item
            })
            &&& edited(item, StyleEdit::TextColor(color)) == (Item {
                style: Style { text_color: Some(color), ..style },
                ..item
            })
            &&& edited(item, StyleEdit::Align(align)) == (Item {
                style: Style { align: Some(align), ..style },
                ..item
            })
            &&& edited(item, StyleEdit::LineHeight(height)) == (Item {
                style: Style { line_height: Some(height), ..style },
                ..item
            })
            &&& edited(item, StyleEdit::Locked(locked)) == (Item {
                style: Style { locked, ..style },
                ..item
            })
            &&& edited(item, StyleEdit::FontWeight) == item
            &&& edited(item, StyleEdit::VerticalAlign) == item
            &&& match item.kind {
                ItemKind::Sticky { text, .. } => filled == (Item {
                    kind: ItemKind::Sticky { text, background: choice },
                    ..item
                }),
                ItemKind::Frame { .. } => filled == (Item {
                    style: Style { fill: choice, ..style },
                    ..item
                }),
                ItemKind::Shape { .. } => filled == (Item {
                    style: Style { fill: choice, ..style },
                    ..item
                }),
                _ => filled == item,
            }
            &&& match item.kind {
                ItemKind::Ink { color: was, thickness } => {
                    &&& colored == (Item {
                        kind: ItemKind::Ink { color: Some(color), thickness },
                        ..item
                    })
                    &&& cleared == (Item { kind: ItemKind::Ink { color: None, thickness }, ..item })
                    &&& widened.style == style
                    &&& widened.kind->Ink_color == was
                },
                ItemKind::Connector { start, end, routing, dash, thickness, color: was } => {
                    &&& colored == (Item {
                        kind: ItemKind::Connector {
                            start,
                            end,
                            routing,
                            dash,
                            thickness,
                            color: Some(color),
                        },
                        ..item
                    })
                    &&& cleared == (Item {
                        kind: ItemKind::Connector {
                            start,
                            end,
                            routing,
                            dash,
                            thickness,
                            color: None,
                        },
                        ..item
                    })
                    &&& widened.style == style
                    &&& widened.kind->Connector_color == was
                },
                ItemKind::Shape { .. } => {
                    &&& colored == (Item { style: Style { stroke: Some(color), ..style }, ..item })
                    &&& cleared.style.stroke == Some((Color { r: 0, g: 0, b: 0, a: 0 }))
                    &&& cleared == (Item {
                        style: Style { stroke: cleared.style.stroke, ..style },
                        ..item
                    })
                    &&& widened == (Item {
                        style: Style { stroke_width: widened.style.stroke_width, ..style },
                        ..item
                    })
                },
                _ => colored == item && cleared == item && widened == item,
            }
            &&& edited(item, StyleEdit::Opacity(opacity)) == (Item {
                style: Style {
                    opacity: edited(item, StyleEdit::Opacity(opacity)).style.opacity,
                    ..style
                },
                ..item
            })
        }),
{
}

/// How far a width and an opacity reach: a stroke that is the geometry is as wide as was asked
/// but never under a quarter, a shape's outline never under nothing, and an opacity stays
/// between nothing and one.
pub proof fn a_number_of_the_panel_stays_in_its_range(item: Item, value: Scalar)
    requires
        !value.not_a_number(),
    ensures
        ({
            let quarter = Scalar { bits: 0x3FD0_0000_0000_0000 };
            let zero = Scalar { bits: 0 };
            let one = Scalar { bits: 0x3FF0_0000_0000_0000 };
            let widened = edited(item, StyleEdit::BorderWidth(value));
            let faded = edited(item, StyleEdit::Opacity(value)).style.opacity;
            &&& item.kind is Ink && !value.below(quarter) ==> widened.kind->Ink_thickness
                == value
            &&& item.kind is Ink && value.below(quarter) ==> widened.kind->Ink_thickness
                == quarter
            &&& item.kind is Connector && !value.below(quarter)
                ==> widened.kind->Connector_thickness == value
            &&& item.kind is Connector && value.below(quarter)
                ==> widened.kind->Connector_thickness == quarter
            &&& item.kind is Shape && !value.below(zero) ==> widened.style.stroke_width is Some
                && widened.style.stroke_width->0 == value
            &&& item.kind is Shape && value.below(zero) ==> widened.style.stroke_width is Some
                && widened.style.stroke_width->0 == zero
            &&& faded is Some
            &&& value.below(zero) ==> faded->0 == zero
            &&& one.below(value) ==> faded->0 == one
            &&& !value.below(zero) && !one.below(value) ==> faded->0 == value
        }),
{
}

/// When a control is refused: a weight and a vertical alignment always, and a line pattern
/// where a shape asks for it and no connector is there to take it.
pub proof fn a_control_is_refused_where_it_cannot_be_kept(
    items: Seq<Option<Item>>,
    edit: StyleEdit,
)
    ensures
        edit is FontWeight ==> refusal(items, edit) == Some(Refusal::FontWeight),
        edit is VerticalAlign ==> refusal(items, edit) == Some(Refusal::VerticalAlign),
        !(edit is FontWeight || edit is VerticalAlign || edit is BorderStyle) ==> refusal(
            items,
            edit,
        ) is None,
        edit is BorderStyle ==> {
            let shapes = exists|i: int|
                0 <= i < items.len() && (#[trigger] items[i]) is Some && items[i]->0.kind is Shape;
            let wires = exists|i: int|
                0 <= i < items.len() && (#[trigger] items[i]) is Some
                    && items[i]->0.kind is Connector;
            refusal(items, edit) == (if shapes && !wires {
                Some(Refusal::ShapeDash)
            } else {
                None
            })
        },
{
}

/// A card takes the mode chosen and keeps everything else; nothing else has a mode.
pub proof fn a_card_takes_the_mode_chosen(item: Item, mode: CardMode)
    ensures
        ({
            let after = edited(item, StyleEdit::CardMode(mode));
            &&& after.style == item.style && after.placement == item.placement
            &&& match item.kind {
                ItemKind::LinkPreview {
                    title,
                    url,
                    description,
                    thumbnail,
                    provider,
                    favicon,
                    mode: _,
                } => after.kind == (ItemKind::LinkPreview {
                    title,
                    url,
                    description,
                    thumbnail,
                    provider,
                    favicon,
                    mode,
                }),
                ItemKind::Embed {
                    title,
                    url,
                    description,
                    provider,
                    html,
                    thumbnail,
                    favicon,
                    mode: _,
                } => after.kind == (ItemKind::Embed {
                    title,
                    url,
                    description,
                    provider,
                    html,
                    thumbnail,
                    favicon,
                    mode,
                }),
                _ => after == item,
            }
        }),
{
}

/// A family chosen is the family kept, by its letters; none chosen is none kept.
pub proof fn a_family_chosen_is_kept(item: Item, family: Option<String>)
    ensures
        ({
            let after = edited(item, StyleEdit::FontFamily(family));
            &&& after.style.font_family is Some <==> family is Some
            &&& family is Some ==> after.style.font_family->0@ == family->0@
            &&& after == (Item {
                style: Style { font_family: after.style.font_family, ..item.style },
                ..item
            })
        }),
{
}

/// What an edit writes to: a fill to a sticky's kind and to a frame's and a shape's style; a
/// border to the kind of ink and connectors and to the style of a shape; what belongs to a
/// connector to its kind; and the rest to the style of anything.
pub proof fn an_edit_writes_where_it_is_kept(item: Item, edit: StyleEdit)
    ensures
        ({
            let kind = touches(item, edit).kind;
            let style = touches(item, edit).style;
            let drawn = item.kind is Ink || item.kind is Connector;
            &&& edit is Fill ==> (kind <==> item.kind is Sticky) && (style <==> item.kind is Frame
                || item.kind is Shape)
            &&& edit is BorderColor || edit is BorderWidth || edit is BorderCleared ==> (kind
                <==> drawn) && (style <==> item.kind is Shape)
            &&& edit is BorderStyle || edit is Routing || edit is StartArrow || edit is EndArrow
                ==> (kind <==> item.kind is Connector) && !style
            &&& edit is Opacity || edit is FontFamily || edit is FontSize || edit is TextColor
                || edit is Align || edit is LineHeight || edit is Locked ==> !kind && style
            &&& edit is FontWeight || edit is VerticalAlign ==> !kind && !style
            &&& edit is CardMode ==> !style && (kind <==> edited(item, edit).kind != item.kind)
            &&& edit is StartAnchor || edit is EndAnchor ==> !style && (edited(item, edit).kind
                != item.kind ==> kind)
        }),
{
}

/// A field of the transform is set to its value, and the four others stay; an item that
/// already has the value stays as it is, and so does everything but where it stands.
pub proof fn a_transform_sets_its_field(item: Item, value: Scalar)
    requires
        !value.not_a_number(),
    ensures
        ({
            let was = item.placement;
            let x = moved_slot(Some(item), TransformField::X, value)->0;
            let y = moved_slot(Some(item), TransformField::Y, value)->0;
            let width = moved_slot(Some(item), TransformField::Width, value)->0;
            let height = moved_slot(Some(item), TransformField::Height, value)->0;
            let rotation = moved_slot(Some(item), TransformField::Rotation, value)->0;
            &&& x.placement.x.equal_to(value)
            &&& !was.x.equal_to(value) ==> x.placement.x == value
            &&& x == (Item { placement: Placement { x: x.placement.x, ..was }, ..item })
            &&& was.x.equal_to(value) ==> x == item
            &&& y.placement.y.equal_to(value)
            &&& !was.y.equal_to(value) ==> y.placement.y == value
            &&& y == (Item { placement: Placement { y: y.placement.y, ..was }, ..item })
            &&& was.y.equal_to(value) ==> y == item
            &&& width.placement.width.equal_to(value)
            &&& !was.width.equal_to(value) ==> width.placement.width == value
            &&& width == (Item {
                placement: Placement { width: width.placement.width, ..was },
                ..item
            })
            &&& was.width.equal_to(value) ==> width == item
            &&& height.placement.height.equal_to(value)
            &&& !was.height.equal_to(value) ==> height.placement.height == value
            &&& height == (Item {
                placement: Placement { height: height.placement.height, ..was },
                ..item
            })
            &&& was.height.equal_to(value) ==> height == item
            &&& rotation.placement.rotation.equal_to(value)
            &&& !was.rotation.equal_to(value) ==> rotation.placement.rotation == value
            &&& rotation == (Item {
                placement: Placement { rotation: rotation.placement.rotation, ..was },
                ..item
            })
            &&& was.rotation.equal_to(value) ==> rotation == item
        }),
        moved_slot(None, TransformField::X, value) is None,
{
}

/// The least of some numbers is one of them, and none of them is below it.
pub proof fn the_least_is_one_of_them(values: Seq<Scalar>)
    requires
        values.len() > 0,
        forall|i: int| 0 <= i < values.len() ==> (#[trigger] values[i]).finite(),
    ensures
        values.contains(least(values)),
        forall|i: int| 0 <= i < values.len() ==> !(#[trigger] values[i]).below(least(values)),
    decreases values.len(),
{
    let rest = values.drop_last();
    let last = values[values.len() - 1];
    assert(last.finite());
    if rest.len() > 0 {
        assert forall|i: int| 0 <= i < rest.len() implies (#[trigger] rest[i]).finite() by {
            assert(values[i].finite());
        }
        the_least_is_one_of_them(rest);
        let k = rest.index_of(least(rest));
        assert(rest[k] == least(rest));
        assert(values[k] == least(rest));
        assert(values[values.len() - 1] == last);
        assert forall|i: int| 0 <= i < values.len() implies !(#[trigger] values[i]).below(
            least(values),
        ) by {
            if i < rest.len() {
                assert(!rest[i].below(least(rest)));
            }
        }
    } else {
        assert(least(rest).bits == 0x7FF0_0000_0000_0000);
        assert(least(values) == last);
    }
}

/// A worktree is off where none is wanted, on its way where one is wanted and none is there,
/// and where it is otherwise.
pub proof fn a_worktree_is_off_pending_or_there(path: String)
    ensures
        worktree_of(false, None) == WorktreeState::Off,
        worktree_of(false, Some(path)) == WorktreeState::Off,
        worktree_of(true, None) == WorktreeState::Pending,
        worktree_of(true, Some(path)) == WorktreeState::At(path),
{
}

/// An agent shows its label, its own configuration and the facts of its surroundings, each
/// under its own name.
pub proof fn an_agent_shows_what_it_was_given(
    kind: ItemKind,
    config: AgentModel,
    facts: AgentFacts,
)
    requires
        kind is Agent,
    ensures
        ({
            let shown = agent_shown(kind, config, facts)->0;
            &&& agent_shown(kind, config, facts) is Some
            &&& shown.role == kind->Agent_label
            &&& shown.role_kind == config.role_kind
            &&& shown.provider == config.provider
            &&& shown.inherited_provider == facts.inherited_provider
            &&& shown.display == config.display
            &&& shown.inherited_display == facts.inherited_display
            &&& shown.working_dir == config.working_dir
            &&& shown.project_dir == facts.project_dir
            &&& !config.worktree ==> shown.worktree is Off
            &&& config.worktree && config.worktree_path is None ==> shown.worktree is Pending
            &&& config.worktree && config.worktree_path is Some ==> shown.worktree
                == WorktreeState::At(config.worktree_path->0)
            &&& shown.schedule == config.schedule
            &&& shown.territory == config.territory
            &&& shown.spawn_cap == config.spawn_cap
            &&& shown.context == config.context
            &&& shown.running == facts.running
            &&& shown.rules == facts.rules
            &&& shown.own_rules == config.rules
            &&& shown.connected == facts.connected
            &&& shown.accepts_messages == config.accepts_messages
            &&& shown.voice == config.voice
            &&& shown.voice_available == facts.voice_available
        }),
{
}

/// A note shows an owner only where it is private, a file tree only where it belongs to an
/// agent; and each shows what it was given under its own name.
pub proof fn a_node_shows_what_it_was_given(
    kind: ItemKind,
    note: NoteModel,
    tree: FileTreeModel,
    page: BrowserModel,
    facts: AgentFacts,
)
    ensures
        kind matches ItemKind::AgentNote { title, .. } ==> {
            let shown = note_shown(kind, note, facts)->0;
            &&& note_shown(kind, note, facts) is Some
            &&& shown.title == title
            &&& shown.connected == facts.connected
            &&& note.scope is Private ==> shown.owner == facts.owner_label
            &&& !(note.scope is Private) ==> shown.owner is None
            &&& shown.scope == note.scope
            &&& shown.links == note.links@.len() as usize
            &&& shown.path == note.path
            &&& shown.conflicted == facts.conflicted
            &&& shown.on_disk == facts.on_disk
        },
        kind is FileTree ==> {
            let shown = file_tree_shown(kind, tree, facts)->0;
            &&& file_tree_shown(kind, tree, facts) is Some
            &&& tree.agent is Some ==> shown.agent == facts.owner_label
            &&& tree.agent is None ==> shown.agent is None
            &&& shown.agent_id == tree.agent
            &&& shown.connected == facts.connected
            &&& shown.project_dir == facts.project_dir
            &&& shown.root == tree.root
            &&& shown.show_ignored == tree.show_ignored
        },
        kind is Browser ==> {
            let shown = browser_shown(kind, page, facts)->0;
            &&& browser_shown(kind, page, facts) is Some
            &&& shown.url == page.url
            &&& shown.title == page.title
            &&& shown.live == page.live
            &&& shown.allowed == facts.browser_nodes_allowed
        },
{
}

/// A connector shows its own way and its own heads by name, and where each end holds on: an
/// end tied to nothing is free, whatever its anchor reads as.
pub proof fn a_connector_shows_its_own_ends(
    kind: ItemKind,
    start_reads_as: AnchorSide,
    end_reads_as: AnchorSide,
)
    requires
        kind is Connector,
    ensures
        ({
            let shown = connector_shown(kind, start_reads_as, end_reads_as)->0;
            let start = kind->Connector_start;
            let end = kind->Connector_end;
            &&& connector_shown(kind, start_reads_as, end_reads_as) is Some
            &&& is_named(shown.start_arrow, start.arrowhead)
            &&& is_named(shown.end_arrow, end.arrowhead)
            &&& shown.routing is Straight <==> kind->Connector_routing is Straight
            &&& shown.routing is Curved <==> kind->Connector_routing is Curved
            &&& start.target is None ==> shown.start_anchor is Free
            &&& start.target is Some ==> shown.start_anchor == start_reads_as
            &&& end.target is None ==> shown.end_anchor is Free
            &&& end.target is Some ==> shown.end_anchor == end_reads_as
        }),
{
}

/// A selection is shown item by item in the order it was made, without those that are gone.
pub proof fn a_selection_is_shown_in_its_order(shown: Seq<SelectionItem>, selected: Seq<Selected>)
    requires
        describes_all(shown, selected),
    ensures
        shown.map_values(|one: SelectionItem| one.id) == selected.filter(
            |one: Selected| one.item is Some,
        ).map_values(|one: Selected| one.id),
    decreases selected.len(),
{
    reveal(Seq::filter);
    let there = |one: Selected| one.item is Some;
    let ids = shown.map_values(|one: SelectionItem| one.id);
    let kept = selected.filter(there).map_values(|one: Selected| one.id);
    if selected.len() > 0 {
        let rest = selected.drop_last();
        let before = rest.filter(there).map_values(|one: Selected| one.id);
        if selected.last().item is Some {
            a_selection_is_shown_in_its_order(shown.drop_last(), rest);
            assert(kept =~= before.push(selected.last().id));
            assert(ids =~= shown.drop_last().map_values(|one: SelectionItem| one.id).push(
                shown.last().id,
            ));
        } else {
            a_selection_is_shown_in_its_order(shown, rest);
        }
    } else {
        assert(ids =~= kept);
    }
}

/// A description gives the item under its own id: where it is, whether it is locked, and how
/// opaque it is, which is fully where its style says nothing.
pub proof fn a_description_is_of_its_item(shown: SelectionItem, item: Item, selected: Selected)
    requires
        is_description(shown, item, selected),
    ensures
        shown.id == selected.id,
        shown.placement == item.placement,
        shown.locked == item.style.locked,
        item.style.opacity is Some ==> shown.opacity == item.style.opacity->0,
        item.style.opacity is None ==> shown.opacity.bits == 0x3FF0_0000_0000_0000,
{
}

/// Where the items of a selection are: those that are there, in their order.
pub proof fn what_is_there_is_placed(items: Seq<Option<Item>>)
    ensures
        present(items) == items.filter(|item: Option<Item>| item is Some).map_values(
            |item: Option<Item>| item->0.placement,
        ),
    decreases items.len(),
{
    reveal(Seq::filter);
    if items.len() > 0 {
        what_is_there_is_placed(items.drop_last());
    }
    assert(present(items) =~= items.filter(|item: Option<Item>| item is Some).map_values(
        |item: Option<Item>| item->0.placement,
    ));
}

/// Something changes exactly where some item that is there does, and nothing is made of one
/// that is gone.
pub proof fn an_edit_alters_what_it_changes(items: Seq<Option<Item>>, edit: StyleEdit)
    ensures
        alters_any(items, edit) <==> exists|i: int|
            0 <= i < items.len() && (#[trigger] items[i]) is Some && edited(items[i]->0, edit)
                != items[i]->0,
        edited_slot(None, edit) is None,
        !touches_slot(None, edit).kind && !touches_slot(None, edit).style,
{
    if alters_any(items, edit) {
        let i = choose|i: int|
            0 <= i < items.len() && edited_slot(#[trigger] items[i], edit) != items[i];
        assert(items[i] is Some);
    }
    if exists|i: int|
        0 <= i < items.len() && (#[trigger] items[i]) is Some && edited(items[i]->0, edit)
            != items[i]->0 {
        let i = choose|i: int|
            0 <= i < items.len() && (#[trigger] items[i]) is Some && edited(items[i]->0, edit)
                != items[i]->0;
        assert(edited_slot(items[i], edit) == Some(edited(items[i]->0, edit)));
    }
}

/// What is no number widens a stroke no further than its least, and leaves an opacity what it
/// is.
pub proof fn what_is_no_number_is_the_least_width(item: Item, value: Scalar)
    requires
        value.not_a_number(),
    ensures
        ({
            let widened = edited(item, StyleEdit::BorderWidth(value));
            &&& item.kind is Ink ==> widened.kind->Ink_thickness.bits == 0x3FD0_0000_0000_0000
            &&& item.kind is Connector ==> widened.kind->Connector_thickness.bits
                == 0x3FD0_0000_0000_0000
            &&& item.kind is Shape ==> widened.style.stroke_width is Some
                && widened.style.stroke_width->0.bits == 0
            &&& edited(item, StyleEdit::Opacity(value)).style.opacity == Some(value)
        }),
{
}

/// Where a stroke is kept: in the kind of what is drawn by it, in the style of a shape, and
/// nowhere of anything else.
pub proof fn a_stroke_is_kept_where_it_is_drawn(kind: ItemKind)
    ensures
        home_of_stroke(kind) is Kind <==> kind is Ink || kind is Connector,
        home_of_stroke(kind) is Style <==> kind is Shape,
{
}

/// Each kind of node has a model of its own, and anything else a plain one.
pub proof fn each_node_has_its_own_model(model: NodeModel, kind: ItemKind)
    ensures
        kind is Agent ==> (is_model_of(model, kind) <==> model is Agent),
        kind is AgentNote ==> (is_model_of(model, kind) <==> model is Note),
        kind is FileTree ==> (is_model_of(model, kind) <==> model is FileTree),
        kind is Browser ==> (is_model_of(model, kind) <==> model is Browser),
        !(kind is Agent || kind is AgentNote || kind is FileTree || kind is Browser) ==> (
        is_model_of(model, kind) <==> model is Plain),
{
}

} // verus!
