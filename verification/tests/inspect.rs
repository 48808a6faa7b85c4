//! The properties panel, in both directions.

use vellum_app::inspect::{
    agent_of, anchor_side, apply_style, apply_transform, arrow_of, arrowhead, browser_of, dash_of,
    describe, facet_of, file_tree_of, inherited_style, is_altered, line_style, note_of,
    routing_mode, routing_of, selection_corner, selection_items, stroke_home, theme_border,
    AgentFacts, AgentLink, AgentModel, AnchorSide, Applied, Arrowhead, BrowserModel, Corner,
    FileTreeModel, ItemFacet, LineStyle, NodeModel, NoteModel, Refusal, RoutingMode, Selected,
    SelectionItem, StrokeHome, StyleEdit, Touched, TransformField, WorktreeState,
};
use vellum_app::item::{
    Align, Anchor, ArrowKind, CardMode, Color, ConnectorEnd, Dash, Item, ItemKind, Placement,
    Routing, Style,
};
use vellum_app::note::NoteScope;
use vellum_app::scalar::Scalar;

fn scalar(value: f64) -> Scalar {
    Scalar { bits: value.to_bits() }
}

fn anchor(x: f64, y: f64) -> Anchor {
    Anchor { x: scalar(x), y: scalar(y) }
}

fn placed(x: f64, y: f64) -> Placement {
    Placement {
        x: scalar(x),
        y: scalar(y),
        width: scalar(200.0),
        height: scalar(200.0),
        scale: scalar(1.0),
        rotation: scalar(0.0),
    }
}

fn item(kind: ItemKind) -> Item {
    Item { kind, style: Style::default(), placement: placed(0.0, 0.0) }
}

fn board_with(kinds: Vec<ItemKind>) -> Vec<Option<Item>> {
    let place = |(i, kind): (usize, ItemKind)| {
        Some(Item { placement: placed(i as f64 * 300.0, 0.0), ..item(kind) })
    };
    kinds.into_iter().enumerate().map(place).collect()
}

fn no_facts() -> AgentFacts {
    AgentFacts::unknown(true, "chat".into(), "local".into())
}

fn selected(id: u128, item: Option<Item>, model: NodeModel) -> Selected {
    Selected {
        id,
        item,
        start_reads_as: AnchorSide::Custom,
        end_reads_as: AnchorSide::Custom,
        model,
        facts: no_facts(),
    }
}

fn at(board: &[Option<Item>], index: usize) -> &Item {
    board[index].as_ref().unwrap()
}

fn sticky(text: &str) -> ItemKind {
    ItemKind::Sticky { text: text.to_owned(), background: None }
}

fn ink() -> ItemKind {
    ItemKind::Ink { color: None, thickness: scalar(4.0) }
}

fn shape() -> ItemKind {
    ItemKind::Shape { form: "rect".into(), text: String::new() }
}

fn free(x: f64, y: f64) -> ConnectorEnd {
    ConnectorEnd { target: None, anchor: anchor(x, y), arrowhead: ArrowKind::Bare }
}

fn bound(target: u128, anchor: Anchor) -> ConnectorEnd {
    ConnectorEnd { target: Some(target), anchor, arrowhead: ArrowKind::Bare }
}

fn wire_between(start: ConnectorEnd, end: ConnectorEnd) -> ItemKind {
    ItemKind::Connector {
        start,
        end,
        routing: Routing::Straight,
        dash: Dash::Solid,
        thickness: scalar(2.0),
        color: None,
    }
}

fn wire() -> ItemKind {
    wire_between(free(0.0, 0.0), free(1.0, 1.0))
}

fn reads_as(anchor: Anchor) -> AnchorSide {
    let (x, y) = (f64::from_bits(anchor.x.bits), f64::from_bits(anchor.y.bits));
    if (x, y) == (0.5, 0.5) {
        AnchorSide::Centre
    } else if (x, y) == (0.5, 0.0) {
        AnchorSide::Top
    } else if (x, y) == (1.0, 0.5) {
        AnchorSide::Right
    } else if (x, y) == (0.5, 1.0) {
        AnchorSide::Bottom
    } else if (x, y) == (0.0, 0.5) {
        AnchorSide::Left
    } else {
        AnchorSide::Custom
    }
}

fn point(side: AnchorSide) -> Option<Anchor> {
    match side {
        AnchorSide::Free | AnchorSide::Custom => None,
        AnchorSide::Centre => Some(anchor(0.5, 0.5)),
        AnchorSide::Top => Some(anchor(0.5, 0.0)),
        AnchorSide::Right => Some(anchor(1.0, 0.5)),
        AnchorSide::Bottom => Some(anchor(0.5, 1.0)),
        AnchorSide::Left => Some(anchor(0.0, 0.5)),
    }
}

fn described(item: &Item) -> SelectionItem {
    let (start, end) = match item.kind {
        ItemKind::Connector { start, end, .. } => (reads_as(start.anchor), reads_as(end.anchor)),
        _ => (AnchorSide::Custom, AnchorSide::Custom),
    };
    describe(Selected {
        start_reads_as: start,
        end_reads_as: end,
        ..selected(7, Some(item.clone()), NodeModel::Plain)
    })
    .expect("it is there")
}

fn applied(board: &mut Vec<Option<Item>>, edit: StyleEdit) -> Applied {
    apply_style(board, &edit).applied
}

#[test]
fn every_document_kind_maps_to_a_facet() {
    assert_eq!(facet_of(&sticky("a")), ItemFacet::Sticky);
    assert_eq!(facet_of(&ink()), ItemFacet::Ink);
    assert_eq!(facet_of(&wire()), ItemFacet::Connector);
    assert_eq!(facet_of(&ItemKind::Group), ItemFacet::Group);
    assert_eq!(facet_of(&ItemKind::Image { asset_id: "h".into() }), ItemFacet::Image);
    let pdf = ItemKind::Document { asset_id: "h".into(), page_count: 2, current_page: 1 };
    assert_eq!(facet_of(&pdf), ItemFacet::Image, "a PDF presents as a picture");
}

#[test]
fn only_kinds_with_an_outline_carry_a_border() {
    let board = board_with(vec![sticky("a"), ink(), wire(), shape()]);
    let shown: Vec<SelectionItem> =
        board.iter().map(|item| described(item.as_ref().unwrap())).collect();
    assert!(shown[0].border.is_none(), "a sticky has no border in the model");
    assert_eq!(shown[1].border.unwrap().width, scalar(4.0));
    assert_eq!(shown[2].border.unwrap().style, LineStyle::Solid);

    let outline = shown[3].border.expect("a shape has an editable outline");
    assert_eq!(outline.color, theme_border(), "what the painter falls back to");
    assert_eq!(outline.width, scalar(1.0));
    assert_eq!(outline.style, LineStyle::Solid, "the document carries no pattern");
    assert_eq!(stroke_home(&shape()), StrokeHome::Style);
    assert_eq!(stroke_home(&ink()), StrokeHome::Kind);
    assert_eq!(stroke_home(&sticky("a")), StrokeHome::Nowhere);
}

#[test]
fn the_border_fallback_is_the_theme_it_claims_to_be() {
    let border = theme_border();
    assert_eq!([border.r, border.g, border.b, border.a], [0xE5, 0xEA, 0xED, 0xFF]);
}

#[test]
fn a_shapes_outline_is_editable_through_the_style() {
    let mut board = board_with(vec![shape()]);
    let navy = Color::rgb(0x11, 0x33, 0x77);

    assert_eq!(applied(&mut board, StyleEdit::BorderColor(navy)), Applied::Changed);
    assert_eq!(applied(&mut board, StyleEdit::BorderWidth(scalar(6.0))), Applied::Changed);
    let item = at(&board, 0);
    assert_eq!(item.style.stroke, Some(navy), "the painter reads this field");
    assert_eq!(item.style.stroke_width, Some(scalar(6.0)));
    // Round trip: what was written is what the panel reads back.
    let shown = described(item).border.unwrap();
    assert_eq!((shown.color, shown.width), (navy, scalar(6.0)));

    // "No border" is a transparent stroke, not an absent one.
    assert_eq!(applied(&mut board, StyleEdit::BorderCleared), Applied::Changed);
    let cleared = at(&board, 0).style.stroke.expect("stated, not absent");
    assert_eq!(cleared.a, 0, "both shape paths multiply by the border's alpha");

    // A shape is hit by its fill, so its outline may be nothing wide.
    assert_eq!(applied(&mut board, StyleEdit::BorderWidth(scalar(0.0))), Applied::Changed);
    assert_eq!(at(&board, 0).style.stroke_width, Some(scalar(0.0)));
    assert_eq!(
        applied(&mut board, StyleEdit::BorderWidth(scalar(-3.0))),
        Applied::NotApplicable,
        "nothing is less than nothing"
    );
    assert_eq!(at(&board, 0).style.stroke_width, Some(scalar(0.0)));
}

#[test]
fn a_dash_on_a_shape_reports_rather_than_vanishing() {
    let mut board = board_with(vec![shape()]);
    assert_eq!(
        applied(&mut board, StyleEdit::BorderStyle(LineStyle::Dashed)),
        Applied::Unsupported(Refusal::ShapeDash),
        "a shape-only selection has nowhere to put a pattern"
    );
    assert!(Refusal::ShapeDash.sentence().contains("dash"));

    let mut mixed = board_with(vec![shape(), wire()]);
    assert_eq!(
        applied(&mut mixed, StyleEdit::BorderStyle(LineStyle::Dashed)),
        Applied::Changed
    );
    assert!(
        matches!(at(&mixed, 1).kind, ItemKind::Connector { dash: Dash::Dashed, .. }),
        "the connector still dashes, silently, alongside the shape"
    );
}

#[test]
fn a_stroke_that_is_the_geometry_still_lives_on_the_kind() {
    let mut board = board_with(vec![ink()]);
    let red = Color::rgb(0xE0, 0x3C, 0x3C);
    applied(&mut board, StyleEdit::BorderColor(red));
    applied(&mut board, StyleEdit::BorderWidth(scalar(9.0)));

    let item = at(&board, 0);
    assert!(
        matches!(item.kind, ItemKind::Ink { color: Some(c), thickness }
            if c == red && thickness == scalar(9.0)),
        "ink keeps colour and thickness beside its points"
    );
    assert_eq!(item.style.stroke, None, "and nothing leaked into the style");
    assert_eq!(item.style.stroke_width, None);
}

#[test]
fn a_kind_with_no_fill_shows_none() {
    let pink = Color::rgb(0xFF, 0x9E, 0x9E);
    let red = ItemKind::Sticky { text: "a".into(), background: Some(pink) };
    let board = board_with(vec![red, sticky("b"), ink()]);
    assert_eq!(described(at(&board, 0)).fill, Some(Some(pink)));
    assert_eq!(described(at(&board, 1)).fill, Some(Some(Color::rgb(0xFF, 0xF7, 0x9E))));
    assert_eq!(described(at(&board, 2)).fill, None, "absent, not a disagreement");
}

#[test]
fn a_fill_edit_reaches_a_sticky_and_a_frame_by_different_routes() {
    let frame = ItemKind::Frame { title: "f".into() };
    let mut board = board_with(vec![sticky("a"), frame]);
    let blue = Color::rgb(0x6F, 0xD6, 0xE6);
    assert_eq!(applied(&mut board, StyleEdit::Fill(Some(blue))), Applied::Changed);

    match &at(&board, 0).kind {
        ItemKind::Sticky { background, .. } => assert_eq!(*background, Some(blue)),
        other => panic!("{other:?}"),
    }
    assert_eq!(at(&board, 1).style.fill, Some(blue));
    assert_eq!(at(&board, 0).style.fill, None);
}

#[test]
fn a_shapes_fill_is_edited_beside_its_outline() {
    let mut board = board_with(vec![shape(), ink()]);
    let blue = Color::rgb(0x6F, 0xD6, 0xE6);
    let report = apply_style(&mut board, &StyleEdit::Fill(Some(blue)));
    assert_eq!(report.applied, Applied::Changed);
    assert_eq!(
        report.touched,
        [Touched { kind: false, style: true }, Touched { kind: false, style: false }]
    );
    assert_eq!(described(at(&board, 0)).fill, Some(Some(blue)));
    applied(&mut board, StyleEdit::Fill(None));
    assert_eq!(described(at(&board, 0)).fill, Some(None), "no fill is a statement");
}

#[test]
fn the_border_controls_edit_a_connectors_stroke() {
    let mut board = board_with(vec![wire()]);
    applied(&mut board, StyleEdit::BorderWidth(scalar(6.0)));
    applied(&mut board, StyleEdit::BorderStyle(LineStyle::Dashed));
    applied(&mut board, StyleEdit::EndArrow(Arrowhead::FilledTriangle));
    applied(&mut board, StyleEdit::Routing(RoutingMode::Orthogonal));

    match &at(&board, 0).kind {
        ItemKind::Connector { thickness, dash, routing, start, end, .. } => {
            assert_eq!(*thickness, scalar(6.0));
            assert_eq!(*dash, Dash::Dashed);
            assert_eq!(*routing, Routing::Orthogonal);
            assert_eq!(end.arrowhead, ArrowKind::FilledTriangle);
            assert_eq!(start.arrowhead, ArrowKind::Bare);
        }
        other => panic!("{other:?}"),
    }
    applied(&mut board, StyleEdit::StartArrow(Arrowhead::Diamond));
    let shown = described(at(&board, 0)).connector.unwrap();
    assert_eq!(shown.start_arrow, Arrowhead::Diamond);
    assert_eq!(shown.end_arrow, Arrowhead::FilledTriangle);
    assert_eq!(shown.routing, RoutingMode::Orthogonal);
}

#[test]
fn the_anchor_picker_moves_a_bound_end_to_a_named_side() {
    let mut board = board_with(vec![wire_between(
        bound(1, anchor(0.5, 0.5)),
        bound(2, anchor(0.0, 0.5)),
    )]);

    // The two ends read differently, which is what makes the picker's two rows independent.
    let shown = described(at(&board, 0)).connector.unwrap();
    assert_eq!(shown.start_anchor, AnchorSide::Centre);
    assert_eq!(shown.end_anchor, AnchorSide::Left);

    let top = StyleEdit::StartAnchor(point(AnchorSide::Top));
    assert_eq!(applied(&mut board, top.clone()), Applied::Changed);
    let bottom = StyleEdit::EndAnchor(point(AnchorSide::Bottom));
    assert_eq!(applied(&mut board, bottom), Applied::Changed);
    match at(&board, 0).kind {
        ItemKind::Connector { start, end, .. } => {
            assert_eq!(start.anchor, anchor(0.5, 0.0));
            assert_eq!(end.anchor, anchor(0.5, 1.0), "each row moved only its own end");
        }
        ref other => panic!("{other:?}"),
    }

    // Picking the side an end is already on is not a change.
    assert_eq!(applied(&mut board, top), Applied::NotApplicable);
    assert_eq!(
        applied(&mut board, StyleEdit::StartAnchor(point(AnchorSide::Custom))),
        Applied::NotApplicable
    );
}

#[test]
fn an_unattached_end_reports_free_and_refuses_a_side() {
    let mut board = board_with(vec![wire()]);
    let shown = described(at(&board, 0)).connector.unwrap();
    assert_eq!(shown.start_anchor, AnchorSide::Free);
    assert_eq!(shown.end_anchor, AnchorSide::Free);
    assert_eq!(anchor_side(&free(0.5, 0.5), AnchorSide::Centre), AnchorSide::Free);

    assert_eq!(
        applied(&mut board, StyleEdit::StartAnchor(point(AnchorSide::Left))),
        Applied::NotApplicable
    );
    match at(&board, 0).kind {
        ItemKind::Connector { start, end, .. } => {
            assert_eq!((start, end), (free(0.0, 0.0), free(1.0, 1.0)), "the endpoint did not move");
        }
        ref other => panic!("{other:?}"),
    }
}

#[test]
fn a_card_is_a_link_and_its_mode_round_trips() {
    let mut board = board_with(vec![
        ItemKind::LinkPreview {
            title: Some("Model 33".into()),
            url: Some("https://www.aliexpress.us/item/1.html".into()),
            description: None,
            thumbnail: None,
            provider: None,
            favicon: None,
            mode: CardMode::Card,
        },
        ItemKind::Embed {
            title: None,
            url: Some("https://youtu.be/abc".into()),
            description: None,
            provider: None,
            html: None,
            thumbnail: None,
            favicon: None,
            mode: CardMode::Card,
        },
    ]);

    for index in [0, 1] {
        let shown = described(at(&board, index));
        assert_eq!(shown.facet, ItemFacet::Link, "a card is not an Image");
        let link = shown.link.expect("a card has link properties");
        assert_eq!(link.mode, CardMode::Card, "the default");
        assert!(!link.has_image, "nothing fetched yet");
        assert!(link.url.is_some());
    }

    assert_eq!(applied(&mut board, StyleEdit::CardMode(CardMode::Large)), Applied::Changed);
    for index in [0, 1] {
        assert_eq!(described(at(&board, index)).link.unwrap().mode, CardMode::Large);
    }

    // Choosing the mode it is already in is not a change.
    assert_eq!(
        applied(&mut board, StyleEdit::CardMode(CardMode::Large)),
        Applied::NotApplicable
    );
    assert_eq!(
        described(at(&board, 0)).link.unwrap().url.as_deref(),
        Some("https://www.aliexpress.us/item/1.html")
    );
}

#[test]
fn a_non_card_has_no_link_section() {
    let board = board_with(vec![sticky("a")]);
    assert!(described(at(&board, 0)).link.is_none());
}

#[test]
fn a_stroke_cannot_be_widened_down_to_nothing() {
    let mut board = board_with(vec![ink()]);
    applied(&mut board, StyleEdit::BorderWidth(scalar(0.0)));
    match at(&board, 0).kind {
        ItemKind::Ink { thickness, .. } => assert_eq!(thickness, scalar(0.25)),
        ref other => panic!("{other:?}"),
    }
}

#[test]
fn the_unsupported_controls_report_rather_than_do_nothing() {
    let mut board = board_with(vec![sticky("a")]);
    assert_eq!(
        applied(&mut board, StyleEdit::FontWeight),
        Applied::Unsupported(Refusal::FontWeight)
    );
    assert_eq!(
        applied(&mut board, StyleEdit::VerticalAlign),
        Applied::Unsupported(Refusal::VerticalAlign)
    );
    assert!(Refusal::FontWeight.sentence().starts_with("Font weight"));
    assert!(Refusal::VerticalAlign.sentence().starts_with("Vertical alignment"));
}

#[test]
fn the_padlock_locks_and_unlocks_through_the_document() {
    let mut board = board_with(vec![sticky("a")]);
    assert!(!at(&board, 0).style.locked, "starts unlocked");

    assert_eq!(applied(&mut board, StyleEdit::Locked(true)), Applied::Changed);
    assert!(at(&board, 0).style.locked, "the padlock locked it");

    assert_eq!(applied(&mut board, StyleEdit::Locked(false)), Applied::Changed);
    assert!(!at(&board, 0).style.locked, "and unlocked it again");
}

#[test]
fn a_locked_item_is_described_as_locked_so_unlock_is_reachable() {
    let mut board = board_with(vec![sticky("a"), sticky("b")]);
    board[0].as_mut().unwrap().style = Style { locked: true, ..Style::default() };
    assert!(described(at(&board, 0)).locked, "the locked one reports locked");
    assert!(!described(at(&board, 1)).locked, "the other does not");
}

#[test]
fn typography_edits_reach_the_style_and_read_back() {
    let mut board = board_with(vec![sticky("words"), ItemKind::Group]);
    let teal = Color::rgb(0, 0x80, 0x80);
    for edit in [
        StyleEdit::Opacity(scalar(1.5)),
        StyleEdit::FontFamily(Some("Inter".into())),
        StyleEdit::FontSize(Some(scalar(18.0))),
        StyleEdit::TextColor(teal),
        StyleEdit::Align(Align::Right),
        StyleEdit::LineHeight(scalar(1.2)),
    ] {
        assert_eq!(applied(&mut board, edit), Applied::Changed);
    }
    let shown = described(at(&board, 0));
    assert_eq!(shown.opacity, scalar(1.0), "never more than opaque");
    let text = shown.text.unwrap();
    assert_eq!(text.content, "words");
    assert_eq!(text.family.as_deref(), Some("Inter"));
    assert_eq!(text.size, Some(scalar(18.0)));
    assert_eq!((text.color, text.align), (teal, Align::Right));
    assert_eq!(text.line_height, scalar(1.2));
    assert!(described(at(&board, 1)).text.is_none(), "a group has no text");
}

#[test]
fn a_vanished_item_is_passed_over() {
    let shown = selection_items(vec![
        selected(1, Some(item(ink())), NodeModel::Plain),
        selected(2, None, NodeModel::Plain),
        selected(3, Some(item(sticky("a"))), NodeModel::Plain),
    ]);
    let seen: Vec<(u128, ItemFacet)> = shown.iter().map(|one| (one.id, one.facet)).collect();
    assert_eq!(seen, [(1, ItemFacet::Ink), (3, ItemFacet::Sticky)]);
    assert!(shown[0].agent.is_none() && shown[0].note.is_none());
    assert_eq!(shown[0].placement, placed(0.0, 0.0));

    let mut board = vec![None];
    assert_eq!(applied(&mut board, StyleEdit::Locked(true)), Applied::NotApplicable);
    assert!(board[0].is_none());
}

#[test]
fn writing_what_is_already_there_changes_nothing() {
    let mut board = board_with(vec![sticky("a"), wire(), shape()]);
    let blue = Color::rgb(0x6F, 0xD6, 0xE6);
    for edit in [
        StyleEdit::Fill(Some(blue)),
        StyleEdit::Opacity(scalar(0.5)),
        StyleEdit::FontFamily(Some("Inter".into())),
        StyleEdit::FontSize(Some(scalar(18.0))),
        StyleEdit::TextColor(blue),
        StyleEdit::Align(Align::Right),
        StyleEdit::LineHeight(scalar(1.2)),
        StyleEdit::BorderColor(blue),
        StyleEdit::BorderWidth(scalar(7.0)),
        StyleEdit::BorderStyle(LineStyle::Dotted),
        StyleEdit::BorderCleared,
        StyleEdit::Routing(RoutingMode::Curved),
        StyleEdit::StartArrow(Arrowhead::Diamond),
        StyleEdit::EndArrow(Arrowhead::Circle),
        StyleEdit::Locked(true),
    ] {
        assert!(board.iter().flatten().any(|item| is_altered(item, &edit)), "{edit:?}");
        assert_eq!(applied(&mut board, edit.clone()), Applied::Changed, "{edit:?}");
        assert!(!board.iter().flatten().any(|item| is_altered(item, &edit)), "{edit:?}");
        assert_eq!(applied(&mut board, edit.clone()), Applied::NotApplicable, "{edit:?}");
    }
}

fn number(scalar: Scalar) -> f64 {
    f64::from_bits(scalar.bits)
}

#[test]
fn moving_a_multi_selection_moves_the_box_not_each_item() {
    let mut board = board_with(vec![sticky("a"), sticky("b"), sticky("c")]);
    let xs = |board: &[Option<Item>]| -> Vec<f64> {
        board.iter().flatten().map(|item| number(item.placement.x)).collect()
    };
    assert_eq!(xs(&board), vec![0.0, 300.0, 600.0]);

    let corner = selection_corner(&board).unwrap();
    let values: Vec<Scalar> =
        xs(&board).iter().map(|x| scalar(x + (1_000.0 - number(corner.x)))).collect();
    let report = apply_transform(&mut board, TransformField::X, &values);
    assert_eq!((report.applied, report.moved), (Applied::Changed, vec![true; 3]));
    assert_eq!(xs(&board), vec![1_000.0, 1_300.0, 1_600.0]);
    assert!(board.iter().flatten().all(|item| item.placement.y == scalar(0.0)));

    // Typing what is there already moves nothing, and says so.
    let report = apply_transform(&mut board, TransformField::X, &values);
    assert_eq!((report.applied, report.moved), (Applied::NotApplicable, vec![false; 3]));
}

#[test]
fn a_moved_selection_is_measured_from_its_box() {
    let at = |x: f64, y: f64| Some(Item { placement: placed(x, y), ..item(ink()) });
    let found = vec![at(300.0, 20.0), None, at(0.0, 50.0), at(600.0, -4.0)];
    assert_eq!(
        selection_corner(&found),
        Some(Corner { x: scalar(0.0), y: scalar(-4.0) })
    );
    assert_eq!(selection_corner(&vec![None]), None);
}

#[test]
fn each_field_is_its_own() {
    for (field, expected) in [
        (TransformField::X, Placement { x: scalar(5.0), ..placed(0.0, 0.0) }),
        (TransformField::Y, Placement { y: scalar(5.0), ..placed(0.0, 0.0) }),
        (TransformField::Width, Placement { width: scalar(5.0), ..placed(0.0, 0.0) }),
        (TransformField::Height, Placement { height: scalar(5.0), ..placed(0.0, 0.0) }),
        (TransformField::Rotation, Placement { rotation: scalar(5.0), ..placed(0.0, 0.0) }),
    ] {
        let mut board = vec![Some(item(ink())), None];
        let report = apply_transform(&mut board, field, &vec![scalar(5.0); 2]);
        assert_eq!((report.applied, report.moved), (Applied::Changed, vec![true, false]));
        assert_eq!(at(&board, 0).placement, expected);
    }
    // The same number spelt with the other sign of nothing is no move.
    let mut board = vec![Some(item(ink()))];
    let report = apply_transform(&mut board, TransformField::X, &vec![scalar(-0.0)]);
    assert_eq!(report.applied, Applied::NotApplicable);
    assert_eq!(at(&board, 0).placement.x, scalar(0.0));
}

#[test]
fn editing_nothing_is_not_an_error() {
    assert_eq!(
        applied(&mut vec![], StyleEdit::Opacity(scalar(0.5))),
        Applied::NotApplicable
    );
    assert_eq!(applied(&mut vec![], StyleEdit::FontWeight), Applied::NotApplicable);
    let none = apply_transform(&mut vec![], TransformField::X, &vec![]);
    assert_eq!(none.applied, Applied::NotApplicable);
    let gone = apply_transform(&mut vec![None], TransformField::X, &vec![scalar(0.0)]);
    assert_eq!(gone.applied, Applied::NotApplicable);
}

#[test]
fn the_connector_mappings_round_trip() {
    for routing in [Routing::Straight, Routing::Curved, Routing::Orthogonal] {
        assert_eq!(routing_of(routing_mode(routing)), routing);
    }
    for dash in [Dash::Solid, Dash::Dashed, Dash::Dotted] {
        assert_eq!(dash_of(line_style(dash)), dash);
    }
    for arrow in [
        ArrowKind::Bare,
        ArrowKind::LineArrow,
        ArrowKind::FilledTriangle,
        ArrowKind::OpenTriangle,
        ArrowKind::Circle,
        ArrowKind::FilledCircle,
        ArrowKind::Diamond,
        ArrowKind::FilledDiamond,
    ] {
        assert_eq!(arrow_of(arrowhead(arrow)), arrow);
    }
}

#[test]
fn a_new_item_inherits_everything() {
    assert!(inherited_style().is_default());
    assert!(Style::default().is_default());
    assert!(!Style { locked: true, ..Style::default() }.is_default());
}

#[test]
fn nodes_are_shown_with_what_the_document_does_not_know() {
    let mut facts = no_facts();
    assert!(facts.voice_available && !facts.running && facts.connected.is_empty());
    facts.rules = vec!["be brief".into(), "ask first".into()];
    facts.project_dir = Some("/work".into());
    facts.owner_label = Some("Builder".into());
    facts.connected = vec![AgentLink { id: "7".into(), label: "Builder".into() }];

    let agent = ItemKind::Agent { model: "m".into(), label: "plumber".into() };
    let config = |worktree: bool, path: Option<&str>| AgentModel {
        role_kind: "worker".into(),
        provider: None,
        display: Some("raw".into()),
        working_dir: None,
        worktree,
        worktree_path: path.map(str::to_owned),
        schedule: None,
        territory: None,
        context: vec!["README.md".into()],
        rules: vec!["ask first".into()],
        spawn_cap: 3,
        accepts_messages: true,
        voice: false,
    };
    let shown = agent_of(&agent, config(true, Some("/wt")), facts.clone()).unwrap();
    assert_eq!((shown.role.as_str(), shown.spawn_cap), ("plumber", 3));
    assert!(matches!(shown.worktree, WorktreeState::At(path) if path == "/wt"));
    assert_eq!((shown.provider, shown.inherited_provider.as_str()), (None, "local"));
    assert_eq!((shown.display.as_deref(), shown.role_kind.as_str()), (Some("raw"), "worker"));
    assert_eq!(shown.rules, ["be brief", "ask first"]);
    assert_eq!((shown.own_rules, shown.context), (vec!["ask first".to_owned()], vec!["README.md".to_owned()]));
    let described = describe(Selected {
        facts: facts.clone(),
        ..selected(9, Some(item(agent.clone())), NodeModel::Agent(config(true, None)))
    })
    .unwrap();
    assert_eq!((described.id, described.facet), (9, ItemFacet::Agent));
    assert_eq!(described.agent.unwrap().role, "plumber");
    assert!(described.note.is_none() && described.browser.is_none());
    let pending = agent_of(&agent, config(true, None), facts.clone()).unwrap();
    assert!(matches!(pending.worktree, WorktreeState::Pending));
    let off = agent_of(&agent, config(false, Some("/left-over")), facts.clone()).unwrap();
    assert!(matches!(off.worktree, WorktreeState::Off));
    assert!(agent_of(&sticky("a"), config(false, None), facts.clone()).is_none());

    let note = ItemKind::AgentNote { model: "m".into(), title: "Plan".into() };
    let model = |scope: NoteScope| NoteModel {
        path: "plan.md".into(),
        scope,
        links: vec!["a".into(), "b".into()],
    };
    let shared = note_of(&note, model(NoteScope::Shared), facts.clone()).unwrap();
    assert_eq!((shared.owner, shared.links), (None, 2));
    let private =
        note_of(&note, model(NoteScope::Private { agent: "7".into() }), facts.clone()).unwrap();
    assert_eq!(private.owner.as_deref(), Some("Builder"));

    let tree = ItemKind::FileTree { model: "m".into() };
    let named = FileTreeModel { agent: Some("7".into()), root: "src".into(), show_ignored: true };
    let shown = file_tree_of(&tree, named, facts.clone()).unwrap();
    assert_eq!(shown.agent.as_deref(), Some("Builder"));
    assert_eq!(shown.agent_id.as_deref(), Some("7"));
    let unnamed = FileTreeModel { agent: None, root: String::new(), show_ignored: false };
    assert_eq!(file_tree_of(&tree, unnamed, facts.clone()).unwrap().agent, None);

    let browser = ItemKind::Browser { model: "m".into() };
    let page = BrowserModel { url: "u".into(), title: "t".into(), live: true };
    let shown = browser_of(&browser, page, &facts).unwrap();
    assert!(shown.live && !shown.allowed);
}
