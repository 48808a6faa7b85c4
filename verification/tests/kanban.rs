//! Kanban boards.

use vellum_app::kanban::{decode, default_kanban, words, Column, Kanban};

#[test]
fn an_unreadable_token_becomes_the_default_board_rather_than_failing() {
    let board = decode(None);
    assert_eq!(words(&board), words(&default_kanban()));
    let own = Kanban { title: "Mine".into(), columns: vec![] };
    assert_eq!(decode(Some(own)).title, "Mine");
}

#[test]
fn the_default_board_has_columns_cards_and_a_limit() {
    let board = default_kanban();
    assert_eq!(board.columns.len(), 3);
    let count: usize = board.columns.iter().map(|c| c.cards.len()).sum();
    assert_eq!(count, 6);
    let limits: Vec<Option<u32>> = board.columns.iter().map(|c| c.wip_limit).collect();
    assert_eq!(limits, [None, Some(2), None]);
    assert!(!board.columns.iter().any(Column::is_breached), "the default board starts in breach");
}

#[test]
fn the_words_are_in_reading_order_and_none_is_blank() {
    assert_eq!(
        words(&default_kanban()),
        [
            "Sprint",
            "To do",
            "Measure the atlas",
            "Cull by band",
            "Fold the branches",
            "Doing",
            "Shape the labels",
            "Route the connectors",
            "Done",
            "Pin the breakdown",
        ]
    );
    let blank = Kanban {
        title: "  ".into(),
        columns: vec![Column {
            title: "a".into(),
            wip_limit: None,
            cards: vec!["".into(), "b".into(), "\t".into()],
        }],
    };
    assert_eq!(words(&blank), ["a", "b"]);
}

#[test]
fn a_column_over_its_limit_is_breached() {
    let mut column =
        Column { title: "c".into(), wip_limit: Some(1), cards: vec!["a".into()] };
    assert!(!column.is_breached());
    column.cards.push("b".into());
    assert!(column.is_breached());
    column.wip_limit = None;
    assert!(!column.is_breached());
}
