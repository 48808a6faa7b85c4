//! Mind maps.

use vellum_app::mindmap::{decode, default_mindmap, words, Node};

fn count(node: &Node) -> usize {
    1 + node.children.iter().map(count).sum::<usize>()
}

#[test]
fn the_hand_copied_colours_still_match_the_palette() {
    let root = default_mindmap();
    let frost = root.children[0].style.border;
    let accent = root.style.border;
    assert_eq!([frost.r, frost.g, frost.b], [0xE5, 0xEA, 0xED]);
    assert_eq!([accent.r, accent.g, accent.b], [0x00, 0xA3, 0x8C]);
}

#[test]
fn an_unreadable_token_becomes_the_default_map_rather_than_failing() {
    assert_eq!(words(&decode(None)), words(&default_mindmap()));
    let mut own = default_mindmap();
    own.text = "Mine".into();
    assert_eq!(words(&decode(Some(own)))[0], "Mine");
}

#[test]
fn the_default_map_has_two_levels_under_its_root() {
    let root = default_mindmap();
    assert_eq!(root.children.len(), 3);
    assert_eq!(count(&root), 1 + 3 + 5);
    assert!(root.style.bold && root.style.font_size == Some(18));
    assert!(!root.children[0].style.bold);
}

#[test]
fn the_words_are_root_first_and_a_folded_branch_counts() {
    let mut root = default_mindmap();
    let expected = [
        "Central idea",
        "Branch one",
        "Detail",
        "Another detail",
        "Branch two",
        "Detail",
        "Branch three",
        "Detail",
        "Another detail",
    ];
    assert_eq!(words(&root), expected);
    root.children[0].folded = true;
    assert_eq!(words(&root), expected);
    root.children[1].text = " ".into();
    assert_eq!(words(&root).len(), 8);
}
