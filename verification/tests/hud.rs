//! The font, and the pixels a line of text lights.

use vellum_app::hud::{glyph, lit_cells, text_columns, ADVANCE, BLANK, TOFU};

#[test]
fn every_supported_character_has_a_distinct_glyph() {
    let supported = "ABCDEFGHIJKLMNOPQRSTUVWXYZ0123456789.,:-+/%()_";
    for a in supported.chars() {
        for b in supported.chars() {
            if a != b {
                assert_ne!(glyph(a), glyph(b), "glyphs for '{a}' and '{b}' are identical");
            }
        }
    }
}

#[test]
fn glyphs_fit_inside_five_columns() {
    for c in "ABCDEFGHIJKLMNOPQRSTUVWXYZ0123456789.,:-+/%()_ ".chars() {
        for row in glyph(c) {
            assert!(row < 0b100000, "glyph '{c}' has a bit outside the 5-column cell");
        }
    }
}

#[test]
fn lowercase_folds_to_uppercase() {
    assert_eq!(glyph('a'), glyph('A'));
    assert_eq!(glyph('z'), glyph('Z'));
}

#[test]
fn unknown_characters_render_as_tofu_not_as_nothing() {
    assert_eq!(glyph('€'), TOFU);
    assert_ne!(glyph('€'), BLANK);
}

#[test]
fn space_emits_no_quads() {
    assert_eq!(lit_cells(" ").len(), 0);
    assert_eq!(lit_cells("   ").len(), 0);
}

#[test]
fn text_emits_one_quad_per_lit_pixel() {
    let expected: usize = glyph('I').iter().map(|r| r.count_ones() as usize).sum();
    assert_eq!(lit_cells("I").len(), expected);
    assert_eq!(lit_cells("II").len(), expected * 2);
}

#[test]
fn glyphs_advance_without_overlapping() {
    let cells = lit_cells("II");
    let x = |index: usize, col: usize| index * ADVANCE + col;
    let last_of_first =
        cells.iter().filter(|c| c.index == 0).map(|c| x(c.index, c.col)).max().unwrap();
    let first_of_second =
        cells.iter().filter(|c| c.index == 1).map(|c| x(c.index, c.col)).min().unwrap();
    assert!(last_of_first < first_of_second, "glyph cells overlap");
}

#[test]
fn text_width_covers_the_drawn_pixels() {
    let text = "FPS 120";
    let rightmost =
        lit_cells(text).iter().map(|c| (c.index * ADVANCE + c.col + 1) as u128).max().unwrap();
    let width = text_columns(text);
    assert!(rightmost <= width, "{rightmost} > {width}");
    assert!(width - rightmost < ADVANCE as u128, "width overshoots by a whole cell");
}

#[test]
fn empty_text_has_no_width_and_no_quads() {
    assert_eq!(text_columns(""), 0);
    assert_eq!(lit_cells("").len(), 0);
}

#[test]
fn one_letter_is_drawn_row_by_row_from_the_left() {
    let cells: Vec<(usize, usize)> = lit_cells("-").iter().map(|c| (c.row, c.col)).collect();
    assert_eq!(cells, vec![(3, 1), (3, 2), (3, 3)]);
    let dots: Vec<(usize, usize)> = lit_cells(".").iter().map(|c| (c.row, c.col)).collect();
    assert_eq!(dots, vec![(5, 2), (5, 3), (6, 2), (6, 3)]);
    assert_eq!(text_columns("A"), 5);
    assert_eq!(text_columns("AB"), 11);
}
