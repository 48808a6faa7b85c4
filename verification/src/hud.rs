//! The heads-up display's font: five columns by seven rows, one bit per pixel.
//!
//! A glyph is seven rows from top to bottom. Bit 4 of a row is the leftmost of its five
//! columns, so each literal below is a picture of its character. The font is uppercase
//! only, and a character it does not cover is drawn as a visible box.

use vstd::prelude::*;

use crate::text::chars_of;

verus! {

/// How many columns of a glyph can be lit.
pub const GLYPH_WIDTH: usize = 5;

/// How many rows of a glyph can be lit.
pub const GLYPH_HEIGHT: usize = 7;

/// Columns from the left edge of one glyph to the left edge of the next: five lit ones
/// and a gap.
pub const ADVANCE: usize = 6;

/// Rows from the top of one line of text to the top of the next.
pub const LINE_HEIGHT: usize = 9;

/// One glyph, row by row, top to bottom.
pub type Glyph = [u8; 7];

/// `A` to `Z`.
pub const LETTERS: [[u8; 7]; 26] = [
    [0b01110, 0b10001, 0b10001, 0b11111, 0b10001, 0b10001, 0b10001], // A
    [0b11110, 0b10001, 0b10001, 0b11110, 0b10001, 0b10001, 0b11110], // B
    [0b01110, 0b10001, 0b10000, 0b10000, 0b10000, 0b10001, 0b01110], // C
    [0b11110, 0b10001, 0b10001, 0b10001, 0b10001, 0b10001, 0b11110], // D
    [0b11111, 0b10000, 0b10000, 0b11110, 0b10000, 0b10000, 0b11111], // E
    [0b11111, 0b10000, 0b10000, 0b11110, 0b10000, 0b10000, 0b10000], // F
    [0b01110, 0b10001, 0b10000, 0b10111, 0b10001, 0b10001, 0b01111], // G
    [0b10001, 0b10001, 0b10001, 0b11111, 0b10001, 0b10001, 0b10001], // H
    [0b01110, 0b00100, 0b00100, 0b00100, 0b00100, 0b00100, 0b01110], // I
    [0b00111, 0b00010, 0b00010, 0b00010, 0b00010, 0b10010, 0b01100], // J
    [0b10001, 0b10010, 0b10100, 0b11000, 0b10100, 0b10010, 0b10001], // K
    [0b10000, 0b10000, 0b10000, 0b10000, 0b10000, 0b10000, 0b11111], // L
    [0b10001, 0b11011, 0b10101, 0b10101, 0b10001, 0b10001, 0b10001], // M
    [0b10001, 0b11001, 0b10101, 0b10011, 0b10001, 0b10001, 0b10001], // N
    [0b01110, 0b10001, 0b10001, 0b10001, 0b10001, 0b10001, 0b01110], // O
    [0b11110, 0b10001, 0b10001, 0b11110, 0b10000, 0b10000, 0b10000], // P
    [0b01110, 0b10001, 0b10001, 0b10001, 0b10101, 0b10010, 0b01101], // Q
    [0b11110, 0b10001, 0b10001, 0b11110, 0b10100, 0b10010, 0b10001], // R
    [0b01111, 0b10000, 0b10000, 0b01110, 0b00001, 0b00001, 0b11110], // S
    [0b11111, 0b00100, 0b00100, 0b00100, 0b00100, 0b00100, 0b00100], // T
    [0b10001, 0b10001, 0b10001, 0b10001, 0b10001, 0b10001, 0b01110], // U
    [0b10001, 0b10001, 0b10001, 0b10001, 0b10001, 0b01010, 0b00100], // V
    [0b10001, 0b10001, 0b10001, 0b10101, 0b10101, 0b11011, 0b10001], // W
    [0b10001, 0b10001, 0b01010, 0b00100, 0b01010, 0b10001, 0b10001], // X
    [0b10001, 0b10001, 0b01010, 0b00100, 0b00100, 0b00100, 0b00100], // Y
    [0b11111, 0b00001, 0b00010, 0b00100, 0b01000, 0b10000, 0b11111], // Z
];

/// `0` to `9`.
pub const DIGITS: [[u8; 7]; 10] = [
    [0b01110, 0b10001, 0b10011, 0b10101, 0b11001, 0b10001, 0b01110], // 0
    [0b00100, 0b01100, 0b00100, 0b00100, 0b00100, 0b00100, 0b01110], // 1
    [0b01110, 0b10001, 0b00001, 0b00010, 0b00100, 0b01000, 0b11111], // 2
    [0b11111, 0b00010, 0b00100, 0b00010, 0b00001, 0b10001, 0b01110], // 3
    [0b00010, 0b00110, 0b01010, 0b10010, 0b11111, 0b00010, 0b00010], // 4
    [0b11111, 0b10000, 0b11110, 0b00001, 0b00001, 0b10001, 0b01110], // 5
    [0b00110, 0b01000, 0b10000, 0b11110, 0b10001, 0b10001, 0b01110], // 6
    [0b11111, 0b00001, 0b00010, 0b00100, 0b01000, 0b01000, 0b01000], // 7
    [0b01110, 0b10001, 0b10001, 0b01110, 0b10001, 0b10001, 0b01110], // 8
    [0b01110, 0b10001, 0b10001, 0b01111, 0b00001, 0b00010, 0b01100], // 9
];

/// The glyph with nothing lit.
pub const BLANK: [u8; 7] = [0, 0, 0, 0, 0, 0, 0];

/// Shown for anything the font does not cover, so that a missing glyph is visible.
pub const TOFU: [u8; 7] = [0b11111, 0b10001, 0b10001, 0b10001, 0b10001, 0b10001, 0b11111];

/// The capital of an ASCII letter, and every other character unchanged.
pub open spec fn upper(c: char) -> char {
    if 'a' <= c <= 'z' {
        ((c as u32 - 32) as u32) as char
    } else {
        c
    }
}

/// The picture of `c`.
pub open spec fn picture(c: char) -> Seq<u8> {
    let u = upper(c);
    if u == ' ' {
        BLANK@
    } else if 'A' <= u <= 'Z' {
        LETTERS[u as int - 'A' as int]@
    } else if '0' <= u <= '9' {
        DIGITS[u as int - '0' as int]@
    } else if u == '.' {
        seq![0u8, 0, 0, 0, 0, 0b00110, 0b00110]
    } else if u == ',' {
        seq![0u8, 0, 0, 0, 0, 0b00110, 0b01100]
    } else if u == ':' {
        seq![0u8, 0b00110, 0b00110, 0, 0b00110, 0b00110, 0]
    } else if u == '-' {
        seq![0u8, 0, 0, 0b01110, 0, 0, 0]
    } else if u == '+' {
        seq![0u8, 0b00100, 0b00100, 0b11111, 0b00100, 0b00100, 0]
    } else if u == '/' {
        seq![0b00001u8, 0b00001, 0b00010, 0b00100, 0b01000, 0b10000, 0b10000]
    } else if u == '%' {
        seq![0b11001u8, 0b11010, 0b00010, 0b00100, 0b01000, 0b01011, 0b10011]
    } else if u == '(' {
        seq![0b00010u8, 0b00100, 0b01000, 0b01000, 0b01000, 0b00100, 0b00010]
    } else if u == ')' {
        seq![0b01000u8, 0b00100, 0b00010, 0b00010, 0b00010, 0b00100, 0b01000]
    } else if u == '_' {
        seq![0u8, 0, 0, 0, 0, 0, 0b11111]
    } else {
        TOFU@
    }
}

/// The glyph that draws `c`.
pub fn glyph(c: char) -> (rows: Glyph)
    ensures
        rows@ == picture(c),
{
    let rows: [u8; 7] = match c {
        ' ' => BLANK,
        'A'..='Z' => LETTERS[(c as u32 - 65) as usize],
        'a'..='z' => LETTERS[(c as u32 - 97) as usize],
        '0'..='9' => DIGITS[(c as u32 - 48) as usize],
        '.' => [0, 0, 0, 0, 0, 0b00110, 0b00110],
        ',' => [0, 0, 0, 0, 0, 0b00110, 0b01100],
        ':' => [0, 0b00110, 0b00110, 0, 0b00110, 0b00110, 0],
        '-' => [0, 0, 0, 0b01110, 0, 0, 0],
        '+' => [0, 0b00100, 0b00100, 0b11111, 0b00100, 0b00100, 0],
        '/' => [0b00001, 0b00001, 0b00010, 0b00100, 0b01000, 0b10000, 0b10000],
        '%' => [0b11001, 0b11010, 0b00010, 0b00100, 0b01000, 0b01011, 0b10011],
        '(' => [0b00010, 0b00100, 0b01000, 0b01000, 0b01000, 0b00100, 0b00010],
        ')' => [0b01000, 0b00100, 0b00010, 0b00010, 0b00010, 0b00100, 0b01000],
        '_' => [0, 0, 0, 0, 0, 0, 0b11111],
        _ => TOFU,
    };
    proof {
        assert(rows@ =~= picture(c));
    }
    rows
}

/// No glyph lights a bit outside the five columns of its cell.
pub proof fn glyphs_fit_their_cell(c: char, row: int)
    requires
        0 <= row < 7,
    ensures
        picture(c).len() == 7,
        picture(c)[row] < 0b100000,
{
}

/// A lowercase letter is drawn as its capital.
pub proof fn lowercase_is_drawn_as_uppercase(c: char)
    ensures
        picture(c) == picture(upper(c)),
{
}

/// The characters the font draws, in the case it draws them in. The space is drawn too, as
/// nothing.
pub open spec fn drawn(c: char) -> bool {
    ||| 'A' <= c <= 'Z'
    ||| '0' <= c <= '9'
    ||| c == '.' || c == ',' || c == ':' || c == '-' || c == '+'
    ||| c == '/' || c == '%' || c == '(' || c == ')' || c == '_'
}

/// Every character the font draws has a picture of its own.
#[verifier::spinoff_prover]
#[verifier::rlimit(60)]
pub proof fn no_two_characters_look_alike(a: char, b: char)
    requires
        drawn(a),
        drawn(b),
        picture(a) == picture(b),
    ensures
        a == b,
{
}

/// Only the space is drawn as nothing.
pub proof fn only_the_space_is_blank(c: char)
    ensures
        (forall|row: int| 0 <= row < 7 ==> #[trigger] picture(c)[row] == 0) <==> c == ' ',
{
    let lit = if 'A' <= upper(c) <= 'Z' || '0' <= upper(c) <= '9' || !drawn(upper(c)) {
        0
    } else if upper(c) == '.' || upper(c) == ',' || upper(c) == '_' {
        6
    } else if upper(c) == '-' || upper(c) == '+' {
        3
    } else if upper(c) == ':' {
        1
    } else {
        0
    };
    if c != ' ' {
        assert(picture(c)[lit] != 0);
    }
}

/// What the font does not cover is drawn as the box, and as nothing else.
pub proof fn what_is_not_covered_is_a_box(c: char)
    requires
        c != ' ',
        !drawn(upper(c)),
    ensures
        picture(c) == TOFU@,
{
}

/// A pixel of a line of text: which character, which row of it, which column.
#[derive(Clone, Copy, Debug, PartialEq, Eq, Structural)]
pub struct Cell {
    pub index: usize,
    pub row: usize,
    pub col: usize,
}

/// Whether column `col` of a glyph row is lit. Bit 4 is column 0.
pub open spec fn lit(bits: u8, col: int) -> bool {
    bits & (1u8 << ((4 - col) as u8)) != 0
}

/// The lit cells among the first `cols` columns of one row of character `index`.
pub open spec fn row_cells(bits: u8, index: usize, row: usize, cols: nat) -> Seq<Cell>
    decreases cols,
{
    if cols == 0 {
        Seq::empty()
    } else {
        let before = row_cells(bits, index, row, (cols - 1) as nat);
        if lit(bits, cols - 1) {
            before.push((Cell { index, row, col: (cols - 1) as usize }))
        } else {
            before
        }
    }
}

/// The lit cells of the first `rows` rows of `c`, drawn as character `index`.
pub open spec fn glyph_cells(c: char, index: usize, rows: nat) -> Seq<Cell>
    decreases rows,
{
    if rows == 0 {
        Seq::empty()
    } else {
        glyph_cells(c, index, (rows - 1) as nat) + row_cells(
            picture(c)[rows - 1],
            index,
            (rows - 1) as usize,
            5,
        )
    }
}

/// The lit cells of a line of text, character by character, row by row, left to right.
pub open spec fn text_cells(line: Seq<char>) -> Seq<Cell>
    decreases line.len(),
{
    if line.len() == 0 {
        Seq::empty()
    } else {
        text_cells(line.drop_last()) + glyph_cells(line.last(), (line.len() - 1) as usize, 7)
    }
}

/// Every lit font pixel of one line of text, in the order it is drawn.
pub fn lit_cells(line: &str) -> (cells: Vec<Cell>)
    ensures
        cells@ == text_cells(line@),
{
    let chars = chars_of(line);
    let mut cells: Vec<Cell> = Vec::new();
    let mut index: usize = 0;
    while index < chars.len()
        invariant
            index <= chars@.len(),
            chars@ == line@,
            cells@ == text_cells(line@.take(index as int)),
        decreases chars@.len() - index,
    {
        let c = chars[index];
        let rows = glyph(c);
        let ghost before = cells@;
        let mut row: usize = 0;
        while row < 7
            invariant
                row <= 7,
                rows@ == picture(c),
                rows@.len() == 7,
                cells@ == before + glyph_cells(c, index, row as nat),
            decreases 7 - row,
        {
            let bits: u8 = rows[row];
            let ghost so_far = cells@;
            let mut col: usize = 0;
            while col < 5
                invariant
                    col <= 5,
                    cells@ == so_far + row_cells(bits, index, row, col as nat),
                decreases 5 - col,
            {
                let shift: u8 = (4 - col) as u8;
                if bits & (1u8 << shift) != 0 {
                    cells.push(Cell { index, row, col });
                }
                col = col + 1;
                proof {
                    assert(cells@ =~= so_far + row_cells(bits, index, row, col as nat));
                }
            }
            row = row + 1;
            proof {
                assert(cells@ =~= before + glyph_cells(c, index, row as nat));
            }
        }
        index = index + 1;
        proof {
            assert(line@.take(index as int).drop_last() =~= line@.take(index - 1));
        }
    }
    proof {
        assert(line@.take(line@.len() as int) =~= line@);
    }
    cells
}

/// Columns from the first to the last that `chars` characters can light. The last glyph
/// counts its five columns but not the gap after it.
pub open spec fn columns(chars: nat) -> nat {
    if chars == 0 {
        0
    } else {
        (6 * chars - 1) as nat
    }
}

/// Width of a line of text in font columns.
pub fn text_columns(line: &str) -> (width: u128)
    ensures
        width == columns(line@.len()),
{
    let count: usize = chars_of(line).len();
    if count == 0 {
        0
    } else {
        count as u128 * 6 - 1
    }
}

/// Every cell a row lights lies in that row of that character, in columns it was asked for.
proof fn row_cells_within(bits: u8, index: usize, row: usize, cols: nat)
    requires
        cols <= 5,
    ensures
        forall|k: int|
            0 <= k < row_cells(bits, index, row, cols).len() ==> {
                let cell = #[trigger] row_cells(bits, index, row, cols)[k];
                cell.index == index && cell.row == row && cell.col < cols
            },
    decreases cols,
{
    if cols > 0 {
        row_cells_within(bits, index, row, (cols - 1) as nat);
        let before = row_cells(bits, index, row, (cols - 1) as nat);
        let all = row_cells(bits, index, row, cols);
        assert forall|k: int| 0 <= k < all.len() implies {
            let cell = #[trigger] all[k];
            cell.index == index && cell.row == row && cell.col < cols
        } by {
            if k < before.len() {
                assert(all[k] == before[k]);
            }
        }
    }
}

proof fn glyph_cells_within(c: char, index: usize, rows: nat)
    requires
        rows <= 7,
    ensures
        forall|k: int|
            0 <= k < glyph_cells(c, index, rows).len() ==> {
                let cell = #[trigger] glyph_cells(c, index, rows)[k];
                cell.index == index && cell.row < rows && cell.col < 5
            },
    decreases rows,
{
    if rows > 0 {
        glyph_cells_within(c, index, (rows - 1) as nat);
        row_cells_within(picture(c)[rows - 1], index, (rows - 1) as usize, 5);
        let before = glyph_cells(c, index, (rows - 1) as nat);
        let own = row_cells(picture(c)[rows - 1], index, (rows - 1) as usize, 5);
        let all = glyph_cells(c, index, rows);
        assert forall|k: int| 0 <= k < all.len() implies {
            let cell = #[trigger] all[k];
            cell.index == index && cell.row < rows && cell.col < 5
        } by {
            if k < before.len() {
                assert(all[k] == before[k]);
            } else {
                assert(all[k] == own[k - before.len()]);
            }
        }
    }
}

/// A line's width covers every pixel that the line draws.
pub proof fn width_covers_every_lit_cell(line: Seq<char>, k: int)
    requires
        line.len() <= usize::MAX,
        0 <= k < text_cells(line).len(),
    ensures
        text_cells(line)[k].index < line.len(),
        text_cells(line)[k].row < 7,
        text_cells(line)[k].index * 6 + text_cells(line)[k].col < columns(line.len()),
    decreases line.len(),
{
    if line.len() > 0 {
        let before = text_cells(line.drop_last());
        glyph_cells_within(line.last(), (line.len() - 1) as usize, 7);
        if k < before.len() {
            width_covers_every_lit_cell(line.drop_last(), k);
        } else {
            let own = glyph_cells(line.last(), (line.len() - 1) as usize, 7);
            assert(text_cells(line)[k] == own[k - before.len()]);
        }
    }
}

/// A space lights nothing, so text made of spaces draws nothing.
pub proof fn spaces_draw_nothing(line: Seq<char>)
    requires
        forall|i: int| 0 <= i < line.len() ==> line[i] == ' ',
    ensures
        text_cells(line).len() == 0,
    decreases line.len(),
{
    if line.len() > 0 {
        spaces_draw_nothing(line.drop_last());
        let index = (line.len() - 1) as usize;
        assert forall|row: usize, cols: nat| cols <= 5 implies #[trigger] row_cells(
            0,
            index,
            row,
            cols,
        ).len() == 0 by {
            blank_row_is_empty(index, row, cols);
        }
        reveal_with_fuel(glyph_cells, 8);
    }
}

proof fn blank_row_is_empty(index: usize, row: usize, cols: nat)
    requires
        cols <= 5,
    ensures
        row_cells(0, index, row, cols).len() == 0,
    decreases cols,
{
    if cols > 0 {
        blank_row_is_empty(index, row, (cols - 1) as nat);
        let shift = (4 - (cols - 1)) as u8;
        assert(0u8 & (1u8 << shift) == 0) by (bit_vector);
    }
}

/// Each letter, capital or not, and each digit is drawn as its own picture, row by row.
pub proof fn each_letter_has_its_picture(c: char)
    ensures
        c == 'A' || c == 'a' ==> picture(c) == seq![0b01110u8, 0b10001, 0b10001, 0b11111, 0b10001, 0b10001, 0b10001],
        c == 'B' || c == 'b' ==> picture(c) == seq![0b11110u8, 0b10001, 0b10001, 0b11110, 0b10001, 0b10001, 0b11110],
        c == 'C' || c == 'c' ==> picture(c) == seq![0b01110u8, 0b10001, 0b10000, 0b10000, 0b10000, 0b10001, 0b01110],
        c == 'D' || c == 'd' ==> picture(c) == seq![0b11110u8, 0b10001, 0b10001, 0b10001, 0b10001, 0b10001, 0b11110],
        c == 'E' || c == 'e' ==> picture(c) == seq![0b11111u8, 0b10000, 0b10000, 0b11110, 0b10000, 0b10000, 0b11111],
        c == 'F' || c == 'f' ==> picture(c) == seq![0b11111u8, 0b10000, 0b10000, 0b11110, 0b10000, 0b10000, 0b10000],
        c == 'G' || c == 'g' ==> picture(c) == seq![0b01110u8, 0b10001, 0b10000, 0b10111, 0b10001, 0b10001, 0b01111],
        c == 'H' || c == 'h' ==> picture(c) == seq![0b10001u8, 0b10001, 0b10001, 0b11111, 0b10001, 0b10001, 0b10001],
        c == 'I' || c == 'i' ==> picture(c) == seq![0b01110u8, 0b00100, 0b00100, 0b00100, 0b00100, 0b00100, 0b01110],
        c == 'J' || c == 'j' ==> picture(c) == seq![0b00111u8, 0b00010, 0b00010, 0b00010, 0b00010, 0b10010, 0b01100],
        c == 'K' || c == 'k' ==> picture(c) == seq![0b10001u8, 0b10010, 0b10100, 0b11000, 0b10100, 0b10010, 0b10001],
        c == 'L' || c == 'l' ==> picture(c) == seq![0b10000u8, 0b10000, 0b10000, 0b10000, 0b10000, 0b10000, 0b11111],
        c == 'M' || c == 'm' ==> picture(c) == seq![0b10001u8, 0b11011, 0b10101, 0b10101, 0b10001, 0b10001, 0b10001],
        c == 'N' || c == 'n' ==> picture(c) == seq![0b10001u8, 0b11001, 0b10101, 0b10011, 0b10001, 0b10001, 0b10001],
        c == 'O' || c == 'o' ==> picture(c) == seq![0b01110u8, 0b10001, 0b10001, 0b10001, 0b10001, 0b10001, 0b01110],
        c == 'P' || c == 'p' ==> picture(c) == seq![0b11110u8, 0b10001, 0b10001, 0b11110, 0b10000, 0b10000, 0b10000],
        c == 'Q' || c == 'q' ==> picture(c) == seq![0b01110u8, 0b10001, 0b10001, 0b10001, 0b10101, 0b10010, 0b01101],
        c == 'R' || c == 'r' ==> picture(c) == seq![0b11110u8, 0b10001, 0b10001, 0b11110, 0b10100, 0b10010, 0b10001],
        c == 'S' || c == 's' ==> picture(c) == seq![0b01111u8, 0b10000, 0b10000, 0b01110, 0b00001, 0b00001, 0b11110],
        c == 'T' || c == 't' ==> picture(c) == seq![0b11111u8, 0b00100, 0b00100, 0b00100, 0b00100, 0b00100, 0b00100],
        c == 'U' || c == 'u' ==> picture(c) == seq![0b10001u8, 0b10001, 0b10001, 0b10001, 0b10001, 0b10001, 0b01110],
        c == 'V' || c == 'v' ==> picture(c) == seq![0b10001u8, 0b10001, 0b10001, 0b10001, 0b10001, 0b01010, 0b00100],
        c == 'W' || c == 'w' ==> picture(c) == seq![0b10001u8, 0b10001, 0b10001, 0b10101, 0b10101, 0b11011, 0b10001],
        c == 'X' || c == 'x' ==> picture(c) == seq![0b10001u8, 0b10001, 0b01010, 0b00100, 0b01010, 0b10001, 0b10001],
        c == 'Y' || c == 'y' ==> picture(c) == seq![0b10001u8, 0b10001, 0b01010, 0b00100, 0b00100, 0b00100, 0b00100],
        c == 'Z' || c == 'z' ==> picture(c) == seq![0b11111u8, 0b00001, 0b00010, 0b00100, 0b01000, 0b10000, 0b11111],
        c == '0' ==> picture(c) == seq![0b01110u8, 0b10001, 0b10011, 0b10101, 0b11001, 0b10001, 0b01110],
        c == '1' ==> picture(c) == seq![0b00100u8, 0b01100, 0b00100, 0b00100, 0b00100, 0b00100, 0b01110],
        c == '2' ==> picture(c) == seq![0b01110u8, 0b10001, 0b00001, 0b00010, 0b00100, 0b01000, 0b11111],
        c == '3' ==> picture(c) == seq![0b11111u8, 0b00010, 0b00100, 0b00010, 0b00001, 0b10001, 0b01110],
        c == '4' ==> picture(c) == seq![0b00010u8, 0b00110, 0b01010, 0b10010, 0b11111, 0b00010, 0b00010],
        c == '5' ==> picture(c) == seq![0b11111u8, 0b10000, 0b11110, 0b00001, 0b00001, 0b10001, 0b01110],
        c == '6' ==> picture(c) == seq![0b00110u8, 0b01000, 0b10000, 0b11110, 0b10001, 0b10001, 0b01110],
        c == '7' ==> picture(c) == seq![0b11111u8, 0b00001, 0b00010, 0b00100, 0b01000, 0b01000, 0b01000],
        c == '8' ==> picture(c) == seq![0b01110u8, 0b10001, 0b10001, 0b01110, 0b10001, 0b10001, 0b01110],
        c == '9' ==> picture(c) == seq![0b01110u8, 0b10001, 0b10001, 0b01111, 0b00001, 0b00010, 0b01100],
{
}

/// The marks that are drawn, row by row; a space is empty, and anything else is a box.
pub proof fn each_mark_has_its_picture(c: char)
    ensures
        c == ' ' ==> picture(c) == seq![0u8, 0, 0, 0, 0, 0, 0],
        c == '.' ==> picture(c) == seq![0u8, 0, 0, 0, 0, 0b00110, 0b00110],
        c == ',' ==> picture(c) == seq![0u8, 0, 0, 0, 0, 0b00110, 0b01100],
        c == ':' ==> picture(c) == seq![0u8, 0b00110, 0b00110, 0, 0b00110, 0b00110, 0],
        c == '-' ==> picture(c) == seq![0u8, 0, 0, 0b01110, 0, 0, 0],
        c == '+' ==> picture(c) == seq![0u8, 0b00100, 0b00100, 0b11111, 0b00100, 0b00100, 0],
        c == '/' ==> picture(c) == seq![
            0b00001u8,
            0b00001,
            0b00010,
            0b00100,
            0b01000,
            0b10000,
            0b10000,
        ],
        c == '%' ==> picture(c) == seq![
            0b11001u8,
            0b11010,
            0b00010,
            0b00100,
            0b01000,
            0b01011,
            0b10011,
        ],
        c == '(' ==> picture(c) == seq![
            0b00010u8,
            0b00100,
            0b01000,
            0b01000,
            0b01000,
            0b00100,
            0b00010,
        ],
        c == ')' ==> picture(c) == seq![
            0b01000u8,
            0b00100,
            0b00010,
            0b00010,
            0b00010,
            0b00100,
            0b01000,
        ],
        c == '_' ==> picture(c) == seq![0u8, 0, 0, 0, 0, 0, 0b11111],
        !('a' <= c <= 'z') && !('A' <= c <= 'Z') && !('0' <= c <= '9') && c != ' ' && c != '.' && c
            != ',' && c != ':' && c != '-' && c != '+' && c != '/' && c != '%' && c != '(' && c
            != ')' && c != '_' ==> picture(c) == seq![
            0b11111u8,
            0b10001,
            0b10001,
            0b10001,
            0b10001,
            0b10001,
            0b11111,
        ],
{
}

/// A row is lit from the left, its highest bit of five first.
pub proof fn a_row_is_lit_from_the_left(bits: u8)
    requires
        bits < 32,
    ensures
        lit(bits, 0) <==> bits / 16 % 2 == 1,
        lit(bits, 1) <==> bits / 8 % 2 == 1,
        lit(bits, 2) <==> bits / 4 % 2 == 1,
        lit(bits, 3) <==> bits / 2 % 2 == 1,
        lit(bits, 4) <==> bits % 2 == 1,
{
    assert((bits & (1u8 << 4u8) != 0) == (bits / 16 % 2 == 1) && (bits & (1u8 << 3u8) != 0) == (bits
        / 8 % 2 == 1) && (bits & (1u8 << 2u8) != 0) == (bits / 4 % 2 == 1) && (bits & (1u8 << 1u8)
        != 0) == (bits / 2 % 2 == 1) && (bits & (1u8 << 0u8) != 0) == (bits % 2 == 1))
        by (bit_vector)
        requires
            bits < 32,
    ;
}

proof fn a_row_holds_its_lit_cells(bits: u8, index: usize, row: usize, cols: nat, cell: Cell)
    requires
        cols <= 5,
    ensures
        row_cells(bits, index, row, cols).contains(cell) <==> cell.index == index && cell.row == row
            && cell.col < cols && lit(bits, cell.col as int),
    decreases cols,
{
    if cols > 0 {
        let before = row_cells(bits, index, row, (cols - 1) as nat);
        let all = row_cells(bits, index, row, cols);
        let last = Cell { index, row, col: (cols - 1) as usize };
        a_row_holds_its_lit_cells(bits, index, row, (cols - 1) as nat, cell);
        if lit(bits, cols - 1) {
            assert(all.contains(cell) <==> before.contains(cell) || cell == last) by {
                assert(all[before.len() as int] == last);
                if before.contains(cell) {
                    let k = before.index_of(cell);
                    assert(all[k] == cell);
                }
                if all.contains(cell) {
                    let k = all.index_of(cell);
                    if k < before.len() {
                        assert(before[k] == cell);
                    }
                }
            }
        }
    }
}

proof fn either_holds_it(a: Seq<Cell>, b: Seq<Cell>, cell: Cell)
    ensures
        (a + b).contains(cell) <==> a.contains(cell) || b.contains(cell),
{
    let all = a + b;
    if a.contains(cell) {
        assert(all[a.index_of(cell)] == cell);
    }
    if b.contains(cell) {
        assert(all[a.len() + b.index_of(cell)] == cell);
    }
    if all.contains(cell) {
        let k = all.index_of(cell);
        if k < a.len() {
            assert(a[k] == cell);
        } else {
            assert(b[k - a.len()] == cell);
        }
    }
}

proof fn a_glyph_holds_its_lit_cells(c: char, index: usize, rows: nat, cell: Cell)
    requires
        rows <= 7,
    ensures
        glyph_cells(c, index, rows).contains(cell) <==> cell.index == index && cell.row < rows
            && cell.col < 5 && lit(picture(c)[cell.row as int], cell.col as int),
    decreases rows,
{
    if rows > 0 {
        let above = (rows - 1) as nat;
        a_glyph_holds_its_lit_cells(c, index, above, cell);
        let row = (rows - 1) as usize;
        a_row_holds_its_lit_cells(picture(c)[rows - 1], index, row, 5, cell);
        either_holds_it(
            glyph_cells(c, index, above),
            row_cells(picture(c)[rows - 1], index, row, 5),
            cell,
        );
    }
}

/// A line of text lights exactly the cells of its characters' pictures, each by where its
/// character stands, its row and its column.
pub proof fn a_line_lights_the_pictures_of_its_characters(line: Seq<char>, cell: Cell)
    requires
        line.len() <= usize::MAX,
    ensures
        text_cells(line).contains(cell) <==> cell.index < line.len() && cell.row < 7 && cell.col
            < 5 && lit(picture(line[cell.index as int])[cell.row as int], cell.col as int),
    decreases line.len(),
{
    if line.len() > 0 {
        let rest = line.drop_last();
        a_line_lights_the_pictures_of_its_characters(rest, cell);
        let index = (line.len() - 1) as usize;
        a_glyph_holds_its_lit_cells(line.last(), index, 7, cell);
        either_holds_it(text_cells(rest), glyph_cells(line.last(), index, 7), cell);
    }
}

/// A line of characters of five columns with one between each two is six columns to a character
/// less one, and nothing is no column wide.
pub proof fn a_line_is_six_columns_to_a_character(chars: nat)
    ensures
        columns(0) == 0,
        columns(1) == 5,
        chars > 0 ==> columns(chars + 1) == columns(chars) + 6,
        GLYPH_WIDTH == 5,
        GLYPH_HEIGHT == 7,
        ADVANCE == 6,
        LINE_HEIGHT == 9,
{
}

} // verus!
