//! Packing of 2x3 blocks of cells into Braille glyphs, and the frame
//! builder that drives it over a whole grid.
//!
//! A block is six booleans in column-major order: entries 0..3 are the
//! left column top to bottom, entries 3..6 the right column. They map
//! onto Braille dots 1, 2, 3 and 4, 5, 6; dots 7 and 8 stay clear, so
//! every glyph lies in `U+2800 ..= U+283F`.

use vstd::prelude::*;
use crate::game::GameOfLife;

verus! {

/// The code point of the glyph for a six-cell block: the Braille base
/// `U+2800` plus one dot bit per live cell.
pub open spec fn block_char_code(b: Seq<bool>) -> int {
    0x2800 + (if b[0] { 0x01int } else { 0int }) + (if b[1] { 0x02int } else { 0int }) + (if b[2] {
        0x04int
    } else {
        0int
    }) + (if b[3] { 0x08int } else { 0int }) + (if b[4] { 0x10int } else { 0int }) + (if b[5] {
        0x20int
    } else {
        0int
    })
}

/// The 2x3 block of cells displayed at terminal cell `(col, row)`:
/// sub-cells `(2*col + dx, 3*row + dy)`, column-major.
pub open spec fn block_at(g: Seq<bool>, w: int, col: int, row: int) -> Seq<bool> {
    seq![
        g[(2 * col) + (3 * row) * w],
        g[(2 * col) + (3 * row + 1) * w],
        g[(2 * col) + (3 * row + 2) * w],
        g[(2 * col + 1) + (3 * row) * w],
        g[(2 * col + 1) + (3 * row + 1) * w],
        g[(2 * col + 1) + (3 * row + 2) * w],
    ]
}

/// Relies on braille's `BRAILLE` table: an eight-deep array of the 256
/// Braille characters, indexed one dot per axis in the order 1, 4, 2,
/// 5, 3, 6, 7, 8, whose entry is the character `U+2800` plus the usual
/// bit of each raised dot (dot 1 is 0x01 .. dot 8 is 0x80). Indexing
/// by booleans cast to 0 or 1 cannot reach outside the table.
#[verifier::external_body]
fn braille_table_glyph(b: &[bool; 6]) -> (c: char)
    ensures
        c as int == block_char_code(b@),
{
    braille::BRAILLE[b[0] as usize][b[3] as usize][b[1] as usize][b[4] as usize][b[2]
        as usize][b[5] as usize][0][0]
}

/// Packs one six-cell block into its Braille glyph. Total over all 64
/// blocks: there is no precondition, and every result is one character
/// in `U+2800 ..= U+283F`.
pub fn pack_block(b: &[bool; 6]) -> (c: char)
    ensures
        c as int == block_char_code(b@),
        0x2800 <= c as int <= 0x283F,
{
    braille_table_glyph(b)
}

/// Builds one frame: the grid cut into its 2x3 blocks, each packed
/// into a glyph, as one row of characters per terminal row, top to
/// bottom and left to right.
pub fn render_frame(g: &GameOfLife) -> (frame: Vec<Vec<char>>)
    requires
        g.wf(),
        g.width() % 2 == 0,
        g.height() % 3 == 0,
    ensures
        frame@.len() == g.height() / 3,
        forall|row: int|
            0 <= row < frame@.len() ==> #[trigger] frame@[row]@.len() == g.width() / 2,
        forall|row: int, col: int|
            0 <= row < frame@.len() && 0 <= col < frame@[row]@.len()
                ==> #[trigger] frame@[row]@[col] as int == block_char_code(
                block_at(g.cells(), g.width(), col, row),
            ),
{
    let rows = g.size().1 / 3;
    let cols = g.size().0 / 2;
    let mut frame: Vec<Vec<char>> = Vec::new();
    let mut row: usize = 0;
    while row < rows
        invariant
            g.wf(),
            g.width() % 2 == 0,
            g.height() % 3 == 0,
            rows == g.height() / 3,
            cols == g.width() / 2,
            row <= rows,
            frame@.len() == row,
            forall|r: int| 0 <= r < frame@.len() ==> #[trigger] frame@[r]@.len() == cols,
            forall|r: int, c: int|
                0 <= r < frame@.len() && 0 <= c < cols
                    ==> #[trigger] frame@[r]@[c] as int == block_char_code(
                    block_at(g.cells(), g.width(), c, r),
                ),
        decreases rows - row,
    {
        let mut line: Vec<char> = Vec::new();
        let mut col: usize = 0;
        while col < cols
            invariant
                g.wf(),
                g.width() % 2 == 0,
                g.height() % 3 == 0,
                rows == g.height() / 3,
                cols == g.width() / 2,
                row < rows,
                col <= cols,
                line@.len() == col,
                forall|c: int|
                    0 <= c < line@.len() ==> #[trigger] line@[c] as int == block_char_code(
                        block_at(g.cells(), g.width(), c, row as int),
                    ),
            decreases cols - col,
        {
            proof {
                assert(2 * col + 1 < g.width() && 3 * row + 2 < g.height()) by (nonlinear_arith)
                    requires
                        col < cols,
                        row < rows,
                        rows == g.height() / 3,
                        cols == g.width() / 2,
                        g.width() % 2 == 0,
                        g.height() % 3 == 0,
                ;
            }
            let x = 2 * col;
            let y = 3 * row;
            let block: [bool; 6] = [
                g.get(x, y),
                g.get(x, y + 1),
                g.get(x, y + 2),
                g.get(x + 1, y),
                g.get(x + 1, y + 1),
                g.get(x + 1, y + 2),
            ];
            let glyph = pack_block(&block);
            proof {
                assert(block@ =~= block_at(g.cells(), g.width(), col as int, row as int));
            }
            line.push(glyph);
            col = col + 1;
        }
        frame.push(line);
        row = row + 1;
    }
    frame
}

} // verus!
