//! The decisions of the interactive control loop.
//!
//! The loop around the terminal polls for one input event per
//! iteration and hands it here; this module classifies the event,
//! applies its effect to the grid, and says whether the loop should
//! quit, skip the rest of the iteration, or go on to the cadence gate
//! that steps and redraws. The polling, the clock and the terminal
//! stay outside the library.

use vstd::prelude::*;
use crate::game::GameOfLife;
use crate::game::lemma_index_bound;
use crate::game::lemma_index_injective;

verus! {

/// How many sub-cells one terminal column holds.
pub const CELLS_PER_COL: usize = 2;

/// How many sub-cells one terminal row holds.
pub const CELLS_PER_ROW: usize = 3;

/// One input event, as the terminal surface reports it.
#[derive(Clone, Copy, Debug, PartialEq, Eq, Structural)]
pub enum UiEvent {
    /// A key press.
    Key { ch: char },
    /// The terminal was resized to `cols` by `rows` character cells.
    Resized { cols: usize, rows: usize },
    /// A spurious wake with no payload.
    Wake,
    /// A pointer event at terminal cell `(x, y)`; `left_down` says
    /// whether the left button is held.
    Mouse { x: usize, y: usize, left_down: bool },
    /// Polling the terminal failed; the loop treats this as fatal.
    PollError,
    /// Any other event; ignored.
    Other,
}

/// What the loop does after one event is handled.
#[derive(Clone, Copy, Debug, PartialEq, Eq, Structural)]
pub enum LoopStep {
    /// Leave the loop and restore the terminal.
    Quit,
    /// Skip stepping and rendering for this iteration.
    SkipTick,
    /// Go on to the cadence gate, which may step and redraw.
    Tick,
}

/// Paints the 2x3 block of sub-cells under terminal cell `(cx, cy)`
/// alive. Painting only sets cells: no live cell is cleared, and no
/// cell outside the block changes.
pub fn paint_block(game: &mut GameOfLife, cx: usize, cy: usize)
    requires
        old(game).wf(),
        CELLS_PER_COL * cx + 1 < old(game).width(),
        CELLS_PER_ROW * cy + 2 < old(game).height(),
    ensures
        final(game).wf(),
        final(game).size == old(game).size,
        forall|i: int, j: int|
            0 <= i < old(game).width() && 0 <= j < old(game).height()
                ==> final(game).at(i, j) == (old(game).at(i, j) || (CELLS_PER_COL * cx <= i
                < CELLS_PER_COL * cx + 2 && CELLS_PER_ROW * cy <= j < CELLS_PER_ROW * cy + 3)),
{
    let col = CELLS_PER_COL * cx;
    let row = CELLS_PER_ROW * cy;
    let ghost w = game.width();
    let ghost h = game.height();
    game.set(col, row, true);
    game.set(col, row + 1, true);
    game.set(col, row + 2, true);
    game.set(col + 1, row, true);
    game.set(col + 1, row + 1, true);
    game.set(col + 1, row + 2, true);
    proof {
        assert forall|i: int, j: int| 0 <= i < w && 0 <= j < h implies game.at(i, j) == (old(
            game,
        ).at(i, j) || (col <= i < col + 2 && row <= j < row + 3)) by {
            lemma_index_bound(w, h, i, j);
            lemma_index_bound(w, h, col as int, row as int);
            lemma_index_bound(w, h, col as int, row + 1);
            lemma_index_bound(w, h, col as int, row + 2);
            lemma_index_bound(w, h, col + 1, row as int);
            lemma_index_bound(w, h, col + 1, row + 1);
            lemma_index_bound(w, h, col + 1, row + 2);
            let k = i + j * w;
            if k == col + row * w {
                lemma_index_injective(w, i, j, col as int, row as int);
            }
            if k == col + (row + 1) * w {
                lemma_index_injective(w, i, j, col as int, row + 1);
            }
            if k == col + (row + 2) * w {
                lemma_index_injective(w, i, j, col as int, row + 2);
            }
            if k == (col + 1) + row * w {
                lemma_index_injective(w, i, j, col + 1, row as int);
            }
            if k == (col + 1) + (row + 1) * w {
                lemma_index_injective(w, i, j, col + 1, row + 1);
            }
            if k == (col + 1) + (row + 2) * w {
                lemma_index_injective(w, i, j, col + 1, row + 2);
            }
        }
    }
}

/// Rebuilds the grid for a terminal now `cols` by `rows` character
/// cells: the new dimensions are the terminal's, scaled by the fixed
/// sub-cell factors, and every cell is freshly re-seeded at random.
pub fn handle_resize(game: &mut GameOfLife, cols: usize, rows: usize)
    requires
        CELLS_PER_COL * cols <= usize::MAX,
        CELLS_PER_ROW * rows <= usize::MAX,
        (CELLS_PER_COL * cols) * (CELLS_PER_ROW * rows) <= usize::MAX,
    ensures
        final(game).wf(),
        final(game).size.0 == CELLS_PER_COL * cols,
        final(game).size.1 == CELLS_PER_ROW * rows,
        final(game).cells().len() == (CELLS_PER_COL * cols) * (CELLS_PER_ROW * rows),
{
    *game = GameOfLife::new((CELLS_PER_COL * cols, CELLS_PER_ROW * rows));
    game.init();
}

/// Classifies one polled event and applies its effect to the grid.
///
/// `'q'` quits, and so does a polling error; a resize rebuilds and
/// re-seeds the grid and skips this iteration, as does a spurious
/// wake; a left-button pointer event paints a block; everything else,
/// including an empty poll, falls through to the cadence gate.
pub fn handle_event(game: &mut GameOfLife, evt: Option<UiEvent>) -> (next: LoopStep)
    requires
        old(game).wf(),
        evt matches Some(UiEvent::Resized { cols, rows }) ==> CELLS_PER_COL * cols <= usize::MAX
            && CELLS_PER_ROW * rows <= usize::MAX && (CELLS_PER_COL * cols) * (CELLS_PER_ROW
            * rows) <= usize::MAX,
        evt matches Some(UiEvent::Mouse { x, y, left_down }) ==> (left_down ==> CELLS_PER_COL * x
            + 1 < old(game).width() && CELLS_PER_ROW * y + 2 < old(game).height()),
    ensures
        final(game).wf(),
        next == match evt {
            Some(UiEvent::Key { ch }) => if ch == 'q' {
                LoopStep::Quit
            } else {
                LoopStep::Tick
            },
            Some(UiEvent::Resized { .. }) => LoopStep::SkipTick,
            Some(UiEvent::Wake) => LoopStep::SkipTick,
            Some(UiEvent::Mouse { .. }) => LoopStep::Tick,
            Some(UiEvent::PollError) => LoopStep::Quit,
            Some(UiEvent::Other) => LoopStep::Tick,
            None => LoopStep::Tick,
        },
        match evt {
            Some(UiEvent::Resized { cols, rows }) => final(game).size.0 == CELLS_PER_COL * cols
                && final(game).size.1 == CELLS_PER_ROW * rows,
            Some(UiEvent::Mouse { x, y, left_down }) => if left_down {
                final(game).size == old(game).size && forall|i: int, j: int|
                    0 <= i < old(game).width() && 0 <= j < old(game).height()
                        ==> final(game).at(i, j) == (old(game).at(i, j) || (CELLS_PER_COL * x <= i
                        < CELLS_PER_COL * x + 2 && CELLS_PER_ROW * y <= j < CELLS_PER_ROW * y + 3))
            } else {
                *final(game) == *old(game)
            },
            _ => *final(game) == *old(game),
        },
{
    match evt {
        Some(UiEvent::Key { ch }) => {
            if ch == 'q' {
                LoopStep::Quit
            } else {
                LoopStep::Tick
            }
        },
        Some(UiEvent::Resized { cols, rows }) => {
            handle_resize(game, cols, rows);
            LoopStep::SkipTick
        },
        Some(UiEvent::Wake) => LoopStep::SkipTick,
        Some(UiEvent::Mouse { x, y, left_down }) => {
            if left_down {
                paint_block(game, x, y);
            }
            LoopStep::Tick
        },
        Some(UiEvent::PollError) => LoopStep::Quit,
        Some(UiEvent::Other) => LoopStep::Tick,
        None => LoopStep::Tick,
    }
}

} // verus!
