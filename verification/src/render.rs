//! Diff-based rendering: the writes that bring the screen from one frame to
//! the next.
//!
//! The render side keeps the previously painted frame and, for each new one,
//! emits a cursor-positioned write for exactly the cells whose content
//! changed — plus one full paint on the very first frame, which writes every
//! non-empty cell onto the freshly cleared screen. This bounds terminal
//! output by the number of visually changed cells per tick, not by the grid.
//! Performing the writes is terminal I/O and stays outside the library.

use vstd::prelude::*;

use crate::frame::Frame;
use crate::frame::EMPTY_GLYPH;
use crate::NUM_COLS;
use crate::NUM_ROWS;

verus! {

/// One terminal write: put `glyph` at column `x`, row `y`.
#[derive(Clone, Copy, PartialEq, Eq, Structural, Debug)]
pub struct CellWrite {
    pub x: usize,
    pub y: usize,
    pub glyph: char,
}

/// Whether a cell must be written: on a full paint, every non-empty cell of
/// the new frame; otherwise exactly the cells whose content changed, written
/// or cleared.
pub open spec fn needs_write(force: bool, last_cell: char, curr_cell: char) -> bool {
    if force {
        curr_cell != EMPTY_GLYPH
    } else {
        last_cell != curr_cell
    }
}

/// The writes of column `x`, rows `[0, n)`, top to bottom.
pub open spec fn col_writes(lc: Seq<char>, cc: Seq<char>, x: usize, force: bool, n: int) -> Seq<
    CellWrite,
>
    decreases n,
{
    if n <= 0 {
        Seq::empty()
    } else if needs_write(force, lc[n - 1], cc[n - 1]) {
        col_writes(lc, cc, x, force, n - 1).push(
            CellWrite { x, y: (n - 1) as usize, glyph: cc[n - 1] },
        )
    } else {
        col_writes(lc, cc, x, force, n - 1)
    }
}

/// The writes of columns `[0, n)`, column-major.
pub open spec fn grid_writes(last: Seq<Seq<char>>, curr: Seq<Seq<char>>, force: bool, n: int) -> Seq<
    CellWrite,
>
    decreases n,
{
    if n <= 0 {
        Seq::empty()
    } else {
        grid_writes(last, curr, force, n - 1) + col_writes(
            last[n - 1],
            curr[n - 1],
            (n - 1) as usize,
            force,
            NUM_ROWS as int,
        )
    }
}

/// Count of rows in `[0, n)` of one column whose content differs.
pub open spec fn col_diff_count(lc: Seq<char>, cc: Seq<char>, n: int) -> int
    decreases n,
{
    if n <= 0 {
        0
    } else {
        col_diff_count(lc, cc, n - 1) + if lc[n - 1] != cc[n - 1] {
            1int
        } else {
            0int
        }
    }
}

/// Count of cells in columns `[0, n)` whose content differs.
pub open spec fn grid_diff_count(last: Seq<Seq<char>>, curr: Seq<Seq<char>>, n: int) -> int
    decreases n,
{
    if n <= 0 {
        0
    } else {
        grid_diff_count(last, curr, n - 1) + col_diff_count(last[n - 1], curr[n - 1], NUM_ROWS as int)
    }
}

/// The cursor-positioned writes that bring the screen from `last` to `curr`:
/// on a full paint (the session's first frame) a write for every non-empty
/// cell of `curr`, otherwise one write for exactly each changed cell — two
/// buffers that differ in exactly `k` cells make the diff emit exactly `k`
/// write operations.
pub fn diff_writes(last: &Frame, curr: &Frame, force: bool) -> (writes: Vec<CellWrite>)
    requires
        last.wf(),
        curr.wf(),
    ensures
        writes@ == grid_writes(last@, curr@, force, NUM_COLS as int),
        !force ==> writes@.len() == grid_diff_count(last@, curr@, NUM_COLS as int),
{
    let mut out: Vec<CellWrite> = Vec::new();
    let mut x: usize = 0;
    while x < NUM_COLS
        invariant
            x <= NUM_COLS,
            last.wf(),
            curr.wf(),
            out@ == grid_writes(last@, curr@, force, x as int),
            !force ==> out@.len() == grid_diff_count(last@, curr@, x as int),
        decreases NUM_COLS - x,
    {
        let mut y: usize = 0;
        while y < NUM_ROWS
            invariant
                x < NUM_COLS,
                y <= NUM_ROWS,
                last.wf(),
                curr.wf(),
                out@ == grid_writes(last@, curr@, force, x as int) + col_writes(
                    last@[x as int],
                    curr@[x as int],
                    x,
                    force,
                    y as int,
                ),
                !force ==> out@.len() == grid_diff_count(last@, curr@, x as int) + col_diff_count(
                    last@[x as int],
                    curr@[x as int],
                    y as int,
                ),
            decreases NUM_ROWS - y,
        {
            let lc = last.get(x, y);
            let cc = curr.get(x, y);
            let w = if force {
                cc != EMPTY_GLYPH
            } else {
                lc != cc
            };
            if w {
                out.push(CellWrite { x, y, glyph: cc });
                proof {
                    assert(grid_writes(last@, curr@, force, x as int) + col_writes(
                        last@[x as int],
                        curr@[x as int],
                        x,
                        force,
                        y as int,
                    ).push(CellWrite { x, y, glyph: curr@[x as int][y as int] }) =~= (grid_writes(
                        last@,
                        curr@,
                        force,
                        x as int,
                    ) + col_writes(last@[x as int], curr@[x as int], x, force, y as int)).push(
                        CellWrite { x, y, glyph: curr@[x as int][y as int] },
                    ));
                }
            }
            y = y + 1;
        }
        x = x + 1;
    }
    out
}

} // verus!
