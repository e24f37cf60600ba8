//! Frame buffer: a fixed-size grid of glyphs, column-major.
//!
//! A fresh buffer is built every tick by the game logic, drawables write
//! their glyphs into it (last writer wins within a tick), and the finished
//! buffer is handed to the render side, which diffs it against the previous
//! one (see `render`). Dimensions are fixed for the whole session.

use vstd::prelude::*;

use crate::NUM_COLS;
use crate::NUM_ROWS;

verus! {

/// The glyph of a cell nothing has drawn into.
pub const EMPTY_GLYPH: char = ' ';

pub struct Frame {
    cells: Vec<Vec<char>>,
}

impl View for Frame {
    type V = Seq<Seq<char>>;

    closed spec fn view(&self) -> Seq<Seq<char>> {
        self.cells@.map(|x: int, col: Vec<char>| col@)
    }
}

impl Frame {
    /// The grid has exactly the session's dimensions.
    pub open spec fn wf(&self) -> bool {
        &&& self@.len() == NUM_COLS
        &&& forall|x: int| 0 <= x < NUM_COLS ==> (#[trigger] self@[x]).len() == NUM_ROWS
    }

    pub fn get(&self, x: usize, y: usize) -> (c: char)
        requires
            self.wf(),
            x < NUM_COLS,
            y < NUM_ROWS,
        ensures
            c == self@[x as int][y as int],
    {
        proof {
            assert(self@.len() == self.cells@.len());
            assert(self@[x as int] == self.cells@[x as int]@);
        }
        self.cells[x][y]
    }

    /// Write one cell; every other cell keeps its content.
    pub fn set(&mut self, x: usize, y: usize, glyph: char)
        requires
            old(self).wf(),
            x < NUM_COLS,
            y < NUM_ROWS,
        ensures
            final(self).wf(),
            final(self)@[x as int][y as int] == glyph,
            forall|i: int| 0 <= i < NUM_COLS && i != x ==> final(self)@[i] == old(self)@[i],
            forall|j: int|
                0 <= j < NUM_ROWS && j != y ==> final(self)@[x as int][j] == old(self)@[x as int][j],
    {
        proof {
            assert(old(self)@.len() == old(self).cells@.len());
            assert forall|i: int| 0 <= i < NUM_COLS implies #[trigger] old(self)@[i]
                == old(self).cells@[i]@ by {}
            assert(old(self)@[x as int] == old(self).cells@[x as int]@);
            assert(old(self).cells@[x as int]@.len() == NUM_ROWS);
        }
        let col: &mut Vec<char> = &mut self.cells[x];
        col[y] = glyph;
        proof {
            assert(self.cells@ == old(self).cells@.update(
                x as int,
                self.cells@[x as int],
            ));
            assert(self.cells@[x as int]@ == old(self).cells@[x as int]@.update(
                y as int,
                glyph,
            ));
            assert forall|i: int| 0 <= i < NUM_COLS implies #[trigger] self@[i]
                == self.cells@[i]@ by {}
            assert(self@.len() == self.cells@.len());
            assert forall|i: int| 0 <= i < NUM_COLS implies (#[trigger] self@[i]).len()
                == NUM_ROWS by {
                assert(old(self)@[i] == old(self).cells@[i]@);
                if i != x {
                    assert(self.cells@[i] == old(self).cells@[i]);
                }
            }
        }
    }
}

/// A buffer with every cell empty.
pub fn new_frame() -> (f: Frame)
    ensures
        f.wf(),
        forall|x: int, y: int|
            0 <= x < NUM_COLS && 0 <= y < NUM_ROWS ==> f@[x][y] == EMPTY_GLYPH,
{
    let mut cells: Vec<Vec<char>> = Vec::new();
    let mut x: usize = 0;
    while x < NUM_COLS
        invariant
            x <= NUM_COLS,
            cells@.len() == x,
            forall|i: int| 0 <= i < x ==> (#[trigger] cells@[i])@.len() == NUM_ROWS,
            forall|i: int, j: int| 0 <= i < x && 0 <= j < NUM_ROWS ==> cells@[i]@[j] == EMPTY_GLYPH,
        decreases NUM_COLS - x,
    {
        let mut col: Vec<char> = Vec::new();
        let mut y: usize = 0;
        while y < NUM_ROWS
            invariant
                y <= NUM_ROWS,
                col@.len() == y,
                forall|j: int| 0 <= j < y ==> col@[j] == EMPTY_GLYPH,
            decreases NUM_ROWS - y,
        {
            col.push(EMPTY_GLYPH);
            y = y + 1;
        }
        cells.push(col);
        x = x + 1;
    }
    Frame { cells }
}

} // verus!
