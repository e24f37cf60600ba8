//! Formation engine: the living enemies and their lockstep movement.
//!
//! The formation owns the enemies, a countdown timer and a direction. On
//! every timer expiry the whole formation either shifts one column sideways,
//! or — when the boundary enemy has reached an edge — flips direction,
//! descends one row and speeds the countdown up, floored at a minimum
//! interval. Enemies are removed one by one on confirmed hits.

use vstd::prelude::*;

use crate::frame::Frame;
use crate::timer::Timer;
use crate::NUM_COLS;
use crate::NUM_ROWS;
use crate::SPARSE_VAL;

verus! {

/// Countdown between formation moves at the start of a session.
pub const START_INTERVAL_MS: u64 = 2000;

/// Amount each descent shortens the countdown.
pub const SPEEDUP_MS: u64 = 250;

/// Floor of the countdown: descents never push it below this.
pub const MIN_INTERVAL_MS: u64 = 250;

/// Rows at and past this index are left free of spawned enemies.
pub const SPAWN_ROW_LIMIT: usize = 9;

/// Glyph of an enemy while more than half the countdown is left.
pub const GLYPH_BRIGHT: char = 'x';

/// Glyph of an enemy in the other half of the countdown.
pub const GLYPH_DIM: char = '+';

#[derive(Clone, Copy, PartialEq, Eq, Structural, Debug)]
pub struct Invader {
    pub x: usize,
    pub y: usize,
}

pub struct Invaders {
    pub army: Vec<Invader>,
    pub move_timer: Timer,
    pub direction: i32,
}

/// Some enemy stands exactly at column `x`, row `y`.
pub open spec fn has_at(s: Seq<Invader>, x: int, y: int) -> bool {
    exists|i: int| 0 <= i < s.len() && (#[trigger] s[i]).x == x && s[i].y == y
}

/// Some enemy's row is at or past `bottom`.
pub open spec fn spec_landed(s: Seq<Invader>, bottom: int) -> bool {
    exists|i: int| 0 <= i < s.len() && (#[trigger] s[i]).y >= bottom
}

/// The minimum column over the formation is 0. An empty formation counts as
/// at the edge: the minimum defaults to 0 there.
pub open spec fn spec_at_left_edge(s: Seq<Invader>) -> bool {
    s.len() == 0 || exists|i: int| 0 <= i < s.len() && (#[trigger] s[i]).x == 0
}

/// The maximum column over the formation is the last column. An empty
/// formation is not at this edge: the maximum defaults to 0.
pub open spec fn spec_at_right_edge(s: Seq<Invader>) -> bool {
    exists|i: int| 0 <= i < s.len() && (#[trigger] s[i]).x == NUM_COLS - 1
}

/// No two enemies share a cell.
pub open spec fn positions_distinct(s: Seq<Invader>) -> bool {
    forall|i: int, j: int|
        0 <= i < j < s.len() ==> !((#[trigger] s[i]).x == (#[trigger] s[j]).x && s[i].y == s[j].y)
}

/// Every enemy stands on the playing field.
pub open spec fn in_field(s: Seq<Invader>) -> bool {
    forall|i: int| 0 <= i < s.len() ==> (#[trigger] s[i]).x < NUM_COLS && s[i].y < NUM_ROWS
}

/// The spawn rectangle: every `SPARSE_VAL`-th column and row, excluding the
/// two outermost columns on either side, the top row and the bottom band.
pub open spec fn spawn_cell(x: int, y: int) -> bool {
    &&& 1 < x < NUM_COLS - 2
    &&& 0 < y < SPAWN_ROW_LIMIT
    &&& y % (SPARSE_VAL as int) == 0
    &&& x % (SPARSE_VAL as int) == 0
}

/// The countdown after a descent: shortened by `SPEEDUP_MS`, floored at
/// `MIN_INTERVAL_MS`.
pub open spec fn next_interval(d: u64) -> u64 {
    if d - SPEEDUP_MS >= MIN_INTERVAL_MS {
        (d - SPEEDUP_MS) as u64
    } else {
        MIN_INTERVAL_MS
    }
}

impl Invaders {
    pub open spec fn wf(self) -> bool {
        &&& self.direction == 1 || self.direction == -1
        &&& self.move_timer.wf()
        &&& self.move_timer.duration_ms >= MIN_INTERVAL_MS
        &&& in_field(self.army@)
        &&& positions_distinct(self.army@)
    }

    /// The current direction's boundary enemy stands at its edge, so the next
    /// ready tick descends instead of shifting.
    pub open spec fn turns(self) -> bool {
        ||| self.direction == -1 && spec_at_left_edge(self.army@)
        ||| self.direction == 1 && spec_at_right_edge(self.army@)
    }

    /// Glyph all enemies carry this tick, blinking with the countdown.
    pub open spec fn spec_glyph(self) -> char {
        if self.move_timer.spec_blink_bright() {
            GLYPH_BRIGHT
        } else {
            GLYPH_DIM
        }
    }

    /// The starting formation: one enemy on every spawn cell, moving right,
    /// with the countdown at its starting value.
    pub fn new() -> (inv: Invaders)
        ensures
            inv.wf(),
            inv.direction == 1,
            inv.move_timer.duration_ms == START_INTERVAL_MS,
            inv.move_timer.elapsed_ms == 0,
            forall|i: int|
                0 <= i < inv.army@.len() ==> spawn_cell(
                    (#[trigger] inv.army@[i]).x as int,
                    inv.army@[i].y as int,
                ),
            forall|a: int, b: int| spawn_cell(a, b) ==> has_at(inv.army@, a, b),
    {
        let mut army: Vec<Invader> = Vec::new();
        let mut x: usize = 0;
        while x < NUM_COLS
            invariant
                x <= NUM_COLS,
                forall|k: int|
                    0 <= k < army@.len() ==> spawn_cell(
                        (#[trigger] army@[k]).x as int,
                        army@[k].y as int,
                    ),
                forall|k: int| 0 <= k < army@.len() ==> (#[trigger] army@[k]).x < x,
                forall|a: int, b: int| spawn_cell(a, b) && a < x ==> has_at(army@, a, b),
                positions_distinct(army@),
            decreases NUM_COLS - x,
        {
            let mut y: usize = 0;
            while y < NUM_ROWS
                invariant
                    y <= NUM_ROWS,
                    x < NUM_COLS,
                    forall|k: int|
                        0 <= k < army@.len() ==> spawn_cell(
                            (#[trigger] army@[k]).x as int,
                            army@[k].y as int,
                        ),
                    forall|k: int|
                        0 <= k < army@.len() ==> (#[trigger] army@[k]).x < x || (army@[k].x == x
                            && army@[k].y < y),
                    forall|a: int, b: int|
                        spawn_cell(a, b) && (a < x || (a == x && b < y)) ==> has_at(army@, a, b),
                    positions_distinct(army@),
                decreases NUM_ROWS - y,
            {
                if x > 1 && x < NUM_COLS - 2 && y > 0 && y < SPAWN_ROW_LIMIT && y % SPARSE_VAL == 0
                    && x % SPARSE_VAL == 0 {
                    let ghost pre = army@;
                    army.push(Invader { x, y });
                    proof {
                        assert forall|i: int, j: int| 0 <= i < j < army@.len() implies !((
                        #[trigger] army@[i]).x == (#[trigger] army@[j]).x && army@[i].y
                            == army@[j].y) by {
                            if j == army@.len() - 1 {
                                assert(army@[i] == pre[i]);
                                assert(pre[i].x < x || (pre[i].x == x && pre[i].y < y));
                            } else {
                                assert(army@[i] == pre[i] && army@[j] == pre[j]);
                            }
                        }
                        assert forall|a: int, b: int|
                            spawn_cell(a, b) && (a < x || (a == x && b < y + 1)) implies has_at(
                            army@,
                            a,
                            b,
                        ) by {
                            if a == x && b == y {
                                assert(army@[army@.len() - 1].x == a && army@[army@.len() - 1].y
                                    == b);
                            } else {
                                assert(has_at(pre, a, b));
                                let w = choose|w: int|
                                    0 <= w < pre.len() && (#[trigger] pre[w]).x == a && pre[w].y
                                        == b;
                                assert(army@[w] == pre[w]);
                            }
                        }
                    }
                }
                y = y + 1;
            }
            x = x + 1;
        }
        proof {
            assert forall|a: int, b: int| spawn_cell(a, b) implies has_at(army@, a, b) by {}
        }
        Invaders { army, move_timer: Timer::from_millis(START_INTERVAL_MS), direction: 1 }
    }

    /// Remove the first enemy standing exactly at `(x, y)`. Returns whether a
    /// removal happened; a miss is a no-op, not an error.
    pub fn kill_invader_at(&mut self, x: usize, y: usize) -> (killed: bool)
        ensures
            killed == has_at(old(self).army@, x as int, y as int),
            final(self).direction == old(self).direction,
            final(self).move_timer == old(self).move_timer,
            !killed ==> final(self).army@ == old(self).army@,
            killed ==> final(self).army@.len() == old(self).army@.len() - 1,
            killed ==> exists|idx: int|
                {
                    &&& 0 <= idx < old(self).army@.len()
                    &&& (#[trigger] old(self).army@[idx]).x == x
                    &&& old(self).army@[idx].y == y
                    &&& forall|j: int|
                        0 <= j < idx ==> !((#[trigger] old(self).army@[j]).x == x
                            && old(self).army@[j].y == y)
                    &&& final(self).army@ == old(self).army@.remove(idx)
                },
            old(self).wf() ==> final(self).wf(),
    {
        let n = self.army.len();
        let mut i: usize = 0;
        let mut found = false;
        let mut idx: usize = 0;
        while i < n
            invariant
                i <= n,
                n == self.army@.len(),
                !found ==> forall|j: int|
                    0 <= j < i ==> !((#[trigger] self.army@[j]).x == x && self.army@[j].y == y),
                found ==> 0 <= idx < i && self.army@[idx as int].x == x
                    && self.army@[idx as int].y == y && forall|j: int|
                    0 <= j < idx ==> !((#[trigger] self.army@[j]).x == x && self.army@[j].y == y),
            decreases n - i,
        {
            if !found && self.army[i].x == x && self.army[i].y == y {
                found = true;
                idx = i;
            }
            i = i + 1;
        }
        if found {
            let ghost orig = self.army@;
            self.army.remove(idx);
            proof {
                orig.remove_ensures(idx as int);
                assert(has_at(orig, x as int, y as int));
                if positions_distinct(orig) && in_field(orig) {
                    lemma_remove_keeps_distinct(orig, idx as int);
                    assert forall|k: int|
                        0 <= k < self.army@.len() implies (#[trigger] self.army@[k]).x < NUM_COLS
                            && self.army@[k].y < NUM_ROWS by {
                        if k < idx {
                            assert(self.army@[k] == orig[k]);
                        } else {
                            assert(self.army@[k] == orig[k + 1]);
                        }
                    }
                }
            }
            true
        } else {
            false
        }
    }

    /// Write every living enemy's glyph at its cell; every other cell keeps
    /// its content. The glyph blinks with the countdown: bright while more
    /// than half of it is left.
    pub fn draw(&self, frame: &mut Frame)
        requires
            in_field(self.army@),
            self.move_timer.wf(),
            old(frame).wf(),
        ensures
            final(frame).wf(),
            forall|x: int, y: int|
                0 <= x < NUM_COLS && 0 <= y < NUM_ROWS ==> final(frame)@[x][y] == (if has_at(
                    self.army@,
                    x,
                    y,
                ) {
                    self.spec_glyph()
                } else {
                    old(frame)@[x][y]
                }),
    {
        let bright = self.move_timer.time_left_ms() > self.move_timer.elapsed_ms;
        let g = if bright {
            GLYPH_BRIGHT
        } else {
            GLYPH_DIM
        };
        let ghost fsnap = frame@;
        let n = self.army.len();
        let mut i: usize = 0;
        while i < n
            invariant
                i <= n,
                n == self.army@.len(),
                in_field(self.army@),
                g == self.spec_glyph(),
                frame.wf(),
                forall|x: int, y: int|
                    0 <= x < NUM_COLS && 0 <= y < NUM_ROWS ==> frame@[x][y] == (if has_at(
                        self.army@.take(i as int),
                        x,
                        y,
                    ) {
                        g
                    } else {
                        fsnap[x][y]
                    }),
            decreases n - i,
        {
            let e = self.army[i];
            let ghost before = frame@;
            frame.set(e.x, e.y, g);
            proof {
                let t0 = self.army@.take(i as int);
                let t1 = self.army@.take(i as int + 1);
                assert(t1[i as int] == self.army@[i as int]);
                assert forall|x: int, y: int|
                    0 <= x < NUM_COLS && 0 <= y < NUM_ROWS implies frame@[x][y] == (if has_at(
                    t1,
                    x,
                    y,
                ) {
                    g
                } else {
                    fsnap[x][y]
                }) by {
                    if x == e.x && y == e.y {
                        assert(has_at(t1, x, y));
                        assert(frame@[x][y] == g);
                    } else {
                        if x != e.x {
                            assert(frame@[x] == before[x]);
                        }
                        assert(frame@[x][y] == before[x][y]);
                        if has_at(t1, x, y) {
                            let w = choose|w: int|
                                0 <= w < t1.len() && (#[trigger] t1[w]).x == x && t1[w].y == y;
                            assert(w != i as int);
                            assert(t0[w] == t1[w]);
                            assert(has_at(t0, x, y));
                        }
                        if has_at(t0, x, y) {
                            let w = choose|w: int|
                                0 <= w < t0.len() && (#[trigger] t0[w]).x == x && t0[w].y == y;
                            assert(t1[w] == t0[w]);
                            assert(has_at(t1, x, y));
                        }
                    }
                }
            }
            i = i + 1;
        }
        proof {
            assert(self.army@.take(n as int) =~= self.army@);
        }
    }

    pub fn all_kill(&self) -> (r: bool)
        ensures
            r == (self.army@.len() == 0),
    {
        self.army.is_empty()
    }

    /// True iff at least one remaining enemy's row is at or past `bottom`;
    /// false for an empty formation, whatever `bottom` is.
    pub fn has_landed(&self, bottom: usize) -> (r: bool)
        ensures
            r == spec_landed(self.army@, bottom as int),
    {
        let mut i: usize = 0;
        let mut found = false;
        while i < self.army.len()
            invariant
                i <= self.army@.len(),
                found == exists|k: int|
                    0 <= k < i && (#[trigger] self.army@[k]).y >= bottom,
            decreases self.army@.len() - i,
        {
            if self.army[i].y >= bottom {
                found = true;
            }
            i = i + 1;
        }
        found
    }

    /// The lose condition: the formation has reached the bottom row.
    pub fn reached_bottom(&self) -> (r: bool)
        ensures
            r == spec_landed(self.army@, NUM_ROWS - 1),
    {
        self.has_landed(NUM_ROWS - 1)
    }

    /// Advance the countdown by `delta_ms`; move the whole formation once it
    /// has expired. A tick on which the boundary enemy stands at the current
    /// direction's edge is a descent step: the direction flips, every enemy
    /// goes one row down, and the countdown is shortened, floored at
    /// `MIN_INTERVAL_MS`. Any other ready tick is a lateral step: every enemy
    /// shifts one column in the current direction. Returns true iff a
    /// formation-wide move happened; before the countdown is ready, nothing
    /// changes but the elapsed time.
    pub fn update(&mut self, delta_ms: u64) -> (moved: bool)
        requires
            old(self).wf(),
        ensures
            moved == old(self).move_timer.fires(delta_ms),
            final(self).army@.len() == old(self).army@.len(),
            final(self).direction == 1 || final(self).direction == -1,
            final(self).move_timer.wf(),
            final(self).move_timer.duration_ms >= MIN_INTERVAL_MS,
            positions_distinct(final(self).army@),
            forall|i: int|
                0 <= i < final(self).army@.len() ==> (#[trigger] final(self).army@[i]).x
                    < NUM_COLS,
            !moved ==> {
                &&& final(self).army@ == old(self).army@
                &&& final(self).direction == old(self).direction
                &&& final(self).move_timer.duration_ms == old(self).move_timer.duration_ms
                &&& final(self).move_timer.elapsed_ms == old(self).move_timer.elapsed_ms
                    + delta_ms
                &&& final(self).wf()
            },
            moved ==> final(self).move_timer.elapsed_ms == 0,
            moved && old(self).turns() ==> {
                &&& old(self).direction == -1 ==> final(self).direction == 1
                &&& old(self).direction == 1 ==> final(self).direction == -1
                &&& final(self).move_timer.duration_ms == next_interval(
                    old(self).move_timer.duration_ms,
                )
                &&& forall|i: int|
                    0 <= i < old(self).army@.len() ==> (#[trigger] final(self).army@[i]).x
                        == old(self).army@[i].x
                        && final(self).army@[i].y == old(self).army@[i].y + 1
            },
            moved && !old(self).turns() ==> {
                &&& final(self).direction == old(self).direction
                &&& final(self).move_timer.duration_ms == old(self).move_timer.duration_ms
                &&& forall|i: int|
                    0 <= i < old(self).army@.len() ==> (#[trigger] final(self).army@[i]).x
                        == old(self).army@[i].x + old(self).direction
                        && final(self).army@[i].y == old(self).army@[i].y
            },
            !spec_landed(old(self).army@, NUM_ROWS - 1) ==> final(self).wf(),
    {
        self.move_timer.update(delta_ms);
        if self.move_timer.ready() {
            self.move_timer.reset();
            let mut down = false;
            if self.direction == -1 {
                if self.at_left_edge() {
                    self.direction = 1;
                    down = true;
                }
            } else {
                if self.at_right_edge() {
                    self.direction = -1;
                    down = true;
                }
            }
            proof {
                assert(down == old(self).turns());
            }
            if down {
                let d = self.move_timer.duration_ms;
                let nd = if d >= MIN_INTERVAL_MS + SPEEDUP_MS {
                    d - SPEEDUP_MS
                } else {
                    MIN_INTERVAL_MS
                };
                self.move_timer = Timer::from_millis(nd);
                let ghost orig = self.army@;
                let ghost dsnap = self.direction;
                let ghost tsnap = self.move_timer;
                let n = self.army.len();
                let mut i: usize = 0;
                while i < n
                    invariant
                        i <= n,
                        n == self.army@.len(),
                        n == orig.len(),
                        self.direction == dsnap,
                        self.move_timer == tsnap,
                        forall|k: int| 0 <= k < orig.len() ==> (#[trigger] orig[k]).y < NUM_ROWS,
                        forall|k: int|
                            0 <= k < i ==> (#[trigger] self.army@[k]).x == orig[k].x
                                && self.army@[k].y == orig[k].y + 1,
                        forall|k: int| i <= k < n ==> #[trigger] self.army@[k] == orig[k],
                    decreases n - i,
                {
                    let e = self.army[i];
                    self.army[i] = Invader { x: e.x, y: e.y + 1 };
                    i = i + 1;
                }
                proof {
                    assert forall|a: int, b: int| 0 <= a < b < self.army@.len() implies !((
                    #[trigger] self.army@[a]).x == (#[trigger] self.army@[b]).x
                        && self.army@[a].y == self.army@[b].y) by {
                        assert(!(orig[a].x == orig[b].x && orig[a].y == orig[b].y));
                    }
                    if !spec_landed(orig, NUM_ROWS - 1) {
                        assert forall|k: int| 0 <= k < orig.len() implies (#[trigger] orig[k]).y
                            < NUM_ROWS - 1 by {
                            if orig[k].y >= NUM_ROWS - 1 {
                                assert(spec_landed(orig, NUM_ROWS - 1));
                            }
                        }
                    }
                }
            } else {
                let ghost orig = self.army@;
                let ghost dsnap = self.direction;
                let ghost tsnap = self.move_timer;
                proof {
                    if dsnap == -1 {
                        assert forall|k: int| 0 <= k < orig.len() implies (#[trigger] orig[k]).x
                            >= 1 by {
                            if orig[k].x == 0 {
                                assert(spec_at_left_edge(orig));
                            }
                        }
                    } else {
                        assert forall|k: int| 0 <= k < orig.len() implies (#[trigger] orig[k]).x
                            < NUM_COLS - 1 by {
                            if orig[k].x == NUM_COLS - 1 {
                                assert(spec_at_right_edge(orig));
                            }
                        }
                    }
                }
                let n = self.army.len();
                let mut i: usize = 0;
                while i < n
                    invariant
                        i <= n,
                        n == self.army@.len(),
                        n == orig.len(),
                        dsnap == 1 || dsnap == -1,
                        self.direction == dsnap,
                        self.move_timer == tsnap,
                        dsnap == -1 ==> forall|k: int|
                            0 <= k < orig.len() ==> (#[trigger] orig[k]).x >= 1,
                        dsnap == 1 ==> forall|k: int|
                            0 <= k < orig.len() ==> (#[trigger] orig[k]).x < NUM_COLS - 1,
                        forall|k: int|
                            0 <= k < i ==> (#[trigger] self.army@[k]).x == orig[k].x + dsnap
                                && self.army@[k].y == orig[k].y,
                        forall|k: int| i <= k < n ==> #[trigger] self.army@[k] == orig[k],
                    decreases n - i,
                {
                    let e = self.army[i];
                    let nx = if self.direction == 1 {
                        e.x + 1
                    } else {
                        e.x - 1
                    };
                    self.army[i] = Invader { x: nx, y: e.y };
                    i = i + 1;
                }
                proof {
                    assert forall|a: int, b: int| 0 <= a < b < self.army@.len() implies !((
                    #[trigger] self.army@[a]).x == (#[trigger] self.army@[b]).x
                        && self.army@[a].y == self.army@[b].y) by {
                        assert(!(orig[a].x == orig[b].x && orig[a].y == orig[b].y));
                    }
                }
            }
            true
        } else {
            false
        }
    }

    fn at_left_edge(&self) -> (r: bool)
        ensures
            r == spec_at_left_edge(self.army@),
    {
        if self.army.len() == 0 {
            return true;
        }
        let mut i: usize = 0;
        let mut found = false;
        while i < self.army.len()
            invariant
                i <= self.army@.len(),
                found == exists|k: int| 0 <= k < i && (#[trigger] self.army@[k]).x == 0,
            decreases self.army@.len() - i,
        {
            if self.army[i].x == 0 {
                found = true;
            }
            i = i + 1;
        }
        found
    }

    fn at_right_edge(&self) -> (r: bool)
        ensures
            r == spec_at_right_edge(self.army@),
    {
        let mut i: usize = 0;
        let mut found = false;
        while i < self.army.len()
            invariant
                i <= self.army@.len(),
                found == exists|k: int|
                    0 <= k < i && (#[trigger] self.army@[k]).x == NUM_COLS - 1,
            decreases self.army@.len() - i,
        {
            if self.army[i].x == NUM_COLS - 1 {
                found = true;
            }
            i = i + 1;
        }
        found
    }
}

/// Removing one enemy from a formation whose positions are pairwise distinct
/// leaves the positions pairwise distinct.
pub proof fn lemma_remove_keeps_distinct(s: Seq<Invader>, idx: int)
    requires
        positions_distinct(s),
        0 <= idx < s.len(),
    ensures
        positions_distinct(s.remove(idx)),
{
    s.remove_ensures(idx);
    let t = s.remove(idx);
    assert forall|a: int, b: int| 0 <= a < b < t.len() implies !((#[trigger] t[a]).x == (
    #[trigger] t[b]).x && t[a].y == t[b].y) by {
        let a2: int = if a < idx {
            a
        } else {
            a + 1
        };
        let b2: int = if b < idx {
            b
        } else {
            b + 1
        };
        assert(t[a] == s[a2]);
        assert(t[b] == s[b2]);
        assert(!(s[a2].x == s[b2].x && s[a2].y == s[b2].y));
    }
}

/// Round trip of a hit: once the enemy standing at a cell is removed, no
/// enemy stands at that cell any more, so a second removal attempt at the
/// same coordinates finds nothing.
pub proof fn lemma_removed_position_gone(s: Seq<Invader>, idx: int, x: int, y: int)
    requires
        positions_distinct(s),
        0 <= idx < s.len(),
        s[idx].x == x,
        s[idx].y == y,
    ensures
        !has_at(s.remove(idx), x, y),
{
    s.remove_ensures(idx);
    let t = s.remove(idx);
    assert forall|k: int| 0 <= k < t.len() implies !((#[trigger] t[k]).x == x && t[k].y == y) by {
        let k2: int = if k < idx {
            k
        } else {
            k + 1
        };
        assert(t[k] == s[k2]);
        assert(k2 != idx);
        if k2 < idx {
            assert(!(s[k2].x == s[idx].x && s[k2].y == s[idx].y));
        } else {
            assert(!(s[idx].x == s[k2].x && s[idx].y == s[k2].y));
        }
    }
}

/// Removing the last remaining enemy clears the formation.
pub proof fn lemma_cleared_after_removing_last(s: Seq<Invader>, idx: int)
    requires
        s.len() == 1,
        0 <= idx < s.len(),
    ensures
        s.remove(idx).len() == 0,
{
    s.remove_ensures(idx);
}

/// An empty formation has landed nowhere, whatever the bottom row is.
pub proof fn lemma_empty_never_landed(s: Seq<Invader>, bottom: int)
    requires
        s.len() == 0,
    ensures
        !spec_landed(s, bottom),
{
}

/// One descent never pushes the countdown below the floor, and never
/// lengthens it while it is at or above the floor.
pub proof fn lemma_next_interval_bounds(d: u64)
    requires
        d >= MIN_INTERVAL_MS,
    ensures
        MIN_INTERVAL_MS <= next_interval(d) <= d,
{
}

/// Across any chain of descents the countdown stays at or above the floor
/// and is monotonically non-increasing.
pub proof fn lemma_speedup_chain(ds: Seq<u64>)
    requires
        ds.len() > 0,
        ds[0] >= MIN_INTERVAL_MS,
        forall|i: int| 1 <= i < ds.len() ==> #[trigger] ds[i] == next_interval(ds[i - 1]),
    ensures
        forall|i: int| 0 <= i < ds.len() ==> MIN_INTERVAL_MS <= #[trigger] ds[i],
        forall|i: int| 1 <= i < ds.len() ==> #[trigger] ds[i] <= ds[i - 1],
    decreases ds.len(),
{
    if ds.len() > 1 {
        let prefix = ds.drop_last();
        assert forall|i: int| 1 <= i < prefix.len() implies #[trigger] prefix[i] == next_interval(
            prefix[i - 1],
        ) by {
            assert(prefix[i] == ds[i] && prefix[i - 1] == ds[i - 1]);
        }
        lemma_speedup_chain(prefix);
        let last = ds.len() - 1;
        assert(ds[last] == next_interval(ds[last - 1]));
        assert(ds[last - 1] == prefix[last - 1]);
        lemma_next_interval_bounds(ds[last - 1]);
        assert forall|i: int| 0 <= i < ds.len() implies MIN_INTERVAL_MS <= #[trigger] ds[i] by {
            if i < last {
                assert(ds[i] == prefix[i]);
            }
        }
        assert forall|i: int| 1 <= i < ds.len() implies #[trigger] ds[i] <= ds[i - 1] by {
            if i < last {
                assert(ds[i] == prefix[i] && ds[i - 1] == prefix[i - 1]);
            }
        }
    }
}

} // verus!
