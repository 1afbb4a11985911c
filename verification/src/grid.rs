//! A fixed-size two-dimensional bit grid.
//!
//! Cells are addressed by (x, y) with row-major indexing
//! (`index = y * width + x`) and packed 64 to a machine word. A set bit means
//! the tile is solid (occupied); a cleared bit means it is open.

use vstd::prelude::*;
use vstd::arithmetic::div_mod::lemma_fundamental_div_mod_converse;

verus! {

/// Largest number of cells a grid may hold, so that every index computation
/// stays comfortably within `u32` arithmetic.
pub const AREA_LIMIT: u32 = 0x1000_0000;

/// The mathematical content of a bit grid: its dimensions and one boolean per
/// cell, in row-major order.
#[verifier::ext_equal]
pub struct GridView {
    pub width: int,
    pub height: int,
    pub cells: Seq<bool>,
}

impl GridView {
    /// The view is well formed when it holds exactly one cell per coordinate.
    pub open spec fn wf(self) -> bool {
        &&& 0 <= self.width
        &&& 0 <= self.height
        &&& self.cells.len() == self.width * self.height
    }

    /// Row-major index of the cell at (x, y).
    pub open spec fn cell_index(self, x: int, y: int) -> int {
        y * self.width + x
    }

    /// True iff (x, y) addresses a cell of this grid.
    pub open spec fn in_bounds(self, x: int, y: int) -> bool {
        0 <= x < self.width && 0 <= y < self.height
    }

    /// The occupancy bit of the cell at (x, y).
    pub open spec fn is_set(self, x: int, y: int) -> bool {
        self.cells[self.cell_index(x, y)]
    }

    /// The same grid with the cell at (x, y) replaced by `b`.
    pub open spec fn set_cell(self, x: int, y: int, b: bool) -> GridView {
        GridView { cells: self.cells.update(self.cell_index(x, y), b), ..self }
    }

    /// The same grid with every cell cleared.
    pub open spec fn cleared(self) -> GridView {
        GridView { cells: Seq::new(self.cells.len(), |i: int| false), ..self }
    }
}

/// Row-major cell indices stay below the grid area.
pub proof fn lemma_cell_index_bounds(w: int, h: int, x: int, y: int)
    by (nonlinear_arith)
    requires
        0 <= x < w,
        0 <= y < h,
    ensures
        0 <= y * w + x < w * h,
{
}

/// Number of 64-bit words needed to hold `area` cells.
pub open spec fn word_count(area: int) -> int {
    (area + 63) / 64
}

/// Every cell index has a word index below the word count of the area.
proof fn lemma_word_index_bound(i: int, area: int)
    requires
        0 <= i < area,
    ensures
        0 <= i / 64 < word_count(area),
        0 <= i % 64 < 64,
{
}

/// Setting one bit of a word leaves every other bit of the word unchanged.
proof fn lemma_or_bit(w: u64, sh: u64, j: u64)
    by (bit_vector)
    requires
        sh < 64,
        j < 64,
    ensures
        j == sh ==> ((w | (1u64 << sh)) >> j) & 1 == 1,
        j != sh ==> ((w | (1u64 << sh)) >> j) & 1 == (w >> j) & 1,
{
}

/// Clearing one bit of a word leaves every other bit of the word unchanged.
proof fn lemma_andnot_bit(w: u64, sh: u64, j: u64)
    by (bit_vector)
    requires
        sh < 64,
        j < 64,
    ensures
        j == sh ==> ((w & !(1u64 << sh)) >> j) & 1 == 0,
        j != sh ==> ((w & !(1u64 << sh)) >> j) & 1 == (w >> j) & 1,
{
}

/// Every bit of the zero word is clear.
proof fn lemma_zero_bit(j: u64)
    by (bit_vector)
    requires
        j < 64,
    ensures
        (0u64 >> j) & 1 == 0,
{
}

/// A bit grid of fixed width and height, one bit per tile.
pub struct CollisionMap {
    words: Vec<u64>,
    width: u32,
    height: u32,
}

impl View for CollisionMap {
    type V = GridView;

    closed spec fn view(&self) -> GridView {
        GridView {
            width: self.width as int,
            height: self.height as int,
            cells: Seq::new(
                (self.width * self.height) as nat,
                |i: int| self.spec_bit(i),
            ),
        }
    }
}

impl CollisionMap {
    /// The packed representation holds exactly one word per 64 cells.
    pub closed spec fn wf(&self) -> bool {
        &&& self.width * self.height <= AREA_LIMIT
        &&& self.words@.len() == word_count(self.width * self.height)
    }

    /// The bit at row-major cell index `i`.
    closed spec fn spec_bit(&self, i: int) -> bool {
        (self.words@[i / 64] >> ((i % 64) as u64)) & 1 == 1
    }

    /// The occupancy bit of the cell at (x, y).
    pub open spec fn spec_is_set(&self, x: int, y: int) -> bool {
        self@.is_set(x, y)
    }

    /// Row-major index of (x, y), as the executable `index_of` computes it.
    pub open spec fn spec_index_of(&self, x: int, y: int) -> int {
        self@.cell_index(x, y)
    }

    /// Coordinates of the cell with row-major index `i`, as the executable
    /// `position_of` computes them.
    pub open spec fn spec_position_of(&self, i: int) -> (int, int) {
        (i % self@.width, i / self@.width)
    }

    /// A fresh grid of the given dimensions with every cell clear.
    pub fn new(width: u32, height: u32) -> (m: CollisionMap)
        requires
            width * height <= AREA_LIMIT,
        ensures
            m.wf(),
            m@.width == width,
            m@.height == height,
            forall|x: int, y: int| m@.in_bounds(x, y) ==> !m.spec_is_set(x, y),
    {
        let area = width * height;
        let n_words = (area + 63) / 64;
        let mut words: Vec<u64> = Vec::new();
        let mut k: u32 = 0;
        while k < n_words
            invariant
                k <= n_words,
                words@.len() == k,
                forall|j: int| 0 <= j < k ==> words@[j] == 0u64,
            decreases n_words - k,
        {
            words.push(0u64);
            k = k + 1;
        }
        let m = CollisionMap { words, width, height };
        proof {
            assert forall|x: int, y: int| m@.in_bounds(x, y) implies !m.spec_is_set(x, y) by {
                lemma_cell_index_bounds(width as int, height as int, x, y);
                let i = m@.cell_index(x, y);
                lemma_word_index_bound(i, area as int);
                lemma_zero_bit((i % 64) as u64);
            }
        }
        m
    }

    /// The grid's dimensions, width first.
    pub fn size(&self) -> (s: (u32, u32))
        ensures
            s.0 == self@.width,
            s.1 == self@.height,
    {
        (self.width, self.height)
    }

    /// Row-major index of the cell at (x, y).
    pub fn index_of(&self, x: u32, y: u32) -> (i: u32)
        requires
            self.wf(),
            x < self@.width,
            y < self@.height,
        ensures
            i == self.spec_index_of(x as int, y as int),
            i < self@.width * self@.height,
    {
        proof {
            lemma_cell_index_bounds(self.width as int, self.height as int, x as int, y as int);
        }
        y * self.width + x
    }

    /// Coordinates of the cell with row-major index `i`.
    pub fn position_of(&self, i: u32) -> (p: (u32, u32))
        requires
            self.wf(),
            i < self@.width * self@.height,
        ensures
            (p.0 as int, p.1 as int) == self.spec_position_of(i as int),
    {
        proof {
            if self.width == 0 {
                assert(self.width * self.height == 0);
            }
        }
        (i % self.width, i / self.width)
    }

    /// The occupancy bit of the cell at (x, y).
    pub fn is_set(&self, x: u32, y: u32) -> (r: bool)
        requires
            self.wf(),
            x < self@.width,
            y < self@.height,
        ensures
            r == self.spec_is_set(x as int, y as int),
    {
        let i = self.index_of(x, y);
        proof {
            lemma_word_index_bound(i as int, (self.width * self.height) as int);
        }
        let wi = (i / 64) as usize;
        let sh = (i % 64) as u64;
        (self.words[wi] >> sh) & 1 == 1
    }

    /// Mark the cell at (x, y) solid. Every other cell keeps its value.
    pub fn set(&mut self, x: u32, y: u32)
        requires
            old(self).wf(),
            x < old(self)@.width,
            y < old(self)@.height,
        ensures
            final(self).wf(),
            final(self)@ == old(self)@.set_cell(x as int, y as int, true),
            final(self).spec_is_set(x as int, y as int),
            forall|x2: int, y2: int|
                old(self)@.in_bounds(x2, y2) && (x2, y2) != (x as int, y as int)
                    ==> final(self).spec_is_set(x2, y2) == old(self).spec_is_set(x2, y2),
    {
        let i = self.index_of(x, y);
        proof {
            lemma_word_index_bound(i as int, (self.width * self.height) as int);
        }
        let wi = (i / 64) as usize;
        let sh = (i % 64) as u64;
        let w0 = self.words[wi];
        self.words[wi] = w0 | (1u64 << sh);
        proof {
            self.lemma_update_matches_set_cell(*old(self), x as int, y as int, i as int, true);
        }
    }

    /// Mark the cell at (x, y) open. Every other cell keeps its value.
    pub fn unset(&mut self, x: u32, y: u32)
        requires
            old(self).wf(),
            x < old(self)@.width,
            y < old(self)@.height,
        ensures
            final(self).wf(),
            final(self)@ == old(self)@.set_cell(x as int, y as int, false),
            !final(self).spec_is_set(x as int, y as int),
            forall|x2: int, y2: int|
                old(self)@.in_bounds(x2, y2) && (x2, y2) != (x as int, y as int)
                    ==> final(self).spec_is_set(x2, y2) == old(self).spec_is_set(x2, y2),
    {
        let i = self.index_of(x, y);
        proof {
            lemma_word_index_bound(i as int, (self.width * self.height) as int);
        }
        let wi = (i / 64) as usize;
        let sh = (i % 64) as u64;
        let w0 = self.words[wi];
        self.words[wi] = w0 & !(1u64 << sh);
        proof {
            self.lemma_update_matches_set_cell(*old(self), x as int, y as int, i as int, false);
        }
    }

    /// Lifts `lemma_one_bit_changed` to coordinates: the new view is the old
    /// view with the cell at (x, y) set to `b`, and every other in-bounds
    /// cell keeps its value.
    proof fn lemma_update_matches_set_cell(&self, prev: CollisionMap, x: int, y: int, i: int, b: bool)
        requires
            prev.wf(),
            prev@.in_bounds(x, y),
            i == prev@.cell_index(x, y),
            self.width == prev.width,
            self.height == prev.height,
            self.words@.len() == prev.words@.len(),
            forall|j: int|
                0 <= j < prev.words@.len() && j != i / 64 ==> self.words@[j] == prev.words@[j],
            self.words@[i / 64] == if b {
                prev.words@[i / 64] | (1u64 << ((i % 64) as u64))
            } else {
                prev.words@[i / 64] & !(1u64 << ((i % 64) as u64))
            },
        ensures
            self.wf(),
            self@ == prev@.set_cell(x, y, b),
            self.spec_is_set(x, y) == b,
            forall|x2: int, y2: int|
                prev@.in_bounds(x2, y2) && (x2, y2) != (x, y)
                    ==> self.spec_is_set(x2, y2) == prev.spec_is_set(x2, y2),
    {
        let w = prev@.width;
        let h = prev@.height;
        lemma_cell_index_bounds(w, h, x, y);
        lemma_fundamental_div_mod_converse(i, w, y, x);
        self.lemma_one_bit_changed(prev, i, b);
        assert forall|x2: int, y2: int|
            prev@.in_bounds(x2, y2) && (x2, y2) != (x, y)
                implies self.spec_is_set(x2, y2) == prev.spec_is_set(x2, y2) by {
            lemma_cell_index_bounds(w, h, x2, y2);
            lemma_fundamental_div_mod_converse(y2 * w + x2, w, y2, x2);
        }
    }

    /// After changing the word holding cell `i` so that only the bit of cell
    /// `i` differs (now equal to `b`), the whole view is the old view with
    /// cell `i` updated.
    proof fn lemma_one_bit_changed(&self, prev: CollisionMap, i: int, b: bool)
        requires
            prev.wf(),
            0 <= i < prev@.width * prev@.height,
            self.width == prev.width,
            self.height == prev.height,
            self.words@.len() == prev.words@.len(),
            forall|j: int|
                0 <= j < prev.words@.len() && j != i / 64 ==> self.words@[j] == prev.words@[j],
            self.words@[i / 64] == if b {
                prev.words@[i / 64] | (1u64 << ((i % 64) as u64))
            } else {
                prev.words@[i / 64] & !(1u64 << ((i % 64) as u64))
            },
        ensures
            self.wf(),
            self@ == prev@.set_cell(i % (prev@.width), i / (prev@.width), b),
    {
        let w = prev@.width;
        let h = prev@.height;
        let x = i % w;
        let y = i / w;
        if w == 0 {
            assert(w * h == 0);
        }
        vstd::arithmetic::div_mod::lemma_fundamental_div_mod(i, w);
        assert(prev@.cell_index(x, y) == i);
        let target = prev@.set_cell(x, y, b);
        assert forall|k: int| 0 <= k < w * h implies self@.cells[k] == target.cells[k] by {
            lemma_word_index_bound(k, w * h);
            lemma_word_index_bound(i, w * h);
            if k == i {
                if b {
                    lemma_or_bit(prev.words@[i / 64], (i % 64) as u64, (i % 64) as u64);
                } else {
                    lemma_andnot_bit(prev.words@[i / 64], (i % 64) as u64, (i % 64) as u64);
                }
            } else {
                if k / 64 == i / 64 {
                    assert(k % 64 != i % 64);
                    if b {
                        lemma_or_bit(prev.words@[i / 64], (i % 64) as u64, (k % 64) as u64);
                    } else {
                        lemma_andnot_bit(prev.words@[i / 64], (i % 64) as u64, (k % 64) as u64);
                    }
                }
            }
        }
        assert(self@.cells =~= target.cells);
        assert(self@ =~= target);
    }

    /// Clear every cell of the grid.
    pub fn clear(&mut self)
        requires
            old(self).wf(),
        ensures
            final(self).wf(),
            final(self)@ == old(self)@.cleared(),
            forall|x: int, y: int|
                old(self)@.in_bounds(x, y) ==> !final(self).spec_is_set(x, y),
    {
        let n = self.words.len();
        let mut k: usize = 0;
        while k < n
            invariant
                k <= n,
                n == self.words@.len(),
                self.width == old(self).width,
                self.height == old(self).height,
                forall|j: int| 0 <= j < k ==> self.words@[j] == 0u64,
            decreases n - k,
        {
            self.words[k] = 0u64;
            k = k + 1;
        }
        proof {
            let w = self@.width;
            let h = self@.height;
            assert forall|i: int| 0 <= i < w * h implies !self.spec_bit(i) by {
                lemma_word_index_bound(i, w * h);
                lemma_zero_bit((i % 64) as u64);
            }
            assert(self@.cells =~= old(self)@.cleared().cells);
            assert(self@ =~= old(self)@.cleared());
            assert forall|x: int, y: int|
                old(self)@.in_bounds(x, y) implies !self.spec_is_set(x, y) by {
                lemma_cell_index_bounds(w, h, x, y);
            }
        }
    }
}

/// Law: converting in-bounds coordinates to their row-major index and back
/// returns the same coordinates.
pub proof fn lemma_position_of_index_of(m: CollisionMap, x: int, y: int)
    requires
        m.wf(),
        0 <= x < m@.width,
        0 <= y < m@.height,
    ensures
        m.spec_position_of(m.spec_index_of(x, y)) == (x, y),
{
    lemma_fundamental_div_mod_converse(y * m@.width + x, m@.width, y, x);
}

/// Law: after setting a cell it reads as set, and after a following unset of
/// the same cell it reads as clear.
pub proof fn lemma_set_then_unset(g: GridView, x: int, y: int)
    requires
        g.wf(),
        g.in_bounds(x, y),
    ensures
        g.set_cell(x, y, true).is_set(x, y),
        !g.set_cell(x, y, true).set_cell(x, y, false).is_set(x, y),
{
    lemma_cell_index_bounds(g.width, g.height, x, y);
}

} // verus!
