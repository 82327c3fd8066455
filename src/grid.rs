//! A padded grid of dots, addressed `[x][y]` and stored column by column.
use vstd::prelude::*;

verus! {

/// `n` rounded up to the next multiple of `m`.
pub open spec fn round_up(n: int, m: int) -> int {
    (n + m - 1) / m * m
}

/// Width of a dot grid that covers `w` pixel columns (whole glyph cells of two columns).
pub fn padded_width(w: usize) -> (r: usize)
    requires
        w < usize::MAX,
    ensures
        r == round_up(w as int, 2),
{
    if w % 2 == 0 {
        w
    } else {
        w + 1
    }
}

/// Height of a dot grid that covers `h` pixel rows (whole glyph cells of four rows).
pub fn padded_height(h: usize) -> (r: usize)
    requires
        h <= usize::MAX - 3,
    ensures
        r == round_up(h as int, 4),
{
    let rem = h % 4;
    if rem == 0 {
        h
    } else {
        h + (4 - rem)
    }
}

/// A pixel inside a `w` x `h` raster has a column-major index inside its storage.
pub proof fn lemma_index_in_bounds(x: int, y: int, w: int, h: int)
    requires
        0 <= x < w,
        0 <= y < h,
    ensures
        0 <= x * h + y < w * h,
{
    assert(x * h + y < w * h) by (nonlinear_arith)
        requires
            0 <= x < w,
            0 <= y < h,
    ;
    assert(0 <= x * h) by (nonlinear_arith)
        requires
            0 <= x,
            0 <= h,
    ;
}

/// Distinct pixels of a raster of height `h` have distinct column-major indices.
pub proof fn lemma_index_distinct(x1: int, y1: int, x2: int, y2: int, h: int)
    requires
        0 <= x1,
        0 <= x2,
        0 <= y1 < h,
        0 <= y2 < h,
        x1 != x2 || y1 != y2,
    ensures
        x1 * h + y1 != x2 * h + y2,
{
    if x1 == x2 {
    } else if x1 < x2 {
        assert(x1 * h + h <= x2 * h) by (nonlinear_arith)
            requires
                x1 < x2,
                0 <= h,
        ;
    } else {
        assert(x2 * h + h <= x1 * h) by (nonlinear_arith)
            requires
                x2 < x1,
                0 <= h,
        ;
    }
}

/// A black/white raster whose width is even and whose height is a multiple of four.
/// A set dot (`true`) stands for a dark pixel.
pub struct BitGrid {
    width: usize,
    height: usize,
    cells: Vec<bool>,
}

impl BitGrid {
    /// Number of dot columns.
    pub closed spec fn spec_width(&self) -> nat {
        self.width as nat
    }

    /// Number of dot rows.
    pub closed spec fn spec_height(&self) -> nat {
        self.height as nat
    }

    /// The dot at column `x`, row `y`.
    pub closed spec fn spec_bit(&self, x: int, y: int) -> bool {
        self.cells@[x * self.height + y]
    }

    /// The storage holds one cell per dot, column by column.
    pub closed spec fn storage_ok(&self) -> bool {
        &&& self.cells@.len() == self.width * self.height
        &&& self.width * self.height <= usize::MAX
    }

    /// Every dot belongs to exactly one whole 2x4 glyph cell.
    pub open spec fn wf(&self) -> bool {
        &&& self.spec_width() % 2 == 0
        &&& self.spec_height() % 4 == 0
        &&& self.storage_ok()
    }

    /// Whether every dot of the grid is `v`.
    pub open spec fn all_bits(&self, v: bool) -> bool {
        forall|x: int, y: int|
            0 <= x < self.spec_width() && 0 <= y < self.spec_height() ==> self.spec_bit(x, y) == v
    }

    /// An all-blank grid large enough for `w` x `h` pixels, padded to whole glyph cells.
    pub fn new(w: usize, h: usize) -> (r: BitGrid)
        requires
            round_up(w as int, 2) * round_up(h as int, 4) <= usize::MAX,
            w < usize::MAX,
            h <= usize::MAX - 3,
        ensures
            r.wf(),
            r.spec_width() == round_up(w as int, 2),
            r.spec_height() == round_up(h as int, 4),
            r.all_bits(false),
    {
        let pw = padded_width(w);
        let ph = padded_height(h);
        let cells = vec![false; pw * ph];
        let r = BitGrid { width: pw, height: ph, cells };
        assert forall|x: int, y: int| 0 <= x < r.spec_width() && 0 <= y < r.spec_height() implies
            r.spec_bit(x, y) == false by {
            lemma_index_in_bounds(x, y, pw as int, ph as int);
        }
        r
    }

    pub fn width(&self) -> (r: usize)
        ensures
            r == self.spec_width(),
    {
        self.width
    }

    pub fn height(&self) -> (r: usize)
        ensures
            r == self.spec_height(),
    {
        self.height
    }

    /// The dot at column `x`, row `y`.
    pub fn get(&self, x: usize, y: usize) -> (r: bool)
        requires
            self.wf(),
            x < self.spec_width(),
            y < self.spec_height(),
        ensures
            r == self.spec_bit(x as int, y as int),
    {
        proof {
            lemma_index_in_bounds(x as int, y as int, self.width as int, self.height as int);
        }
        self.cells[x * self.height + y]
    }

    /// Sets the dot at column `x`, row `y` to `v`, leaving every other dot as it was.
    pub fn set(&mut self, x: usize, y: usize, v: bool)
        requires
            old(self).wf(),
            x < old(self).spec_width(),
            y < old(self).spec_height(),
        ensures
            final(self).wf(),
            final(self).spec_width() == old(self).spec_width(),
            final(self).spec_height() == old(self).spec_height(),
            forall|i: int, j: int|
                0 <= i < final(self).spec_width() && 0 <= j < final(self).spec_height()
                    ==> final(self).spec_bit(i, j) == if i == x && j == y {
                    v
                } else {
                    old(self).spec_bit(i, j)
                },
    {
        proof {
            lemma_index_in_bounds(x as int, y as int, self.width as int, self.height as int);
        }
        let idx = x * self.height + y;
        self.cells.set(idx, v);
        proof {
            assert forall|i: int, j: int|
                0 <= i < self.spec_width() && 0 <= j < self.spec_height() implies self.spec_bit(
                i,
                j,
            ) == if i == x && j == y {
                v
            } else {
                old(self).spec_bit(i, j)
            } by {
                lemma_index_in_bounds(i, j, self.width as int, self.height as int);
                if i != x || j != y {
                    lemma_index_distinct(i, j, x as int, y as int, self.height as int);
                }
            }
        }
    }
}

} // verus!
