//! Floyd-Steinberg error diffusion: the scan order, the diffusion kernel and the
//! dot grid it fills. The caller keeps the luminance residuals and compares them
//! with the threshold; this module decides which pixel comes next, which dot a
//! decision sets, and where the residual of each pixel goes.
use vstd::prelude::*;
use crate::braille::{
    glyph_of, lemma_same_dots_same_text, lemma_uniform_grid_packs_uniform, packed_text, uniform_text,
};
use crate::grid::{BitGrid, lemma_index_in_bounds, round_up};

verus! {

/// One share of a pixel's residual: the pixel at (`x`, `y`) receives
/// `sixteenths / 16` of it.
#[derive(Clone, Copy, Debug, PartialEq, Eq, Structural)]
pub struct Spread {
    pub x: usize,
    pub y: usize,
    pub sixteenths: u32,
}

/// The shares of the residual of pixel (`x`, `y`) in a `w` x `h` image, in this order:
/// right 7/16, below 5/16, below-left 3/16, below-right 1/16, each only where that
/// neighbour lies inside the image.
pub open spec fn spread_targets(x: int, y: int, w: int, h: int) -> Seq<(int, int, int)> {
    let right = if x + 1 < w {
        seq![(x + 1, y, 7)]
    } else {
        Seq::empty()
    };
    let below = if y + 1 < h {
        seq![(x, y + 1, 5)]
    } else {
        Seq::empty()
    };
    let below_left = if y + 1 < h && x > 0 {
        seq![(x - 1, y + 1, 3)]
    } else {
        Seq::empty()
    };
    let below_right = if y + 1 < h && x + 1 < w {
        seq![(x + 1, y + 1, 1)]
    } else {
        Seq::empty()
    };
    right + below + below_left + below_right
}

/// Sum of the weights of a list of shares.
pub open spec fn total_sixteenths(s: Seq<(int, int, int)>) -> int
    decreases s.len(),
{
    if s.len() == 0 {
        0
    } else {
        total_sixteenths(s.drop_last()) + s.last().2
    }
}

impl Spread {
    pub open spec fn spec_tuple(&self) -> (int, int, int) {
        (self.x as int, self.y as int, self.sixteenths as int)
    }
}

/// The shares of the residual of pixel (`x`, `y`) in a `w` x `h` image.
pub fn diffusion_targets(x: usize, y: usize, w: usize, h: usize) -> (r: Vec<Spread>)
    requires
        x < w,
        y < h,
    ensures
        r@.map_values(|s: Spread| s.spec_tuple()) == spread_targets(x as int, y as int, w as int, h as int),
{
    let mut r: Vec<Spread> = Vec::new();
    if x + 1 < w {
        r.push(Spread { x: x + 1, y, sixteenths: 7 });
    }
    if y + 1 < h {
        r.push(Spread { x, y: y + 1, sixteenths: 5 });
        if x > 0 {
            r.push(Spread { x: x - 1, y: y + 1, sixteenths: 3 });
        }
        if x + 1 < w {
            r.push(Spread { x: x + 1, y: y + 1, sixteenths: 1 });
        }
    }
    assert(r@.map_values(|s: Spread| s.spec_tuple()) =~= spread_targets(
        x as int,
        y as int,
        w as int,
        h as int,
    ));
    r
}

/// The shares of a pixel with a neighbour on every side that receives one add up to the
/// whole residual: 7/16 + 5/16 + 3/16 + 1/16 = 1.
pub proof fn lemma_interior_conserves(x: int, y: int, w: int, h: int)
    requires
        0 < x,
        x + 1 < w,
        0 <= y,
        y + 1 < h,
    ensures
        spread_targets(x, y, w, h).len() == 4,
        total_sixteenths(spread_targets(x, y, w, h)) == 16,
{
    let s = spread_targets(x, y, w, h);
    assert(s =~= seq![(x + 1, y, 7), (x, y + 1, 5), (x - 1, y + 1, 3), (x + 1, y + 1, 1)]);
    reveal_with_fuel(total_sixteenths, 5);
    assert(s.drop_last() =~= seq![(x + 1, y, 7), (x, y + 1, 5), (x - 1, y + 1, 3)]);
    assert(s.drop_last().drop_last() =~= seq![(x + 1, y, 7), (x, y + 1, 5)]);
    assert(s.drop_last().drop_last().drop_last() =~= seq![(x + 1, y, 7)]);
    assert(s.drop_last().drop_last().drop_last().drop_last() =~= Seq::<(int, int, int)>::empty());
}

/// No pixel passes on more than its whole residual, and every share goes to a pixel
/// inside the image that comes later in column-major order.
pub proof fn lemma_spread_bounded(x: int, y: int, w: int, h: int)
    requires
        0 <= x < w,
        0 <= y < h,
    ensures
        total_sixteenths(spread_targets(x, y, w, h)) <= 16,
        forall|i: int|
            0 <= i < spread_targets(x, y, w, h).len() ==> {
                let t = #[trigger] spread_targets(x, y, w, h)[i];
                &&& 0 <= t.0 < w
                &&& 0 <= t.1 < h
                &&& (t.0 > x || (t.0 == x && t.1 > y))
                    || (t.0 == x - 1 && t.1 == y + 1)
            },
{
    let s = spread_targets(x, y, w, h);
    let n = s.len();
    assert(n <= 4);
    reveal_with_fuel(total_sixteenths, 5);
    if n >= 1 {
        assert(s.drop_last().len() == n - 1);
    }
}

/// Whether pixel (`i`, `j`) of a `w` x `h` image comes before pixel (`x`, `y`) in
/// column-major order (all of column `i` before column `i + 1`, rows top to bottom).
pub open spec fn scanned_before(i: int, j: int, x: int, y: int, w: int, h: int) -> bool {
    &&& 0 <= i < w
    &&& 0 <= j < h
    &&& (i < x || (i == x && j < y))
}

/// The state of one dithering pass over a `w` x `h` image: the pixel to quantize next
/// and the dot grid filled so far.
pub struct Ditherer {
    width: usize,
    height: usize,
    x: usize,
    y: usize,
    grid: BitGrid,
    decisions: Ghost<Seq<bool>>,
}

/// A pixel scanned before the cursor has a smaller column-major index than the cursor.
proof fn lemma_scan_index(i: int, j: int, x: int, y: int, w: int, h: int)
    requires
        scanned_before(i, j, x, y, w, h),
        0 <= y,
    ensures
        0 <= i * h + j < x * h + y,
{
    assert(0 <= i * h) by (nonlinear_arith)
        requires
            0 <= i,
            0 <= h,
    ;
    if i < x {
        assert(i * h + h <= x * h) by (nonlinear_arith)
            requires
                i < x,
                0 <= h,
        ;
    }
}

impl Ditherer {
    /// Width of the image in pixels.
    pub closed spec fn spec_image_width(&self) -> nat {
        self.width as nat
    }

    /// Height of the image in pixels.
    pub closed spec fn spec_image_height(&self) -> nat {
        self.height as nat
    }

    /// Column of the pixel to quantize next (the image width once every pixel is done).
    pub closed spec fn spec_x(&self) -> int {
        self.x as int
    }

    /// Row of the pixel to quantize next.
    pub closed spec fn spec_y(&self) -> int {
        self.y as int
    }

    /// The dot grid filled so far.
    pub closed spec fn spec_grid(&self) -> BitGrid {
        self.grid
    }

    /// The decisions recorded so far (`true`: dark), one per pixel in column-major order.
    pub closed spec fn spec_decisions(&self) -> Seq<bool> {
        self.decisions@
    }

    /// Whether every pixel has been quantized.
    pub open spec fn is_done(&self) -> bool {
        self.spec_x() >= self.spec_image_width()
    }

    /// The grid has the padded size of the image, the cursor is on a pixel or past the
    /// last column, and no dot is set at a pixel that has not been quantized yet.
    pub open spec fn wf(&self) -> bool {
        let (w, h) = (self.spec_image_width() as int, self.spec_image_height() as int);
        let g = self.spec_grid();
        &&& g.wf()
        &&& g.spec_width() == round_up(w, 2)
        &&& g.spec_height() == round_up(h, 4)
        &&& (0 <= self.spec_x() < w && 0 <= self.spec_y() < h) || (self.spec_x() == w
            && self.spec_y() == 0)
        &&& self.spec_decisions().len() == self.spec_x() * h + self.spec_y()
        &&& forall|i: int, j: int|
            scanned_before(i, j, self.spec_x(), self.spec_y(), w, h) ==> g.spec_bit(i, j)
                == self.spec_decisions()[i * h + j]
        &&& forall|i: int, j: int|
            0 <= i < g.spec_width() && 0 <= j < g.spec_height() && !scanned_before(
                i,
                j,
                self.spec_x(),
                self.spec_y(),
                w,
                h,
            ) ==> !g.spec_bit(i, j)
    }

    /// A pass over a `w` x `h` image, starting at pixel (0, 0) with no dot set.
    pub fn new(w: usize, h: usize) -> (r: Ditherer)
        requires
            round_up(w as int, 2) * round_up(h as int, 4) <= usize::MAX,
            w < usize::MAX,
            h <= usize::MAX - 3,
        ensures
            r.wf(),
            r.spec_image_width() == w,
            r.spec_image_height() == h,
            r.spec_grid().all_bits(false),
            r.spec_decisions() == Seq::<bool>::empty(),
            h == 0 ==> r.is_done(),
            h > 0 ==> r.spec_x() == 0 && r.spec_y() == 0,
    {
        let grid = BitGrid::new(w, h);
        let x = if h == 0 {
            w
        } else {
            0
        };
        assert(x * h == 0) by (nonlinear_arith)
            requires
                h == 0 || x == 0,
        ;
        Ditherer { width: w, height: h, x, y: 0, grid, decisions: Ghost(Seq::empty()) }
    }

    /// The pixel to quantize next, or `None` once every pixel is done.
    pub fn current(&self) -> (r: Option<(usize, usize)>)
        requires
            self.wf(),
        ensures
            self.is_done() ==> r.is_none(),
            !self.is_done() ==> r == Some((self.spec_x() as usize, self.spec_y() as usize)),
    {
        if self.x < self.width {
            Some((self.x, self.y))
        } else {
            None
        }
    }

    /// Records the decision for the current pixel (`dark`: its luminance with the
    /// carried residual fell below the threshold), sets its dot accordingly, moves to
    /// the next pixel in column-major order, and returns where that pixel's residual goes.
    pub fn record(&mut self, dark: bool) -> (r: Vec<Spread>)
        requires
            old(self).wf(),
            !old(self).is_done(),
        ensures
            final(self).wf(),
            final(self).spec_image_width() == old(self).spec_image_width(),
            final(self).spec_image_height() == old(self).spec_image_height(),
            final(self).spec_decisions() == old(self).spec_decisions().push(dark),
            ({
                let (x, y) = (old(self).spec_x(), old(self).spec_y());
                let h = old(self).spec_image_height() as int;
                &&& y + 1 < h ==> final(self).spec_x() == x && final(self).spec_y() == y + 1
                &&& y + 1 >= h ==> final(self).spec_x() == x + 1 && final(self).spec_y() == 0
            }),
            final(self).spec_grid().spec_width() == old(self).spec_grid().spec_width(),
            final(self).spec_grid().spec_height() == old(self).spec_grid().spec_height(),
            ({
                let (g0, g1) = (old(self).spec_grid(), final(self).spec_grid());
                forall|i: int, j: int|
                    0 <= i < g1.spec_width() && 0 <= j < g1.spec_height() ==> g1.spec_bit(i, j)
                        == if i == old(self).spec_x() && j == old(self).spec_y() {
                        dark
                    } else {
                        g0.spec_bit(i, j)
                    }
            }),
            r@.map_values(|s: Spread| s.spec_tuple()) == spread_targets(
                old(self).spec_x(),
                old(self).spec_y(),
                old(self).spec_image_width() as int,
                old(self).spec_image_height() as int,
            ),
    {
        let (x, y) = (self.x, self.y);
        self.grid.set(x, y, dark);
        let r = diffusion_targets(x, y, self.width, self.height);
        let ghost old_decisions = self.decisions@;
        self.decisions = Ghost(old_decisions.push(dark));
        if y + 1 < self.height {
            self.y = y + 1;
        } else {
            self.x = x + 1;
            self.y = 0;
        }
        proof {
            let (w, h) = (self.width as int, self.height as int);
            assert((x + 1) * h == x * h + h) by (nonlinear_arith);
            assert forall|i: int, j: int|
                scanned_before(i, j, self.x as int, self.y as int, w, h) implies self.grid.spec_bit(
                i,
                j,
            ) == self.decisions@[i * h + j] by {
                if i != x || j != y {
                    lemma_scan_index(i, j, x as int, y as int, w, h);
                }
            }
        }
        r
    }

    /// Ends the pass once every pixel is done and hands over the dot grid: it has the
    /// image's size rounded up to whole 2x4 cells, and its padding dots are blank.
    pub fn finish(self) -> (r: BitGrid)
        requires
            self.wf(),
            self.is_done(),
        ensures
            r == self.spec_grid(),
            r.wf(),
            r.spec_width() == round_up(self.spec_image_width() as int, 2),
            r.spec_height() == round_up(self.spec_image_height() as int, 4),
            self.spec_decisions().len() == self.spec_image_width() * self.spec_image_height(),
            forall|i: int, j: int|
                0 <= i < self.spec_image_width() && 0 <= j < self.spec_image_height()
                    ==> r.spec_bit(i, j) == self.spec_decisions()[i * self.spec_image_height() + j],
            r.spec_width() % 2 == 0,
            r.spec_height() % 4 == 0,
            r.spec_width() >= self.spec_image_width(),
            r.spec_height() >= self.spec_image_height(),
            forall|i: int, j: int|
                0 <= i < r.spec_width() && 0 <= j < r.spec_height() && (i
                    >= self.spec_image_width() || j >= self.spec_image_height()) ==> !r.spec_bit(
                    i,
                    j,
                ),
    {
        self.grid
    }
}

/// Two finished passes over images of the same size that recorded the same decisions
/// hold the same dots and pack to the same text: nothing else goes into the result.
pub proof fn lemma_same_decisions_same_dots(a: &Ditherer, b: &Ditherer)
    requires
        a.wf(),
        b.wf(),
        a.is_done(),
        b.is_done(),
        a.spec_image_width() == b.spec_image_width(),
        a.spec_image_height() == b.spec_image_height(),
        a.spec_decisions() == b.spec_decisions(),
    ensures
        a.spec_grid().spec_width() == b.spec_grid().spec_width(),
        a.spec_grid().spec_height() == b.spec_grid().spec_height(),
        forall|i: int, j: int|
            0 <= i < a.spec_grid().spec_width() && 0 <= j < a.spec_grid().spec_height()
                ==> a.spec_grid().spec_bit(i, j) == b.spec_grid().spec_bit(i, j),
        packed_text(&a.spec_grid()) == packed_text(&b.spec_grid()),
{
    let (w, h) = (a.spec_image_width() as int, a.spec_image_height() as int);
    let (ga, gb) = (a.spec_grid(), b.spec_grid());
    assert forall|i: int, j: int|
        0 <= i < ga.spec_width() && 0 <= j < ga.spec_height() implies ga.spec_bit(i, j)
        == gb.spec_bit(i, j) by {
        if i < w && j < h {
            assert(scanned_before(i, j, a.spec_x(), a.spec_y(), w, h));
            assert(scanned_before(i, j, b.spec_x(), b.spec_y(), w, h));
        } else {
            assert(!scanned_before(i, j, a.spec_x(), a.spec_y(), w, h));
            assert(!scanned_before(i, j, b.spec_x(), b.spec_y(), w, h));
        }
    }
    lemma_same_dots_same_text(&ga, &gb);
}

/// A finished pass whose decisions were all `v` has every image dot equal to `v` and
/// every padding dot blank; where the image fills whole 2x4 cells, every dot is `v`.
pub proof fn lemma_uniform_decisions(d: &Ditherer, v: bool)
    requires
        d.wf(),
        d.is_done(),
        forall|k: int| 0 <= k < d.spec_decisions().len() ==> d.spec_decisions()[k] == v,
    ensures
        forall|i: int, j: int|
            0 <= i < d.spec_grid().spec_width() && 0 <= j < d.spec_grid().spec_height()
                ==> d.spec_grid().spec_bit(i, j) == (v && i < d.spec_image_width() && j
                < d.spec_image_height()),
        d.spec_image_width() % 2 == 0 && d.spec_image_height() % 4 == 0 ==> d.spec_grid().all_bits(
            v,
        ),
{
    let (w, h) = (d.spec_image_width() as int, d.spec_image_height() as int);
    assert forall|i: int, j: int|
        0 <= i < d.spec_grid().spec_width() && 0 <= j < d.spec_grid().spec_height() implies d.spec_grid().spec_bit(
        i,
        j,
    ) == (v && i < w && j < h) by {
        let g = d.spec_grid();
        if i < w && j < h {
            assert(scanned_before(i, j, d.spec_x(), d.spec_y(), w, h));
            lemma_index_in_bounds(i, j, w, h);
            assert(d.spec_decisions().len() == w * h);
            assert(g.spec_bit(i, j) == d.spec_decisions()[i * h + j]);
        } else {
            assert(!scanned_before(i, j, d.spec_x(), d.spec_y(), w, h));
        }
    }
}

/// A finished pass over a `w` x `h` image yields a grid whose width is even and at
/// least `w`, whose height is a multiple of four and at least `h`, and in which every
/// pixel (`i`, `j`) falls in the glyph cell (`i / 2`, `j / 4`), one of the
/// `width / 2` x `height / 4` cells that packing reads.
pub proof fn lemma_pass_covers_image(d: &Ditherer)
    requires
        d.wf(),
        d.is_done(),
    ensures
        d.spec_grid().spec_width() % 2 == 0,
        d.spec_grid().spec_height() % 4 == 0,
        d.spec_grid().spec_width() >= d.spec_image_width(),
        d.spec_grid().spec_height() >= d.spec_image_height(),
        forall|i: int, j: int|
            0 <= i < d.spec_image_width() && 0 <= j < d.spec_image_height() ==> {
                &&& #[trigger] (i / 2) < d.spec_grid().spec_width() / 2
                &&& #[trigger] (j / 4) < d.spec_grid().spec_height() / 4
            },
{
}

/// A finished pass whose decisions were all light packs to blank glyphs (U+2800) only;
/// one whose decisions were all dark, over an image that fills whole 2x4 cells, packs
/// to full glyphs (U+28FF) only.
pub proof fn lemma_uniform_decisions_pack(d: &Ditherer, v: bool)
    requires
        d.wf(),
        d.is_done(),
        forall|k: int| 0 <= k < d.spec_decisions().len() ==> d.spec_decisions()[k] == v,
        v ==> d.spec_image_width() % 2 == 0 && d.spec_image_height() % 4 == 0,
    ensures
        packed_text(&d.spec_grid()) == uniform_text(
            (d.spec_grid().spec_height() / 4) as int,
            (d.spec_grid().spec_width() / 2) as int,
            if v {
                glyph_of(255)
            } else {
                glyph_of(0)
            },
        ),
        glyph_of(0) as u32 == 0x2800,
        glyph_of(255) as u32 == 0x28FF,
{
    lemma_uniform_decisions(d, v);
    let g = d.spec_grid();
    assert forall|i: int, j: int| 0 <= i < g.spec_width() && 0 <= j < g.spec_height() implies g.spec_bit(i, j) == v by {
        if v {
            assert(g.spec_width() == d.spec_image_width());
            assert(g.spec_height() == d.spec_image_height());
        }
    }
    lemma_uniform_grid_packs_uniform(&g, v);
}

} // verus!
