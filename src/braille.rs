//! Packing of 2x4 dot cells into Unicode Braille pattern glyphs (U+2800 to U+28FF).
use vstd::prelude::*;
use crate::grid::BitGrid;

verus! {

/// Base code point of the Braille pattern block; a cell's dot mask is added to it.
pub const BRAILLE_BASE: u32 = 0x2800;

pub open spec fn bit_value(b: bool, weight: int) -> int {
    if b {
        weight
    } else {
        0
    }
}

/// The 8-dot mask of one cell, where `dR_C` is the dot at row `R` (1 to 4) and column `C`
/// (1 or 2). Dots 1-3 of the left column are bits 0-2, dots 1-3 of the right column are
/// bits 3-5, and the bottom row is bits 6 (left) and 7 (right).
pub open spec fn dot_mask(
    d1_1: bool,
    d1_2: bool,
    d2_1: bool,
    d2_2: bool,
    d3_1: bool,
    d3_2: bool,
    d4_1: bool,
    d4_2: bool,
) -> int {
    bit_value(d1_1, 1) + bit_value(d2_1, 2) + bit_value(d3_1, 4) + bit_value(d1_2, 8)
        + bit_value(d2_2, 16) + bit_value(d3_2, 32) + bit_value(d4_1, 64) + bit_value(d4_2, 128)
}

/// The glyph for dot mask `m`.
pub open spec fn glyph_of(m: int) -> char {
    (0x2800 + m) as u32 as char
}

/// The dot mask of the cell at block column `bx`, block row `by` of `g`.
pub open spec fn cell_mask(g: &BitGrid, bx: int, by: int) -> int {
    let (x, y) = (2 * bx, 4 * by);
    dot_mask(
        g.spec_bit(x, y),
        g.spec_bit(x + 1, y),
        g.spec_bit(x, y + 1),
        g.spec_bit(x + 1, y + 1),
        g.spec_bit(x, y + 2),
        g.spec_bit(x + 1, y + 2),
        g.spec_bit(x, y + 3),
        g.spec_bit(x + 1, y + 3),
    )
}

/// The glyphs of block row `by`, left to right.
pub open spec fn row_glyphs(g: &BitGrid, by: int) -> Seq<char> {
    Seq::new(g.spec_width() / 2, |bx: int| glyph_of(cell_mask(g, bx, by)))
}

/// The text of the first `n` block rows, each ended by a line feed.
pub open spec fn rows_text(g: &BitGrid, n: int) -> Seq<char>
    decreases n,
{
    if n <= 0 {
        Seq::empty()
    } else {
        rows_text(g, n - 1) + row_glyphs(g, n - 1).push('\n')
    }
}

/// The whole text of `g`: one line per block row of four dot rows.
pub open spec fn packed_text(g: &BitGrid) -> Seq<char> {
    rows_text(g, (g.spec_height() / 4) as int)
}

/// Relies on char::from_u32: a code outside the surrogate range and at most 0x10FFFF
/// is a valid scalar value and comes back as the char with that code.
#[verifier::external_body]
fn char_from_code(v: u32) -> (r: Option<char>)
    ensures
        (v < 0xD800 || (0xE000 <= v && v <= 0x10FFFF)) ==> r == Some(v as char),
{
    char::from_u32(v)
}

/// Relies on String::push: appends one char.
#[verifier::external_body]
pub(crate) fn push_char(s: &mut String, c: char)
    ensures
        final(s)@ == old(s)@.push(c),
{
    s.push(c)
}

/// The Braille glyph whose raised dots are the set arguments (see `dot_mask`).
pub fn braille_char(
    d1_1: bool,
    d1_2: bool,
    d2_1: bool,
    d2_2: bool,
    d3_1: bool,
    d3_2: bool,
    d4_1: bool,
    d4_2: bool,
) -> (r: char)
    ensures
        r == glyph_of(dot_mask(d1_1, d1_2, d2_1, d2_2, d3_1, d3_2, d4_1, d4_2)),
{
    let mut num: u32 = BRAILLE_BASE;
    if d1_1 {
        num = num + 1;
    }
    if d2_1 {
        num = num + 2;
    }
    if d3_1 {
        num = num + 4;
    }
    if d1_2 {
        num = num + 8;
    }
    if d2_2 {
        num = num + 16;
    }
    if d3_2 {
        num = num + 32;
    }
    if d4_1 {
        num = num + 64;
    }
    if d4_2 {
        num = num + 128;
    }
    char_from_code(num).unwrap()
}

/// The one-glyph string whose raised dots are the set arguments.
pub fn get_braille(
    d1_1: bool,
    d1_2: bool,
    d2_1: bool,
    d2_2: bool,
    d3_1: bool,
    d3_2: bool,
    d4_1: bool,
    d4_2: bool,
) -> (r: String)
    ensures
        r@ == seq![glyph_of(dot_mask(d1_1, d1_2, d2_1, d2_2, d3_1, d3_2, d4_1, d4_2))],
{
    let c = braille_char(d1_1, d1_2, d2_1, d2_2, d3_1, d3_2, d4_1, d4_2);
    let mut s = String::new();
    push_char(&mut s, c);
    s
}

/// Renders `g` as Braille text: block rows top to bottom, each a line of
/// `width / 2` glyphs read left to right and ended by a line feed.
pub fn pack(g: &BitGrid) -> (r: String)
    requires
        g.wf(),
    ensures
        r@ == packed_text(g),
{
    let w = g.width();
    let h = g.height();
    let rows = h / 4;
    let cols = w / 2;
    let mut out = String::new();
    let mut by: usize = 0;
    while by < rows
        invariant
            g.wf(),
            w == g.spec_width(),
            h == g.spec_height(),
            rows == h / 4,
            cols == w / 2,
            by <= rows,
            out@ == rows_text(g, by as int),
        decreases rows - by,
    {
        let mut bx: usize = 0;
        while bx < cols
            invariant
                g.wf(),
                w == g.spec_width(),
                h == g.spec_height(),
                rows == h / 4,
                cols == w / 2,
                by < rows,
                bx <= cols,
                out@ == rows_text(g, by as int) + row_glyphs(g, by as int).take(bx as int),
            decreases cols - bx,
        {
            let (x, y) = (bx * 2, by * 4);
            let c = braille_char(
                g.get(x, y),
                g.get(x + 1, y),
                g.get(x, y + 1),
                g.get(x + 1, y + 1),
                g.get(x, y + 2),
                g.get(x + 1, y + 2),
                g.get(x, y + 3),
                g.get(x + 1, y + 3),
            );
            push_char(&mut out, c);
            proof {
                assert(row_glyphs(g, by as int).take(bx + 1) == row_glyphs(g, by as int).take(
                    bx as int,
                ).push(c));
            }
            bx = bx + 1;
        }
        proof {
            assert(row_glyphs(g, by as int).take(cols as int) == row_glyphs(g, by as int));
        }
        push_char(&mut out, '\n');
        by = by + 1;
    }
    out
}

/// `n` lines, each `cols` copies of `c` ended by a line feed.
pub open spec fn uniform_text(n: int, cols: int, c: char) -> Seq<char>
    decreases n,
{
    if n <= 0 {
        Seq::empty()
    } else {
        uniform_text(n - 1, cols, c) + Seq::new(cols as nat, |i: int| c).push('\n')
    }
}

/// A grid whose dots are all blank packs to blank glyphs (U+2800) only, and a grid
/// whose dots are all set packs to full glyphs (U+28FF) only, one line per block row.
pub proof fn lemma_uniform_grid_packs_uniform(g: &BitGrid, v: bool)
    requires
        g.wf(),
        g.all_bits(v),
    ensures
        packed_text(g) == uniform_text(
            (g.spec_height() / 4) as int,
            (g.spec_width() / 2) as int,
            if v {
                glyph_of(255)
            } else {
                glyph_of(0)
            },
        ),
        glyph_of(0) as u32 == 0x2800,
        glyph_of(255) as u32 == 0x28FF,
{
    let c = if v {
        glyph_of(255)
    } else {
        glyph_of(0)
    };
    lemma_uniform_rows(g, v, c, (g.spec_height() / 4) as int);
}

proof fn lemma_uniform_rows(g: &BitGrid, v: bool, c: char, n: int)
    requires
        g.wf(),
        g.all_bits(v),
        c == if v {
            glyph_of(255)
        } else {
            glyph_of(0)
        },
        0 <= n <= g.spec_height() / 4,
    ensures
        rows_text(g, n) == uniform_text(n, (g.spec_width() / 2) as int, c),
    decreases n,
{
    let cols = (g.spec_width() / 2) as int;
    if n > 0 {
        lemma_uniform_rows(g, v, c, n - 1);
        assert(row_glyphs(g, n - 1) =~= Seq::new(cols as nat, |i: int| c));
    }
}

/// Grids of the same size with the same dots pack to the same text.
pub proof fn lemma_same_dots_same_text(a: &BitGrid, b: &BitGrid)
    requires
        a.wf(),
        b.wf(),
        a.spec_width() == b.spec_width(),
        a.spec_height() == b.spec_height(),
        forall|i: int, j: int|
            0 <= i < a.spec_width() && 0 <= j < a.spec_height() ==> a.spec_bit(i, j)
                == b.spec_bit(i, j),
    ensures
        packed_text(a) == packed_text(b),
{
    lemma_same_rows(a, b, (a.spec_height() / 4) as int);
}

proof fn lemma_same_rows(a: &BitGrid, b: &BitGrid, n: int)
    requires
        a.wf(),
        b.wf(),
        a.spec_width() == b.spec_width(),
        a.spec_height() == b.spec_height(),
        forall|i: int, j: int|
            0 <= i < a.spec_width() && 0 <= j < a.spec_height() ==> a.spec_bit(i, j)
                == b.spec_bit(i, j),
        0 <= n <= a.spec_height() / 4,
    ensures
        rows_text(a, n) == rows_text(b, n),
    decreases n,
{
    if n > 0 {
        lemma_same_rows(a, b, n - 1);
        assert(row_glyphs(a, n - 1) =~= row_glyphs(b, n - 1));
    }
}

} // verus!
