//! Turning laid-out cells and their paints into terminal bytes.
use vstd::prelude::*;
use crate::color::Paint;
use crate::colorizer::Lolcrab;
use crate::layout::{cells_view, Cell, CellView};
use crate::sgr::{paint_seq, push_bytes, push_paint, push_reset, reset_seq};

verus! {

/// How many cells of `cs` are glyphs, i.e. how many colors they need.
pub open spec fn glyph_count(cs: Seq<CellView>) -> nat
    decreases cs.len(),
{
    if cs.len() == 0 {
        0
    } else {
        glyph_count(cs.drop_last()) + if cs.last() is Glyph {
            1nat
        } else {
            0nat
        }
    }
}

/// The bytes of one cell: a glyph behind the escape sequence of its paint.
pub open spec fn cell_bytes(c: CellView, p: Paint, invert: bool) -> Seq<u8> {
    match c {
        CellView::Plain(b) => b,
        CellView::Glyph(b, _, _) => paint_seq(p, invert) + b,
    }
}

/// The bytes of a sequence of cells, the k-th glyph painted with `ps[k]`.
pub open spec fn render_cells(cs: Seq<CellView>, ps: Seq<Paint>, invert: bool) -> Seq<u8>
    decreases cs.len(),
{
    if cs.len() == 0 {
        Seq::empty()
    } else {
        render_cells(cs.drop_last(), ps, invert) + cell_bytes(
            cs.last(),
            ps[glyph_count(cs.drop_last()) as int],
            invert,
        )
    }
}

/// The number of glyphs among `cells`.
pub fn count_glyphs(cells: &Vec<Cell>) -> (n: usize)
    ensures
        n == glyph_count(cells_view(cells@)),
{
    let ghost cv = cells_view(cells@);
    let mut n: usize = 0;
    let mut i: usize = 0;
    while i < cells.len()
        invariant
            i <= cells@.len(),
            cv == cells_view(cells@),
            n == glyph_count(cv.take(i as int)),
            n <= i,
        decreases cells@.len() - i,
    {
        assert(cv.take(i + 1).drop_last() =~= cv.take(i as int));
        assert(cv.take(i + 1).last() == cells@[i as int]@);
        if let Cell::Glyph { .. } = &cells[i] {
            n = n + 1;
        }
        i = i + 1;
    }
    assert(cv.take(cells@.len() as int) =~= cv);
    n
}

impl Lolcrab {
    /// Writes laid-out cells as bytes: each glyph behind the escape sequence
    /// of the next paint, everything followed by the color reset.
    pub fn render(&self, cells: &Vec<Cell>, paints: &Vec<Paint>) -> (out: Vec<u8>)
        requires
            glyph_count(cells_view(cells@)) == paints@.len(),
        ensures
            out@ == render_cells(cells_view(cells@), paints@, self@.invert) + reset_seq(self@.invert),
    {
        let ghost cv = cells_view(cells@);
        let mut out: Vec<u8> = Vec::new();
        let mut k: usize = 0;
        let mut i: usize = 0;
        while i < cells.len()
            invariant
                i <= cells@.len(),
                cv == cells_view(cells@),
                k == glyph_count(cv.take(i as int)),
                glyph_count(cv) == paints@.len(),
                out@ == render_cells(cv.take(i as int), paints@, self@.invert),
            decreases cells@.len() - i,
        {
            proof {
                assert(cv.take(i + 1).drop_last() =~= cv.take(i as int));
                assert(cv.take(i + 1).last() == cells@[i as int]@);
                lemma_glyph_count_prefix(cv, i + 1);
            }
            match &cells[i] {
                Cell::Plain(b) => {
                    push_bytes(&mut out, b.as_slice());
                },
                Cell::Glyph { bytes, .. } => {
                    assert(k < paints.len());
                    push_paint(&mut out, paints[k], self.invert());
                    push_bytes(&mut out, bytes.as_slice());
                    k = k + 1;
                },
            }
            i = i + 1;
        }
        assert(cv.take(cells@.len() as int) =~= cv);
        push_reset(&mut out, self.invert());
        out
    }
}

/// No prefix holds more glyphs than the whole.
proof fn lemma_glyph_count_prefix(cs: Seq<CellView>, n: int)
    requires
        0 <= n <= cs.len(),
    ensures
        glyph_count(cs.take(n)) <= glyph_count(cs),
        n < cs.len() && cs[n] is Glyph ==> glyph_count(cs.take(n)) < glyph_count(cs),
    decreases cs.len() - n,
{
    if n < cs.len() {
        lemma_glyph_count_prefix(cs, n + 1);
        assert(cs.take(n + 1).drop_last() =~= cs.take(n));
    } else {
        assert(cs.take(n) =~= cs);
    }
}

} // verus!
