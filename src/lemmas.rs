//! Facts about colorization that hold for every input.
use vstd::prelude::*;
use vstd::utf8::encode_utf8;
use crate::color::Paint;
use crate::colorizer::LolcrabView;
use crate::layout::{
    bytes_of, ends_escape, is_escape, is_newline, is_tab, layout, line_width, next_scan, scan_all,
    CellView, Layout, Scan,
};
use crate::render::render_cells;
use crate::text::{byte_graphemes, str_graphemes};

verus! {

/// Two colorizers in the same state, fed the same graphemes, lay them out
/// as the same cells, end in the same state, and, given the same colors,
/// write the same bytes.
pub proof fn lemma_deterministic(a: LolcrabView, b: LolcrabView, gs: Seq<Seq<char>>, ps: Seq<Paint>)
    requires
        a == b,
    ensures
        a.after(gs) == b.after(gs),
        a.cells(gs) == b.cells(gs),
        render_cells(a.cells(gs), ps, a.invert) == render_cells(b.cells(gs), ps, b.invert),
{
}

/// Colorizing a text as bytes and as a string gives the same cells and the
/// same final state wherever the two segmenters cut it into the same
/// graphemes.
pub proof fn lemma_bytes_and_str_agree(v: LolcrabView, s: Seq<char>)
    requires
        byte_graphemes(encode_utf8(s)) == str_graphemes(s),
    ensures
        v.after(byte_graphemes(encode_utf8(s))) == v.after(str_graphemes(s)),
        v.cells(byte_graphemes(encode_utf8(s))) == v.cells(str_graphemes(s)),
{
}

/// Outside an escape sequence, a tab moves the cursor to the next multiple
/// of the tab width: always at least one column, at most a full tab width.
pub proof fn lemma_tab_reaches_next_stop(l: Layout, s: Scan, g: Seq<char>)
    requires
        l.tab_width >= 1,
        is_tab(g),
        !s.escaping,
    ensures
        next_scan(l, s, g).x % l.tab_width == 0,
        s.x < next_scan(l, s, g).x <= s.x + l.tab_width,
        next_scan(l, s, g).y == s.y,
        next_scan(l, s, g).escaping == s.escaping,
{
    let tw = l.tab_width;
    let q = s.x / tw;
    vstd::arithmetic::div_mod::lemma_fundamental_div_mod(s.x, tw);
    vstd::arithmetic::div_mod::lemma_mod_bound(s.x, tw);
    assert(next_scan(l, s, g).x == (q + 1) * tw) by (nonlinear_arith)
        requires
            s.x == tw * q + s.x % tw,
            next_scan(l, s, g).x == s.x + tw - s.x % tw,
    ;
    vstd::arithmetic::div_mod::lemma_fundamental_div_mod_converse((q + 1) * tw, tw, q + 1, 0);
}

/// A line break moves the cursor to column zero of the next row; an open
/// escape sequence stays open, as only a letter ends one.
pub proof fn lemma_newline_resets(l: Layout, s: Scan, gs: Seq<Seq<char>>)
    requires
        gs.len() > 0,
        is_newline(gs.last()),
    ensures
        scan_all(l, s, gs) == (Scan {
            x: 0,
            y: scan_all(l, s, gs.drop_last()).y + 1,
            escaping: scan_all(l, s, gs.drop_last()).escaping,
        }),
{
    let b = bytes_of(gs.last());
    assert(!is_escape(gs.last())) by {
        if is_escape(gs.last()) {
            assert(b[0] == 27u8);
        }
    }
}

/// Moves the cursor by each `(columns, rows)` step in turn.
pub open spec fn moved(v: LolcrabView, steps: Seq<(int, int)>) -> LolcrabView
    decreases steps.len(),
{
    if steps.len() == 0 {
        v
    } else {
        let w = moved(v, steps.drop_last());
        LolcrabView { x: w.x + steps.last().0, y: w.y + steps.last().1, ..w }
    }
}

/// Whatever steps moved the cursor of a colorizer that stood at the origin,
/// resetting the position gives that colorizer back.
pub proof fn lemma_reset_position_restores(v: LolcrabView, steps: Seq<(int, int)>)
    requires
        v.x == 0,
        v.y == 0,
    ensures
        (LolcrabView { x: 0, y: 0, ..moved(v, steps) }) == v,
    decreases steps.len(),
{
    if steps.len() > 0 {
        lemma_reset_position_restores(v, steps.drop_last());
    }
}

/// The cells of graphemes written through unchanged.
pub open spec fn plain_cells(gs: Seq<Seq<char>>) -> Seq<CellView> {
    gs.map_values(|g: Seq<char>| CellView::Plain(bytes_of(g)))
}

/// The bytes of a sequence of graphemes, one after the other.
pub open spec fn joined_bytes(gs: Seq<Seq<char>>) -> Seq<u8>
    decreases gs.len(),
{
    if gs.len() == 0 {
        Seq::empty()
    } else {
        joined_bytes(gs.drop_last()) + bytes_of(gs.last())
    }
}

/// A grapheme that an open escape sequence passes through without closing:
/// neither a line break nor a single ASCII letter.
pub open spec fn inside_escape(g: Seq<char>) -> bool {
    !is_newline(g) && !ends_escape(g)
}

proof fn lemma_escape_body(l: Layout, s: Scan, gs: Seq<Seq<char>>)
    requires
        gs.len() >= 1,
        is_escape(gs[0]),
        forall|i: int| 1 <= i < gs.len() ==> inside_escape(#[trigger] gs[i]),
    ensures
        scan_all(l, s, gs) == (Scan { escaping: true, ..s }),
        layout(l, s, gs) == plain_cells(gs),
    decreases gs.len(),
{
    let g = gs.last();
    let b = bytes_of(g);
    if gs.len() == 1 {
        assert(gs.drop_last() =~= Seq::<Seq<char>>::empty());
        assert(g == gs[0]);
        assert(layout(l, s, gs.drop_last()) == Seq::<CellView>::empty());
        assert(layout(l, s, gs) =~= plain_cells(gs));
    } else {
        let p = gs.drop_last();
        assert forall|i: int| 1 <= i < p.len() implies inside_escape(#[trigger] p[i]) by {
            assert(p[i] == gs[i]);
        }
        assert(p[0] == gs[0]);
        lemma_escape_body(l, s, p);
        assert(g == gs[gs.len() - 1]);
        assert(inside_escape(g));
        assert(plain_cells(gs) =~= plain_cells(p).push(CellView::Plain(b)));
        assert(layout(l, s, gs) =~= plain_cells(gs));
    }
}

/// An escape sequence, from ESC up to the ASCII letter that ends it, is laid
/// out as its own bytes, uncolored, and leaves the cursor where it was and
/// no escape sequence open.
pub proof fn lemma_escape_passthrough(l: Layout, s: Scan, gs: Seq<Seq<char>>)
    requires
        !s.escaping,
        gs.len() >= 2,
        is_escape(gs[0]),
        forall|i: int| 1 <= i < gs.len() - 1 ==> inside_escape(#[trigger] gs[i]),
        ends_escape(gs.last()),
    ensures
        scan_all(l, s, gs) == s,
        layout(l, s, gs) == plain_cells(gs),
        forall|ps: Seq<Paint>, invert: bool| #[trigger] render_cells(plain_cells(gs), ps, invert) == joined_bytes(gs),
{
    let p = gs.drop_last();
    let g = gs.last();
    let b = bytes_of(g);
    assert forall|i: int| 1 <= i < p.len() implies inside_escape(#[trigger] p[i]) by {
        assert(p[i] == gs[i]);
    }
    assert(p[0] == gs[0]);
    lemma_escape_body(l, s, p);
    assert(!is_escape(g) && !is_newline(g)) by {
        if is_escape(g) {
            assert(b[0] == 27u8);
        }
        if is_newline(g) && b.len() == 1 {
            assert(b[0] == 10u8);
        }
    }
    assert(layout(l, s, gs) =~= plain_cells(gs));
    assert forall|ps: Seq<Paint>, invert: bool| #[trigger] render_cells(plain_cells(gs), ps, invert) == joined_bytes(gs) by {
        lemma_render_plain(gs, ps, invert);
    }
}

/// Cells that are all plain are written as their bytes alone.
pub proof fn lemma_render_plain(gs: Seq<Seq<char>>, ps: Seq<Paint>, invert: bool)
    ensures
        render_cells(plain_cells(gs), ps, invert) == joined_bytes(gs),
    decreases gs.len(),
{
    if gs.len() > 0 {
        lemma_render_plain(gs.drop_last(), ps, invert);
        assert(plain_cells(gs).drop_last() =~= plain_cells(gs.drop_last()));
    }
}

/// One animation frame of a line without tabs, escapes or line breaks moves
/// the cursor right by exactly the line's width and leaves the row alone, so
/// that frames started a whole number of widths to the left end at column
/// zero.
pub proof fn lemma_frame_advance(l: Layout, s: Scan, gs: Seq<Seq<char>>)
    requires
        !s.escaping,
        forall|i: int|
            0 <= i < gs.len() ==> !is_tab(#[trigger] gs[i]) && !is_escape(gs[i]) && !is_newline(gs[i]),
    ensures
        scan_all(l, s, gs) == (Scan { x: s.x + line_width(l.tab_width, gs), ..s }),
    decreases gs.len(),
{
    if gs.len() > 0 {
        let p = gs.drop_last();
        assert forall|i: int| 0 <= i < p.len() implies !is_tab(#[trigger] p[i]) && !is_escape(p[i])
            && !is_newline(p[i]) by {
            assert(p[i] == gs[i]);
        }
        lemma_frame_advance(l, s, p);
        assert(gs.last() == gs[gs.len() - 1]);
    }
}

} // verus!
