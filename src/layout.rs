//! How graphemes are laid out: the escape state machine, the cursor, tab
//! stops and line breaks, as spec functions over grapheme sequences.
use vstd::prelude::*;
use vstd::utf8::encode_utf8;
use crate::text::char_width_of;

verus! {

/// One piece of laid-out output.
#[derive(Debug, PartialEq, Eq)]
pub enum Cell {
    /// Bytes written as they are.
    Plain(Vec<u8>),
    /// A grapheme to be written in the color sampled at `(col, row)`.
    Glyph { bytes: Vec<u8>, col: isize, row: isize },
}

pub enum CellView {
    Plain(Seq<u8>),
    Glyph(Seq<u8>, int, int),
}

impl View for Cell {
    type V = CellView;

    open spec fn view(&self) -> CellView {
        match self {
            Cell::Plain(b) => CellView::Plain(b@),
            Cell::Glyph { bytes, col, row } => CellView::Glyph(bytes@, *col as int, *row as int),
        }
    }
}

pub open spec fn cells_view(v: Seq<Cell>) -> Seq<CellView> {
    v.map_values(|c: Cell| c@)
}

/// Where the colorizer stands between two graphemes: the cursor, and
/// whether it is inside an escape sequence.
pub struct Scan {
    pub x: int,
    pub y: int,
    pub escaping: bool,
}

/// The settings that decide how graphemes are laid out.
pub struct Layout {
    pub tab_width: int,
    pub invert: bool,
}

pub open spec fn bytes_of(g: Seq<char>) -> Seq<u8> {
    encode_utf8(g)
}

pub open spec fn is_escape(g: Seq<char>) -> bool {
    bytes_of(g) == seq![27u8]
}

pub open spec fn is_newline(g: Seq<char>) -> bool {
    bytes_of(g) == seq![10u8] || bytes_of(g) == seq![13u8, 10u8]
}

pub open spec fn is_tab(g: Seq<char>) -> bool {
    bytes_of(g) == seq![9u8]
}

pub open spec fn is_ascii_letter(b: u8) -> bool {
    (65 <= b <= 90) || (97 <= b <= 122)
}

/// A grapheme that closes an escape sequence: one ASCII letter.
pub open spec fn ends_escape(g: Seq<char>) -> bool {
    bytes_of(g).len() == 1 && is_ascii_letter(bytes_of(g)[0])
}

/// Columns taken by a grapheme: the width of its first character, zero for
/// a control character.
pub open spec fn advance(g: Seq<char>) -> int {
    if g.len() > 0 {
        match char_width_of(g[0]) {
            Some(w) => w as int,
            None => 0,
        }
    } else {
        0
    }
}

/// Columns from `x` to the next tab stop: never zero, at most `tw`.
pub open spec fn tab_gap(tw: int, x: int) -> int {
    tw - x % tw
}

pub open spec fn spaces(n: nat) -> Seq<u8> {
    Seq::new(n, |i: int| 32u8)
}

/// Where the colorizer stands after one more grapheme.
pub open spec fn next_scan(l: Layout, s: Scan, g: Seq<char>) -> Scan {
    if is_escape(g) {
        Scan { escaping: true, ..s }
    } else if is_newline(g) {
        Scan { x: 0, y: s.y + 1, ..s }
    } else if s.escaping {
        Scan { escaping: !ends_escape(g), ..s }
    } else if is_tab(g) {
        Scan { x: s.x + tab_gap(l.tab_width, s.x), ..s }
    } else {
        Scan { x: s.x + advance(g), ..s }
    }
}

/// What one grapheme is laid out as: escape sequences pass through, a tab
/// outside one becomes spaces up to the next tab stop (each painted when the
/// background is), anything else visible becomes a glyph.
pub open spec fn grapheme_cells(l: Layout, s: Scan, g: Seq<char>) -> Seq<CellView> {
    if is_escape(g) || s.escaping && !is_newline(g) {
        seq![CellView::Plain(bytes_of(g))]
    } else if is_newline(g) {
        if l.invert {
            seq![CellView::Plain(crate::sgr::bg_reset_seq()), CellView::Plain(bytes_of(g))]
        } else {
            seq![CellView::Plain(bytes_of(g))]
        }
    } else if is_tab(g) {
        let n = tab_gap(l.tab_width, s.x);
        if l.invert {
            Seq::new(n as nat, |i: int| CellView::Glyph(seq![32u8], s.x + i, s.y))
        } else {
            seq![CellView::Plain(spaces(n as nat))]
        }
    } else {
        seq![CellView::Glyph(bytes_of(g), s.x, s.y)]
    }
}

/// Where the colorizer stands after a sequence of graphemes.
pub open spec fn scan_all(l: Layout, s: Scan, gs: Seq<Seq<char>>) -> Scan
    decreases gs.len(),
{
    if gs.len() == 0 {
        s
    } else {
        next_scan(l, scan_all(l, s, gs.drop_last()), gs.last())
    }
}

/// The cells that a sequence of graphemes is laid out as.
pub open spec fn layout(l: Layout, s: Scan, gs: Seq<Seq<char>>) -> Seq<CellView>
    decreases gs.len(),
{
    if gs.len() == 0 {
        Seq::empty()
    } else {
        layout(l, s, gs.drop_last()) + grapheme_cells(l, scan_all(l, s, gs.drop_last()), gs.last())
    }
}

/// The width in columns of a line of graphemes laid out from column zero,
/// tabs reaching the next tab stop.
pub open spec fn line_width(tw: int, gs: Seq<Seq<char>>) -> int
    decreases gs.len(),
{
    if gs.len() == 0 {
        0
    } else {
        let w = line_width(tw, gs.drop_last());
        if is_tab(gs.last()) {
            w + tab_gap(tw, w)
        } else {
            w + advance(gs.last())
        }
    }
}

} // verus!
