//! The colorizer: its settings and cursor, and the executable layout of
//! byte strings and strings.
use vstd::prelude::*;
use vstd::utf8::encode_utf8;
use crate::layout::{
    advance, bytes_of, cells_view, grapheme_cells, is_ascii_letter, is_tab, layout, line_width,
    next_scan, scan_all, spaces, tab_gap, Cell, CellView, Layout, Scan,
};
use crate::text::{
    byte_graphemes, char_width, flatten, split_byte_graphemes, split_str_graphemes, str_graphemes,
    strings_view,
};

verus! {

broadcast use vstd::string::axiom_spec_iter, vstd::string::next_postcondition;

/// Grapheme-by-grapheme colorization state and settings.
pub struct Lolcrab {
    invert: bool,
    tab_width: usize,
    x: isize,
    y: isize,
    anim_duration: usize,
    anim_sleep_ms: u64,
}

/// A colorizer's settings and cursor as plain values.
pub struct LolcrabView {
    pub invert: bool,
    pub tab_width: int,
    pub x: int,
    pub y: int,
    pub anim_duration: int,
    pub anim_sleep_ms: int,
}

impl View for Lolcrab {
    type V = LolcrabView;

    closed spec fn view(&self) -> LolcrabView {
        LolcrabView {
            invert: self.invert,
            tab_width: self.tab_width as int,
            x: self.x as int,
            y: self.y as int,
            anim_duration: self.anim_duration as int,
            anim_sleep_ms: self.anim_sleep_ms as int,
        }
    }
}

impl LolcrabView {
    pub open spec fn layout(self) -> Layout {
        Layout { tab_width: self.tab_width, invert: self.invert }
    }

    /// The scan state at the start of a call: the cursor, outside any
    /// escape sequence.
    pub open spec fn start(self) -> Scan {
        Scan { x: self.x, y: self.y, escaping: false }
    }

    /// The state after laying out `gs`.
    pub open spec fn after(self, gs: Seq<Seq<char>>) -> LolcrabView {
        let s = scan_all(self.layout(), self.start(), gs);
        LolcrabView { x: s.x, y: s.y, ..self }
    }

    pub open spec fn cells(self, gs: Seq<Seq<char>>) -> Seq<CellView> {
        layout(self.layout(), self.start(), gs)
    }

    /// The cursor can move `n` graphemes' worth of columns and rows without
    /// leaving `isize`.
    pub open spec fn has_room(self, n: int) -> bool {
        &&& (if self.x > 0 { self.x } else { 0 }) + n * (self.tab_width + 3) <= isize::MAX
        &&& self.y + n <= isize::MAX
    }
}

impl LolcrabView {
    pub open spec fn valid(self) -> bool {
        &&& 1 <= self.tab_width <= isize::MAX
        &&& 1 <= self.anim_duration <= 30
        &&& 30 <= self.anim_sleep_ms <= 200
    }

    /// A fresh colorizer: cursor at the origin, tab stops every four columns,
    /// foreground coloring, five animation frames 150 ms apart.
    pub open spec fn fresh() -> LolcrabView {
        LolcrabView { invert: false, tab_width: 4, x: 0, y: 0, anim_duration: 5, anim_sleep_ms: 150 }
    }
}

pub open spec fn clamp(v: int, lo: int, hi: int) -> int {
    if v < lo {
        lo
    } else if v > hi {
        hi
    } else {
        v
    }
}

fn grapheme_bytes(g: &String) -> (b: Vec<u8>)
    ensures
        b@ == bytes_of(g@),
{
    vstd::slice::slice_to_vec(g.as_str().as_bytes())
}

fn first_width(g: &String) -> (w: usize)
    ensures
        w as int == advance(g@),
        w <= 3,
{
    let mut it = g.as_str().chars();
    match it.next() {
        Some(c) => match char_width(c) {
            Some(w) => w,
            None => 0,
        },
        None => 0,
    }
}

fn next_tab_gap(tw: usize, x: isize) -> (n: usize)
    requires
        1 <= tw <= isize::MAX,
    ensures
        n as int == tab_gap(tw as int, x as int),
        1 <= n <= tw,
{
    if x >= 0 {
        tw - (x as usize) % tw
    } else {
        let k = (-(x + 1)) as usize;
        let m = k % tw;
        proof {
            let (ki, ti, xi, mi) = (k as int, tw as int, x as int, m as int);
            let q = -(ki / ti) - 1;
            vstd::arithmetic::div_mod::lemma_fundamental_div_mod(ki, ti);
            assert(xi == q * ti + (ti - 1 - mi)) by (nonlinear_arith)
                requires
                    ki == ti * (ki / ti) + mi,
                    xi == -ki - 1,
                    q == -(ki / ti) - 1,
            ;
            vstd::arithmetic::div_mod::lemma_fundamental_div_mod_converse(xi, ti, q, ti - 1 - mi);
        }
        m + 1
    }
}

fn is_letter(b: u8) -> (r: bool)
    ensures
        r == is_ascii_letter(b),
{
    (65 <= b && b <= 90) || (97 <= b && b <= 122)
}

impl Lolcrab {
    pub open spec fn wf(&self) -> bool {
        self@.valid()
    }

    pub fn new() -> (l: Lolcrab)
        ensures
            l.wf(),
            l@ == LolcrabView::fresh(),
    {
        Lolcrab { invert: false, tab_width: 4, x: 0, y: 0, anim_duration: 5, anim_sleep_ms: 150 }
    }

    /// Paint the background with the sampled color when `invert` is true.
    pub fn set_invert(&mut self, invert: bool)
        ensures
            final(self)@ == (LolcrabView { invert, ..old(self)@ }),
    {
        self.invert = invert;
    }

    /// Tab stop width (four by default).
    pub fn set_tab_width(&mut self, width: usize)
        requires
            1 <= width <= isize::MAX,
        ensures
            final(self)@ == (LolcrabView { tab_width: width as int, ..old(self)@ }),
    {
        self.tab_width = width;
    }

    /// Delay between animation frames in milliseconds, held within 30..=200.
    pub fn set_anim_speed(&mut self, speed: u8)
        ensures
            final(self)@ == (LolcrabView { anim_sleep_ms: clamp(speed as int, 30, 200), ..old(self)@ }),
    {
        self.anim_sleep_ms = if speed < 30 {
            30
        } else if speed > 200 {
            200
        } else {
            speed as u64
        };
    }

    /// Number of animation frames, held within 1..=30.
    pub fn set_anim_duration(&mut self, duration: usize)
        ensures
            final(self)@ == (LolcrabView { anim_duration: clamp(duration as int, 1, 30), ..old(self)@ }),
    {
        self.anim_duration = if duration < 1 {
            1
        } else if duration > 30 {
            30
        } else {
            duration
        };
    }

    pub fn step_col(&mut self, n_col: isize)
        requires
            isize::MIN <= old(self)@.x + n_col <= isize::MAX,
        ensures
            final(self)@ == (LolcrabView { x: old(self)@.x + n_col, ..old(self)@ }),
    {
        self.x = self.x + n_col;
    }

    pub fn step_row(&mut self, n_row: isize)
        requires
            isize::MIN <= old(self)@.y + n_row <= isize::MAX,
        ensures
            final(self)@ == (LolcrabView { y: old(self)@.y + n_row, ..old(self)@ }),
    {
        self.y = self.y + n_row;
    }

    pub fn reset_col(&mut self)
        ensures
            final(self)@ == (LolcrabView { x: 0, ..old(self)@ }),
    {
        self.x = 0;
    }

    /// Move the cursor back to the origin.
    pub fn reset_position(&mut self)
        ensures
            final(self)@ == (LolcrabView { x: 0, y: 0, ..old(self)@ }),
    {
        self.x = 0;
        self.y = 0;
    }

    /// Move the cursor to column zero of a row drawn from -999_999..999_999.
    pub fn randomize_position(&mut self)
        ensures
            final(self)@ == (LolcrabView { x: 0, y: final(self)@.y, ..old(self)@ }),
            -999_999 <= final(self)@.y < 999_999,
    {
        self.x = 0;
        self.y = crate::text::random_isize(-999_999, 999_999);
    }

    pub fn col(&self) -> (r: isize)
        ensures
            r == self@.x,
    {
        self.x
    }

    pub fn row(&self) -> (r: isize)
        ensures
            r == self@.y,
    {
        self.y
    }

    pub fn invert(&self) -> (r: bool)
        ensures
            r == self@.invert,
    {
        self.invert
    }

    pub fn tab_width(&self) -> (r: usize)
        ensures
            r == self@.tab_width,
    {
        self.tab_width
    }

    pub fn anim_duration(&self) -> (r: usize)
        ensures
            r == self@.anim_duration,
    {
        self.anim_duration
    }

    pub fn anim_sleep_ms(&self) -> (r: u64)
        ensures
            r == self@.anim_sleep_ms,
    {
        self.anim_sleep_ms
    }

    /// Lays out one grapheme, appending its cells to `cells` and moving the
    /// cursor; returns whether an escape sequence is open afterwards.
    fn lay_out_grapheme(&mut self, g: &String, escaping: bool, cells: &mut Vec<Cell>) -> (e: bool)
        requires
            old(self).wf(),
            old(self)@.x + old(self)@.tab_width + 3 <= isize::MAX,
            old(self)@.y + 1 <= isize::MAX,
        ensures
            ({
                let s = Scan { x: old(self)@.x, y: old(self)@.y, escaping };
                let s2 = next_scan(old(self)@.layout(), s, g@);
                &&& final(self)@ == (LolcrabView { x: s2.x, y: s2.y, ..old(self)@ })
                &&& e == s2.escaping
                &&& cells_view(final(cells)@) == cells_view(old(cells)@) + grapheme_cells(
                    old(self)@.layout(),
                    s,
                    g@,
                )
            }),
            (if old(self)@.x < 0 { old(self)@.x } else { 0 }) <= final(self)@.x,
            final(self)@.x <= (if old(self)@.x > 0 { old(self)@.x } else { 0 }) + old(self)@.tab_width + 3,
            old(self)@.y <= final(self)@.y <= old(self)@.y + 1,
    {
        let ghost s = Scan { x: self@.x, y: self@.y, escaping };
        let ghost l = self@.layout();
        let ghost c0 = cells_view(cells@);
        let b = grapheme_bytes(g);
        if b.len() == 1 && b[0] == 27 {
            assert(b@ =~= seq![27u8]);
            cells.push(Cell::Plain(b));
            assert(cells_view(cells@) =~= c0.push(CellView::Plain(bytes_of(g@))));
            true
        } else if (b.len() == 1 && b[0] == 10) || (b.len() == 2 && b[0] == 13 && b[1] == 10) {
            assert(b@ =~= seq![10u8] || b@ =~= seq![13u8, 10u8]);
            if self.invert {
                cells.push(Cell::Plain(vec![27u8, 91, 52, 57, 109]));
            }
            cells.push(Cell::Plain(b));
            proof {
                if l.invert {
                    assert(cells_view(cells@) =~= c0 + seq![
                        CellView::Plain(crate::sgr::bg_reset_seq()),
                        CellView::Plain(bytes_of(g@)),
                    ]);
                } else {
                    assert(cells_view(cells@) =~= c0.push(CellView::Plain(bytes_of(g@))));
                }
            }
            self.x = 0;
            self.y = self.y + 1;
            escaping
        } else if escaping {
            let e = !(b.len() == 1 && is_letter(b[0]));
            cells.push(Cell::Plain(b));
            assert(cells_view(cells@) =~= c0.push(CellView::Plain(bytes_of(g@))));
            e
        } else if b.len() == 1 && b[0] == 9 {
            assert(b@ =~= seq![9u8]);
            let n = next_tab_gap(self.tab_width, self.x);
            if self.invert {
                let mut k: usize = 0;
                while k < n
                    invariant
                        self.wf(),
                        k <= n <= self.tab_width,
                        n as int == tab_gap(l.tab_width, s.x),
                        self@.x == s.x,
                        self@.y == s.y,
                        self@.x + self@.tab_width + 3 <= isize::MAX,
                        cells_view(cells@) == c0 + Seq::new(
                            k as nat,
                            |i: int| CellView::Glyph(seq![32u8], s.x + i, s.y),
                        ),
                    decreases n - k,
                {
                    let ghost before = cells@;
                    let one = vec![32u8];
                    assert(one@ =~= seq![32u8]);
                    cells.push(Cell::Glyph { bytes: one, col: self.x + k as isize, row: self.y });
                    k = k + 1;
                    proof {
                        assert(cells_view(cells@) =~= cells_view(before).push(
                            CellView::Glyph(seq![32u8], s.x + (k - 1), s.y),
                        ));
                        assert(cells_view(cells@) =~= c0 + Seq::new(
                            k as nat,
                            |i: int| CellView::Glyph(seq![32u8], s.x + i, s.y),
                        ));
                    }
                }
            } else {
                let sp = vec![32u8; n];
                assert(sp@ =~= spaces(n as nat));
                cells.push(Cell::Plain(sp));
                assert(cells_view(cells@) =~= c0.push(CellView::Plain(spaces(n as nat))));
            }
            self.x = self.x + n as isize;
            false
        } else {
            let w = first_width(g);
            cells.push(Cell::Glyph { bytes: b, col: self.x, row: self.y });
            assert(cells_view(cells@) =~= c0.push(CellView::Glyph(bytes_of(g@), s.x, s.y)));
            self.x = self.x + w as isize;
            false
        }
    }
}


impl Lolcrab {
    /// Lays out a sequence of graphemes from the current cursor, outside any
    /// escape sequence, and leaves the cursor where the last one ends.
    pub fn colorize_graphemes(&mut self, gs: &Vec<String>) -> (cells: Vec<Cell>)
        requires
            old(self).wf(),
            old(self)@.has_room(gs@.len() as int),
        ensures
            final(self).wf(),
            final(self)@ == old(self)@.after(strings_view(gs@)),
            cells_view(cells@) == old(self)@.cells(strings_view(gs@)),
    {
        let ghost l0 = self@;
        let ghost gv = strings_view(gs@);
        let ghost top = if l0.x > 0 { l0.x } else { 0 };
        let ghost bottom = if l0.x < 0 { l0.x } else { 0 };
        let mut cells: Vec<Cell> = Vec::new();
        let mut escaping = false;
        let mut i: usize = 0;
        assert(gv.take(0) =~= Seq::<Seq<char>>::empty());
        assert(cells_view(cells@) =~= Seq::<CellView>::empty());
        while i < gs.len()
            invariant
                i <= gs.len(),
                self.wf(),
                gv == strings_view(gs@),
                self@ == (LolcrabView { x: self@.x, y: self@.y, ..l0 }),
                scan_all(l0.layout(), l0.start(), gv.take(i as int)) == (Scan {
                    x: self@.x,
                    y: self@.y,
                    escaping,
                }),
                cells_view(cells@) == layout(l0.layout(), l0.start(), gv.take(i as int)),
                bottom <= self@.x <= top + i * (l0.tab_width + 3),
                l0.y <= self@.y <= l0.y + i,
                l0.has_room(gs@.len() as int),
                l0.tab_width >= 1,
                top == (if l0.x > 0 { l0.x } else { 0 }),
                bottom == (if l0.x < 0 { l0.x } else { 0 }),
            decreases gs.len() - i,
        {
            proof {
                let (ii, n, t) = (i as int, gs@.len() as int, l0.tab_width + 3);
                assert((ii + 1) * t <= n * t) by (nonlinear_arith)
                    requires
                        ii + 1 <= n,
                        t >= 0,
                ;
                assert(ii * t + t == (ii + 1) * t) by (nonlinear_arith);
                assert(ii * t >= 0) by (nonlinear_arith)
                    requires
                        ii >= 0,
                        t >= 0,
                ;
                assert(gv.take(ii + 1).drop_last() =~= gv.take(ii));
                assert(gv.take(ii + 1).last() == gs@[ii]@);
            }
            escaping = self.lay_out_grapheme(&gs[i], escaping, &mut cells);
            i = i + 1;
        }
        assert(gv.take(gs@.len() as int) =~= gv);
        cells
    }

    /// Colorizes a byte string: its graphemes, with invalid UTF-8 given as
    /// U+FFFD, are laid out from the cursor.
    pub fn colorize(&mut self, text: &[u8]) -> (cells: Vec<Cell>)
        requires
            old(self).wf(),
            old(self)@.has_room(text@.len() as int),
        ensures
            final(self).wf(),
            final(self)@ == old(self)@.after(byte_graphemes(text@)),
            cells_view(cells@) == old(self)@.cells(byte_graphemes(text@)),
    {
        let gs = split_byte_graphemes(text);
        proof {
            let (a, b, t) = (gs@.len() as int, text@.len() as int, self@.tab_width + 3);
            assert(a * t <= b * t) by (nonlinear_arith)
                requires
                    a <= b,
                    t >= 0,
            ;
        }
        self.colorize_graphemes(&gs)
    }

    /// Colorizes a string: its graphemes are laid out from the cursor.
    pub fn colorize_str(&mut self, text: &str) -> (cells: Vec<Cell>)
        requires
            old(self).wf(),
            old(self)@.has_room(encode_utf8(text@).len() as int),
        ensures
            final(self).wf(),
            final(self)@ == old(self)@.after(str_graphemes(text@)),
            cells_view(cells@) == old(self)@.cells(str_graphemes(text@)),
    {
        let gs = split_str_graphemes(text);
        proof {
            lemma_flatten_len(strings_view(gs@));
            lemma_utf8_len(text@);
            let (a, b, t) = (gs@.len() as int, encode_utf8(text@).len() as int, self@.tab_width + 3);
            assert(a * t <= b * t) by (nonlinear_arith)
                requires
                    a <= b,
                    t >= 0,
            ;
        }
        self.colorize_graphemes(&gs)
    }
}

impl LolcrabView {
    /// The cursor can be set back by a full animation of `n` graphemes
    /// without leaving `isize`.
    pub open spec fn has_anim_room(self, n: int) -> bool {
        30 * (n * (self.tab_width + 3)) <= isize::MAX
    }
}

impl Lolcrab {
    /// The width in columns of a line, laid out from column zero.
    pub fn line_width(&self, text: &[u8]) -> (w: isize)
        requires
            self.wf(),
            text@.len() * (self@.tab_width + 3) <= isize::MAX,
        ensures
            w == line_width(self@.tab_width, byte_graphemes(text@)),
            0 <= w <= text@.len() * (self@.tab_width + 3),
    {
        let gs = split_byte_graphemes(text);
        let ghost gv = strings_view(gs@);
        let ghost t = self@.tab_width + 3;
        let mut w: isize = 0;
        let mut i: usize = 0;
        while i < gs.len()
            invariant
                i <= gs@.len(),
                gs@.len() <= text@.len(),
                gv == strings_view(gs@),
                gv == byte_graphemes(text@),
                self.wf(),
                t == self@.tab_width + 3,
                text@.len() * t <= isize::MAX,
                w == line_width(self@.tab_width, gv.take(i as int)),
                0 <= w <= i * t,
            decreases gs@.len() - i,
        {
            proof {
                let (ii, n) = (i as int, text@.len() as int);
                assert((ii + 1) * t <= n * t) by (nonlinear_arith)
                    requires
                        ii + 1 <= n,
                        t >= 0,
                ;
                assert(ii * t + t == (ii + 1) * t) by (nonlinear_arith);
                assert(gv.take(ii + 1).drop_last() =~= gv.take(ii));
                assert(gv.take(ii + 1).last() == gs@[ii]@);
            }
            let b = grapheme_bytes(&gs[i]);
            if b.len() == 1 && b[0] == 9 {
                assert(b@ =~= seq![9u8]);
                let n = next_tab_gap(self.tab_width, w);
                w = w + n as isize;
            } else {
                assert(!is_tab(gs@[i as int]@)) by {
                    if b@ == seq![9u8] {
                        assert(b@.len() == 1 && b@[0] == 9);
                    }
                }
                let a = first_width(&gs[i]);
                w = w + a as isize;
            }
            i = i + 1;
        }
        proof {
            assert(gv.take(gs@.len() as int) =~= gv);
            let (a, n) = (gs@.len() as int, text@.len() as int);
            assert(a * t <= n * t) by (nonlinear_arith)
                requires
                    a <= n,
                    t >= 0,
            ;
        }
        w
    }

    /// Starts the animation of a line: the cursor is set back by the line's
    /// width once for every frame after the first, so that the last frame is
    /// drawn at column zero. Returns the line's width.
    pub fn start_anim(&mut self, text: &[u8]) -> (w: isize)
        requires
            old(self).wf(),
            old(self)@.has_anim_room(text@.len() as int),
        ensures
            final(self).wf(),
            w == line_width(old(self)@.tab_width, byte_graphemes(text@)),
            final(self)@ == (LolcrabView { x: -((old(self)@.anim_duration - 1) * w), ..old(self)@ }),
    {
        proof {
            let (n, t) = (text@.len() as int, self@.tab_width + 3);
            assert(n * t <= 30 * (n * t)) by (nonlinear_arith)
                requires
                    n >= 0,
                    t >= 0,
            ;
        }
        let w = self.line_width(text);
        proof {
            let (n, t, d) = (text@.len() as int, self@.tab_width + 3, self@.anim_duration - 1);
            assert(d * w <= 30 * (n * t)) by (nonlinear_arith)
                requires
                    0 <= d <= 29,
                    0 <= w <= n * t,
            ;
            assert(d * w >= 0) by (nonlinear_arith)
                requires
                    0 <= d,
                    0 <= w,
            ;
        }
        self.x = -((self.anim_duration - 1) as isize * w);
        w
    }
}

/// UTF-8 takes at least one byte for every character.
proof fn lemma_utf8_len(s: Seq<char>)
    ensures
        s.len() <= encode_utf8(s).len(),
    decreases s.len(),
{
    if s.len() > 0 {
        lemma_utf8_len(s.drop_first());
    }
}

/// Strings that are all non-empty are no more in number than the characters
/// they hold together.
proof fn lemma_flatten_len(gs: Seq<Seq<char>>)
    requires
        forall|i: int| 0 <= i < gs.len() ==> (#[trigger] gs[i]).len() > 0,
    ensures
        gs.len() <= flatten(gs).len(),
    decreases gs.len(),
{
    if gs.len() > 0 {
        let p = gs.drop_last();
        assert forall|i: int| 0 <= i < p.len() implies (#[trigger] p[i]).len() > 0 by {
            assert(p[i] == gs[i]);
        }
        lemma_flatten_len(p);
        assert(gs.last() == gs[gs.len() - 1]);
    }
}

} // verus!
