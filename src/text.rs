//! Grapheme segmentation and character width, taken from outside crates.
use vstd::prelude::*;
use bstr::ByteSlice;
use unicode_segmentation::UnicodeSegmentation;
use unicode_width::UnicodeWidthChar;

verus! {

/// The extended grapheme clusters of a string, in order.
pub uninterp spec fn str_graphemes(s: Seq<char>) -> Seq<Seq<char>>;

/// The grapheme clusters of a byte string, in order, with U+FFFD given in
/// place of invalid UTF-8.
pub uninterp spec fn byte_graphemes(b: Seq<u8>) -> Seq<Seq<char>>;

/// The display width of a character in terminal columns, `None` for a
/// control character.
pub uninterp spec fn char_width_of(c: char) -> Option<usize>;

/// The concatenation of a sequence of strings.
pub open spec fn flatten(gs: Seq<Seq<char>>) -> Seq<char>
    decreases gs.len(),
{
    if gs.len() == 0 {
        Seq::empty()
    } else {
        flatten(gs.drop_last()) + gs.last()
    }
}

pub open spec fn strings_view(v: Seq<String>) -> Seq<Seq<char>> {
    v.map_values(|s: String| s@)
}

/// Relies on `UnicodeSegmentation::graphemes(s, true)`: the extended
/// grapheme clusters of `s`, each non-empty, which together spell `s`.
#[verifier::external_body]
pub(crate) fn split_str_graphemes(s: &str) -> (r: Vec<String>)
    ensures
        strings_view(r@) == str_graphemes(s@),
        flatten(strings_view(r@)) == s@,
        forall|i: int| 0 <= i < r@.len() ==> (#[trigger] r@[i])@.len() > 0,
{
    UnicodeSegmentation::graphemes(s, true).map(|g| g.to_string()).collect()
}

/// Relies on `bstr::ByteSlice::graphemes`: the grapheme clusters of `b`, each
/// non-empty and each taken from at least one byte of `b`.
#[verifier::external_body]
pub(crate) fn split_byte_graphemes(b: &[u8]) -> (r: Vec<String>)
    ensures
        strings_view(r@) == byte_graphemes(b@),
        r@.len() <= b@.len(),
        forall|i: int| 0 <= i < r@.len() ==> (#[trigger] r@[i])@.len() > 0,
{
    b.graphemes().map(|g| g.to_string()).collect()
}

/// Relies on `UnicodeWidthChar::width`: a width of at most three columns,
/// or `None` for a control character.
#[verifier::external_body]
pub(crate) fn char_width(c: char) -> (r: Option<usize>)
    ensures
        r == char_width_of(c),
        r matches Some(w) ==> w <= 3,
{
    UnicodeWidthChar::width(c)
}

/// Relies on `fastrand::isize` over a half-open range: a value drawn from it.
#[verifier::external_body]
pub(crate) fn random_isize(lo: isize, hi: isize) -> (r: isize)
    requires
        lo < hi,
    ensures
        lo <= r < hi,
{
    fastrand::isize(lo..hi)
}

} // verus!
