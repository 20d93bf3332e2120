//! The terminal escape sequences that select colors, as bytes.
use vstd::prelude::*;
use crate::color::{RGB, Paint};

verus! {

/// ASCII decimal digits of `n`, most significant first, no leading zeros.
pub open spec fn decimal(n: nat) -> Seq<u8>
    decreases n,
{
    if n < 10 {
        seq![(48 + n) as u8]
    } else {
        decimal(n / 10).push((48 + n % 10) as u8)
    }
}

/// `r;g;b` in decimal.
pub open spec fn rgb_params(c: RGB) -> Seq<u8> {
    decimal(c.r as nat) + seq![59u8] + decimal(c.g as nat) + seq![59u8] + decimal(c.b as nat)
}

/// `ESC[38;2;` : select a truecolor foreground.
pub open spec fn fg_intro() -> Seq<u8> {
    seq![27u8, 91, 51, 56, 59, 50, 59]
}

/// `ESC[48;2;` : select a truecolor background.
pub open spec fn bg_intro() -> Seq<u8> {
    seq![27u8, 91, 52, 56, 59, 50, 59]
}

/// `;38;2;` : a truecolor foreground following another parameter.
pub open spec fn fg_follow() -> Seq<u8> {
    seq![59u8, 51, 56, 59, 50, 59]
}

/// The escape sequence written before a glyph: the foreground set to the
/// paint's color, or, inverted, the background set to it and the foreground
/// set to its contrast color.
pub open spec fn paint_seq(p: Paint, invert: bool) -> Seq<u8> {
    if invert {
        bg_intro() + rgb_params(p.color) + fg_follow() + rgb_params(p.contrast) + seq![109u8]
    } else {
        fg_intro() + rgb_params(p.color) + seq![109u8]
    }
}

/// The sequence written after colored output: `ESC[39m`, or `ESC[39;49m`
/// when the background was painted too.
pub open spec fn reset_seq(invert: bool) -> Seq<u8> {
    if invert {
        seq![27u8, 91, 51, 57, 59, 52, 57, 109]
    } else {
        seq![27u8, 91, 51, 57, 109]
    }
}

/// `ESC[49m`: restore the default background.
pub open spec fn bg_reset_seq() -> Seq<u8> {
    seq![27u8, 91, 52, 57, 109]
}

pub fn push_decimal(out: &mut Vec<u8>, n: u8)
    ensures
        final(out)@ == old(out)@ + decimal(n as nat),
{
    let ghost v = n as nat;
    if n >= 100 {
        out.push(48 + n / 100);
        out.push(48 + (n / 10) % 10);
        out.push(48 + n % 10);
        assert(decimal(v) =~= seq![(48 + v / 100) as u8, (48 + (v / 10) % 10) as u8, (48 + v % 10) as u8]) by {
            assert((v / 10) / 10 == v / 100);
            assert(decimal(v / 100) == seq![(48 + v / 100) as u8]);
            assert(decimal(v / 10) =~= decimal(v / 100).push((48 + (v / 10) % 10) as u8));
        }
    } else if n >= 10 {
        out.push(48 + n / 10);
        out.push(48 + n % 10);
        assert(decimal(v / 10) == seq![(48 + v / 10) as u8]);
        assert(decimal(v) =~= seq![(48 + v / 10) as u8, (48 + v % 10) as u8]);
    } else {
        out.push(48 + n);
    }
}

pub fn push_bytes(out: &mut Vec<u8>, b: &[u8])
    ensures
        final(out)@ == old(out)@ + b@,
{
    let ghost start = out@;
    let mut i: usize = 0;
    while i < b.len()
        invariant
            i <= b@.len(),
            out@ == start + b@.take(i as int),
        decreases b@.len() - i,
    {
        out.push(b[i]);
        i = i + 1;
        assert(out@ =~= start + b@.take(i as int));
    }
    assert(b@.take(b@.len() as int) =~= b@);
}

fn push_rgb(out: &mut Vec<u8>, c: RGB)
    ensures
        final(out)@ == old(out)@ + rgb_params(c),
{
    let ghost start = out@;
    push_decimal(out, c.r);
    out.push(59);
    push_decimal(out, c.g);
    out.push(59);
    push_decimal(out, c.b);
    assert(out@ =~= start + rgb_params(c));
}

/// Appends the escape sequence that colors the next glyph.
pub fn push_paint(out: &mut Vec<u8>, p: Paint, invert: bool)
    ensures
        final(out)@ == old(out)@ + paint_seq(p, invert),
{
    let ghost start = out@;
    if invert {
        push_bytes(out, &[27u8, 91, 52, 56, 59, 50, 59]);
        push_rgb(out, p.color);
        push_bytes(out, &[59u8, 51, 56, 59, 50, 59]);
        push_rgb(out, p.contrast);
    } else {
        push_bytes(out, &[27u8, 91, 51, 56, 59, 50, 59]);
        push_rgb(out, p.color);
    }
    out.push(109);
    assert(out@ =~= start + paint_seq(p, invert));
}

/// Appends the sequence that ends colored output.
pub fn push_reset(out: &mut Vec<u8>, invert: bool)
    ensures
        final(out)@ == old(out)@ + reset_seq(invert),
{
    let ghost start = out@;
    if invert {
        push_bytes(out, &[27u8, 91, 51, 57, 59, 52, 57, 109]);
    } else {
        push_bytes(out, &[27u8, 91, 51, 57, 109]);
    }
    assert(out@ =~= start + reset_seq(invert));
}

} // verus!
