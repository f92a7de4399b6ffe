//! Percent-encoding of path segments and query components.
//!
//! Every byte is written as `%` and two upper-case hexadecimal digits, except
//! the unreserved bytes (ASCII letters, digits, `-`, `.`, `_` and `~`), which
//! stand for themselves. Reading accepts digits of either case and leaves a
//! `%` that no two hexadecimal digits follow as it is, so it never fails.

use vstd::prelude::*;
use crate::text::is_alphanumeric;
use crate::text::has_byte;

verus! {

/// Whether `b` is written without encoding.
pub open spec fn is_unreserved(b: u8) -> bool {
    is_alphanumeric(b) || b == 0x2d || b == 0x2e || b == 0x5f || b == 0x7e
}

/// The upper-case hexadecimal digit for `n`, which is below 16.
pub open spec fn hex_digit(n: u8) -> u8 {
    if n < 10 {
        (0x30 + n) as u8
    } else {
        (0x41 + (n - 10)) as u8
    }
}

/// The number that the hexadecimal digit `c` stands for.
pub open spec fn hex_value(c: u8) -> Option<u8> {
    if 0x30 <= c <= 0x39 {
        Some((c - 0x30) as u8)
    } else if 0x41 <= c <= 0x46 {
        Some((c - 0x41 + 10) as u8)
    } else if 0x61 <= c <= 0x66 {
        Some((c - 0x61 + 10) as u8)
    } else {
        None
    }
}

/// The encoding of one byte.
pub open spec fn escape_byte(b: u8) -> Seq<u8> {
    if is_unreserved(b) {
        seq![b]
    } else {
        seq![0x25u8, hex_digit(b / 16), hex_digit(b % 16)]
    }
}

/// The encoding of `s`: the encodings of its bytes, one after the other.
pub open spec fn escape(s: Seq<u8>) -> Seq<u8>
    decreases s.len(),
{
    if s.len() == 0 {
        Seq::empty()
    } else {
        escape_byte(s[0]) + escape(s.skip(1))
    }
}

/// Whether `s` begins with `%` and two hexadecimal digits.
pub open spec fn escaped_at_front(s: Seq<u8>) -> bool {
    s.len() >= 3 && s[0] == 0x25 && hex_value(s[1]) is Some && hex_value(s[2]) is Some
}

/// The bytes that `s` encodes.
pub open spec fn unescape(s: Seq<u8>) -> Seq<u8>
    decreases s.len(),
{
    if s.len() == 0 {
        Seq::empty()
    } else if escaped_at_front(s) {
        seq![(hex_value(s[1]).unwrap() * 16 + hex_value(s[2]).unwrap()) as u8] + unescape(
            s.skip(3),
        )
    } else {
        seq![s[0]] + unescape(s.skip(1))
    }
}

/// Reading an encoding gives the bytes that were encoded.
pub proof fn lemma_unescape_escape(s: Seq<u8>)
    ensures
        unescape(escape(s)) == s,
    decreases s.len(),
{
    if s.len() > 0 {
        let b = s[0];
        let rest = escape(s.skip(1));
        let e = escape(s);
        lemma_unescape_escape(s.skip(1));
        if is_unreserved(b) {
            assert(e.skip(1) =~= rest);
        } else {
            assert(e.skip(3) =~= rest);
        }
    }
}

/// An encoding holds only unreserved bytes and `%`.
pub proof fn lemma_escape_bytes(s: Seq<u8>)
    ensures
        forall|i: int|
            0 <= i < escape(s).len() ==> is_unreserved(#[trigger] escape(s)[i]) || escape(s)[i]
                == 0x25,
    decreases s.len(),
{
    if s.len() > 0 {
        lemma_escape_bytes(s.skip(1));
        let head = escape_byte(s[0]);
        let tail = escape(s.skip(1));
        assert forall|i: int| 0 <= i < escape(s).len() implies is_unreserved(
            #[trigger] escape(s)[i],
        ) || escape(s)[i] == 0x25 by {
            if i < head.len() {
                assert(escape(s)[i] == head[i]);
            } else {
                assert(escape(s)[i] == tail[i - head.len()]);
            }
        }
    }
}

/// An encoding holds none of the bytes that separate the parts of a URI.
pub proof fn lemma_escape_has_no(s: Seq<u8>, b: u8)
    requires
        !is_unreserved(b),
        b != 0x25,
    ensures
        !has_byte(escape(s), b),
{
    lemma_escape_bytes(s);
}

/// Tests whether `b` is written without encoding.
pub fn unreserved(b: u8) -> (r: bool)
    ensures
        r == is_unreserved(b),
{
    crate::text::alphanumeric(b) || b == 0x2d || b == 0x2e || b == 0x5f || b == 0x7e
}

/// The upper-case hexadecimal digit for `n`.
pub fn to_hex_digit(n: u8) -> (r: u8)
    requires
        n < 16,
    ensures
        r == hex_digit(n),
{
    if n < 10 {
        0x30 + n
    } else {
        0x41 + (n - 10)
    }
}

/// The number that the hexadecimal digit `c` stands for, if it is one.
pub fn from_hex_digit(c: u8) -> (r: Option<u8>)
    ensures
        r == hex_value(c),
        r matches Some(n) ==> n < 16,
{
    if 0x30 <= c && c <= 0x39 {
        Some(c - 0x30)
    } else if 0x41 <= c && c <= 0x46 {
        Some(c - 0x41 + 10)
    } else if 0x61 <= c && c <= 0x66 {
        Some(c - 0x61 + 10)
    } else {
        None
    }
}

/// Puts the encoding of `s` at the end of `out`.
pub fn escape_into(out: &mut Vec<u8>, s: &[u8])
    ensures
        final(out)@ == old(out)@ + escape(s@),
{
    let mut i: usize = 0;
    assert(s@.skip(0) =~= s@);
    while i < s.len()
        invariant
            i <= s.len(),
            out@ + escape(s@.skip(i as int)) == old(out)@ + escape(s@),
        decreases s.len() - i,
    {
        let ghost rest = s@.skip(i as int);
        assert(rest.skip(1) =~= s@.skip(i + 1));
        let b: u8 = s[i];
        if unreserved(b) {
            out.push(b);
        } else {
            out.push(0x25);
            out.push(to_hex_digit(b / 16));
            out.push(to_hex_digit(b % 16));
        }
        i += 1;
    }
}

/// The encoding of `s`.
pub fn escaped(s: &[u8]) -> (r: Vec<u8>)
    ensures
        r@ == escape(s@),
{
    let mut r: Vec<u8> = Vec::new();
    escape_into(&mut r, s);
    r
}

/// The bytes that `s` encodes.
pub fn unescaped(s: &[u8]) -> (r: Vec<u8>)
    ensures
        r@ == unescape(s@),
{
    let mut out: Vec<u8> = Vec::new();
    let mut i: usize = 0;
    assert(s@.skip(0) =~= s@);
    while i < s.len()
        invariant
            i <= s.len(),
            out@ + unescape(s@.skip(i as int)) == unescape(s@),
        decreases s.len() - i,
    {
        let ghost rest = s@.skip(i as int);
        let mut step: usize = 1;
        let mut byte: u8 = s[i];
        if s[i] == 0x25 && s.len() - i >= 3 {
            let high = from_hex_digit(s[i + 1]);
            let low = from_hex_digit(s[i + 2]);
            if let Some(h) = high {
                if let Some(l) = low {
                    step = 3;
                    byte = h * 16 + l;
                }
            }
        }
        out.push(byte);
        assert(rest.skip(step as int) =~= s@.skip(i + step));
        i += step;
    }
    out
}

} // verus!
