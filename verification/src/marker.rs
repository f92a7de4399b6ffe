//! Location markers.
//!
//! A marker is the text between the brackets of a `ruma_api` attribute: one
//! of the words `path`, `query`, `query_map`, `body` and `newtype_body`, or
//! `header = NAME`, where `NAME` is the name of a header in upper case with
//! `_` between its words. Blanks around the words do not count.

use vstd::prelude::*;
use crate::schema::is_header_name;
use crate::schema::FieldLocation;
use crate::text::ascii;
use crate::text::cut;
use crate::text::has_byte;
use crate::text::trim;

verus! {

/// The location that a marker's word stands for.
pub open spec fn word_location(word: Seq<u8>) -> Option<FieldLocation> {
    if word == ascii("path"@) {
        Some(FieldLocation::Path)
    } else if word == ascii("query"@) {
        Some(FieldLocation::Query)
    } else if word == ascii("query_map"@) {
        Some(FieldLocation::QueryMap)
    } else if word == ascii("header"@) {
        Some(FieldLocation::Header)
    } else if word == ascii("body"@) {
        Some(FieldLocation::Body)
    } else if word == ascii("newtype_body"@) {
        Some(FieldLocation::NewtypeBody)
    } else {
        None
    }
}

/// Whether `b` may stand in the name of a header as a marker gives it: an
/// upper-case letter, a digit or `_`.
pub open spec fn is_constant_byte(b: u8) -> bool {
    (0x41 <= b <= 0x5a) || (0x30 <= b <= 0x39) || b == 0x5f
}

/// Whether `s` is the name of a header as a marker gives it.
pub open spec fn is_header_constant(s: Seq<u8>) -> bool {
    &&& s.len() > 0
    &&& forall|i: int| 0 <= i < s.len() ==> is_constant_byte(#[trigger] s[i])
}

/// The byte on the wire for a byte of a header's name in a marker: the
/// lower-case letter for an upper-case one, `-` for `_`.
pub open spec fn wire_byte(b: u8) -> u8 {
    if 0x41 <= b <= 0x5a {
        (b + 0x20) as u8
    } else if b == 0x5f {
        0x2d
    } else {
        b
    }
}

/// The name on the wire of the header that a marker names.
pub open spec fn wire_name(s: Seq<u8>) -> Seq<u8> {
    Seq::new(s.len(), |i: int| wire_byte(s[i]))
}

/// The location that a marker stands for, with the name of the header on
/// the wire where the location is a header; `None` where the marker is not
/// recognized.
pub open spec fn marker(tokens: Seq<u8>) -> Option<(FieldLocation, Seq<u8>)> {
    let word = trim(cut(tokens, 0x3d).0);
    let value = trim(cut(tokens, 0x3d).1);
    match word_location(word) {
        Some(FieldLocation::Header) => if has_byte(tokens, 0x3d) && is_header_constant(value) {
            Some((FieldLocation::Header, wire_name(value)))
        } else {
            None
        },
        Some(location) => if has_byte(tokens, 0x3d) {
            None
        } else {
            Some((location, Seq::empty()))
        },
        None => None,
    }
}

/// The name on the wire of a header that a marker names is a header name.
pub proof fn lemma_wire_name(s: Seq<u8>)
    requires
        is_header_constant(s),
    ensures
        is_header_name(wire_name(s)),
{
    assert forall|i: int| 0 <= i < wire_name(s).len() implies {
        let b = #[trigger] wire_name(s)[i];
        (0x61 <= b <= 0x7a) || (0x30 <= b <= 0x39) || b == 0x2d
    } by {
        assert(is_constant_byte(s[i]));
    }
}

/// The location that a marker's word stands for.
pub fn location_of_word(word: &[u8]) -> (r: Option<FieldLocation>)
    ensures
        r == word_location(word@),
{
    proof {
        reveal_strlit("path");
        reveal_strlit("query");
        reveal_strlit("query_map");
        reveal_strlit("header");
        reveal_strlit("body");
        reveal_strlit("newtype_body");
    }
    if crate::text::is_word(word, "path") {
        Some(FieldLocation::Path)
    } else if crate::text::is_word(word, "query") {
        Some(FieldLocation::Query)
    } else if crate::text::is_word(word, "query_map") {
        Some(FieldLocation::QueryMap)
    } else if crate::text::is_word(word, "header") {
        Some(FieldLocation::Header)
    } else if crate::text::is_word(word, "body") {
        Some(FieldLocation::Body)
    } else if crate::text::is_word(word, "newtype_body") {
        Some(FieldLocation::NewtypeBody)
    } else {
        None
    }
}

/// Tests whether `s` is the name of a header as a marker gives it.
pub fn header_constant(s: &[u8]) -> (r: bool)
    ensures
        r == is_header_constant(s@),
{
    if s.len() == 0 {
        return false;
    }
    let mut i: usize = 0;
    while i < s.len()
        invariant
            i <= s.len(),
            forall|j: int| 0 <= j < i ==> is_constant_byte(#[trigger] s@[j]),
        decreases s.len() - i,
    {
        let b: u8 = s[i];
        if !((0x41 <= b && b <= 0x5a) || (0x30 <= b && b <= 0x39) || b == 0x5f) {
            return false;
        }
        i += 1;
    }
    true
}

/// The name on the wire of the header that a marker names.
pub fn to_wire_name(s: &[u8]) -> (r: Vec<u8>)
    ensures
        r@ == wire_name(s@),
{
    let mut out: Vec<u8> = Vec::new();
    let mut i: usize = 0;
    while i < s.len()
        invariant
            i <= s.len(),
            out.len() == i,
            forall|j: int| 0 <= j < i ==> out@[j] == wire_byte(s@[j]),
        decreases s.len() - i,
    {
        let b: u8 = s[i];
        if 0x41 <= b && b <= 0x5a {
            out.push(b + 0x20);
        } else if b == 0x5f {
            out.push(0x2d);
        } else {
            out.push(b);
        }
        i += 1;
    }
    out
}

/// Reads a marker. The header that it gives for a header field is a header
/// name.
pub fn read_marker(tokens: &[u8]) -> (r: Option<(FieldLocation, Vec<u8>)>)
    ensures
        match r {
            Some((location, header)) => {
                &&& marker(tokens@) == Some((location, header@))
                &&& location == FieldLocation::Header ==> is_header_name(header@)
            },
            None => marker(tokens@) is None,
        },
{
    let (before, after) = crate::text::cut_at_byte(tokens, 0x3d);
    let word = crate::text::trimmed(before.as_slice());
    let value = crate::text::trimmed(after.as_slice());
    let assigned = crate::text::contains_byte(tokens, 0x3d);
    match location_of_word(word.as_slice()) {
        Some(FieldLocation::Header) => {
            if assigned && header_constant(value.as_slice()) {
                proof {
                    lemma_wire_name(value@);
                }
                Some((FieldLocation::Header, to_wire_name(value.as_slice())))
            } else {
                None
            }
        },
        Some(location) => {
            if assigned {
                None
            } else {
                Some((location, Vec::new()))
            }
        },
        None => None,
    }
}

} // verus!
