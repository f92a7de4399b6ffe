//! Scanning the text of a definition.
//!
//! The functions here find where something ends that begins at a given
//! place: a run of blanks, a word, a string, an attribute, a type.

use vstd::prelude::*;
use crate::text::is_blank;
use crate::text::is_ident_byte;

verus! {

/// The place of the first byte from `i` on that is no blank.
pub open spec fn skip_blanks(s: Seq<u8>, i: int) -> int
    decreases s.len() - i,
{
    if 0 <= i < s.len() && is_blank(s[i]) {
        skip_blanks(s, i + 1)
    } else {
        i
    }
}

/// The place of the first byte from `i` on that cannot stand in a word.
pub open spec fn word_end(s: Seq<u8>, i: int) -> int
    decreases s.len() - i,
{
    if 0 <= i < s.len() && is_ident_byte(s[i]) {
        word_end(s, i + 1)
    } else {
        i
    }
}

/// Whether `b` opens a pair of brackets.
pub open spec fn is_opening(b: u8) -> bool {
    b == 0x28 || b == 0x5b || b == 0x7b
}

/// Whether `b` closes a pair of brackets.
pub open spec fn is_closing(b: u8) -> bool {
    b == 0x29 || b == 0x5d || b == 0x7d
}

/// The place of the bracket that closes what was open before `i`, where
/// `depth` pairs of brackets have been opened since and `quoted` says
/// whether `i` stands inside a string; the length of `s` where nothing
/// closes it. Brackets inside strings do not count, and inside a string a
/// byte after `\` does not end it.
pub open spec fn attribute_end(s: Seq<u8>, i: int, depth: int, quoted: bool) -> int
    decreases s.len() - i,
{
    if i < 0 || i >= s.len() {
        i
    } else if quoted {
        if s[i] == 0x5c && i + 1 < s.len() {
            attribute_end(s, i + 2, depth, true)
        } else {
            attribute_end(s, i + 1, depth, s[i] != 0x22)
        }
    } else if s[i] == 0x22 {
        attribute_end(s, i + 1, depth, true)
    } else if is_opening(s[i]) {
        attribute_end(s, i + 1, depth + 1, false)
    } else if is_closing(s[i]) {
        if depth <= 0 {
            i
        } else {
            attribute_end(s, i + 1, depth - 1, false)
        }
    } else {
        attribute_end(s, i + 1, depth, false)
    }
}

/// The place at which the type that begins at `i` ends, where `depth` pairs
/// of brackets are open: at the first `,` outside all brackets, or at the
/// first closing bracket that nothing opened; the length of `s` where there
/// is neither. Here `<` and `>` are brackets too, but for the `>` of `->`.
pub open spec fn type_end(s: Seq<u8>, i: int, depth: int) -> int
    decreases s.len() - i,
{
    if i < 0 || i >= s.len() {
        i
    } else if s[i] == 0x2d && i + 1 < s.len() && s[i + 1] == 0x3e {
        type_end(s, i + 2, depth)
    } else if is_opening(s[i]) || s[i] == 0x3c {
        type_end(s, i + 1, depth + 1)
    } else if is_closing(s[i]) || s[i] == 0x3e {
        if depth <= 0 {
            i
        } else {
            type_end(s, i + 1, depth - 1)
        }
    } else if s[i] == 0x2c && depth <= 0 {
        i
    } else {
        type_end(s, i + 1, depth)
    }
}

/// The byte that `\` and `b` stand for in a string.
pub open spec fn escape_value(b: u8) -> Option<u8> {
    if b == 0x6e {
        Some(0x0au8)
    } else if b == 0x72 {
        Some(0x0du8)
    } else if b == 0x74 {
        Some(0x09u8)
    } else if b == 0x30 {
        Some(0x00u8)
    } else if b == 0x5c || b == 0x22 || b == 0x27 {
        Some(b)
    } else {
        None
    }
}

/// What the string holds whose text begins at `i`, after its opening `"`,
/// and the place after its closing `"`; `None` where the string does not
/// end or holds `\` before a byte that it cannot stand before.
pub open spec fn string_at(s: Seq<u8>, i: int) -> Option<(Seq<u8>, int)>
    decreases s.len() - i,
{
    if i < 0 || i >= s.len() {
        None
    } else if s[i] == 0x22 {
        Some((Seq::empty(), i + 1))
    } else if s[i] == 0x5c {
        if i + 1 < s.len() && escape_value(s[i + 1]) is Some {
            match string_at(s, i + 2) {
                Some((rest, end)) => Some((seq![escape_value(s[i + 1]).unwrap()] + rest, end)),
                None => None,
            }
        } else {
            None
        }
    } else {
        match string_at(s, i + 1) {
            Some((rest, end)) => Some((seq![s[i]] + rest, end)),
            None => None,
        }
    }
}

/// Skipping blanks goes forward, not beyond the end, and stops at a byte
/// that is no blank.
pub proof fn lemma_skip_blanks(s: Seq<u8>, i: int)
    requires
        0 <= i <= s.len(),
    ensures
        i <= skip_blanks(s, i) <= s.len(),
        skip_blanks(s, i) < s.len() ==> !is_blank(s[skip_blanks(s, i)]),
        skip_blanks(s, skip_blanks(s, i)) == skip_blanks(s, i),
    decreases s.len() - i,
{
    if i < s.len() && is_blank(s[i]) {
        lemma_skip_blanks(s, i + 1);
    }
}

/// A word ends at or after its beginning, not beyond the end.
pub proof fn lemma_word_end(s: Seq<u8>, i: int)
    requires
        0 <= i <= s.len(),
    ensures
        i <= word_end(s, i) <= s.len(),
        i < s.len() && is_ident_byte(s[i]) ==> i < word_end(s, i),
    decreases s.len() - i,
{
    if i < s.len() && is_ident_byte(s[i]) {
        lemma_word_end(s, i + 1);
    }
}

/// An attribute ends at or after its beginning, not beyond the end.
pub proof fn lemma_attribute_end(s: Seq<u8>, i: int, depth: int, quoted: bool)
    requires
        0 <= i <= s.len(),
    ensures
        i <= attribute_end(s, i, depth, quoted) <= s.len(),
    decreases s.len() - i,
{
    if i < s.len() {
        if quoted {
            if s[i] == 0x5c && i + 1 < s.len() {
                lemma_attribute_end(s, i + 2, depth, true);
            } else {
                lemma_attribute_end(s, i + 1, depth, s[i] != 0x22);
            }
        } else if s[i] == 0x22 {
            lemma_attribute_end(s, i + 1, depth, true);
        } else if is_opening(s[i]) {
            lemma_attribute_end(s, i + 1, depth + 1, false);
        } else if is_closing(s[i]) {
            if depth > 0 {
                lemma_attribute_end(s, i + 1, depth - 1, false);
            }
        } else {
            lemma_attribute_end(s, i + 1, depth, false);
        }
    }
}

/// A type ends at or after its beginning, not beyond the end.
pub proof fn lemma_type_end(s: Seq<u8>, i: int, depth: int)
    requires
        0 <= i <= s.len(),
    ensures
        i <= type_end(s, i, depth) <= s.len(),
    decreases s.len() - i,
{
    if i < s.len() {
        if s[i] == 0x2d && i + 1 < s.len() && s[i + 1] == 0x3e {
            lemma_type_end(s, i + 2, depth);
        } else if is_opening(s[i]) || s[i] == 0x3c {
            lemma_type_end(s, i + 1, depth + 1);
        } else if is_closing(s[i]) || s[i] == 0x3e {
            if depth > 0 {
                lemma_type_end(s, i + 1, depth - 1);
            }
        } else if !(s[i] == 0x2c && depth <= 0) {
            lemma_type_end(s, i + 1, depth);
        }
    }
}

/// A string ends after its beginning, not beyond the end.
pub proof fn lemma_string_at(s: Seq<u8>, i: int)
    requires
        0 <= i <= s.len(),
    ensures
        string_at(s, i) matches Some((_, end)) ==> i < end <= s.len(),
    decreases s.len() - i,
{
    if i < s.len() && s[i] != 0x22 {
        if s[i] == 0x5c {
            if i + 1 < s.len() {
                lemma_string_at(s, i + 2);
            }
        } else {
            lemma_string_at(s, i + 1);
        }
    }
}

/// The place of the first byte from `i` on that is no blank.
pub fn blanks_end(s: &[u8], i: usize) -> (r: usize)
    requires
        i <= s.len(),
    ensures
        r == skip_blanks(s@, i as int),
        i <= r <= s.len(),
{
    let mut j: usize = i;
    while j < s.len() && crate::text::blank(s[j])
        invariant
            i <= j <= s.len(),
            skip_blanks(s@, i as int) == skip_blanks(s@, j as int),
        decreases s.len() - j,
    {
        j += 1;
    }
    j
}

/// The place of the first byte from `i` on that cannot stand in a word.
pub fn find_word_end(s: &[u8], i: usize) -> (r: usize)
    requires
        i <= s.len(),
    ensures
        r == word_end(s@, i as int),
        i <= r <= s.len(),
{
    let mut j: usize = i;
    while j < s.len() && (crate::text::alphanumeric(s[j]) || s[j] == 0x5f)
        invariant
            i <= j <= s.len(),
            word_end(s@, i as int) == word_end(s@, j as int),
        decreases s.len() - j,
    {
        j += 1;
    }
    j
}

/// The place of the bracket that closes the attribute whose text begins at
/// `i`, or the length of `s`.
pub fn find_attribute_end(s: &[u8], i: usize) -> (r: usize)
    requires
        i <= s.len(),
    ensures
        r == attribute_end(s@, i as int, 0, false),
        i <= r <= s.len(),
{
    let mut j: usize = i;
    let mut depth: usize = 0;
    let mut quoted: bool = false;
    while j < s.len()
        invariant
            i <= j <= s.len(),
            depth <= j - i,
            attribute_end(s@, i as int, 0, false) == attribute_end(
                s@,
                j as int,
                depth as int,
                quoted,
            ),
        decreases s.len() - j,
    {
        let b: u8 = s[j];
        if quoted {
            if b == 0x5c && s.len() - j > 1 {
                j += 2;
            } else {
                quoted = b != 0x22;
                j += 1;
            }
        } else if b == 0x22 {
            quoted = true;
            j += 1;
        } else if b == 0x28 || b == 0x5b || b == 0x7b {
            depth += 1;
            j += 1;
        } else if b == 0x29 || b == 0x5d || b == 0x7d {
            if depth == 0 {
                return j;
            }
            depth -= 1;
            j += 1;
        } else {
            j += 1;
        }
    }
    j
}

/// The place at which the type that begins at `i` ends.
pub fn find_type_end(s: &[u8], i: usize) -> (r: usize)
    requires
        i <= s.len(),
    ensures
        r == type_end(s@, i as int, 0),
        i <= r <= s.len(),
{
    let mut j: usize = i;
    let mut depth: usize = 0;
    while j < s.len()
        invariant
            i <= j <= s.len(),
            depth <= j - i,
            type_end(s@, i as int, 0) == type_end(s@, j as int, depth as int),
        decreases s.len() - j,
    {
        let b: u8 = s[j];
        if b == 0x2d && s.len() - j > 1 && s[j + 1] == 0x3e {
            j += 2;
        } else if b == 0x28 || b == 0x5b || b == 0x7b || b == 0x3c {
            depth += 1;
            j += 1;
        } else if b == 0x29 || b == 0x5d || b == 0x7d || b == 0x3e {
            if depth == 0 {
                return j;
            }
            depth -= 1;
            j += 1;
        } else if b == 0x2c && depth == 0 {
            return j;
        } else {
            j += 1;
        }
    }
    j
}

/// The byte that `\` and `b` stand for in a string.
pub fn read_escape(b: u8) -> (r: Option<u8>)
    ensures
        r == escape_value(b),
{
    if b == 0x6e {
        Some(0x0a)
    } else if b == 0x72 {
        Some(0x0d)
    } else if b == 0x74 {
        Some(0x09)
    } else if b == 0x30 {
        Some(0x00)
    } else if b == 0x5c || b == 0x22 || b == 0x27 {
        Some(b)
    } else {
        None
    }
}

/// What two strings give, one after the other.
pub open spec fn after(head: Seq<u8>, tail: Option<(Seq<u8>, int)>) -> Option<(Seq<u8>, int)> {
    match tail {
        Some((rest, end)) => Some((head + rest, end)),
        None => None,
    }
}

/// Reads the string whose text begins at `i`, after its opening `"`.
pub fn read_string(s: &[u8], i: usize) -> (r: Option<(Vec<u8>, usize)>)
    requires
        i <= s.len(),
    ensures
        match r {
            Some((text, end)) => string_at(s@, i as int) == Some((text@, end as int)) && i < end
                <= s.len(),
            None => string_at(s@, i as int) is None,
        },
{
    let mut out: Vec<u8> = Vec::new();
    let mut j: usize = i;
    while j < s.len()
        invariant
            i <= j <= s.len(),
            after(out@, string_at(s@, j as int)) == string_at(s@, i as int),
        decreases s.len() - j,
    {
        let b: u8 = s[j];
        if b == 0x22 {
            return Some((out, j + 1));
        }
        if b == 0x5c {
            if s.len() - j <= 1 {
                return None;
            }
            match read_escape(s[j + 1]) {
                None => {
                    return None;
                },
                Some(value) => {
                    out.push(value);
                    j += 2;
                },
            }
        } else {
            out.push(b);
            j += 1;
        }
    }
    None
}

} // verus!
