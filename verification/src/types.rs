//! The syntax of types.
//!
//! Types are held as text. A text is taken as a type where it is plain and
//! has the syntax of a Rust type. A plain text holds names, numbers,
//! lifetimes and punctuation only: no string, no character, no braces, and
//! after a `;` nothing but the one word that is the length of an array, so
//! that no expression stands in it. The greatest number of its brackets
//! that are open at once, and the number of its `&`, `*` and `->`, are
//! together at most `NESTING_LIMIT`. Whether a plain text has the syntax of
//! a type is asked of `syn`.
//!
//! So some texts that are types of Rust are not taken as types here: a type
//! with a string (`extern "C" fn()`), with an argument in braces
//! (`Foo<{ N }>`), with an array length that is more than one word
//! (`[u8; N + 1]`), or with more of `&`, `*`, `->` and open brackets than
//! the limit.

use vstd::prelude::*;
use crate::syntax::skip_blanks;
use crate::syntax::word_end;
use crate::text::is_blank;
use crate::text::is_ident_byte;
use crate::text::is_ident_start;

verus! {

/// The greatest depth to which the parser of types is let call itself: it
/// does so once for each bracket that is open and once for each `&`, `*`
/// and `->`. This is what it can take on a small stack.
pub const NESTING_LIMIT: usize = 32;

/// Whether `b` is a digit.
pub open spec fn is_digit(b: u8) -> bool {
    0x30 <= b <= 0x39
}

/// Whether `b` is one of the punctuation marks of a plain text:
/// `: ; , < > ( ) [ ] & * ' - = + ! ?`.
pub open spec fn is_type_mark(b: u8) -> bool {
    b == 0x3a || b == 0x3b || b == 0x2c || b == 0x3c || b == 0x3e || b == 0x28 || b == 0x29 || b
        == 0x5b || b == 0x5d || b == 0x26 || b == 0x2a || b == 0x27 || b == 0x2d || b == 0x3d || b
        == 0x2b || b == 0x21 || b == 0x3f
}

/// Whether `b` opens a pair of brackets of a type: `(`, `[` or `<`.
pub open spec fn opens_bracket(b: u8) -> bool {
    b == 0x28 || b == 0x5b || b == 0x3c
}

/// Whether the byte at `i` closes a pair of brackets of a type: `)`, `]`,
/// or a `>` that is not the end of `->`.
pub open spec fn closes_bracket(s: Seq<u8>, i: int) -> bool {
    s[i] == 0x29 || s[i] == 0x5d || (s[i] == 0x3e && !(i > 0 && s[i - 1] == 0x2d))
}

/// The number of brackets that are open after the first `n` bytes.
pub open spec fn open_after(s: Seq<u8>, n: int) -> int
    decreases n,
{
    if n <= 0 {
        0
    } else if opens_bracket(s[n - 1]) {
        open_after(s, n - 1) + 1
    } else if closes_bracket(s, n - 1) && open_after(s, n - 1) > 0 {
        open_after(s, n - 1) - 1
    } else {
        open_after(s, n - 1)
    }
}

/// The greatest number of brackets that are open at once among the first
/// `n` bytes.
pub open spec fn deepest(s: Seq<u8>, n: int) -> int
    decreases n,
{
    if n <= 0 {
        0
    } else if open_after(s, n) > deepest(s, n - 1) {
        open_after(s, n)
    } else {
        deepest(s, n - 1)
    }
}

/// Whether a type follows the byte at `i` that stands inside the type
/// before it: after `&`, after `*`, and after the `>` of `->`.
pub open spec fn leads_on(s: Seq<u8>, i: int) -> bool {
    s[i] == 0x26 || s[i] == 0x2a || (s[i] == 0x3e && i > 0 && s[i - 1] == 0x2d)
}

/// The number of `&`, `*` and `->` among the first `n` bytes.
pub open spec fn references(s: Seq<u8>, n: int) -> int
    decreases n,
{
    if n <= 0 {
        0
    } else if leads_on(s, n - 1) {
        references(s, n - 1) + 1
    } else {
        references(s, n - 1)
    }
}

/// A bound on the depth to which the parser of types calls itself on `s`:
/// the greatest number of brackets open at once, and the number of `&`,
/// `*` and `->`.
pub open spec fn nesting(s: Seq<u8>) -> int {
    deepest(s, s.len() as int) + references(s, s.len() as int)
}

/// Whether the word that begins at `i` is a number: digits only.
pub open spec fn is_number_at(s: Seq<u8>, i: int) -> bool {
    forall|k: int| i <= k < word_end(s, i) ==> is_digit(#[trigger] s[k])
}

/// Whether what follows the `;` at `i` is the length of an array: one word
/// and then `]`, with or without blanks around the word.
pub open spec fn is_length_after(s: Seq<u8>, i: int) -> bool {
    let from = skip_blanks(s, i + 1);
    let to = word_end(s, from);
    let next = skip_blanks(s, to);
    from < to && 0 <= next < s.len() && s[next] == 0x5d
}

/// Whether the byte at `i` may stand where it stands in a plain text: it is
/// a byte of a word, a blank or a punctuation mark; a word that begins with
/// a digit is a number; a `'` begins a lifetime, so a name follows it and
/// no word stands before it; and the length of an array follows a `;`.
pub open spec fn is_plain_at(s: Seq<u8>, i: int) -> bool {
    &&& is_ident_byte(s[i]) || is_blank(s[i]) || is_type_mark(s[i])
    &&& is_digit(s[i]) && (i == 0 || !is_ident_byte(s[i - 1])) ==> is_number_at(s, i)
    &&& s[i] == 0x27 ==> {
        &&& i == 0 || !is_ident_byte(s[i - 1])
        &&& i + 1 < s.len() && is_ident_start(s[i + 1])
    }
    &&& s[i] == 0x3b ==> is_length_after(s, i)
}

/// Whether `s` is a plain text.
pub open spec fn is_plain(s: Seq<u8>) -> bool {
    &&& nesting(s) <= NESTING_LIMIT
    &&& forall|i: int| 0 <= i < s.len() ==> is_plain_at(s, i)
}

/// Whether the plain text `text` has the syntax of a Rust type.
pub uninterp spec fn is_type_syntax(text: Seq<u8>) -> bool;

/// Whether `text` is taken as a type.
pub open spec fn is_type(text: Seq<u8>) -> bool {
    is_plain(text) && is_type_syntax(text)
}

/// Calls `syn::parse_str` for a `syn::Type` and says whether it gave one,
/// which is a function of the text alone. The text has to be plain. Then
/// the parser reads words, whole numbers, lifetimes and punctuation only:
/// no other literal, and no expression but the one word that is the length
/// of an array. It calls itself for what stands inside a pair of brackets
/// (a tuple, a slice or an array, the arguments of a function or of a
/// path), for the type after `&` and after `*`, and for the type after
/// `->`; it does so for nothing else. A plain text bounds the brackets open
/// at once and the number of `&`, `*` and `->`, and so the depth of the
/// calls.
#[verifier::external_body]
pub(crate) fn type_syntax(text: &[u8]) -> (r: bool)
    requires
        is_plain(text@),
    ensures
        r == is_type_syntax(text@),
{
    syn::parse_str::<syn::Type>(&String::from_utf8_lossy(text)).is_ok()
}

/// Tests whether the word that begins at `i` is a number.
pub fn number_at(s: &[u8], i: usize) -> (r: bool)
    requires
        i <= s.len(),
    ensures
        r == is_number_at(s@, i as int),
{
    let end = crate::syntax::find_word_end(s, i);
    let mut k: usize = i;
    while k < end
        invariant
            i <= k <= end <= s.len(),
            end == word_end(s@, i as int),
            forall|j: int| i <= j < k ==> is_digit(#[trigger] s@[j]),
        decreases end - k,
    {
        if !(0x30 <= s[k] && s[k] <= 0x39) {
            return false;
        }
        k += 1;
    }
    true
}

/// Tests whether what follows the `;` at `i` is the length of an array.
pub fn length_after(s: &[u8], i: usize) -> (r: bool)
    requires
        i < s.len(),
    ensures
        r == is_length_after(s@, i as int),
{
    let from = crate::syntax::blanks_end(s, i + 1);
    let to = crate::syntax::find_word_end(s, from);
    let next = crate::syntax::blanks_end(s, to);
    from < to && next < s.len() && s[next] == 0x5d
}

/// Tests whether the byte at `i` may stand where it stands in a plain text.
pub fn plain_at(s: &[u8], i: usize) -> (r: bool)
    requires
        i < s.len(),
    ensures
        r == is_plain_at(s@, i as int),
{
    let b: u8 = s[i];
    let named = crate::text::alphanumeric(b) || b == 0x5f;
    let mark = b == 0x3a || b == 0x3b || b == 0x2c || b == 0x3c || b == 0x3e || b == 0x28 || b
        == 0x29 || b == 0x5b || b == 0x5d || b == 0x26 || b == 0x2a || b == 0x27 || b == 0x2d || b
        == 0x3d || b == 0x2b || b == 0x21 || b == 0x3f;
    if !(named || crate::text::blank(b) || mark) {
        return false;
    }
    let after_word = i > 0 && (crate::text::alphanumeric(s[i - 1]) || s[i - 1] == 0x5f);
    if 0x30 <= b && b <= 0x39 && !after_word {
        return number_at(s, i);
    }
    if b == 0x27 {
        if after_word {
            return false;
        }
        if s.len() - i <= 1 {
            return false;
        }
        let next: u8 = s[i + 1];
        return (0x41 <= next && next <= 0x5a) || (0x61 <= next && next <= 0x7a) || next == 0x5f;
    }
    if b == 0x3b {
        return length_after(s, i);
    }
    true
}

/// Tests whether `s` is a plain text.
pub fn plain(s: &[u8]) -> (r: bool)
    ensures
        r == is_plain(s@),
{
    let mut open: usize = 0;
    let mut most: usize = 0;
    let mut marks: usize = 0;
    let mut i: usize = 0;
    while i < s.len()
        invariant
            i <= s.len(),
            open == open_after(s@, i as int),
            most == deepest(s@, i as int),
            marks == references(s@, i as int),
            open <= most <= i,
            marks <= i,
            forall|j: int| 0 <= j < i ==> is_plain_at(s@, j),
        decreases s.len() - i,
    {
        if !plain_at(s, i) {
            return false;
        }
        let b: u8 = s[i];
        if b == 0x28 || b == 0x5b || b == 0x3c {
            open += 1;
        } else if (b == 0x29 || b == 0x5d || (b == 0x3e && !(i > 0 && s[i - 1] == 0x2d))) && open
            > 0 {
            open -= 1;
        }
        if open > most {
            most = open;
        }
        if b == 0x26 || b == 0x2a || (b == 0x3e && i > 0 && s[i - 1] == 0x2d) {
            marks += 1;
        }
        i += 1;
    }
    most <= NESTING_LIMIT && marks <= NESTING_LIMIT - most
}

/// Tests whether `text` is taken as a type.
pub fn type_accepted(text: &[u8]) -> (r: bool)
    ensures
        r == is_type(text@),
{
    plain(text) && type_syntax(text)
}

} // verus!
