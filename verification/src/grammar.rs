//! The language of definitions.
//!
//! A definition is a text of three sections and, after them, the clause that
//! names the error type:
//!
//! ```text
//! metadata: { key: value, ... }
//! request: { #[attribute] pub name: Type, ... }
//! response: { #[attribute] pub name: Type, ... }
//! error: Type
//! ```
//!
//! A value is a string in double quotes, a word, `true` or `false`. A field
//! has any number of attributes, may begin with `pub`, and its type goes up
//! to the next `,` outside all brackets. Blanks may stand between any two of
//! these parts, and a `,` may stand after the last entry or field. The
//! clause at the end may be missing; nothing else may follow the sections.

use vstd::prelude::*;
use crate::api::Definition;
use crate::api::DefinitionView;
use crate::error::ClauseError;
use crate::error::Expected;
use crate::error::Fault;
use crate::error::SyntaxError;
use crate::metadata::meta_entries;
use crate::metadata::MetaEntry;
use crate::metadata::MetaValue;
use crate::metadata::MetaValueView;
use crate::schema::attributes;
use crate::schema::decls;
use crate::schema::Attribute;
use crate::schema::FieldDecl;
use crate::schema::FieldDeclView;
use crate::syntax::attribute_end;
use crate::syntax::skip_blanks;
use crate::syntax::string_at;
use crate::syntax::type_end;
use crate::syntax::word_end;
use crate::text::ascii;
use crate::text::is_ident_byte;
use crate::text::is_ident_start;
use crate::text::trim;

verus! {

/// The place after the byte `b`, which is the next byte that is no blank.
pub open spec fn the_byte(s: Seq<u8>, i: int, b: u8, expected: Expected) -> Result<int, Fault> {
    let j = skip_blanks(s, i);
    if 0 <= j < s.len() && s[j] == b {
        Ok(j + 1)
    } else {
        Err(Fault { at: j, expected })
    }
}

/// The name that begins at the next byte that is no blank, and the place
/// after it.
pub open spec fn the_name(s: Seq<u8>, i: int) -> Result<(Seq<u8>, int), Fault> {
    let j = skip_blanks(s, i);
    let end = word_end(s, j);
    if 0 <= j < end <= s.len() && is_ident_start(s[j]) {
        Ok((s.subrange(j, end), end))
    } else {
        Err(Fault { at: j, expected: Expected::Name })
    }
}

/// The place after the word `word`, which is the next name.
pub open spec fn the_keyword(s: Seq<u8>, i: int, word: Seq<u8>) -> Result<int, Fault> {
    match the_name(s, i) {
        Ok((name, end)) => if name == word {
            Ok(end)
        } else {
            Err(Fault { at: skip_blanks(s, i), expected: Expected::Keyword })
        },
        Err(_) => Err(Fault { at: skip_blanks(s, i), expected: Expected::Keyword }),
    }
}

/// The value that a word stands for.
pub open spec fn word_value(word: Seq<u8>) -> MetaValueView {
    if word == ascii("true"@) {
        MetaValueView::Flag(true)
    } else if word == ascii("false"@) {
        MetaValueView::Flag(false)
    } else {
        MetaValueView::Word(word)
    }
}

/// The value that begins at the next byte that is no blank, and the place
/// after it.
pub open spec fn the_value(s: Seq<u8>, i: int) -> Result<(MetaValueView, int), Fault> {
    let j = skip_blanks(s, i);
    if 0 <= j < s.len() && s[j] == 0x22 {
        match string_at(s, j + 1) {
            Some((text, end)) => Ok((MetaValueView::Text(text), end)),
            None => Err(Fault { at: j, expected: Expected::StringEnd }),
        }
    } else {
        match the_name(s, j) {
            Ok((word, end)) => Ok((word_value(word), end)),
            Err(_) => Err(Fault { at: j, expected: Expected::Value }),
        }
    }
}

/// The entry `key: value` that comes next, and the place after it.
pub open spec fn the_entry(s: Seq<u8>, i: int) -> Result<((Seq<u8>, MetaValueView), int), Fault> {
    match the_name(s, i) {
        Err(f) => Err(f),
        Ok((key, a)) => match the_byte(s, a, 0x3a, Expected::Colon) {
            Err(f) => Err(f),
            Ok(b) => match the_value(s, b) {
                Err(f) => Err(f),
                Ok((value, c)) => Ok(((key, value), c)),
            },
        },
    }
}

/// The entries up to the `}` that closes their section, and the place after
/// that `}`.
pub open spec fn the_entries(s: Seq<u8>, i: int) -> Result<
    (Seq<(Seq<u8>, MetaValueView)>, int),
    Fault,
>
    decreases s.len() - i,
{
    let j = skip_blanks(s, i);
    if i < 0 || i > s.len() {
        Err(Fault { at: i, expected: Expected::Separator })
    } else if 0 <= j < s.len() && s[j] == 0x7d {
        Ok((Seq::empty(), j + 1))
    } else {
        match the_entry(s, j) {
            Err(f) => Err(f),
            Ok((entry, a)) => {
                let k = skip_blanks(s, a);
                if 0 <= k < s.len() && s[k] == 0x2c {
                    proof {
                        crate::syntax::lemma_skip_blanks(s, i);
                        lemma_the_entry(s, j);
                        crate::syntax::lemma_skip_blanks(s, a);
                    }
                    match the_entries(s, k + 1) {
                        Err(f) => Err(f),
                        Ok((rest, end)) => Ok((seq![entry] + rest, end)),
                    }
                } else if 0 <= k < s.len() && s[k] == 0x7d {
                    Ok((seq![entry], k + 1))
                } else {
                    Err(Fault { at: k, expected: Expected::Separator })
                }
            },
        }
    }
}

/// Whether `b` may stand in the path of an attribute.
pub open spec fn is_path_name_byte(b: u8) -> bool {
    is_ident_byte(b) || b == 0x3a
}

/// The place of the first byte from `i` on that cannot stand in the path of
/// an attribute.
pub open spec fn path_end(s: Seq<u8>, i: int) -> int
    decreases s.len() - i,
{
    if 0 <= i < s.len() && is_path_name_byte(s[i]) {
        path_end(s, i + 1)
    } else {
        i
    }
}

/// What stands between the brackets that follow a path, if `rest` is such a
/// pair of brackets; else `rest` as it is.
pub open spec fn unwrapped(rest: Seq<u8>) -> Seq<u8> {
    if rest.len() >= 2 && rest[0] == 0x28 && rest[rest.len() - 1] == 0x29 {
        trim(rest.subrange(1, rest.len() - 1))
    } else {
        rest
    }
}

/// The path and the tokens of the attribute with the text `inner` between
/// its `#[` and its `]`.
pub open spec fn attribute_parts(inner: Seq<u8>) -> (Seq<u8>, Seq<u8>) {
    let body = trim(inner);
    let p = path_end(body, 0);
    (body.take(p), unwrapped(trim(body.skip(p))))
}

/// The attribute whose `#` stands before `i`, and the place after it.
pub open spec fn the_attribute(s: Seq<u8>, i: int) -> Result<((Seq<u8>, Seq<u8>), int), Fault> {
    match the_byte(s, i, 0x5b, Expected::OpenBracket) {
        Err(f) => Err(f),
        Ok(a) => {
            let end = attribute_end(s, a, 0, false);
            if 0 <= a <= end < s.len() && s[end] == 0x5d {
                Ok((attribute_parts(s.subrange(a, end)), end + 1))
            } else {
                Err(Fault { at: end, expected: Expected::AttributeEnd })
            }
        },
    }
}

/// The attributes that come next, and the place after them.
pub open spec fn the_attributes(s: Seq<u8>, i: int) -> Result<
    (Seq<(Seq<u8>, Seq<u8>)>, int),
    Fault,
>
    decreases s.len() - i,
{
    let j = skip_blanks(s, i);
    if i < 0 || i > s.len() {
        Err(Fault { at: i, expected: Expected::Name })
    } else if 0 <= j < s.len() && s[j] == 0x23 {
        match the_attribute(s, j + 1) {
            Err(f) => Err(f),
            Ok((attribute, a)) => {
                proof {
                    crate::syntax::lemma_skip_blanks(s, i);
                    lemma_the_attribute(s, j + 1);
                }
                match the_attributes(s, a) {
                    Err(f) => Err(f),
                    Ok((rest, end)) => Ok((seq![attribute] + rest, end)),
                }
            },
        }
    } else {
        Ok((Seq::empty(), j))
    }
}

/// The name of the field that comes next, after `pub` if the field begins
/// with it, and the place after the name.
pub open spec fn the_field_name(s: Seq<u8>, i: int) -> Result<(Seq<u8>, int), Fault> {
    match the_name(s, i) {
        Err(f) => Err(f),
        Ok((first, a)) => if first == ascii("pub"@) {
            the_name(s, a)
        } else {
            Ok((first, a))
        },
    }
}

/// The field that comes next, and the place after it.
pub open spec fn the_field(s: Seq<u8>, i: int) -> Result<(FieldDeclView, int), Fault> {
    match the_attributes(s, i) {
        Err(f) => Err(f),
        Ok((attrs, a)) => match the_field_name(s, a) {
            Err(f) => Err(f),
            Ok((name, b)) => match the_byte(s, b, 0x3a, Expected::Colon) {
                Err(f) => Err(f),
                Ok(c) => {
                    let j = skip_blanks(s, c);
                    let end = type_end(s, j, 0);
                    let ty = trim(s.subrange(j, end));
                    if ty.len() == 0 {
                        Err(Fault { at: j, expected: Expected::Type })
                    } else {
                        Ok((FieldDeclView { attrs, name, ty }, end))
                    }
                },
            },
        },
    }
}

/// The fields up to the `}` that closes their section, and the place after
/// that `}`.
pub open spec fn the_fields(s: Seq<u8>, i: int) -> Result<(Seq<FieldDeclView>, int), Fault>
    decreases s.len() - i,
{
    let j = skip_blanks(s, i);
    if i < 0 || i > s.len() {
        Err(Fault { at: i, expected: Expected::Separator })
    } else if 0 <= j < s.len() && s[j] == 0x7d {
        Ok((Seq::empty(), j + 1))
    } else {
        match the_field(s, j) {
            Err(f) => Err(f),
            Ok((field, a)) => {
                let k = skip_blanks(s, a);
                if 0 <= k < s.len() && s[k] == 0x2c {
                    proof {
                        crate::syntax::lemma_skip_blanks(s, i);
                        lemma_the_field(s, j);
                        crate::syntax::lemma_skip_blanks(s, a);
                    }
                    match the_fields(s, k + 1) {
                        Err(f) => Err(f),
                        Ok((rest, end)) => Ok((seq![field] + rest, end)),
                    }
                } else if 0 <= k < s.len() && s[k] == 0x7d {
                    Ok((seq![field], k + 1))
                } else {
                    Err(Fault { at: k, expected: Expected::Separator })
                }
            },
        }
    }
}

/// The place after the beginning of a section: its word, `:` and `{`.
pub open spec fn the_section(s: Seq<u8>, i: int, word: Seq<u8>) -> Result<int, Fault> {
    match the_keyword(s, i, word) {
        Err(f) => Err(f),
        Ok(a) => match the_byte(s, a, 0x3a, Expected::Colon) {
            Err(f) => Err(f),
            Ok(b) => the_byte(s, b, 0x7b, Expected::OpenBrace),
        },
    }
}

/// What the text of a definition lacks where its error clause lacks
/// something.
pub open spec fn clause_lack(lack: ClauseError) -> Expected {
    match lack {
        ClauseError::Keyword => Expected::Keyword,
        ClauseError::Colon => Expected::Colon,
        ClauseError::Type => Expected::Type,
    }
}

/// The clause that names the error type: what stands from `i` on, without
/// the blanks around it. It may be empty. Where it is not, it has to read
/// as `error: Type`; what it lacks is reported at the place where it
/// begins.
pub open spec fn the_clause(s: Seq<u8>, i: int) -> Result<Seq<u8>, Fault> {
    let clause = trim(s.skip(i));
    if clause.len() == 0 {
        Ok(clause)
    } else {
        match crate::api::clause_reading(clause) {
            Ok(_) => Ok(clause),
            Err(lack) => Err(Fault { at: skip_blanks(s, i), expected: clause_lack(lack) }),
        }
    }
}

/// The definition that the text `s` is, or what it lacks at the first place
/// where it does not go on as a definition does.
pub open spec fn definition_of(s: Seq<u8>) -> Result<DefinitionView, Fault> {
    match the_section(s, 0, ascii("metadata"@)) {
        Err(f) => Err(f),
        Ok(a) => match the_entries(s, a) {
            Err(f) => Err(f),
            Ok((metadata, b)) => match the_section(s, b, ascii("request"@)) {
                Err(f) => Err(f),
                Ok(c) => match the_fields(s, c) {
                    Err(f) => Err(f),
                    Ok((request, d)) => match the_section(s, d, ascii("response"@)) {
                        Err(f) => Err(f),
                        Ok(e) => match the_fields(s, e) {
                            Err(f) => Err(f),
                            Ok((response, end)) => match the_clause(s, end) {
                                Err(f) => Err(f),
                                Ok(error) => Ok(
                                    DefinitionView { metadata, request, response, error },
                                ),
                            },
                        },
                    },
                },
            },
        },
    }
}

/// A byte that is found stands before the end.
pub proof fn lemma_the_byte(s: Seq<u8>, i: int, b: u8, expected: Expected)
    requires
        0 <= i <= s.len(),
    ensures
        the_byte(s, i, b, expected) matches Ok(end) ==> i < end <= s.len(),
{
    crate::syntax::lemma_skip_blanks(s, i);
}

/// A name that is found is not empty and ends before the end.
pub proof fn lemma_the_name(s: Seq<u8>, i: int)
    requires
        0 <= i <= s.len(),
    ensures
        the_name(s, i) matches Ok((_, end)) ==> i < end <= s.len(),
{
    crate::syntax::lemma_skip_blanks(s, i);
}

/// A value that is found is not empty and ends before the end.
pub proof fn lemma_the_value(s: Seq<u8>, i: int)
    requires
        0 <= i <= s.len(),
    ensures
        the_value(s, i) matches Ok((_, end)) ==> i < end <= s.len(),
{
    crate::syntax::lemma_skip_blanks(s, i);
    let j = skip_blanks(s, i);
    if j < s.len() && s[j] == 0x22 {
        crate::syntax::lemma_string_at(s, j + 1);
    } else {
        lemma_the_name(s, j);
    }
}

/// An entry that is found is not empty and ends before the end.
pub proof fn lemma_the_entry(s: Seq<u8>, i: int)
    requires
        0 <= i <= s.len(),
    ensures
        the_entry(s, i) matches Ok((_, end)) ==> i < end <= s.len(),
{
    lemma_the_name(s, i);
    if let Ok((_, a)) = the_name(s, i) {
        lemma_the_byte(s, a, 0x3a, Expected::Colon);
        if let Ok(b) = the_byte(s, a, 0x3a, Expected::Colon) {
            lemma_the_value(s, b);
        }
    }
}

/// An attribute that is found ends before the end.
pub proof fn lemma_the_attribute(s: Seq<u8>, i: int)
    requires
        0 <= i <= s.len(),
    ensures
        the_attribute(s, i) matches Ok((_, end)) ==> i < end <= s.len(),
{
    lemma_the_byte(s, i, 0x5b, Expected::OpenBracket);
}

/// The attributes that are found end before the end.
pub proof fn lemma_the_attributes(s: Seq<u8>, i: int)
    requires
        0 <= i <= s.len(),
    ensures
        the_attributes(s, i) matches Ok((_, end)) ==> i <= end <= s.len(),
    decreases s.len() - i,
{
    crate::syntax::lemma_skip_blanks(s, i);
    let j = skip_blanks(s, i);
    if j < s.len() && s[j] == 0x23 {
        lemma_the_attribute(s, j + 1);
        if let Ok((_, a)) = the_attribute(s, j + 1) {
            lemma_the_attributes(s, a);
        }
    }
}

/// A field that is found is not empty and ends before the end.
pub proof fn lemma_the_field(s: Seq<u8>, i: int)
    requires
        0 <= i <= s.len(),
    ensures
        the_field(s, i) matches Ok((_, end)) ==> i < end <= s.len(),
{
    lemma_the_attributes(s, i);
    if let Ok((_, a)) = the_attributes(s, i) {
        lemma_the_name(s, a);
        if let Ok((first, a1)) = the_name(s, a) {
            lemma_the_name(s, a1);
        }
        if let Ok((_, b)) = the_field_name(s, a) {
            lemma_the_byte(s, b, 0x3a, Expected::Colon);
            if let Ok(c) = the_byte(s, b, 0x3a, Expected::Colon) {
                crate::syntax::lemma_skip_blanks(s, c);
                crate::syntax::lemma_type_end(s, skip_blanks(s, c), 0);
            }
        }
    }
}

/// Reads the byte `b` at the next place that holds no blank.
pub fn read_byte(s: &[u8], i: usize, b: u8, expected: Expected) -> (r: Result<usize, SyntaxError>)
    requires
        i <= s.len(),
    ensures
        match r {
            Ok(end) => the_byte(s@, i as int, b, expected) == Ok::<int, Fault>(end as int) && i
                < end <= s.len(),
            Err(f) => the_byte(s@, i as int, b, expected) == Err::<int, Fault>(f@),
        },
{
    let j = crate::syntax::blanks_end(s, i);
    if j < s.len() && s[j] == b {
        Ok(j + 1)
    } else {
        Err(SyntaxError { at: j, expected })
    }
}

/// Reads the name that comes next.
pub fn read_name(s: &[u8], i: usize) -> (r: Result<(Vec<u8>, usize), SyntaxError>)
    requires
        i <= s.len(),
    ensures
        match r {
            Ok((name, end)) => the_name(s@, i as int) == Ok::<(Seq<u8>, int), Fault>(
                (name@, end as int),
            ) && i < end <= s.len(),
            Err(f) => the_name(s@, i as int) == Err::<(Seq<u8>, int), Fault>(f@),
        },
{
    let j = crate::syntax::blanks_end(s, i);
    let end = crate::syntax::find_word_end(s, j);
    if j < end && (s[j] == 0x5f || (0x41 <= s[j] && s[j] <= 0x5a) || (0x61 <= s[j] && s[j]
        <= 0x7a)) {
        Ok((crate::text::slice(s, j, end), end))
    } else {
        Err(SyntaxError { at: j, expected: Expected::Name })
    }
}

/// Reads the word `word`, which has to be the next name.
pub fn read_keyword(s: &[u8], i: usize, word: &[u8]) -> (r: Result<usize, SyntaxError>)
    requires
        i <= s.len(),
    ensures
        match r {
            Ok(end) => the_keyword(s@, i as int, word@) == Ok::<int, Fault>(end as int) && i < end
                <= s.len(),
            Err(f) => the_keyword(s@, i as int, word@) == Err::<int, Fault>(f@),
        },
{
    let at = crate::syntax::blanks_end(s, i);
    match read_name(s, i) {
        Ok((name, end)) => {
            if crate::text::same(name.as_slice(), word) {
                Ok(end)
            } else {
                Err(SyntaxError { at, expected: Expected::Keyword })
            }
        },
        Err(_) => Err(SyntaxError { at, expected: Expected::Keyword }),
    }
}

/// The value that a word stands for.
pub fn value_of_word(word: Vec<u8>) -> (r: MetaValue)
    ensures
        r@ == word_value(word@),
{
    proof {
        reveal_strlit("true");
        reveal_strlit("false");
    }
    if crate::text::is_word(word.as_slice(), "true") {
        MetaValue::Flag(true)
    } else if crate::text::is_word(word.as_slice(), "false") {
        MetaValue::Flag(false)
    } else {
        MetaValue::Word(word)
    }
}

/// Reads the value that comes next.
pub fn read_value(s: &[u8], i: usize) -> (r: Result<(MetaValue, usize), SyntaxError>)
    requires
        i <= s.len(),
    ensures
        match r {
            Ok((value, end)) => the_value(s@, i as int) == Ok::<(MetaValueView, int), Fault>(
                (value@, end as int),
            ) && i < end <= s.len(),
            Err(f) => the_value(s@, i as int) == Err::<(MetaValueView, int), Fault>(f@),
        },
{
    let j = crate::syntax::blanks_end(s, i);
    if j < s.len() && s[j] == 0x22 {
        match crate::syntax::read_string(s, j + 1) {
            Some((text, end)) => Ok((MetaValue::Text(text), end)),
            None => Err(SyntaxError { at: j, expected: Expected::StringEnd }),
        }
    } else {
        match read_name(s, j) {
            Ok((word, end)) => Ok((value_of_word(word), end)),
            Err(_) => Err(SyntaxError { at: j, expected: Expected::Value }),
        }
    }
}

/// Reads the entry that comes next.
pub fn read_entry(s: &[u8], i: usize) -> (r: Result<(MetaEntry, usize), SyntaxError>)
    requires
        i <= s.len(),
    ensures
        match r {
            Ok((entry, end)) => the_entry(s@, i as int) == Ok::<
                ((Seq<u8>, MetaValueView), int),
                Fault,
            >((entry@, end as int)) && i < end <= s.len(),
            Err(f) => the_entry(s@, i as int) == Err::<((Seq<u8>, MetaValueView), int), Fault>(
                f@,
            ),
        },
{
    let (key, a) = match read_name(s, i) {
        Ok(found) => found,
        Err(f) => {
            return Err(f);
        },
    };
    let b = match read_byte(s, a, 0x3a, Expected::Colon) {
        Ok(found) => found,
        Err(f) => {
            return Err(f);
        },
    };
    match read_value(s, b) {
        Ok((value, end)) => Ok((MetaEntry { key, value }, end)),
        Err(f) => Err(f),
    }
}

/// Reads the entries up to the `}` that closes their section.
pub fn read_entries(s: &[u8], i: usize) -> (r: Result<(Vec<MetaEntry>, usize), SyntaxError>)
    requires
        i <= s.len(),
    ensures
        match r {
            Ok((list, end)) => the_entries(s@, i as int) == Ok::<
                (Seq<(Seq<u8>, MetaValueView)>, int),
                Fault,
            >((meta_entries(list@), end as int)) && i < end <= s.len(),
            Err(f) => the_entries(s@, i as int) == Err::<
                (Seq<(Seq<u8>, MetaValueView)>, int),
                Fault,
            >(f@),
        },
    decreases s.len() - i,
{
    let j = crate::syntax::blanks_end(s, i);
    if j < s.len() && s[j] == 0x7d {
        let list: Vec<MetaEntry> = Vec::new();
        assert(meta_entries(list@) =~= Seq::empty());
        return Ok((list, j + 1));
    }
    let (entry, a) = match read_entry(s, j) {
        Ok(found) => found,
        Err(f) => {
            return Err(f);
        },
    };
    let k = crate::syntax::blanks_end(s, a);
    let ghost first = entry@;
    if k < s.len() && s[k] == 0x2c {
        match read_entries(s, k + 1) {
            Ok((rest, end)) => {
                let mut rest = rest;
                let ghost others = meta_entries(rest@);
                let mut list: Vec<MetaEntry> = Vec::new();
                list.push(entry);
                list.append(&mut rest);
                assert(meta_entries(list@) =~= seq![first] + others);
                Ok((list, end))
            },
            Err(f) => Err(f),
        }
    } else if k < s.len() && s[k] == 0x7d {
        let mut list: Vec<MetaEntry> = Vec::new();
        list.push(entry);
        assert(meta_entries(list@) =~= seq![first]);
        Ok((list, k + 1))
    } else {
        Err(SyntaxError { at: k, expected: Expected::Separator })
    }
}

/// The place of the first byte from `i` on that cannot stand in the path of
/// an attribute.
pub fn find_path_end(s: &[u8], i: usize) -> (r: usize)
    requires
        i <= s.len(),
    ensures
        r == path_end(s@, i as int),
        i <= r <= s.len(),
{
    let mut j: usize = i;
    while j < s.len() && (crate::text::alphanumeric(s[j]) || s[j] == 0x5f || s[j] == 0x3a)
        invariant
            i <= j <= s.len(),
            path_end(s@, i as int) == path_end(s@, j as int),
        decreases s.len() - j,
    {
        j += 1;
    }
    j
}

/// The path and the tokens of the attribute with the text `inner` between
/// its `#[` and its `]`.
pub fn split_attribute(inner: &[u8]) -> (r: Attribute)
    ensures
        r@ == attribute_parts(inner@),
{
    let body = crate::text::trimmed(inner);
    let p = find_path_end(body.as_slice(), 0);
    let path = crate::text::slice(body.as_slice(), 0, p);
    let after = crate::text::slice(body.as_slice(), p, body.len());
    let rest = crate::text::trimmed(after.as_slice());
    let tokens = if rest.len() >= 2 && rest[0] == 0x28 && rest[rest.len() - 1] == 0x29 {
        let between = crate::text::slice(rest.as_slice(), 1, rest.len() - 1);
        crate::text::trimmed(between.as_slice())
    } else {
        rest
    };
    Attribute { path, tokens }
}

/// Reads the attribute whose `#` stands before `i`.
pub fn read_attribute(s: &[u8], i: usize) -> (r: Result<(Attribute, usize), SyntaxError>)
    requires
        i <= s.len(),
    ensures
        match r {
            Ok((attribute, end)) => the_attribute(s@, i as int) == Ok::<
                ((Seq<u8>, Seq<u8>), int),
                Fault,
            >((attribute@, end as int)) && i < end <= s.len(),
            Err(f) => the_attribute(s@, i as int) == Err::<((Seq<u8>, Seq<u8>), int), Fault>(f@),
        },
{
    let a = match read_byte(s, i, 0x5b, Expected::OpenBracket) {
        Ok(found) => found,
        Err(f) => {
            return Err(f);
        },
    };
    let end = crate::syntax::find_attribute_end(s, a);
    if end < s.len() && s[end] == 0x5d {
        let inner = crate::text::slice(s, a, end);
        Ok((split_attribute(inner.as_slice()), end + 1))
    } else {
        Err(SyntaxError { at: end, expected: Expected::AttributeEnd })
    }
}

/// Reads the attributes that come next.
pub fn read_attributes(s: &[u8], i: usize) -> (r: Result<(Vec<Attribute>, usize), SyntaxError>)
    requires
        i <= s.len(),
    ensures
        match r {
            Ok((list, end)) => the_attributes(s@, i as int) == Ok::<
                (Seq<(Seq<u8>, Seq<u8>)>, int),
                Fault,
            >((attributes(list@), end as int)) && i <= end <= s.len(),
            Err(f) => the_attributes(s@, i as int) == Err::<
                (Seq<(Seq<u8>, Seq<u8>)>, int),
                Fault,
            >(f@),
        },
    decreases s.len() - i,
{
    let j = crate::syntax::blanks_end(s, i);
    if j < s.len() && s[j] == 0x23 {
        let (attribute, a) = match read_attribute(s, j + 1) {
            Ok(found) => found,
            Err(f) => {
                return Err(f);
            },
        };
        let ghost first = attribute@;
        match read_attributes(s, a) {
            Ok((rest, end)) => {
                let mut rest = rest;
                let ghost others = attributes(rest@);
                let mut list: Vec<Attribute> = Vec::new();
                list.push(attribute);
                list.append(&mut rest);
                assert(attributes(list@) =~= seq![first] + others);
                Ok((list, end))
            },
            Err(f) => Err(f),
        }
    } else {
        let list: Vec<Attribute> = Vec::new();
        assert(attributes(list@) =~= Seq::empty());
        Ok((list, j))
    }
}

/// Reads the name of the field that comes next.
pub fn read_field_name(s: &[u8], i: usize) -> (r: Result<(Vec<u8>, usize), SyntaxError>)
    requires
        i <= s.len(),
    ensures
        match r {
            Ok((name, end)) => the_field_name(s@, i as int) == Ok::<(Seq<u8>, int), Fault>(
                (name@, end as int),
            ) && i < end <= s.len(),
            Err(f) => the_field_name(s@, i as int) == Err::<(Seq<u8>, int), Fault>(f@),
        },
{
    proof {
        reveal_strlit("pub");
    }
    match read_name(s, i) {
        Ok((first, a)) => {
            if crate::text::is_word(first.as_slice(), "pub") {
                read_name(s, a)
            } else {
                Ok((first, a))
            }
        },
        Err(f) => Err(f),
    }
}

/// Reads the field that comes next.
pub fn read_field(s: &[u8], i: usize) -> (r: Result<(FieldDecl, usize), SyntaxError>)
    requires
        i <= s.len(),
    ensures
        match r {
            Ok((field, end)) => the_field(s@, i as int) == Ok::<(FieldDeclView, int), Fault>(
                (field@, end as int),
            ) && i < end <= s.len(),
            Err(f) => the_field(s@, i as int) == Err::<(FieldDeclView, int), Fault>(f@),
        },
{
    let (attrs, a) = match read_attributes(s, i) {
        Ok(found) => found,
        Err(f) => {
            return Err(f);
        },
    };
    let (name, b) = match read_field_name(s, a) {
        Ok(found) => found,
        Err(f) => {
            return Err(f);
        },
    };
    let c = match read_byte(s, b, 0x3a, Expected::Colon) {
        Ok(found) => found,
        Err(f) => {
            return Err(f);
        },
    };
    let j = crate::syntax::blanks_end(s, c);
    let end = crate::syntax::find_type_end(s, j);
    let ty = crate::text::trimmed(crate::text::slice(s, j, end).as_slice());
    if ty.len() == 0 {
        Err(SyntaxError { at: j, expected: Expected::Type })
    } else {
        Ok((FieldDecl { attrs, name, ty }, end))
    }
}

/// Reads the fields up to the `}` that closes their section.
pub fn read_fields(s: &[u8], i: usize) -> (r: Result<(Vec<FieldDecl>, usize), SyntaxError>)
    requires
        i <= s.len(),
    ensures
        match r {
            Ok((list, end)) => the_fields(s@, i as int) == Ok::<(Seq<FieldDeclView>, int), Fault>(
                (decls(list@), end as int),
            ) && i < end <= s.len(),
            Err(f) => the_fields(s@, i as int) == Err::<(Seq<FieldDeclView>, int), Fault>(f@),
        },
    decreases s.len() - i,
{
    let j = crate::syntax::blanks_end(s, i);
    if j < s.len() && s[j] == 0x7d {
        let list: Vec<FieldDecl> = Vec::new();
        assert(decls(list@) =~= Seq::empty());
        return Ok((list, j + 1));
    }
    let (field, a) = match read_field(s, j) {
        Ok(found) => found,
        Err(f) => {
            return Err(f);
        },
    };
    let k = crate::syntax::blanks_end(s, a);
    let ghost first = field@;
    if k < s.len() && s[k] == 0x2c {
        match read_fields(s, k + 1) {
            Ok((rest, end)) => {
                let mut rest = rest;
                let ghost others = decls(rest@);
                let mut list: Vec<FieldDecl> = Vec::new();
                list.push(field);
                list.append(&mut rest);
                assert(decls(list@) =~= seq![first] + others);
                Ok((list, end))
            },
            Err(f) => Err(f),
        }
    } else if k < s.len() && s[k] == 0x7d {
        let mut list: Vec<FieldDecl> = Vec::new();
        list.push(field);
        assert(decls(list@) =~= seq![first]);
        Ok((list, k + 1))
    } else {
        Err(SyntaxError { at: k, expected: Expected::Separator })
    }
}

/// Reads the beginning of a section: its word, `:` and `{`.
pub fn read_section(s: &[u8], i: usize, word: &[u8]) -> (r: Result<usize, SyntaxError>)
    requires
        i <= s.len(),
    ensures
        match r {
            Ok(end) => the_section(s@, i as int, word@) == Ok::<int, Fault>(end as int) && i < end
                <= s.len(),
            Err(f) => the_section(s@, i as int, word@) == Err::<int, Fault>(f@),
        },
{
    let a = match read_keyword(s, i, word) {
        Ok(found) => found,
        Err(f) => {
            return Err(f);
        },
    };
    let b = match read_byte(s, a, 0x3a, Expected::Colon) {
        Ok(found) => found,
        Err(f) => {
            return Err(f);
        },
    };
    read_byte(s, b, 0x7b, Expected::OpenBrace)
}

impl Definition {
    /// Reads a definition from its text. Where the text is no definition,
    /// the error says what the text lacks, and where.
    pub fn parse(text: &[u8]) -> (r: Result<Definition, SyntaxError>)
        ensures
            match r {
                Ok(definition) => definition_of(text@) == Ok::<DefinitionView, Fault>(definition@),
                Err(f) => definition_of(text@) == Err::<DefinitionView, Fault>(f@),
            },
    {
        proof {
            reveal_strlit("metadata");
            reveal_strlit("request");
            reveal_strlit("response");
        }
        let a = match read_section(text, 0, crate::text::bytes_of("metadata").as_slice()) {
            Ok(found) => found,
            Err(f) => {
                return Err(f);
            },
        };
        let (metadata, b) = match read_entries(text, a) {
            Ok(found) => found,
            Err(f) => {
                return Err(f);
            },
        };
        let c = match read_section(text, b, crate::text::bytes_of("request").as_slice()) {
            Ok(found) => found,
            Err(f) => {
                return Err(f);
            },
        };
        let (request, d) = match read_fields(text, c) {
            Ok(found) => found,
            Err(f) => {
                return Err(f);
            },
        };
        let e = match read_section(text, d, crate::text::bytes_of("response").as_slice()) {
            Ok(found) => found,
            Err(f) => {
                return Err(f);
            },
        };
        let (response, end) = match read_fields(text, e) {
            Ok(found) => found,
            Err(f) => {
                return Err(f);
            },
        };
        match read_clause(text, end) {
            Ok(error) => Ok(Definition { metadata, request, response, error }),
            Err(f) => Err(f),
        }
    }
}

/// Reads the clause that names the error type, which stands from `i` on.
pub fn read_clause(s: &[u8], i: usize) -> (r: Result<Vec<u8>, SyntaxError>)
    requires
        i <= s.len(),
    ensures
        match r {
            Ok(clause) => the_clause(s@, i as int) == Ok::<Seq<u8>, Fault>(clause@),
            Err(f) => the_clause(s@, i as int) == Err::<Seq<u8>, Fault>(f@),
        },
{
    let rest = crate::text::slice(s, i, s.len());
    assert(rest@ =~= s@.skip(i as int));
    let clause = crate::text::trimmed(rest.as_slice());
    if clause.len() == 0 {
        return Ok(clause);
    }
    match crate::api::ErrorType::parse(clause.as_slice()) {
        Ok(_) => Ok(clause),
        Err(lack) => {
            let expected = match lack {
                ClauseError::Keyword => Expected::Keyword,
                ClauseError::Colon => Expected::Colon,
                ClauseError::Type => Expected::Type,
            };
            Err(SyntaxError { at: crate::syntax::blanks_end(s, i), expected })
        },
    }
}

} // verus!
