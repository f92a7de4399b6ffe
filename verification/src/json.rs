//! JSON bodies.
//!
//! The values of body fields are JSON texts. Writing an object frames them:
//! `{`, then `"name":text` for each member with `,` between them, then `}`.
//! Reading is left to `serde_json`, which hands back each member's text as it
//! stands in the body.

use vstd::prelude::*;
use crate::text::join;
use crate::text::rows;
use crate::wire::entries;
use crate::wire::Entry;

verus! {

/// One member as it is written: the name in double quotes, `:`, the text.
pub open spec fn member_text(member: (Seq<u8>, Seq<u8>)) -> Seq<u8> {
    seq![0x22u8] + member.0 + seq![0x22u8, 0x3au8] + member.1
}

/// The members as they are written, one piece each.
pub open spec fn member_texts(members: Seq<(Seq<u8>, Seq<u8>)>) -> Seq<Seq<u8>> {
    Seq::new(members.len(), |i: int| member_text(members[i]))
}

/// The text of the object with the given members.
pub open spec fn object_text(members: Seq<(Seq<u8>, Seq<u8>)>) -> Seq<u8> {
    seq![0x7bu8] + join(member_texts(members), 0x2c) + seq![0x7du8]
}

/// The members of the JSON object that `body` is, each with its name and the
/// text of its value, in the order of their names; `None` where `body` is not
/// one JSON object.
pub uninterp spec fn json_object_members(body: Seq<u8>) -> Option<Seq<(Seq<u8>, Seq<u8>)>>;

/// The text of the JSON value that `body` is, without the blanks around it;
/// `None` where `body` is not one JSON value.
pub uninterp spec fn json_value_text(body: Seq<u8>) -> Option<Seq<u8>>;

/// The text of the object with the given members.
pub fn write_object(members: &Vec<Entry>) -> (r: Vec<u8>)
    ensures
        r@ == object_text(entries(members@)),
{
    let mut pieces: Vec<Vec<u8>> = Vec::new();
    let mut i: usize = 0;
    while i < members.len()
        invariant
            i <= members.len(),
            pieces.len() == i,
            forall|j: int| 0 <= j < i ==> (#[trigger] pieces@[j])@ == member_text(members@[j]@),
        decreases members.len() - i,
    {
        let mut piece: Vec<u8> = Vec::new();
        piece.push(0x22);
        crate::text::append(&mut piece, members[i].name.as_slice());
        piece.push(0x22);
        piece.push(0x3a);
        crate::text::append(&mut piece, members[i].value.as_slice());
        pieces.push(piece);
        i += 1;
    }
    assert(rows(pieces@) =~= member_texts(entries(members@)));
    let mut out: Vec<u8> = Vec::new();
    out.push(0x7b);
    let inner = crate::text::join_rows(&pieces, 0x2c);
    crate::text::append(&mut out, inner.as_slice());
    out.push(0x7d);
    out
}

/// Calls `serde_json::from_slice` for a map from names to raw values. The
/// result is a function of the bytes alone: the members of the object with
/// the text of each value, or nothing where the bytes are not one object.
#[verifier::external_body]
pub(crate) fn read_members(body: &[u8]) -> (r: Option<Vec<Entry>>)
    ensures
        match r {
            Some(members) => json_object_members(body@) == Some(entries(members@)),
            None => json_object_members(body@) is None,
        },
{
    let parsed: Result<
        std::collections::BTreeMap<String, Box<serde_json::value::RawValue>>,
        serde_json::Error,
    > = serde_json::from_slice(body);
    match parsed {
        Ok(map) => Some(
            map.into_iter().map(
                |(k, v)| Entry { name: k.into_bytes(), value: v.get().as_bytes().to_vec() },
            ).collect(),
        ),
        Err(_) => None,
    }
}

/// Calls `serde_json::from_slice` for one raw value. The result is a function
/// of the bytes alone: the text of the value, or nothing where the bytes are
/// not one JSON value.
#[verifier::external_body]
pub(crate) fn read_whole(body: &[u8]) -> (r: Option<Vec<u8>>)
    ensures
        match r {
            Some(text) => json_value_text(body@) == Some(text@),
            None => json_value_text(body@) is None,
        },
{
    let parsed: Result<Box<serde_json::value::RawValue>, serde_json::Error> =
        serde_json::from_slice(body);
    match parsed {
        Ok(value) => Some(value.get().as_bytes().to_vec()),
        Err(_) => None,
    }
}

} // verus!
