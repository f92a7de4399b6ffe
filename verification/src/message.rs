//! The values of a request or of a response.
//!
//! A message holds one value for each field of its schema, in the order of
//! the fields. A value is held in the form in which it travels: as text, as
//! a list of query parameters, or as JSON text.

use vstd::prelude::*;
use crate::schema::count;
use crate::schema::fields;
use crate::schema::Field;
use crate::schema::FieldLocation;
use crate::schema::FieldView;
use crate::wire::entries;
use crate::wire::find;
use crate::wire::Entry;

verus! {

/// The value of one field.
#[derive(Clone, Debug, PartialEq, Eq)]
pub enum Value {
    /// The value of a path, query or header field.
    Text(Vec<u8>),
    /// The value of a field that is the whole query string.
    Pairs(Vec<Entry>),
    /// The value of a field that travels in the body, as JSON text; `None`
    /// where an optional field is not set.
    Json(Option<Vec<u8>>),
}

/// What a `Value` holds.
pub enum ValueView {
    Text(Seq<u8>),
    Pairs(Seq<(Seq<u8>, Seq<u8>)>),
    Json(Option<Seq<u8>>),
}

impl View for Value {
    type V = ValueView;

    open spec fn view(&self) -> ValueView {
        match self {
            Value::Text(t) => ValueView::Text(t@),
            Value::Pairs(p) => ValueView::Pairs(entries(p@)),
            Value::Json(Some(t)) => ValueView::Json(Some(t@)),
            Value::Json(None) => ValueView::Json(None),
        }
    }
}

/// The views of a sequence of values.
pub open spec fn values(v: Seq<Value>) -> Seq<ValueView> {
    v.map_values(|x: Value| x@)
}

/// The values of a request or of a response.
#[derive(Clone, Debug, PartialEq, Eq)]
pub struct Message {
    pub values: Vec<Value>,
}

impl View for Message {
    type V = Seq<ValueView>;

    open spec fn view(&self) -> Seq<ValueView> {
        values(self.values@)
    }
}

/// Whether `value` has the form that `field` asks for: text for a path,
/// query or header field, pairs for the whole query string, JSON for the
/// body, which only an optional member of the body may lack.
pub open spec fn fits(field: FieldView, value: ValueView) -> bool {
    match field.location {
        FieldLocation::Path | FieldLocation::Query | FieldLocation::Header => value is Text,
        FieldLocation::QueryMap => value is Pairs,
        FieldLocation::Body => value matches ValueView::Json(t) && (t is None ==> field.optional),
        FieldLocation::NewtypeBody => value matches ValueView::Json(t) && t is Some,
    }
}

/// Whether `values` is a message of the schema `fields`.
pub open spec fn conforms(fields: Seq<FieldView>, values: Seq<ValueView>) -> bool {
    &&& values.len() == fields.len()
    &&& forall|i: int| 0 <= i < fields.len() ==> fits(#[trigger] fields[i], values[i])
}

/// The text that a value carries, if it carries one.
pub open spec fn text_of(value: ValueView) -> Option<Seq<u8>> {
    match value {
        ValueView::Text(t) => Some(t),
        ValueView::Json(t) => t,
        ValueView::Pairs(_) => None,
    }
}

/// The name under which the value of a field travels: the header for a
/// header field, else the field's name.
pub open spec fn key_of(field: FieldView) -> Seq<u8> {
    if field.location == FieldLocation::Header {
        field.header
    } else {
        field.name
    }
}

/// Whether field `i` is at `location` and its value carries a text.
pub open spec fn travels(
    fields: Seq<FieldView>,
    values: Seq<ValueView>,
    location: FieldLocation,
    i: int,
) -> bool {
    fields[i].location == location && text_of(values[i]) is Some
}

/// The texts of the fields at `location` among the first `n`, each under its
/// key, in the order of the fields.
pub open spec fn named(
    fields: Seq<FieldView>,
    values: Seq<ValueView>,
    location: FieldLocation,
    n: int,
) -> Seq<(Seq<u8>, Seq<u8>)>
    decreases n,
{
    if n <= 0 {
        Seq::empty()
    } else if travels(fields, values, location, n - 1) {
        named(fields, values, location, n - 1).push(
            (key_of(fields[n - 1]), text_of(values[n - 1]).unwrap()),
        )
    } else {
        named(fields, values, location, n - 1)
    }
}

/// The texts of the fields at `location`, each under its key.
pub open spec fn all_named(
    fields: Seq<FieldView>,
    values: Seq<ValueView>,
    location: FieldLocation,
) -> Seq<(Seq<u8>, Seq<u8>)> {
    named(fields, values, location, fields.len() as int)
}

/// The second parts of a list of pairs.
pub open spec fn texts(list: Seq<(Seq<u8>, Seq<u8>)>) -> Seq<Seq<u8>> {
    Seq::new(list.len(), |i: int| list[i].1)
}

/// The pairs of the last field among the first `n` that is the whole query
/// string.
pub open spec fn pairs_of(fields: Seq<FieldView>, values: Seq<ValueView>, n: int) -> Seq<
    (Seq<u8>, Seq<u8>),
>
    decreases n,
{
    if n <= 0 {
        Seq::empty()
    } else if fields[n - 1].location == FieldLocation::QueryMap && values[n - 1] is Pairs {
        values[n - 1]->Pairs_0
    } else {
        pairs_of(fields, values, n - 1)
    }
}

/// The text of the last field among the first `n` that is the whole body.
pub open spec fn whole_of(fields: Seq<FieldView>, values: Seq<ValueView>, n: int) -> Seq<u8>
    decreases n,
{
    if n <= 0 {
        Seq::empty()
    } else if travels(fields, values, FieldLocation::NewtypeBody, n - 1) {
        text_of(values[n - 1]).unwrap()
    } else {
        whole_of(fields, values, n - 1)
    }
}

/// No text travels under a key that no field at the location has.
pub proof fn lemma_named_lacks(
    fields: Seq<FieldView>,
    values: Seq<ValueView>,
    location: FieldLocation,
    n: int,
    key: Seq<u8>,
)
    requires
        forall|j: int|
            0 <= j < n && #[trigger] travels(fields, values, location, j) ==> key_of(fields[j])
                != key,
    ensures
        find(named(fields, values, location, n), key) is None,
    decreases n,
{
    if n > 0 {
        lemma_named_lacks(fields, values, location, n - 1, key);
        if travels(fields, values, location, n - 1) {
            crate::wire::lemma_find_push(
                named(fields, values, location, n - 1),
                (key_of(fields[n - 1]), text_of(values[n - 1]).unwrap()),
                key,
            );
        }
    }
}

/// The text of a field is found under its key, as long as no other field at
/// the location has that key.
pub proof fn lemma_named_finds(
    fields: Seq<FieldView>,
    values: Seq<ValueView>,
    location: FieldLocation,
    n: int,
    i: int,
)
    requires
        0 <= i < n,
        travels(fields, values, location, i),
        forall|j: int|
            0 <= j < n && j != i && (#[trigger] fields[j]).location == location ==> key_of(
                fields[j],
            ) != key_of(fields[i]),
    ensures
        find(named(fields, values, location, n), key_of(fields[i])) == text_of(values[i]),
    decreases n,
{
    let key = key_of(fields[i]);
    let before = named(fields, values, location, n - 1);
    if i == n - 1 {
        lemma_named_lacks(fields, values, location, n - 1, key);
        crate::wire::lemma_find_push(before, (key, text_of(values[i]).unwrap()), key);
    } else {
        lemma_named_finds(fields, values, location, n - 1, i);
        if travels(fields, values, location, n - 1) {
            crate::wire::lemma_find_push(
                before,
                (key_of(fields[n - 1]), text_of(values[n - 1]).unwrap()),
                key,
            );
        }
    }
}

/// Where every field at the location carries a text, the text of a field
/// stands at the place that the field has among the fields at the location.
pub proof fn lemma_named_at(
    fields: Seq<FieldView>,
    values: Seq<ValueView>,
    location: FieldLocation,
    n: int,
)
    requires
        0 <= n <= fields.len(),
        forall|j: int|
            0 <= j < n && (#[trigger] fields[j]).location == location ==> text_of(values[j])
                is Some,
    ensures
        named(fields, values, location, n).len() == count(fields, location, n),
        forall|i: int|
            0 <= i < n && (#[trigger] fields[i]).location == location ==> {
                &&& 0 <= count(fields, location, i) < count(fields, location, n)
                &&& named(fields, values, location, n)[count(fields, location, i)] == (
                    key_of(fields[i]),
                    text_of(values[i]).unwrap(),
                )
            },
    decreases n,
{
    if n > 0 {
        lemma_named_at(fields, values, location, n - 1);
        crate::schema::lemma_count(fields, location, n - 1);
        assert forall|i: int| 0 <= i < n && (#[trigger] fields[i]).location == location implies {
            &&& 0 <= count(fields, location, i) < count(fields, location, n)
            &&& named(fields, values, location, n)[count(fields, location, i)] == (
                key_of(fields[i]),
                text_of(values[i]).unwrap(),
            )
        } by {}
    }
}

/// The pairs of the one field that is the whole query string.
pub proof fn lemma_pairs_of(fields: Seq<FieldView>, values: Seq<ValueView>, n: int, i: int)
    requires
        0 <= i < n <= fields.len(),
        fields[i].location == FieldLocation::QueryMap,
        values[i] is Pairs,
        count(fields, FieldLocation::QueryMap, fields.len() as int) <= 1,
    ensures
        pairs_of(fields, values, n) == values[i]->Pairs_0,
    decreases n,
{
    if i < n - 1 {
        if fields[n - 1].location == FieldLocation::QueryMap {
            crate::schema::lemma_count_one(fields, FieldLocation::QueryMap, i, n - 1);
        }
        lemma_pairs_of(fields, values, n - 1, i);
    }
}

/// The text of the one field that is the whole body.
pub proof fn lemma_whole_of(fields: Seq<FieldView>, values: Seq<ValueView>, n: int, i: int)
    requires
        0 <= i < n <= fields.len(),
        travels(fields, values, FieldLocation::NewtypeBody, i),
        count(fields, FieldLocation::NewtypeBody, fields.len() as int) <= 1,
    ensures
        whole_of(fields, values, n) == text_of(values[i]).unwrap(),
    decreases n,
{
    if i < n - 1 {
        if fields[n - 1].location == FieldLocation::NewtypeBody {
            crate::schema::lemma_count_one(fields, FieldLocation::NewtypeBody, i, n - 1);
        }
        lemma_whole_of(fields, values, n - 1, i);
    }
}

/// Tests whether `value` has the form that `field` asks for.
pub fn value_fits(field: &Field, value: &Value) -> (r: bool)
    ensures
        r == fits(field@, value@),
{
    match field.location {
        FieldLocation::Path | FieldLocation::Query | FieldLocation::Header => match value {
            Value::Text(_) => true,
            _ => false,
        },
        FieldLocation::QueryMap => match value {
            Value::Pairs(_) => true,
            _ => false,
        },
        FieldLocation::Body => match value {
            Value::Json(Some(_)) => true,
            Value::Json(None) => field.optional,
            _ => false,
        },
        FieldLocation::NewtypeBody => match value {
            Value::Json(Some(_)) => true,
            _ => false,
        },
    }
}

/// Tests whether `message` is a message of the schema `list`.
pub fn message_conforms(list: &Vec<Field>, message: &Message) -> (r: bool)
    ensures
        r == conforms(fields(list@), message@),
{
    if message.values.len() != list.len() {
        return false;
    }
    let mut i: usize = 0;
    while i < list.len()
        invariant
            i <= list.len(),
            message.values.len() == list.len(),
            forall|j: int| 0 <= j < i ==> fits(#[trigger] fields(list@)[j], message@[j]),
        decreases list.len() - i,
    {
        assert(fields(list@)[i as int] == list@[i as int]@);
        if !value_fits(&list[i], &message.values[i]) {
            return false;
        }
        i += 1;
    }
    true
}

/// The text that a value carries, if it carries one.
pub fn value_text(value: &Value) -> (r: Option<&Vec<u8>>)
    ensures
        match r {
            Some(t) => text_of(value@) == Some(t@),
            None => text_of(value@) is None,
        },
{
    match value {
        Value::Text(t) => Some(t),
        Value::Json(Some(t)) => Some(t),
        _ => None,
    }
}

/// The texts of the fields at `location`, each under its key, in the order
/// of the fields.
pub fn collect_named(list: &Vec<Field>, message: &Message, location: FieldLocation) -> (r: Vec<
    Entry,
>)
    requires
        message@.len() == list.len(),
    ensures
        entries(r@) == all_named(fields(list@), message@, location),
{
    let mut out: Vec<Entry> = Vec::new();
    let mut i: usize = 0;
    while i < list.len()
        invariant
            i <= list.len(),
            message.values.len() == list.len(),
            entries(out@) == named(fields(list@), message@, location, i as int),
        decreases list.len() - i,
    {
        if list[i].location == location {
            if let Some(text) = value_text(&message.values[i]) {
                let key = if location == FieldLocation::Header {
                    crate::text::copy(list[i].header.as_slice())
                } else {
                    crate::text::copy(list[i].name.as_slice())
                };
                let entry = Entry { name: key, value: crate::text::copy(text.as_slice()) };
                out.push(entry);
            }
        }
        i += 1;
    }
    out
}

} // verus!
