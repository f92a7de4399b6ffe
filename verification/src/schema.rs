//! Fields and schemas.
//!
//! A schema is the ordered list of the fields of a request or of a response.
//! Each field has one location, which says where its value travels.

use vstd::prelude::*;
use crate::error::violations;
use crate::error::Rule;
use crate::error::Section;
use crate::error::Violation;
use crate::error::ViolationView;
use crate::lifetime::named_lifetimes;
use crate::marker::marker;
use crate::text::ascii;
use crate::text::rows;
use crate::text::starts_with;
use crate::text::trim_front;
use crate::types::is_type;

verus! {

/// Where the value of a field travels.
#[derive(Clone, Copy, Debug, PartialEq, Eq, Structural)]
pub enum FieldLocation {
    /// In a segment of the path.
    Path,
    /// In the query string, under the field's name.
    Query,
    /// As the whole query string.
    QueryMap,
    /// In a header.
    Header,
    /// As a member of the JSON object that is the body.
    Body,
    /// As the whole body.
    NewtypeBody,
}

/// An attribute of a field as it was declared: `#[path(tokens)]`.
#[derive(Clone, Debug, PartialEq, Eq)]
pub struct Attribute {
    pub path: Vec<u8>,
    pub tokens: Vec<u8>,
}

impl View for Attribute {
    type V = (Seq<u8>, Seq<u8>);

    open spec fn view(&self) -> (Seq<u8>, Seq<u8>) {
        (self.path@, self.tokens@)
    }
}

/// The views of a sequence of attributes.
pub open spec fn attributes(v: Seq<Attribute>) -> Seq<(Seq<u8>, Seq<u8>)> {
    v.map_values(|a: Attribute| a@)
}

/// A field of a schema.
#[derive(Clone, Debug, PartialEq, Eq)]
pub struct Field {
    /// The attributes of the declaration other than location markers.
    pub attrs: Vec<Attribute>,
    pub name: Vec<u8>,
    /// The declared type, as text.
    pub ty: Vec<u8>,
    pub location: FieldLocation,
    /// The name of the header on the wire; empty unless the location is
    /// `Header`.
    pub header: Vec<u8>,
    /// Whether the value may be absent.
    pub optional: bool,
    /// The lifetimes that the declared type names, each once.
    pub lifetimes: Vec<Vec<u8>>,
}

/// What a `Field` holds.
pub struct FieldView {
    pub attrs: Seq<(Seq<u8>, Seq<u8>)>,
    pub name: Seq<u8>,
    pub ty: Seq<u8>,
    pub location: FieldLocation,
    pub header: Seq<u8>,
    pub optional: bool,
    pub lifetimes: Seq<Seq<u8>>,
}

impl View for Field {
    type V = FieldView;

    open spec fn view(&self) -> FieldView {
        FieldView {
            attrs: attributes(self.attrs@),
            name: self.name@,
            ty: self.ty@,
            location: self.location,
            header: self.header@,
            optional: self.optional,
            lifetimes: crate::text::rows(self.lifetimes@),
        }
    }
}

/// The views of a sequence of fields.
pub open spec fn fields(v: Seq<Field>) -> Seq<FieldView> {
    v.map_values(|f: Field| f@)
}

/// The fields of a request or of a response, in the order of their
/// declaration.
#[derive(Clone, Debug, PartialEq, Eq)]
pub struct Schema {
    pub fields: Vec<Field>,
}

impl View for Schema {
    type V = Seq<FieldView>;

    open spec fn view(&self) -> Seq<FieldView> {
        fields(self.fields@)
    }
}

/// Whether a header may have the name `s` on the wire: lower-case letters,
/// digits and `-`, at least one.
pub open spec fn is_header_name(s: Seq<u8>) -> bool {
    &&& s.len() > 0
    &&& forall|i: int|
        0 <= i < s.len() ==> {
            let b = #[trigger] s[i];
            (0x61 <= b <= 0x7a) || (0x30 <= b <= 0x39) || b == 0x2d
        }
}

/// Tests whether a header may have the name `s` on the wire.
pub fn header_name(s: &[u8]) -> (r: bool)
    ensures
        r == is_header_name(s@),
{
    if s.len() == 0 {
        return false;
    }
    let mut i: usize = 0;
    while i < s.len()
        invariant
            i <= s.len(),
            forall|j: int|
                0 <= j < i ==> {
                    let b = #[trigger] s@[j];
                    (0x61 <= b <= 0x7a) || (0x30 <= b <= 0x39) || b == 0x2d
                },
        decreases s.len() - i,
    {
        let b: u8 = s[i];
        if !((0x61 <= b && b <= 0x7a) || (0x30 <= b && b <= 0x39) || b == 0x2d) {
            return false;
        }
        i += 1;
    }
    true
}

/// The number of fields at `location` among the first `n`.
pub open spec fn count(fields: Seq<FieldView>, location: FieldLocation, n: int) -> int
    decreases n,
{
    if n <= 0 {
        0
    } else if fields[n - 1].location == location {
        count(fields, location, n - 1) + 1
    } else {
        count(fields, location, n - 1)
    }
}

/// Whether some field is at `location`.
pub open spec fn any_at(fields: Seq<FieldView>, location: FieldLocation) -> bool {
    count(fields, location, fields.len() as int) > 0
}

/// The count is the number of fields at the location: none, if and only if
/// no field is there.
pub proof fn lemma_count(fields: Seq<FieldView>, location: FieldLocation, n: int)
    requires
        n <= fields.len(),
    ensures
        0 <= count(fields, location, n),
        count(fields, location, n) <= if n < 0 {
            0
        } else {
            n
        },
        count(fields, location, n) == 0 <==> forall|i: int|
            0 <= i < n ==> (#[trigger] fields[i]).location != location,
    decreases n,
{
    if n > 0 {
        lemma_count(fields, location, n - 1);
    }
}

/// The count does not fall.
pub proof fn lemma_count_grows(fields: Seq<FieldView>, location: FieldLocation, i: int, j: int)
    requires
        i <= j,
    ensures
        count(fields, location, i) <= count(fields, location, j),
    decreases j - i,
{
    if i < j {
        lemma_count_grows(fields, location, i, j - 1);
    }
}

/// A schema in which one field only is at `location` has it wherever a field
/// is at `location`.
pub proof fn lemma_count_one(fields: Seq<FieldView>, location: FieldLocation, i: int, j: int)
    requires
        0 <= i < fields.len(),
        0 <= j < fields.len(),
        fields[i].location == location,
        fields[j].location == location,
        count(fields, location, fields.len() as int) <= 1,
    ensures
        i == j,
{
    if i < j {
        lemma_count(fields, location, i);
        lemma_count_grows(fields, location, 0, i);
        lemma_count_grows(fields, location, i + 1, j);
        lemma_count_grows(fields, location, j + 1, fields.len() as int);
    } else if j < i {
        lemma_count_grows(fields, location, 0, j);
        lemma_count_grows(fields, location, j + 1, i);
        lemma_count_grows(fields, location, i + 1, fields.len() as int);
    }
}

/// The places of the fields at `location` among the first `n`, in their
/// order.
pub open spec fn places(fields: Seq<FieldView>, location: FieldLocation, n: int) -> Seq<int>
    decreases n,
{
    if n <= 0 {
        Seq::empty()
    } else if fields[n - 1].location == location {
        places(fields, location, n - 1).push(n - 1)
    } else {
        places(fields, location, n - 1)
    }
}

/// The places of a list as numbers without bound.
pub open spec fn numbers(list: Seq<usize>) -> Seq<int> {
    list.map_values(|i: usize| i as int)
}

/// The places of the fields at `location`, in their order.
pub fn places_at(list: &Vec<Field>, location: FieldLocation) -> (r: Vec<usize>)
    ensures
        numbers(r@) == places(fields(list@), location, list.len() as int),
{
    let mut out: Vec<usize> = Vec::new();
    let mut i: usize = 0;
    while i < list.len()
        invariant
            i <= list.len(),
            numbers(out@) == places(fields(list@), location, i as int),
        decreases list.len() - i,
    {
        if list[i].location == location {
            out.push(i);
        }
        i += 1;
    }
    out
}

/// The place of the first field at `location`, if a field is there.
pub fn first_at(list: &Vec<Field>, location: FieldLocation) -> (r: Option<usize>)
    ensures
        match r {
            Some(i) => {
                &&& i < list.len()
                &&& fields(list@)[i as int].location == location
                &&& count(fields(list@), location, i as int) == 0
            },
            None => !any_at(fields(list@), location),
        },
{
    let mut i: usize = 0;
    while i < list.len()
        invariant
            i <= list.len(),
            count(fields(list@), location, i as int) == 0,
        decreases list.len() - i,
    {
        if list[i].location == location {
            return Some(i);
        }
        i += 1;
    }
    None
}

impl Schema {
    /// The places of the fields at `location`, in their order.
    pub fn fields_at(&self, location: FieldLocation) -> (r: Vec<usize>)
        ensures
            numbers(r@) == places(self@, location, self@.len() as int),
    {
        places_at(&self.fields, location)
    }

    /// Whether a field is a member of the body.
    pub fn has_body_fields(&self) -> (r: bool)
        ensures
            r == any_at(self@, FieldLocation::Body),
    {
        count_at(&self.fields, FieldLocation::Body, self.fields.len()) > 0
    }

    /// Whether a field travels in a header.
    pub fn has_header_fields(&self) -> (r: bool)
        ensures
            r == any_at(self@, FieldLocation::Header),
    {
        count_at(&self.fields, FieldLocation::Header, self.fields.len()) > 0
    }

    /// Whether a field travels in the path.
    pub fn has_path_fields(&self) -> (r: bool)
        ensures
            r == any_at(self@, FieldLocation::Path),
    {
        count_at(&self.fields, FieldLocation::Path, self.fields.len()) > 0
    }

    /// Whether a field is a parameter of the query string.
    pub fn has_query_fields(&self) -> (r: bool)
        ensures
            r == any_at(self@, FieldLocation::Query),
    {
        count_at(&self.fields, FieldLocation::Query, self.fields.len()) > 0
    }

    /// The place of the first field that is the whole body.
    pub fn newtype_body_field(&self) -> (r: Option<usize>)
        ensures
            match r {
                Some(i) => {
                    &&& i < self@.len()
                    &&& self@[i as int].location == FieldLocation::NewtypeBody
                    &&& count(self@, FieldLocation::NewtypeBody, i as int) == 0
                },
                None => !any_at(self@, FieldLocation::NewtypeBody),
            },
    {
        first_at(&self.fields, FieldLocation::NewtypeBody)
    }

    /// The place of the first field that is the whole query string.
    pub fn query_map_field(&self) -> (r: Option<usize>)
        ensures
            match r {
                Some(i) => {
                    &&& i < self@.len()
                    &&& self@[i as int].location == FieldLocation::QueryMap
                    &&& count(self@, FieldLocation::QueryMap, i as int) == 0
                },
                None => !any_at(self@, FieldLocation::QueryMap),
            },
    {
        first_at(&self.fields, FieldLocation::QueryMap)
    }
}

/// The number of fields at `location` among the first `n`.
pub fn count_at(list: &Vec<Field>, location: FieldLocation, n: usize) -> (r: usize)
    requires
        n <= list.len(),
    ensures
        r == count(fields(list@), location, n as int),
        r <= n,
{
    let mut k: usize = 0;
    let mut i: usize = 0;
    while i < n
        invariant
            i <= n <= list.len(),
            k == count(fields(list@), location, i as int),
            k <= i,
        decreases n - i,
    {
        if list[i].location == location {
            k += 1;
        }
        i += 1;
    }
    k
}

/// A field as it is declared: its attributes, its name and its type.
#[derive(Clone, Debug, PartialEq, Eq)]
pub struct FieldDecl {
    pub attrs: Vec<Attribute>,
    pub name: Vec<u8>,
    /// The declared type, as text.
    pub ty: Vec<u8>,
}

/// What a `FieldDecl` holds.
pub struct FieldDeclView {
    pub attrs: Seq<(Seq<u8>, Seq<u8>)>,
    pub name: Seq<u8>,
    pub ty: Seq<u8>,
}

impl View for FieldDecl {
    type V = FieldDeclView;

    open spec fn view(&self) -> FieldDeclView {
        FieldDeclView { attrs: attributes(self.attrs@), name: self.name@, ty: self.ty@ }
    }
}

/// The views of a sequence of declarations.
pub open spec fn decls(v: Seq<FieldDecl>) -> Seq<FieldDeclView> {
    v.map_values(|d: FieldDecl| d@)
}

/// The path of the attributes that hold location markers.
pub open spec fn marker_path() -> Seq<u8> {
    ascii("ruma_api"@)
}

/// The path of the attributes that `strip_serde_attrs` removes.
pub open spec fn serde_path() -> Seq<u8> {
    ascii("serde"@)
}

/// The first `n` attributes without those under `path`.
pub open spec fn without(attrs: Seq<(Seq<u8>, Seq<u8>)>, path: Seq<u8>, n: int) -> Seq<
    (Seq<u8>, Seq<u8>),
>
    decreases n,
{
    if n <= 0 {
        Seq::empty()
    } else if attrs[n - 1].0 == path {
        without(attrs, path, n - 1)
    } else {
        without(attrs, path, n - 1).push(attrs[n - 1])
    }
}

/// The tokens of those of the first `n` attributes that are under `path`.
pub open spec fn marked(attrs: Seq<(Seq<u8>, Seq<u8>)>, path: Seq<u8>, n: int) -> Seq<Seq<u8>>
    decreases n,
{
    if n <= 0 {
        Seq::empty()
    } else if attrs[n - 1].0 == path {
        marked(attrs, path, n - 1).push(attrs[n - 1].1)
    } else {
        marked(attrs, path, n - 1)
    }
}

/// Whether a field of the given section cannot have the marker `tokens`:
/// it is not recognized, or it says `path` in a response.
pub open spec fn is_unknown_marker(tokens: Seq<u8>, section: Section) -> bool {
    match marker(tokens) {
        None => true,
        Some((location, _)) => section == Section::Response && location == FieldLocation::Path,
    }
}

/// The location of a field with the given attributes, with the name of its
/// header on the wire. A field without a marker is a member of the body. A
/// field with a marker that it cannot have, or with more than one marker,
/// has none.
pub open spec fn classify(attrs: Seq<(Seq<u8>, Seq<u8>)>, section: Section) -> Result<
    (FieldLocation, Seq<u8>),
    Rule,
> {
    let markers = marked(attrs, marker_path(), attrs.len() as int);
    if markers.len() == 0 {
        Ok((FieldLocation::Body, Seq::empty()))
    } else if exists|k: int| 0 <= k < markers.len() && is_unknown_marker(#[trigger] markers[k], section) {
        Err(Rule::UnknownMarker)
    } else if markers.len() > 1 {
        Err(Rule::ConflictingMarkers)
    } else {
        Ok(marker(markers[0]).unwrap())
    }
}

/// Whether a type is optional: its text begins with `Option` and `<`, with
/// or without blanks before each of them.
pub open spec fn is_optional(ty: Seq<u8>) -> bool {
    let name = trim_front(ty);
    let rest = trim_front(name.skip(ascii("Option"@).len() as int));
    starts_with(name, ascii("Option"@)) && rest.len() > 0 && rest[0] == 0x3c
}

/// The field that a declaration declares.
pub open spec fn field_of(decl: FieldDeclView, section: Section) -> FieldView {
    let place = match classify(decl.attrs, section) {
        Ok(p) => p,
        Err(_) => (FieldLocation::Body, Seq::empty()),
    };
    FieldView {
        attrs: without(decl.attrs, marker_path(), decl.attrs.len() as int),
        name: decl.name,
        ty: decl.ty,
        location: place.0,
        header: place.1,
        optional: is_optional(decl.ty),
        lifetimes: named_lifetimes(decl.ty),
    }
}

/// The fields that the declarations declare.
pub open spec fn declared(decls: Seq<FieldDeclView>, section: Section) -> Seq<FieldView> {
    Seq::new(decls.len(), |i: int| field_of(decls[i], section))
}

/// The rule that a declaration breaks, given whether its type is taken as
/// a type: that of its markers, if it has no location, else that of its
/// type, if that is none.
pub open spec fn declaration_rule_with(
    attrs: Seq<(Seq<u8>, Seq<u8>)>,
    section: Section,
    type_ok: bool,
) -> Option<Rule> {
    match classify(attrs, section) {
        Err(rule) => Some(rule),
        Ok(_) => if type_ok {
            None
        } else {
            Some(Rule::InvalidType)
        },
    }
}

/// The rule that a declaration breaks, if it breaks one.
pub open spec fn declaration_rule(decl: FieldDeclView, section: Section) -> Option<Rule> {
    declaration_rule_with(decl.attrs, section, is_type(decl.ty))
}

/// The violations of the first `n` declarations: one for each declaration
/// that breaks a rule.
pub open spec fn declaration_violations(
    decls: Seq<FieldDeclView>,
    section: Section,
    n: int,
) -> Seq<ViolationView>
    decreases n,
{
    if n <= 0 {
        Seq::empty()
    } else {
        match declaration_rule(decls[n - 1], section) {
            None => declaration_violations(decls, section, n - 1),
            Some(rule) => declaration_violations(decls, section, n - 1).push(
                ViolationView { rule, section, item: decls[n - 1].name },
            ),
        }
    }
}

/// A copy of the attributes without those under `path`.
pub fn attributes_without(attrs: &Vec<Attribute>, path: &[u8]) -> (r: Vec<Attribute>)
    ensures
        attributes(r@) == without(attributes(attrs@), path@, attrs.len() as int),
{
    let mut out: Vec<Attribute> = Vec::new();
    let mut i: usize = 0;
    while i < attrs.len()
        invariant
            i <= attrs.len(),
            attributes(out@) == without(attributes(attrs@), path@, i as int),
        decreases attrs.len() - i,
    {
        if !crate::text::same(attrs[i].path.as_slice(), path) {
            out.push(
                Attribute {
                    path: crate::text::copy(attrs[i].path.as_slice()),
                    tokens: crate::text::copy(attrs[i].tokens.as_slice()),
                },
            );
        }
        i += 1;
    }
    out
}

/// The tokens of the attributes under `path`.
pub fn attributes_under(attrs: &Vec<Attribute>, path: &[u8]) -> (r: Vec<Vec<u8>>)
    ensures
        rows(r@) == marked(attributes(attrs@), path@, attrs.len() as int),
{
    let mut out: Vec<Vec<u8>> = Vec::new();
    let mut i: usize = 0;
    while i < attrs.len()
        invariant
            i <= attrs.len(),
            rows(out@) == marked(attributes(attrs@), path@, i as int),
        decreases attrs.len() - i,
    {
        if crate::text::same(attrs[i].path.as_slice(), path) {
            out.push(crate::text::copy(attrs[i].tokens.as_slice()));
        }
        i += 1;
    }
    out
}

/// The path of the attributes that hold location markers.
pub fn marker_path_bytes() -> (r: Vec<u8>)
    ensures
        r@ == marker_path(),
{
    proof {
        reveal_strlit("ruma_api");
    }
    crate::text::bytes_of("ruma_api")
}

/// Tests whether a type is optional.
pub fn optional_type(ty: &[u8]) -> (r: bool)
    ensures
        r == is_optional(ty@),
{
    proof {
        reveal_strlit("Option");
    }
    let prefix = crate::text::bytes_of("Option");
    let name = crate::text::without_blanks_in_front(ty);
    if !crate::text::begins_with(name.as_slice(), prefix.as_slice()) {
        return false;
    }
    let after = crate::text::slice(name.as_slice(), prefix.len(), name.len());
    let rest = crate::text::without_blanks_in_front(after.as_slice());
    rest.len() > 0 && rest[0] == 0x3c
}

/// Finds the location of a field with the given attributes. The header
/// that it gives for a header field is a header name.
pub fn classify_attributes(attrs: &Vec<Attribute>, section: Section) -> (r: Result<
    (FieldLocation, Vec<u8>),
    Rule,
>)
    ensures
        match r {
            Ok((location, header)) => {
                &&& classify(attributes(attrs@), section) == Ok::<(FieldLocation, Seq<u8>), Rule>(
                    (location, header@),
                )
                &&& location == FieldLocation::Header ==> is_header_name(header@)
            },
            Err(rule) => classify(attributes(attrs@), section) == Err::<
                (FieldLocation, Seq<u8>),
                Rule,
            >(rule),
        },
{
    let path = marker_path_bytes();
    let markers = attributes_under(attrs, path.as_slice());
    if markers.len() == 0 {
        return Ok((FieldLocation::Body, Vec::new()));
    }
    let mut i: usize = 0;
    while i < markers.len()
        invariant
            i <= markers.len(),
            markers.len() > 0,
            rows(markers@) == marked(attributes(attrs@), marker_path(), attrs.len() as int),
            forall|k: int| 0 <= k < i ==> !is_unknown_marker(#[trigger] rows(markers@)[k], section),
        decreases markers.len() - i,
    {
        assert(rows(markers@)[i as int] == markers@[i as int]@);
        let unknown = match crate::marker::read_marker(markers[i].as_slice()) {
            None => true,
            Some((location, _)) => section == Section::Response && location
                == FieldLocation::Path,
        };
        if unknown {
            return Err(Rule::UnknownMarker);
        }
        i += 1;
    }
    if markers.len() > 1 {
        return Err(Rule::ConflictingMarkers);
    }
    match crate::marker::read_marker(markers[0].as_slice()) {
        Some(place) => Ok(place),
        None => Ok((FieldLocation::Body, Vec::new())),
    }
}

/// Finds the rule that a declaration breaks, given whether its type is
/// taken as a type, and the location of the field with the name of its
/// header; a field that has no location is taken as a member of the body.
pub fn check_declaration(attrs: &Vec<Attribute>, section: Section, type_ok: bool) -> (r: (
    Option<Rule>,
    FieldLocation,
    Vec<u8>,
))
    ensures
        r.0 == declaration_rule_with(attributes(attrs@), section, type_ok),
        (r.1, r.2@) == match classify(attributes(attrs@), section) {
            Ok(place) => place,
            Err(_) => (FieldLocation::Body, Seq::empty()),
        },
        r.1 == FieldLocation::Header ==> is_header_name(r.2@),
{
    match classify_attributes(attrs, section) {
        Ok((location, header)) => {
            if type_ok {
                (None, location, header)
            } else {
                (Some(Rule::InvalidType), location, header)
            }
        },
        Err(rule) => (Some(rule), FieldLocation::Body, Vec::new()),
    }
}

impl Schema {
    /// Makes a schema of the declared fields. Each field gets the location
    /// that its marker names, and a field without a marker is a member of the
    /// body. Where a field has a marker that is not recognized, more than
    /// one marker, or a type that is not taken as a type, no schema is made,
    /// and the violations name every such field. The header of every header
    /// field of the schema is a header name.
    pub fn parse(list: &Vec<FieldDecl>, section: Section) -> (r: Result<Schema, Vec<Violation>>)
        ensures
            match r {
                Ok(schema) => {
                    &&& declaration_violations(decls(list@), section, list.len() as int).len() == 0
                    &&& schema@ == declared(decls(list@), section)
                    &&& forall|i: int|
                        0 <= i < schema@.len() && (#[trigger] schema@[i]).location
                            == FieldLocation::Header ==> is_header_name(schema@[i].header)
                },
                Err(found) => {
                    &&& found.len() > 0
                    &&& violations(found@) == declaration_violations(
                        decls(list@),
                        section,
                        list.len() as int,
                    )
                },
            },
    {
        let path = marker_path_bytes();
        let mut out: Vec<Field> = Vec::new();
        let mut found: Vec<Violation> = Vec::new();
        let mut i: usize = 0;
        while i < list.len()
            invariant
                i <= list.len(),
                path@ == marker_path(),
                out.len() == i,
                forall|j: int| 0 <= j < i ==> (#[trigger] out@[j])@ == field_of(list@[j]@, section),
                forall|j: int|
                    0 <= j < i && (#[trigger] out@[j]).location == FieldLocation::Header
                        ==> is_header_name(out@[j].header@),
                violations(found@) == declaration_violations(decls(list@), section, i as int),
            decreases list.len() - i,
        {
            let decl = &list[i];
            let type_ok = crate::types::type_accepted(decl.ty.as_slice());
            let (broken, location, header) = check_declaration(&decl.attrs, section, type_ok);
            if let Some(rule) = broken {
                found.push(
                    Violation { rule, section, item: crate::text::copy(decl.name.as_slice()) },
                );
            }
            out.push(
                Field {
                    attrs: attributes_without(&decl.attrs, path.as_slice()),
                    name: crate::text::copy(decl.name.as_slice()),
                    ty: crate::text::copy(decl.ty.as_slice()),
                    location,
                    header,
                    optional: optional_type(decl.ty.as_slice()),
                    lifetimes: crate::lifetime::find_named_lifetimes(decl.ty.as_slice()),
                },
            );
            i += 1;
        }
        if found.len() > 0 {
            Err(found)
        } else {
            Ok(Schema { fields: out })
        }
    }
}

/// A copy of `field` without its `serde` attributes. The other attributes
/// keep their order.
pub fn strip_serde_attrs(field: &Field) -> (r: Field)
    ensures
        r@ == (FieldView {
            attrs: without(field@.attrs, serde_path(), field@.attrs.len() as int),
            ..field@
        }),
{
    proof {
        reveal_strlit("serde");
    }
    let path = crate::text::bytes_of("serde");
    Field {
        attrs: attributes_without(&field.attrs, path.as_slice()),
        name: crate::text::copy(field.name.as_slice()),
        ty: crate::text::copy(field.ty.as_slice()),
        location: field.location,
        header: crate::text::copy(field.header.as_slice()),
        optional: field.optional,
        lifetimes: crate::text::copy_rows(&field.lifetimes),
    }
}

} // verus!
