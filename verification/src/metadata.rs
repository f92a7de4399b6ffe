//! Endpoint metadata.

use vstd::prelude::*;
use crate::error::violations;
use crate::error::Rule;
use crate::error::Section;
use crate::error::Violation;
use crate::error::ViolationView;
use crate::path::is_template;
use crate::text::ascii;
use crate::wire::Method;

verus! {

/// What a request has to carry to be let in.
#[derive(Clone, Copy, Debug, PartialEq, Eq, Structural)]
pub enum AuthScheme {
    /// Nothing: the endpoint is open to requests without credentials.
    Open,
    /// An access token, sent in the `Authorization` header.
    AccessToken,
    /// The signature of the sending server.
    ServerSignature,
    /// An access token, sent in the query string.
    QueryOnlyAccessToken,
}

/// The metadata of an endpoint.
#[derive(Clone, Debug, PartialEq, Eq)]
pub struct Metadata {
    pub description: Vec<u8>,
    pub method: Method,
    pub name: Vec<u8>,
    /// The path template.
    pub path: Vec<u8>,
    pub rate_limited: bool,
    pub authentication: AuthScheme,
}

/// What a `Metadata` holds.
pub struct MetadataView {
    pub description: Seq<u8>,
    pub method: Method,
    pub name: Seq<u8>,
    pub path: Seq<u8>,
    pub rate_limited: bool,
    pub authentication: AuthScheme,
}

impl View for Metadata {
    type V = MetadataView;

    open spec fn view(&self) -> MetadataView {
        MetadataView {
            description: self.description@,
            method: self.method,
            name: self.name@,
            path: self.path@,
            rate_limited: self.rate_limited,
            authentication: self.authentication,
        }
    }
}

/// The value of an entry of the metadata as it is declared.
#[derive(Clone, Debug, PartialEq, Eq)]
pub enum MetaValue {
    /// What a string holds.
    Text(Vec<u8>),
    /// A bare word.
    Word(Vec<u8>),
    /// `true` or `false`.
    Flag(bool),
}

/// What a `MetaValue` holds.
pub enum MetaValueView {
    Text(Seq<u8>),
    Word(Seq<u8>),
    Flag(bool),
}

impl View for MetaValue {
    type V = MetaValueView;

    open spec fn view(&self) -> MetaValueView {
        match self {
            MetaValue::Text(t) => MetaValueView::Text(t@),
            MetaValue::Word(w) => MetaValueView::Word(w@),
            MetaValue::Flag(f) => MetaValueView::Flag(*f),
        }
    }
}

/// An entry of the metadata as it is declared: `key: value`.
#[derive(Clone, Debug, PartialEq, Eq)]
pub struct MetaEntry {
    pub key: Vec<u8>,
    pub value: MetaValue,
}

impl View for MetaEntry {
    type V = (Seq<u8>, MetaValueView);

    open spec fn view(&self) -> (Seq<u8>, MetaValueView) {
        (self.key@, self.value@)
    }
}

/// The views of a sequence of entries.
pub open spec fn meta_entries(v: Seq<MetaEntry>) -> Seq<(Seq<u8>, MetaValueView)> {
    v.map_values(|e: MetaEntry| e@)
}

/// What the metadata has an entry for.
#[derive(Clone, Copy, Debug, PartialEq, Eq, Structural)]
pub enum Key {
    Description,
    Method,
    Name,
    Path,
    RateLimited,
    Authentication,
}

impl Key {
    /// The key as it is written.
    pub open spec fn word(self) -> Seq<u8> {
        match self {
            Key::Description => ascii("description"@),
            Key::Method => ascii("method"@),
            Key::Name => ascii("name"@),
            Key::Path => ascii("path"@),
            Key::RateLimited => ascii("rate_limited"@),
            Key::Authentication => ascii("authentication"@),
        }
    }
}

/// What the key `word` is a key for.
pub open spec fn key_of_word(word: Seq<u8>) -> Option<Key> {
    if word == Key::Description.word() {
        Some(Key::Description)
    } else if word == Key::Method.word() {
        Some(Key::Method)
    } else if word == Key::Name.word() {
        Some(Key::Name)
    } else if word == Key::Path.word() {
        Some(Key::Path)
    } else if word == Key::RateLimited.word() {
        Some(Key::RateLimited)
    } else if word == Key::Authentication.word() {
        Some(Key::Authentication)
    } else {
        None
    }
}

/// The method that `word` names.
pub open spec fn method_of_word(word: Seq<u8>) -> Option<Method> {
    if word == Method::Get.name() {
        Some(Method::Get)
    } else if word == Method::Post.name() {
        Some(Method::Post)
    } else if word == Method::Put.name() {
        Some(Method::Put)
    } else if word == Method::Delete.name() {
        Some(Method::Delete)
    } else if word == Method::Head.name() {
        Some(Method::Head)
    } else if word == Method::Options.name() {
        Some(Method::Options)
    } else if word == Method::Patch.name() {
        Some(Method::Patch)
    } else if word == Method::Connect.name() {
        Some(Method::Connect)
    } else if word == Method::Trace.name() {
        Some(Method::Trace)
    } else {
        None
    }
}

/// The authentication scheme that `word` names.
pub open spec fn scheme_of_word(word: Seq<u8>) -> Option<AuthScheme> {
    if word == ascii("None"@) {
        Some(AuthScheme::Open)
    } else if word == ascii("AccessToken"@) {
        Some(AuthScheme::AccessToken)
    } else if word == ascii("ServerSignature"@) {
        Some(AuthScheme::ServerSignature)
    } else if word == ascii("QueryOnlyAccessToken"@) {
        Some(AuthScheme::QueryOnlyAccessToken)
    } else {
        None
    }
}

/// Whether `value` can stand under `key`: a string for the description, a
/// string that is not empty for the name, a well-formed template for the
/// path, the name of a method, `true` or `false` for the rate limit, and the
/// name of a scheme for the authentication.
pub open spec fn is_value_for(key: Key, value: MetaValueView) -> bool {
    match key {
        Key::Description => value is Text,
        Key::Method => value matches MetaValueView::Word(w) && method_of_word(w) is Some,
        Key::Name => value matches MetaValueView::Text(t) && t.len() > 0,
        Key::Path => value matches MetaValueView::Text(t) && is_template(t),
        Key::RateLimited => value is Flag,
        Key::Authentication => value matches MetaValueView::Word(w) && scheme_of_word(w) is Some,
    }
}

/// Whether an earlier entry has the key of entry `i`.
pub open spec fn key_taken(entries: Seq<(Seq<u8>, MetaValueView)>, i: int) -> bool {
    exists|j: int| 0 <= j < i && (#[trigger] entries[j]).0 == entries[i].0
}

/// The rule that entry `i` breaks, if it breaks one.
pub open spec fn entry_rule(entries: Seq<(Seq<u8>, MetaValueView)>, i: int) -> Option<Rule> {
    match key_of_word(entries[i].0) {
        None => Some(Rule::UnknownKey),
        Some(key) => if key_taken(entries, i) {
            Some(Rule::DuplicateKey)
        } else if !is_value_for(key, entries[i].1) {
            Some(Rule::InvalidValue)
        } else {
            None
        },
    }
}

/// The violations of the first `n` entries.
pub open spec fn entry_violations(entries: Seq<(Seq<u8>, MetaValueView)>, n: int) -> Seq<
    ViolationView,
>
    decreases n,
{
    if n <= 0 {
        Seq::empty()
    } else {
        match entry_rule(entries, n - 1) {
            None => entry_violations(entries, n - 1),
            Some(rule) => entry_violations(entries, n - 1).push(
                ViolationView { rule, section: Section::Metadata, item: entries[n - 1].0 },
            ),
        }
    }
}

/// The value of the first entry under `key`.
pub open spec fn value_under(entries: Seq<(Seq<u8>, MetaValueView)>, key: Seq<u8>) -> Option<
    MetaValueView,
>
    decreases entries.len(),
{
    if entries.len() == 0 {
        None
    } else if entries[0].0 == key {
        Some(entries[0].1)
    } else {
        value_under(entries.skip(1), key)
    }
}

/// The violation of a metadata without an entry under `key`, if it has
/// none.
pub open spec fn missing(entries: Seq<(Seq<u8>, MetaValueView)>, key: Key) -> Seq<ViolationView> {
    if value_under(entries, key.word()) is None {
        seq![ViolationView { rule: Rule::MissingKey, section: Section::Metadata, item: key.word() }]
    } else {
        Seq::empty()
    }
}

/// Everything that is wrong with the entries: the violations of the
/// entries, in their order, and then what is missing of the method, the
/// name and the path.
pub open spec fn metadata_violations(entries: Seq<(Seq<u8>, MetaValueView)>) -> Seq<
    ViolationView,
> {
    entry_violations(entries, entries.len() as int) + missing(entries, Key::Method) + missing(
        entries,
        Key::Name,
    ) + missing(entries, Key::Path)
}

/// The text under `key`, or nothing.
pub open spec fn text_under(entries: Seq<(Seq<u8>, MetaValueView)>, key: Key) -> Seq<u8> {
    match value_under(entries, key.word()) {
        Some(MetaValueView::Text(t)) => t,
        _ => Seq::empty(),
    }
}

/// The word under `key`, or nothing.
pub open spec fn word_under(entries: Seq<(Seq<u8>, MetaValueView)>, key: Key) -> Seq<u8> {
    match value_under(entries, key.word()) {
        Some(MetaValueView::Word(w)) => w,
        _ => Seq::empty(),
    }
}

/// The metadata that the entries declare. Without a description it is
/// empty, without a rate limit there is none, and without an authentication
/// scheme the endpoint is open.
pub open spec fn metadata_of(entries: Seq<(Seq<u8>, MetaValueView)>) -> MetadataView {
    MetadataView {
        description: text_under(entries, Key::Description),
        method: match method_of_word(word_under(entries, Key::Method)) {
            Some(m) => m,
            None => Method::Get,
        },
        name: text_under(entries, Key::Name),
        path: text_under(entries, Key::Path),
        rate_limited: value_under(entries, Key::RateLimited.word()) == Some(
            MetaValueView::Flag(true),
        ),
        authentication: match scheme_of_word(word_under(entries, Key::Authentication)) {
            Some(a) => a,
            None => AuthScheme::Open,
        },
    }
}

impl Key {
    /// The key as it is written.
    pub fn bytes(self) -> (r: Vec<u8>)
        ensures
            r@ == self.word(),
    {
        proof {
            reveal_strlit("description");
            reveal_strlit("method");
            reveal_strlit("name");
            reveal_strlit("path");
            reveal_strlit("rate_limited");
            reveal_strlit("authentication");
        }
        match self {
            Key::Description => crate::text::bytes_of("description"),
            Key::Method => crate::text::bytes_of("method"),
            Key::Name => crate::text::bytes_of("name"),
            Key::Path => crate::text::bytes_of("path"),
            Key::RateLimited => crate::text::bytes_of("rate_limited"),
            Key::Authentication => crate::text::bytes_of("authentication"),
        }
    }
}

/// What the key `word` is a key for.
pub fn read_key(word: &[u8]) -> (r: Option<Key>)
    ensures
        r == key_of_word(word@),
{
    if crate::text::same(word, Key::Description.bytes().as_slice()) {
        Some(Key::Description)
    } else if crate::text::same(word, Key::Method.bytes().as_slice()) {
        Some(Key::Method)
    } else if crate::text::same(word, Key::Name.bytes().as_slice()) {
        Some(Key::Name)
    } else if crate::text::same(word, Key::Path.bytes().as_slice()) {
        Some(Key::Path)
    } else if crate::text::same(word, Key::RateLimited.bytes().as_slice()) {
        Some(Key::RateLimited)
    } else if crate::text::same(word, Key::Authentication.bytes().as_slice()) {
        Some(Key::Authentication)
    } else {
        None
    }
}

/// The method that `word` names.
pub fn read_method(word: &[u8]) -> (r: Option<Method>)
    ensures
        r == method_of_word(word@),
{
    proof {
        reveal_strlit("GET");
        reveal_strlit("POST");
        reveal_strlit("PUT");
        reveal_strlit("DELETE");
        reveal_strlit("HEAD");
        reveal_strlit("OPTIONS");
        reveal_strlit("PATCH");
        reveal_strlit("CONNECT");
        reveal_strlit("TRACE");
    }
    if crate::text::is_word(word, "GET") {
        Some(Method::Get)
    } else if crate::text::is_word(word, "POST") {
        Some(Method::Post)
    } else if crate::text::is_word(word, "PUT") {
        Some(Method::Put)
    } else if crate::text::is_word(word, "DELETE") {
        Some(Method::Delete)
    } else if crate::text::is_word(word, "HEAD") {
        Some(Method::Head)
    } else if crate::text::is_word(word, "OPTIONS") {
        Some(Method::Options)
    } else if crate::text::is_word(word, "PATCH") {
        Some(Method::Patch)
    } else if crate::text::is_word(word, "CONNECT") {
        Some(Method::Connect)
    } else if crate::text::is_word(word, "TRACE") {
        Some(Method::Trace)
    } else {
        None
    }
}

/// The authentication scheme that `word` names.
pub fn read_scheme(word: &[u8]) -> (r: Option<AuthScheme>)
    ensures
        r == scheme_of_word(word@),
{
    proof {
        reveal_strlit("None");
        reveal_strlit("AccessToken");
        reveal_strlit("ServerSignature");
        reveal_strlit("QueryOnlyAccessToken");
    }
    if crate::text::is_word(word, "None") {
        Some(AuthScheme::Open)
    } else if crate::text::is_word(word, "AccessToken") {
        Some(AuthScheme::AccessToken)
    } else if crate::text::is_word(word, "ServerSignature") {
        Some(AuthScheme::ServerSignature)
    } else if crate::text::is_word(word, "QueryOnlyAccessToken") {
        Some(AuthScheme::QueryOnlyAccessToken)
    } else {
        None
    }
}

/// Tests whether `value` can stand under `key`.
pub fn check_value(key: Key, value: &MetaValue) -> (r: bool)
    ensures
        r == is_value_for(key, value@),
{
    match key {
        Key::Description => match value {
            MetaValue::Text(_) => true,
            _ => false,
        },
        Key::Method => match value {
            MetaValue::Word(w) => read_method(w.as_slice()).is_some(),
            _ => false,
        },
        Key::Name => match value {
            MetaValue::Text(t) => t.len() > 0,
            _ => false,
        },
        Key::Path => match value {
            MetaValue::Text(t) => crate::path::template(t.as_slice()),
            _ => false,
        },
        Key::RateLimited => match value {
            MetaValue::Flag(_) => true,
            _ => false,
        },
        Key::Authentication => match value {
            MetaValue::Word(w) => read_scheme(w.as_slice()).is_some(),
            _ => false,
        },
    }
}

/// Tests whether an earlier entry has the key of entry `i`.
fn key_is_taken(entries: &Vec<MetaEntry>, i: usize) -> (r: bool)
    requires
        i < entries.len(),
    ensures
        r == key_taken(meta_entries(entries@), i as int),
{
    let mut j: usize = 0;
    while j < i
        invariant
            j <= i < entries.len(),
            forall|k: int|
                0 <= k < j ==> (#[trigger] meta_entries(entries@)[k]).0 != meta_entries(
                    entries@,
                )[i as int].0,
        decreases i - j,
    {
        assert(meta_entries(entries@)[j as int] == entries@[j as int]@);
        if crate::text::same(entries[j].key.as_slice(), entries[i].key.as_slice()) {
            return true;
        }
        j += 1;
    }
    false
}

/// The value of the first entry under `key`.
pub fn lookup_value<'a>(entries: &'a Vec<MetaEntry>, key: Key) -> (r: Option<&'a MetaValue>)
    ensures
        match r {
            Some(v) => value_under(meta_entries(entries@), key.word()) == Some(v@),
            None => value_under(meta_entries(entries@), key.word()) is None,
        },
{
    let word = key.bytes();
    let mut i: usize = 0;
    assert(meta_entries(entries@).skip(0) =~= meta_entries(entries@));
    while i < entries.len()
        invariant
            i <= entries.len(),
            word@ == key.word(),
            value_under(meta_entries(entries@).skip(i as int), key.word()) == value_under(
                meta_entries(entries@),
                key.word(),
            ),
        decreases entries.len() - i,
    {
        let ghost rest = meta_entries(entries@).skip(i as int);
        assert(rest.skip(1) =~= meta_entries(entries@).skip(i + 1));
        if crate::text::same(entries[i].key.as_slice(), word.as_slice()) {
            return Some(&entries[i].value);
        }
        i += 1;
    }
    None
}

/// Puts at the end of `found` the violation of a metadata without an entry
/// under `key`, if it has none.
fn check_present(entries: &Vec<MetaEntry>, key: Key, found: &mut Vec<Violation>)
    ensures
        violations(final(found)@) == violations(old(found)@) + missing(
            meta_entries(entries@),
            key,
        ),
{
    if lookup_value(entries, key).is_none() {
        found.push(
            Violation { rule: Rule::MissingKey, section: Section::Metadata, item: key.bytes() },
        );
    }
}

/// The text under `key`, or nothing.
fn lookup_text(entries: &Vec<MetaEntry>, key: Key) -> (r: Vec<u8>)
    ensures
        r@ == text_under(meta_entries(entries@), key),
{
    match lookup_value(entries, key) {
        Some(MetaValue::Text(t)) => crate::text::copy(t.as_slice()),
        _ => Vec::new(),
    }
}

/// The word under `key`, or nothing.
fn lookup_word(entries: &Vec<MetaEntry>, key: Key) -> (r: Vec<u8>)
    ensures
        r@ == word_under(meta_entries(entries@), key),
{
    match lookup_value(entries, key) {
        Some(MetaValue::Word(w)) => crate::text::copy(w.as_slice()),
        _ => Vec::new(),
    }
}

impl Metadata {
    /// Makes the metadata that the entries declare. None is made where an
    /// entry has a key that is not known or that an earlier entry has, or a
    /// value that cannot stand under its key, or where the method, the name
    /// or the path is missing; the violations then name every such entry and
    /// every missing key.
    pub fn parse(entries: &Vec<MetaEntry>) -> (r: Result<Metadata, Vec<Violation>>)
        ensures
            match r {
                Ok(metadata) => {
                    &&& metadata_violations(meta_entries(entries@)).len() == 0
                    &&& metadata@ == metadata_of(meta_entries(entries@))
                },
                Err(found) => {
                    &&& found.len() > 0
                    &&& violations(found@) == metadata_violations(meta_entries(entries@))
                },
            },
    {
        let mut found: Vec<Violation> = Vec::new();
        let mut i: usize = 0;
        while i < entries.len()
            invariant
                i <= entries.len(),
                violations(found@) == entry_violations(meta_entries(entries@), i as int),
            decreases entries.len() - i,
        {
            let rule = match read_key(entries[i].key.as_slice()) {
                None => Some(Rule::UnknownKey),
                Some(key) => {
                    if key_is_taken(entries, i) {
                        Some(Rule::DuplicateKey)
                    } else if !check_value(key, &entries[i].value) {
                        Some(Rule::InvalidValue)
                    } else {
                        None
                    }
                },
            };
            if let Some(rule) = rule {
                found.push(
                    Violation {
                        rule,
                        section: Section::Metadata,
                        item: crate::text::copy(entries[i].key.as_slice()),
                    },
                );
            }
            i += 1;
        }
        check_present(entries, Key::Method, &mut found);
        check_present(entries, Key::Name, &mut found);
        check_present(entries, Key::Path, &mut found);
        if found.len() > 0 {
            return Err(found);
        }
        let method = match read_method(lookup_word(entries, Key::Method).as_slice()) {
            Some(m) => m,
            None => Method::Get,
        };
        let authentication = match read_scheme(
            lookup_word(entries, Key::Authentication).as_slice(),
        ) {
            Some(a) => a,
            None => AuthScheme::Open,
        };
        let rate_limited = match lookup_value(entries, Key::RateLimited) {
            Some(MetaValue::Flag(f)) => *f,
            _ => false,
        };
        Ok(
            Metadata {
                description: lookup_text(entries, Key::Description),
                method,
                name: lookup_text(entries, Key::Name),
                path: lookup_text(entries, Key::Path),
                rate_limited,
                authentication,
            },
        )
    }
}

} // verus!
