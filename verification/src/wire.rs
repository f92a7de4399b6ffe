//! Wire-level HTTP messages as plain values.
//!
//! A request carries its URI in three parts: what stands before the path
//! (scheme and authority, possibly none), the path, and the query without
//! its `?`. Header names are held in lower case, as they are compared.

use vstd::prelude::*;
use crate::text::ascii;

verus! {

/// A name with a value: a header, a query parameter or a member of an object.
#[derive(Clone, Debug, PartialEq, Eq)]
pub struct Entry {
    pub name: Vec<u8>,
    pub value: Vec<u8>,
}

impl View for Entry {
    type V = (Seq<u8>, Seq<u8>);

    open spec fn view(&self) -> (Seq<u8>, Seq<u8>) {
        (self.name@, self.value@)
    }
}

/// The views of a sequence of entries.
pub open spec fn entries(v: Seq<Entry>) -> Seq<(Seq<u8>, Seq<u8>)> {
    v.map_values(|e: Entry| e@)
}

/// The value of the first entry of `list` under `name`.
pub open spec fn find(list: Seq<(Seq<u8>, Seq<u8>)>, name: Seq<u8>) -> Option<Seq<u8>>
    decreases list.len(),
{
    if list.len() == 0 {
        None
    } else if list[0].0 == name {
        Some(list[0].1)
    } else {
        find(list.skip(1), name)
    }
}

/// `list` with the value under `name` replaced by `value`, or with a new
/// entry at its end where no entry has that name.
pub open spec fn put(list: Seq<(Seq<u8>, Seq<u8>)>, name: Seq<u8>, value: Seq<u8>) -> Seq<
    (Seq<u8>, Seq<u8>),
>
    decreases list.len(),
{
    if list.len() == 0 {
        seq![(name, value)]
    } else if list[0].0 == name {
        seq![(name, value)] + list.skip(1)
    } else {
        seq![list[0]] + put(list.skip(1), name, value)
    }
}

/// Looking up after a `put`.
pub proof fn lemma_find_put(
    list: Seq<(Seq<u8>, Seq<u8>)>,
    name: Seq<u8>,
    value: Seq<u8>,
    other: Seq<u8>,
)
    ensures
        find(put(list, name, value), other) == if other == name {
            Some(value)
        } else {
            find(list, other)
        },
    decreases list.len(),
{
    let after = put(list, name, value);
    if list.len() == 0 {
    } else if list[0].0 == name {
        assert(after.skip(1) =~= list.skip(1));
    } else {
        assert(after[0] == list[0]);
        assert(after.skip(1) =~= put(list.skip(1), name, value));
        lemma_find_put(list.skip(1), name, value, other);
    }
}

/// Looking up in a list that got one more entry at its end.
pub proof fn lemma_find_push(
    list: Seq<(Seq<u8>, Seq<u8>)>,
    entry: (Seq<u8>, Seq<u8>),
    name: Seq<u8>,
)
    ensures
        find(list.push(entry), name) == if find(list, name) is Some {
            find(list, name)
        } else if entry.0 == name {
            Some(entry.1)
        } else {
            None
        },
    decreases list.len(),
{
    let after = list.push(entry);
    if list.len() == 0 {
        assert(find(after.skip(1), name) is None);
    } else {
        assert(after.skip(1) =~= list.skip(1).push(entry));
        lemma_find_push(list.skip(1), entry, name);
    }
}

/// The method of an HTTP request.
#[derive(Clone, Copy, Debug, PartialEq, Eq, Structural)]
pub enum Method {
    Get,
    Post,
    Put,
    Delete,
    Head,
    Options,
    Patch,
    Connect,
    Trace,
}

/// An HTTP request.
#[derive(Clone, Debug, PartialEq, Eq)]
pub struct HttpRequest {
    pub method: Method,
    /// What stands before the path in the URI.
    pub base: Vec<u8>,
    /// The path, which begins with `/`.
    pub path: Vec<u8>,
    /// The query, without its `?`; empty where the URI has none.
    pub query: Vec<u8>,
    pub headers: Vec<Entry>,
    pub body: Vec<u8>,
}

/// What an `HttpRequest` holds.
pub struct HttpRequestView {
    pub method: Method,
    pub base: Seq<u8>,
    pub path: Seq<u8>,
    pub query: Seq<u8>,
    pub headers: Seq<(Seq<u8>, Seq<u8>)>,
    pub body: Seq<u8>,
}

impl View for HttpRequest {
    type V = HttpRequestView;

    open spec fn view(&self) -> HttpRequestView {
        HttpRequestView {
            method: self.method,
            base: self.base@,
            path: self.path@,
            query: self.query@,
            headers: entries(self.headers@),
            body: self.body@,
        }
    }
}

/// The text of a URI: what stands before the path, the path and, where the
/// query is not empty, `?` and the query.
pub open spec fn uri_text(base: Seq<u8>, path: Seq<u8>, query: Seq<u8>) -> Seq<u8> {
    if query.len() == 0 {
        base + path
    } else {
        base + path + seq![0x3fu8] + query
    }
}

/// An HTTP response.
#[derive(Clone, Debug, PartialEq, Eq)]
pub struct HttpResponse {
    pub status: u16,
    pub headers: Vec<Entry>,
    pub body: Vec<u8>,
}

/// What an `HttpResponse` holds.
pub struct HttpResponseView {
    pub status: u16,
    pub headers: Seq<(Seq<u8>, Seq<u8>)>,
    pub body: Seq<u8>,
}

impl View for HttpResponse {
    type V = HttpResponseView;

    open spec fn view(&self) -> HttpResponseView {
        HttpResponseView { status: self.status, headers: entries(self.headers@), body: self.body@ }
    }
}

/// Whether a header value may hold the byte `b`: a tab, or any byte from 32
/// up but 127.
pub open spec fn is_header_value_byte(b: u8) -> bool {
    (b >= 32 && b != 127) || b == 9
}

/// Whether `s` can be the value of a header.
pub open spec fn is_header_value(s: Seq<u8>) -> bool {
    forall|i: int| 0 <= i < s.len() ==> is_header_value_byte(#[trigger] s[i])
}

/// Calls `http::HeaderValue::from_bytes` and says whether it returned a
/// value. It does so exactly when every byte of `value` is a tab or at least
/// 32 and not 127: it tests each byte for that and does nothing else that can
/// fail.
#[verifier::external_body]
pub(crate) fn header_value_accepted(value: &[u8]) -> (r: bool)
    ensures
        r == is_header_value(value@),
{
    http::HeaderValue::from_bytes(value).is_ok()
}

impl Method {
    /// The name of the method as it stands in a request line.
    pub open spec fn name(self) -> Seq<u8> {
        match self {
            Method::Get => ascii("GET"@),
            Method::Post => ascii("POST"@),
            Method::Put => ascii("PUT"@),
            Method::Delete => ascii("DELETE"@),
            Method::Head => ascii("HEAD"@),
            Method::Options => ascii("OPTIONS"@),
            Method::Patch => ascii("PATCH"@),
            Method::Connect => ascii("CONNECT"@),
            Method::Trace => ascii("TRACE"@),
        }
    }
}

/// The value of the first entry of `list` under `name`.
pub fn lookup<'a>(list: &'a Vec<Entry>, name: &[u8]) -> (r: Option<&'a Vec<u8>>)
    ensures
        match r {
            Some(v) => find(entries(list@), name@) == Some(v@),
            None => find(entries(list@), name@) is None,
        },
{
    let mut i: usize = 0;
    assert(entries(list@).skip(0) =~= entries(list@));
    while i < list.len()
        invariant
            i <= list.len(),
            find(entries(list@).skip(i as int), name@) == find(entries(list@), name@),
        decreases list.len() - i,
    {
        let ghost rest = entries(list@).skip(i as int);
        assert(rest.skip(1) =~= entries(list@).skip(i + 1));
        if crate::text::same(list[i].name.as_slice(), name) {
            return Some(&list[i].value);
        }
        i += 1;
    }
    None
}

impl Method {
    /// The name of the method as it stands in a request line.
    pub fn to_bytes(self) -> (r: Vec<u8>)
        ensures
            r@ == self.name(),
    {
        proof {
            reveal_strlit("GET");
            reveal_strlit("POST");
            reveal_strlit("PUT");
            reveal_strlit("DELETE");
            reveal_strlit("HEAD");
            reveal_strlit("OPTIONS");
            reveal_strlit("PATCH");
            reveal_strlit("CONNECT");
            reveal_strlit("TRACE");
        }
        match self {
            Method::Get => crate::text::bytes_of("GET"),
            Method::Post => crate::text::bytes_of("POST"),
            Method::Put => crate::text::bytes_of("PUT"),
            Method::Delete => crate::text::bytes_of("DELETE"),
            Method::Head => crate::text::bytes_of("HEAD"),
            Method::Options => crate::text::bytes_of("OPTIONS"),
            Method::Patch => crate::text::bytes_of("PATCH"),
            Method::Connect => crate::text::bytes_of("CONNECT"),
            Method::Trace => crate::text::bytes_of("TRACE"),
        }
    }
}

impl HttpRequest {
    /// The text of the request's URI.
    pub fn uri(&self) -> (r: Vec<u8>)
        ensures
            r@ == uri_text(self@.base, self@.path, self@.query),
    {
        let mut out: Vec<u8> = Vec::new();
        crate::text::append(&mut out, self.base.as_slice());
        crate::text::append(&mut out, self.path.as_slice());
        if self.query.len() > 0 {
            out.push(0x3f);
            crate::text::append(&mut out, self.query.as_slice());
        }
        out
    }
}

} // verus!
