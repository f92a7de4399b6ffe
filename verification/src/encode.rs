//! Writing messages to the wire.

use vstd::prelude::*;
use crate::api::Api;
use crate::codec::all_header_values;
use crate::codec::authorization;
use crate::codec::bearer;
use crate::codec::content_type;
use crate::codec::query_of;
use crate::codec::request_body;
use crate::codec::request_encoding;
use crate::codec::response_body;
use crate::codec::response_encoding;
use crate::codec::response_headers;
use crate::codec::trim_slash;
use crate::error::IntoHttpError;
use crate::message::conforms;
use crate::message::pairs_of;
use crate::message::texts;
use crate::message::whole_of;
use crate::message::Message;
use crate::message::Value;
use crate::metadata::AuthScheme;
use crate::schema::fields;
use crate::schema::Field;
use crate::schema::FieldLocation;
use crate::text::ascii;
use crate::text::rows;
use crate::wire::entries;
use crate::wire::is_header_value;
use crate::wire::put;
use crate::wire::Entry;
use crate::wire::HttpRequest;
use crate::wire::HttpResponse;

verus! {

/// What an access token that may be missing holds.
pub open spec fn token_view(token: Option<&[u8]>) -> Option<Seq<u8>> {
    match token {
        Some(t) => Some(t@),
        None => None,
    }
}

/// The bytes of an ASCII string.
pub fn literal(s: &str) -> (r: Vec<u8>)
    requires
        s.is_ascii(),
    ensures
        r@ == ascii(s@),
{
    crate::text::bytes_of(s)
}

/// The name of the header that carries the access token.
pub fn authorization_name() -> (r: Vec<u8>)
    ensures
        r@ == authorization(),
{
    proof {
        reveal_strlit("authorization");
    }
    literal("authorization")
}

/// The value of the header that carries the access token `token`.
pub fn bearer_value(token: &[u8]) -> (r: Vec<u8>)
    ensures
        r@ == bearer(token@),
{
    proof {
        reveal_strlit("Bearer ");
    }
    let mut out = literal("Bearer ");
    crate::text::append(&mut out, token);
    out
}

/// The header that says that a body is JSON.
pub fn content_type_entry() -> (r: Entry)
    ensures
        r@ == content_type(),
{
    proof {
        reveal_strlit("content-type");
        reveal_strlit("application/json");
    }
    Entry { name: literal("content-type"), value: literal("application/json") }
}

/// Tests whether every value of the list can be the value of a header.
pub fn all_accepted(list: &Vec<Entry>) -> (r: bool)
    ensures
        r == all_header_values(entries(list@)),
{
    let mut i: usize = 0;
    while i < list.len()
        invariant
            i <= list.len(),
            forall|j: int| 0 <= j < i ==> is_header_value((#[trigger] entries(list@)[j]).1),
        decreases list.len() - i,
    {
        assert(entries(list@)[i as int] == list@[i as int]@);
        if !crate::wire::header_value_accepted(list[i].value.as_slice()) {
            return false;
        }
        i += 1;
    }
    true
}

/// The values of a list of entries.
pub fn entry_texts(list: &Vec<Entry>) -> (r: Vec<Vec<u8>>)
    ensures
        rows(r@) == texts(entries(list@)),
{
    let mut out: Vec<Vec<u8>> = Vec::new();
    let mut i: usize = 0;
    while i < list.len()
        invariant
            i <= list.len(),
            out.len() == i,
            forall|j: int| 0 <= j < i ==> (#[trigger] out@[j])@ == list@[j].value@,
        decreases list.len() - i,
    {
        out.push(crate::text::copy(list[i].value.as_slice()));
        i += 1;
    }
    out
}

/// A copy of a list of entries.
pub fn copy_entries(list: &Vec<Entry>) -> (r: Vec<Entry>)
    ensures
        entries(r@) == entries(list@),
{
    let mut out: Vec<Entry> = Vec::new();
    let mut i: usize = 0;
    while i < list.len()
        invariant
            i <= list.len(),
            out.len() == i,
            forall|j: int| 0 <= j < i ==> (#[trigger] out@[j])@ == list@[j]@,
        decreases list.len() - i,
    {
        out.push(
            Entry {
                name: crate::text::copy(list[i].name.as_slice()),
                value: crate::text::copy(list[i].value.as_slice()),
            },
        );
        i += 1;
    }
    out
}

/// `base` without the `/` at its end, if it has one there.
pub fn without_final_slash(base: &[u8]) -> (r: Vec<u8>)
    ensures
        r@ == trim_slash(base@),
{
    if base.len() > 0 && base[base.len() - 1] == 0x2f {
        crate::text::slice(base, 0, base.len() - 1)
    } else {
        crate::text::copy(base)
    }
}

/// The parameters of the query string of a message.
pub fn query_entries(list: &Vec<Field>, message: &Message) -> (r: Vec<Entry>)
    requires
        message@.len() == list.len(),
    ensures
        entries(r@) == query_of(fields(list@), message@),
{
    if crate::schema::count_at(list, FieldLocation::QueryMap, list.len()) == 0 {
        return crate::message::collect_named(list, message, FieldLocation::Query);
    }
    let mut out: Vec<Entry> = Vec::new();
    let mut i: usize = 0;
    while i < list.len()
        invariant
            i <= list.len(),
            message.values.len() == list.len(),
            entries(out@) == pairs_of(fields(list@), message@, i as int),
        decreases list.len() - i,
    {
        if list[i].location == FieldLocation::QueryMap {
            match &message.values[i] {
                Value::Pairs(p) => {
                    out = copy_entries(p);
                },
                _ => {},
            }
        }
        i += 1;
    }
    out
}

/// The text of the field that is the whole body.
pub fn whole_text(list: &Vec<Field>, message: &Message) -> (r: Vec<u8>)
    requires
        message@.len() == list.len(),
    ensures
        r@ == whole_of(fields(list@), message@, list.len() as int),
{
    let mut out: Vec<u8> = Vec::new();
    let mut i: usize = 0;
    while i < list.len()
        invariant
            i <= list.len(),
            message.values.len() == list.len(),
            out@ == whole_of(fields(list@), message@, i as int),
        decreases list.len() - i,
    {
        if list[i].location == FieldLocation::NewtypeBody {
            if let Some(text) = crate::message::value_text(&message.values[i]) {
                out = crate::text::copy(text.as_slice());
            }
        }
        i += 1;
    }
    out
}

/// The body of the request that holds a message.
pub fn write_request_body(list: &Vec<Field>, message: &Message) -> (r: Vec<u8>)
    requires
        message@.len() == list.len(),
    ensures
        r@ == request_body(fields(list@), message@),
{
    if crate::schema::count_at(list, FieldLocation::Body, list.len()) > 0 {
        let members = crate::message::collect_named(list, message, FieldLocation::Body);
        if members.len() == 0 {
            Vec::new()
        } else {
            crate::json::write_object(&members)
        }
    } else if crate::schema::count_at(list, FieldLocation::NewtypeBody, list.len()) > 0 {
        whole_text(list, message)
    } else {
        Vec::new()
    }
}

/// The body of the response that holds a message.
pub fn write_response_body(list: &Vec<Field>, message: &Message) -> (r: Vec<u8>)
    requires
        message@.len() == list.len(),
    ensures
        r@ == response_body(fields(list@), message@),
{
    if crate::schema::count_at(list, FieldLocation::Body, list.len()) == 0
        && crate::schema::count_at(list, FieldLocation::NewtypeBody, list.len()) > 0 {
        whole_text(list, message)
    } else {
        let members = crate::message::collect_named(list, message, FieldLocation::Body);
        crate::json::write_object(&members)
    }
}

/// Puts `value` in the place of the value under `name`, or at the end of the
/// list where no entry has that name.
pub fn put_entry(list: &mut Vec<Entry>, name: Vec<u8>, value: Vec<u8>)
    ensures
        entries(final(list)@) == put(entries(old(list)@), name@, value@),
{
    let mut i: usize = 0;
    let ghost start = entries(list@);
    assert(start.take(0) + put(start.skip(0), name@, value@) =~= put(start, name@, value@)) by {
        assert(start.skip(0) =~= start);
    }
    while i < list.len()
        invariant
            i <= list.len(),
            list@ == old(list)@,
            start == entries(list@),
            start.take(i as int) + put(start.skip(i as int), name@, value@) == put(
                start,
                name@,
                value@,
            ),
        decreases list.len() - i,
    {
        let ghost rest = start.skip(i as int);
        assert(rest.skip(1) =~= start.skip(i + 1));
        if crate::text::same(list[i].name.as_slice(), name.as_slice()) {
            list.set(i, Entry { name, value });
            return ;
        }
        i += 1;
    }
    list.push(Entry { name, value });
}

/// The headers of the response that holds a message.
pub fn write_response_headers(list: &Vec<Field>, message: &Message) -> (r: Vec<Entry>)
    requires
        message@.len() == list.len(),
    ensures
        entries(r@) == response_headers(fields(list@), message@, list.len() as int),
{
    let mut out: Vec<Entry> = Vec::new();
    out.push(content_type_entry());
    let mut i: usize = 0;
    while i < list.len()
        invariant
            i <= list.len(),
            message.values.len() == list.len(),
            entries(out@) == response_headers(fields(list@), message@, i as int),
        decreases list.len() - i,
    {
        if list[i].location == FieldLocation::Header {
            if let Some(text) = crate::message::value_text(&message.values[i]) {
                put_entry(
                    &mut out,
                    crate::text::copy(list[i].header.as_slice()),
                    crate::text::copy(text.as_slice()),
                );
            }
        }
        i += 1;
    }
    out
}

/// Makes the request that holds `message`, to be sent to the server at
/// `base_url`, with `access_token` where the endpoint asks for one.
pub fn encode_request(
    api: &Api,
    message: &Message,
    base_url: &[u8],
    access_token: Option<&[u8]>,
) -> (r: Result<HttpRequest, IntoHttpError>)
    requires
        conforms(api@.request, message@),
    ensures
        match r {
            Ok(request) => request_encoding(api@, message@, base_url@, token_view(access_token))
                == Ok::<crate::wire::HttpRequestView, IntoHttpError>(request@),
            Err(e) => request_encoding(api@, message@, base_url@, token_view(access_token))
                == Err::<crate::wire::HttpRequestView, IntoHttpError>(e),
        },
{
    let list = &api.request.fields;
    let sends_token = api.metadata.authentication == AuthScheme::AccessToken;
    if sends_token && access_token.is_none() {
        return Err(IntoHttpError::NeedsAuthentication);
    }
    let mut headers = crate::message::collect_named(list, message, FieldLocation::Header);
    if !all_accepted(&headers) {
        return Err(IntoHttpError::InvalidHeader);
    }
    if sends_token {
        match access_token {
            None => {},
            Some(token) => {
                let value = bearer_value(token);
                if !crate::wire::header_value_accepted(value.as_slice()) {
                    return Err(IntoHttpError::InvalidHeader);
                }
                let ghost before = entries(headers@);
                headers.push(Entry { name: authorization_name(), value });
                assert(entries(headers@) =~= before.push((authorization(), bearer(token@))));
            },
        }
    }
    let args = entry_texts(&crate::message::collect_named(list, message, FieldLocation::Path));
    let pairs = query_entries(list, message);
    Ok(
        HttpRequest {
            method: api.metadata.method,
            base: without_final_slash(base_url),
            path: crate::path::write_path(api.metadata.path.as_slice(), &args),
            query: crate::query::write_query(&pairs),
            headers,
            body: write_request_body(list, message),
        },
    )
}

/// Makes the response that holds `message`.
pub fn encode_response(api: &Api, message: &Message) -> (r: Result<HttpResponse, IntoHttpError>)
    requires
        conforms(api@.response, message@),
    ensures
        match r {
            Ok(response) => response_encoding(api@, message@) == Ok::<
                crate::wire::HttpResponseView,
                IntoHttpError,
            >(response@),
            Err(e) => response_encoding(api@, message@) == Err::<
                crate::wire::HttpResponseView,
                IntoHttpError,
            >(e),
        },
{
    let list = &api.response.fields;
    let heads = crate::message::collect_named(list, message, FieldLocation::Header);
    if !all_accepted(&heads) {
        return Err(IntoHttpError::InvalidHeader);
    }
    Ok(
        HttpResponse {
            status: 200,
            headers: write_response_headers(list, message),
            body: write_response_body(list, message),
        },
    )
}

} // verus!
