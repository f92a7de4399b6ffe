//! How the messages of an endpoint are written to the wire and read from it.
//!
//! The functions of this module say, for an endpoint that keeps every rule,
//! what the request and the response are that hold a message, and what the
//! message is that a request or a response holds. Reading undoes writing.

use vstd::prelude::*;
use crate::api::ApiView;
use crate::error::DeserializationError;
use crate::error::IntoHttpError;
use crate::json::json_object_members;
use crate::json::json_value_text;
use crate::json::object_text;
use crate::message::all_named;
use crate::message::conforms;
use crate::message::pairs_of;
use crate::message::text_of;
use crate::message::texts;
use crate::message::travels;
use crate::message::whole_of;
use crate::message::ValueView;
use crate::metadata::AuthScheme;
use crate::path::path_args;
use crate::path::path_text;
use crate::query::query_pairs;
use crate::query::query_text;
use crate::schema::count;
use crate::schema::any_at;
use crate::schema::FieldLocation;
use crate::schema::FieldView;
use crate::text::ascii;
use crate::validate::is_valid;
use crate::validate::schema_in_order;
use crate::wire::entries;
use crate::wire::find;
use crate::wire::is_header_value;
use crate::wire::put;
use crate::wire::Entry;
use crate::wire::HttpRequestView;
use crate::wire::HttpResponseView;

verus! {

/// What the JSON reader made of a body.
#[derive(Clone, Debug, PartialEq, Eq)]
pub enum JsonBody {
    /// The schema has no field in the body, so the body was not read.
    Absent,
    /// The members of the object that the body is.
    Members(Vec<Entry>),
    /// The text of the value that the body is.
    Whole(Vec<u8>),
    /// The body is not JSON of the form that the schema asks for.
    Malformed,
}

/// What a `JsonBody` holds.
pub enum JsonBodyView {
    Absent,
    Members(Seq<(Seq<u8>, Seq<u8>)>),
    Whole(Seq<u8>),
    Malformed,
}

impl View for JsonBody {
    type V = JsonBodyView;

    open spec fn view(&self) -> JsonBodyView {
        match self {
            JsonBody::Absent => JsonBodyView::Absent,
            JsonBody::Members(m) => JsonBodyView::Members(entries(m@)),
            JsonBody::Whole(t) => JsonBodyView::Whole(t@),
            JsonBody::Malformed => JsonBodyView::Malformed,
        }
    }
}

/// `base` without the `/` at its end, if it has one there.
pub open spec fn trim_slash(base: Seq<u8>) -> Seq<u8> {
    if base.len() > 0 && base[base.len() - 1] == 0x2f {
        base.take(base.len() - 1)
    } else {
        base
    }
}

/// The parameters of the query string: those of the field that is the whole
/// query string, where there is one, else one for each query field.
pub open spec fn query_of(fields: Seq<FieldView>, values: Seq<ValueView>) -> Seq<
    (Seq<u8>, Seq<u8>),
> {
    if any_at(fields, FieldLocation::QueryMap) {
        pairs_of(fields, values, fields.len() as int)
    } else {
        all_named(fields, values, FieldLocation::Query)
    }
}

/// The body of a request: the object of the body fields that are set, or
/// nothing where none is set; the text of the field that is the whole body;
/// or nothing where no field travels in the body.
pub open spec fn request_body(fields: Seq<FieldView>, values: Seq<ValueView>) -> Seq<u8> {
    if any_at(fields, FieldLocation::Body) {
        let members = all_named(fields, values, FieldLocation::Body);
        if members.len() == 0 {
            Seq::empty()
        } else {
            object_text(members)
        }
    } else if any_at(fields, FieldLocation::NewtypeBody) {
        whole_of(fields, values, fields.len() as int)
    } else {
        Seq::empty()
    }
}

/// The body of a response: the object of the body fields that are set, or
/// the text of the field that is the whole body. Where no field travels in
/// the body, it is the empty object.
pub open spec fn response_body(fields: Seq<FieldView>, values: Seq<ValueView>) -> Seq<u8> {
    if !any_at(fields, FieldLocation::Body) && any_at(fields, FieldLocation::NewtypeBody) {
        whole_of(fields, values, fields.len() as int)
    } else {
        object_text(all_named(fields, values, FieldLocation::Body))
    }
}

/// Whether every value of the list can be the value of a header.
pub open spec fn all_header_values(list: Seq<(Seq<u8>, Seq<u8>)>) -> bool {
    forall|i: int| 0 <= i < list.len() ==> is_header_value((#[trigger] list[i]).1)
}

/// The name of the header that carries the access token.
pub open spec fn authorization() -> Seq<u8> {
    ascii("authorization"@)
}

/// The value of the header that carries the access token `token`.
pub open spec fn bearer(token: Seq<u8>) -> Seq<u8> {
    ascii("Bearer "@) + token
}

/// Whether a request to the endpoint carries an access token in a header.
pub open spec fn sends_token(api: ApiView) -> bool {
    api.metadata.authentication == AuthScheme::AccessToken
}

/// The request that holds the message `values`: what `base` is without a `/`
/// at its end, the path template with the path fields for its placeholders,
/// the query string, one header for each header field and after them, where
/// the endpoint asks for it, the access token, and the body. No request is
/// made where the access token is asked for and missing; else none is made
/// where a header field, or the token, holds what no header may hold.
pub open spec fn request_encoding(
    api: ApiView,
    values: Seq<ValueView>,
    base: Seq<u8>,
    token: Option<Seq<u8>>,
) -> Result<HttpRequestView, IntoHttpError> {
    let heads = all_named(api.request, values, FieldLocation::Header);
    if sends_token(api) && token is None {
        Err(IntoHttpError::NeedsAuthentication)
    } else if !all_header_values(heads) {
        Err(IntoHttpError::InvalidHeader)
    } else if sends_token(api) && !is_header_value(bearer(token.unwrap())) {
        Err(IntoHttpError::InvalidHeader)
    } else {
        Ok(
            HttpRequestView {
                method: api.metadata.method,
                base: trim_slash(base),
                path: path_text(
                    api.metadata.path,
                    texts(all_named(api.request, values, FieldLocation::Path)),
                ),
                query: query_text(query_of(api.request, values)),
                headers: if sends_token(api) {
                    heads.push((authorization(), bearer(token.unwrap())))
                } else {
                    heads
                },
                body: request_body(api.request, values),
            },
        )
    }
}

/// An endpoint that asks for an access token makes no request without one,
/// whatever the message is.
pub proof fn lemma_needs_authentication(api: ApiView, values: Seq<ValueView>, base: Seq<u8>)
    requires
        api.metadata.authentication == AuthScheme::AccessToken,
    ensures
        request_encoding(api, values, base, None) == Err::<HttpRequestView, IntoHttpError>(
            IntoHttpError::NeedsAuthentication,
        ),
{
}

/// A request to an endpoint that asks for an access token carries the token
/// in its last header, `authorization`, after the word `Bearer` and a space.
pub proof fn lemma_carries_token(
    api: ApiView,
    values: Seq<ValueView>,
    base: Seq<u8>,
    token: Seq<u8>,
)
    requires
        api.metadata.authentication == AuthScheme::AccessToken,
        request_encoding(api, values, base, Some(token)) is Ok,
    ensures
        ({
            let request = request_encoding(api, values, base, Some(token)).unwrap();
            &&& request.headers.len() > 0
            &&& request.headers[request.headers.len() - 1] == (authorization(), bearer(token))
        }),
{
}

/// The path of a request is the path template with the percent-encoded
/// value of each path field in the place of its placeholder. An encoded
/// value holds no `/`, so it stays in its segment, and it decodes to the
/// value.
pub proof fn lemma_request_path(
    api: ApiView,
    values: Seq<ValueView>,
    base: Seq<u8>,
    token: Option<Seq<u8>>,
)
    requires
        request_encoding(api, values, base, token) is Ok,
    ensures
        ({
            let request = request_encoding(api, values, base, token).unwrap();
            let args = texts(all_named(api.request, values, FieldLocation::Path));
            let segments = crate::path::segments(api.metadata.path);
            &&& request.path == seq![0x2fu8] + crate::text::join(
                crate::path::fill(segments, args),
                0x2f,
            )
            &&& forall|i: int|
                0 <= i < segments.len() && crate::path::is_placeholder(#[trigger] segments[i])
                    && crate::path::rank(segments, i) < args.len() ==> {
                    let written = crate::path::fill(segments, args)[i];
                    let value = args[crate::path::rank(segments, i)];
                    &&& written == crate::escape::escape(value)
                    &&& !crate::text::has_byte(written, 0x2f)
                    &&& crate::escape::unescape(written) == value
                }
            &&& forall|i: int|
                0 <= i < segments.len() && !crate::path::is_placeholder(#[trigger] segments[i])
                    ==> crate::path::fill(segments, args)[i] == segments[i]
        }),
{
    let args = texts(all_named(api.request, values, FieldLocation::Path));
    let segments = crate::path::segments(api.metadata.path);
    assert forall|i: int|
        0 <= i < segments.len() && crate::path::is_placeholder(#[trigger] segments[i])
            && crate::path::rank(segments, i) < args.len() implies {
        let written = crate::path::fill(segments, args)[i];
        let value = args[crate::path::rank(segments, i)];
        &&& written == crate::escape::escape(value)
        &&& !crate::text::has_byte(written, 0x2f)
        &&& crate::escape::unescape(written) == value
    } by {
        let value = args[crate::path::rank(segments, i)];
        crate::escape::lemma_escape_has_no(value, 0x2f);
        crate::escape::lemma_unescape_escape(value);
    }
}

/// The header that says that a body is JSON.
pub open spec fn content_type() -> (Seq<u8>, Seq<u8>) {
    (ascii("content-type"@), ascii("application/json"@))
}

/// The headers of a response after the first `n` fields: the content type,
/// and the value of each header field under its header, where a later value
/// takes the place of an earlier one under the same header.
pub open spec fn response_headers(fields: Seq<FieldView>, values: Seq<ValueView>, n: int) -> Seq<
    (Seq<u8>, Seq<u8>),
>
    decreases n,
{
    if n <= 0 {
        seq![content_type()]
    } else if travels(fields, values, FieldLocation::Header, n - 1) {
        put(
            response_headers(fields, values, n - 1),
            fields[n - 1].header,
            text_of(values[n - 1]).unwrap(),
        )
    } else {
        response_headers(fields, values, n - 1)
    }
}

/// The response that holds the message `values`, with the status 200. None
/// is made where a header field holds what no header may hold.
pub open spec fn response_encoding(api: ApiView, values: Seq<ValueView>) -> Result<
    HttpResponseView,
    IntoHttpError,
> {
    if !all_header_values(all_named(api.response, values, FieldLocation::Header)) {
        Err(IntoHttpError::InvalidHeader)
    } else {
        Ok(
            HttpResponseView {
                status: 200,
                headers: response_headers(api.response, values, api.response.len() as int),
                body: response_body(api.response, values),
            },
        )
    }
}

/// The value of field `i` in what was read: `args` from the path, `pairs`
/// from the query string, `headers`, and `json` from the body.
pub open spec fn decoded(
    fields: Seq<FieldView>,
    i: int,
    args: Option<Seq<Seq<u8>>>,
    pairs: Seq<(Seq<u8>, Seq<u8>)>,
    headers: Seq<(Seq<u8>, Seq<u8>)>,
    json: JsonBodyView,
) -> Result<ValueView, DeserializationError> {
    let f = fields[i];
    match f.location {
        FieldLocation::Path => {
            let k = count(fields, FieldLocation::Path, i);
            if args is Some && 0 <= k < args.unwrap().len() {
                Ok(ValueView::Text(args.unwrap()[k]))
            } else {
                Err(DeserializationError::PathSegment)
            }
        },
        FieldLocation::Query => match find(pairs, f.name) {
            Some(t) => Ok(ValueView::Text(t)),
            None => Err(DeserializationError::QueryParameter),
        },
        FieldLocation::QueryMap => Ok(ValueView::Pairs(pairs)),
        FieldLocation::Header => match find(headers, f.header) {
            Some(t) => Ok(ValueView::Text(t)),
            None => Err(DeserializationError::Header),
        },
        FieldLocation::Body => match json {
            JsonBodyView::Members(m) => match find(m, f.name) {
                Some(t) => Ok(ValueView::Json(Some(t))),
                None => if f.optional {
                    Ok(ValueView::Json(None))
                } else {
                    Err(DeserializationError::BodyField)
                },
            },
            _ => Err(DeserializationError::Body),
        },
        FieldLocation::NewtypeBody => match json {
            JsonBodyView::Whole(t) => Ok(ValueView::Json(Some(t))),
            _ => Err(DeserializationError::Body),
        },
    }
}

/// The values of the first `n` fields in what was read, or what the first
/// field that cannot be read lacks.
pub open spec fn decoded_all(
    fields: Seq<FieldView>,
    args: Option<Seq<Seq<u8>>>,
    pairs: Seq<(Seq<u8>, Seq<u8>)>,
    headers: Seq<(Seq<u8>, Seq<u8>)>,
    json: JsonBodyView,
    n: int,
) -> Result<Seq<ValueView>, DeserializationError>
    decreases n,
{
    if n <= 0 {
        Ok(Seq::empty())
    } else {
        match decoded_all(fields, args, pairs, headers, json, n - 1) {
            Err(e) => Err(e),
            Ok(before) => match decoded(fields, n - 1, args, pairs, headers, json) {
                Err(e) => Err(e),
                Ok(v) => Ok(before.push(v)),
            },
        }
    }
}

/// The text of the empty object.
pub open spec fn empty_object() -> Seq<u8> {
    seq![0x7bu8, 0x7du8]
}

/// What the JSON reader makes of `body` for the schema `fields`. An empty
/// body stands for the empty object, and the empty object as it is written
/// here, `{}`, is known to have no members without being read.
pub open spec fn body_json(fields: Seq<FieldView>, body: Seq<u8>) -> JsonBodyView {
    if any_at(fields, FieldLocation::Body) {
        if body.len() == 0 || body == empty_object() {
            JsonBodyView::Members(Seq::empty())
        } else {
            match json_object_members(body) {
                Some(m) => JsonBodyView::Members(m),
                None => JsonBodyView::Malformed,
            }
        }
    } else if any_at(fields, FieldLocation::NewtypeBody) {
        match json_value_text(
            if body.len() == 0 {
                empty_object()
            } else {
                body
            },
        ) {
            Some(t) => JsonBodyView::Whole(t),
            None => JsonBodyView::Malformed,
        }
    } else {
        JsonBodyView::Absent
    }
}

/// The message that a request holds.
pub open spec fn request_decoding(api: ApiView, request: HttpRequestView) -> Result<
    Seq<ValueView>,
    DeserializationError,
> {
    decoded_all(
        api.request,
        path_args(api.metadata.path, request.path),
        query_pairs(request.query),
        request.headers,
        body_json(api.request, request.body),
        api.request.len() as int,
    )
}

/// The message that a response holds.
pub open spec fn response_decoding(api: ApiView, response: HttpResponseView) -> Result<
    Seq<ValueView>,
    DeserializationError,
> {
    decoded_all(
        api.response,
        Some(Seq::empty()),
        Seq::empty(),
        response.headers,
        body_json(api.response, response.body),
        api.response.len() as int,
    )
}

/// What travels in the body of the message `values`, before it is written
/// as JSON text.
pub open spec fn framed(fields: Seq<FieldView>, values: Seq<ValueView>) -> JsonBodyView {
    if any_at(fields, FieldLocation::Body) {
        JsonBodyView::Members(all_named(fields, values, FieldLocation::Body))
    } else if any_at(fields, FieldLocation::NewtypeBody) {
        JsonBodyView::Whole(whole_of(fields, values, fields.len() as int))
    } else {
        JsonBodyView::Absent
    }
}

/// Every field is read as it was written, from parts that hold what was
/// written: the path arguments, the query parameters, each header under its
/// name, and the body as it was framed.
pub proof fn lemma_decoded(
    fields: Seq<FieldView>,
    values: Seq<ValueView>,
    args: Option<Seq<Seq<u8>>>,
    pairs: Seq<(Seq<u8>, Seq<u8>)>,
    headers: Seq<(Seq<u8>, Seq<u8>)>,
    n: int,
)
    requires
        0 <= n <= fields.len(),
        schema_in_order(fields),
        conforms(fields, values),
        args == Some(texts(all_named(fields, values, FieldLocation::Path))),
        pairs == query_of(fields, values),
        forall|i: int|
            0 <= i < fields.len() && (#[trigger] fields[i]).location == FieldLocation::Header
                ==> find(headers, fields[i].header) == text_of(values[i]),
    ensures
        decoded_all(fields, args, pairs, headers, framed(fields, values), n) == Ok::<
            Seq<ValueView>,
            DeserializationError,
        >(values.take(n)),
    decreases n,
{
    let all = fields.len() as int;
    if n <= 0 {
        assert(values.take(n) =~= Seq::<ValueView>::empty());
    } else {
        lemma_decoded(fields, values, args, pairs, headers, n - 1);
        let i = n - 1;
        let f = fields[i];
        crate::schema::lemma_count(fields, f.location, all);
        match f.location {
            FieldLocation::Path => {
                crate::message::lemma_named_at(fields, values, FieldLocation::Path, all);
            },
            FieldLocation::Query => {
                crate::message::lemma_named_finds(fields, values, FieldLocation::Query, all, i);
            },
            FieldLocation::QueryMap => {
                crate::message::lemma_pairs_of(fields, values, all, i);
            },
            FieldLocation::Header => {
            },
            FieldLocation::Body => {
                if text_of(values[i]) is Some {
                    crate::message::lemma_named_finds(fields, values, FieldLocation::Body, all, i);
                } else {
                    crate::message::lemma_named_lacks(
                        fields,
                        values,
                        FieldLocation::Body,
                        all,
                        f.name,
                    );
                }
            },
            FieldLocation::NewtypeBody => {
                crate::schema::lemma_count(fields, FieldLocation::Body, all);
                crate::message::lemma_whole_of(fields, values, all, i);
            },
        }
        assert(values.take(n - 1).push(values[i]) =~= values.take(n));
    }
}

/// Whether the message `values` sends no text in the body: no member of the
/// body is set, and no field is the whole body.
pub open spec fn sends_no_body(fields: Seq<FieldView>, values: Seq<ValueView>) -> bool {
    &&& all_named(fields, values, FieldLocation::Body).len() == 0
    &&& any_at(fields, FieldLocation::Body) || !any_at(fields, FieldLocation::NewtypeBody)
}

/// A request that sends no text in the body has an empty body, and an empty
/// body reads as what was framed: an object without members.
pub proof fn lemma_request_without_body(fields: Seq<FieldView>, values: Seq<ValueView>)
    requires
        sends_no_body(fields, values),
    ensures
        request_body(fields, values) == Seq::<u8>::empty(),
        body_json(fields, request_body(fields, values)) == framed(fields, values),
{
    assert(all_named(fields, values, FieldLocation::Body) =~= Seq::empty());
}

/// A response that sends no text in the body has the empty object for its
/// body, which reads as what was framed: an object without members.
pub proof fn lemma_response_without_body(fields: Seq<FieldView>, values: Seq<ValueView>)
    requires
        sends_no_body(fields, values),
    ensures
        response_body(fields, values) == empty_object(),
        body_json(fields, response_body(fields, values)) == framed(fields, values),
{
    let members = all_named(fields, values, FieldLocation::Body);
    assert(members =~= Seq::empty());
}

/// From an empty body, and from the empty object, every optional member
/// reads as not set.
pub proof fn lemma_empty_body(
    fields: Seq<FieldView>,
    i: int,
    args: Option<Seq<Seq<u8>>>,
    pairs: Seq<(Seq<u8>, Seq<u8>)>,
    headers: Seq<(Seq<u8>, Seq<u8>)>,
)
    requires
        0 <= i < fields.len(),
        fields[i].location == FieldLocation::Body,
        fields[i].optional,
    ensures
        decoded(fields, i, args, pairs, headers, body_json(fields, Seq::empty()))
            == Ok::<ValueView, DeserializationError>(ValueView::Json(None)),
        decoded(fields, i, args, pairs, headers, body_json(fields, empty_object()))
            == Ok::<ValueView, DeserializationError>(ValueView::Json(None)),
{
    crate::schema::lemma_count(fields, FieldLocation::Body, fields.len() as int);
}

/// Reading a request gives back the message that it was made from: from the
/// path, the query string and the headers always, and from the body as it was
/// framed. So the request itself reads as the message wherever the JSON
/// reader makes of the body what was framed, as it does of a body in which
/// nothing is sent.
pub proof fn lemma_request_round_trip(
    api: ApiView,
    values: Seq<ValueView>,
    base: Seq<u8>,
    token: Option<Seq<u8>>,
)
    requires
        is_valid(api),
        conforms(api.request, values),
        request_encoding(api, values, base, token) is Ok,
    ensures
        ({
            let request = request_encoding(api, values, base, token).unwrap();
            &&& decoded_all(
                api.request,
                path_args(api.metadata.path, request.path),
                query_pairs(request.query),
                request.headers,
                framed(api.request, values),
                api.request.len() as int,
            ) == Ok::<Seq<ValueView>, DeserializationError>(values)
            &&& body_json(api.request, request.body) == framed(api.request, values)
                ==> request_decoding(api, request) == Ok::<Seq<ValueView>, DeserializationError>(
                values,
            )
            &&& sends_no_body(api.request, values) ==> request_decoding(api, request) == Ok::<
                Seq<ValueView>,
                DeserializationError,
            >(values)
        }),
{
    let fields = api.request;
    let all = fields.len() as int;
    let request = request_encoding(api, values, base, token).unwrap();
    let heads = all_named(fields, values, FieldLocation::Header);
    let args = texts(all_named(fields, values, FieldLocation::Path));
    crate::validate::lemma_valid(api);
    crate::message::lemma_named_at(fields, values, FieldLocation::Path, all);
    crate::path::lemma_path_round_trip(api.metadata.path, args);
    crate::query::lemma_query_round_trip(query_of(fields, values));
    assert forall|i: int|
        0 <= i < all && (#[trigger] fields[i]).location == FieldLocation::Header implies find(
        request.headers,
        fields[i].header,
    ) == text_of(values[i]) by {
        crate::message::lemma_named_finds(fields, values, FieldLocation::Header, all, i);
        if sends_token(api) {
            crate::wire::lemma_find_push(
                heads,
                (authorization(), bearer(token.unwrap())),
                fields[i].header,
            );
        }
    }
    lemma_decoded(
        fields,
        values,
        path_args(api.metadata.path, request.path),
        query_pairs(request.query),
        request.headers,
        all,
    );
    assert(values.take(all) =~= values);
    if sends_no_body(fields, values) {
        lemma_request_without_body(fields, values);
    }
}

/// The header of field `i` holds the value of field `i` in the headers of a
/// response, as long as no other header field has that header.
pub proof fn lemma_response_headers(
    fields: Seq<FieldView>,
    values: Seq<ValueView>,
    n: int,
    i: int,
)
    requires
        0 <= i < n <= fields.len(),
        travels(fields, values, FieldLocation::Header, i),
        forall|j: int|
            0 <= j < fields.len() && j != i && (#[trigger] fields[j]).location
                == FieldLocation::Header ==> fields[j].header != fields[i].header,
    ensures
        find(response_headers(fields, values, n), fields[i].header) == text_of(values[i]),
    decreases n,
{
    let before = response_headers(fields, values, n - 1);
    if i == n - 1 {
        crate::wire::lemma_find_put(
            before,
            fields[i].header,
            text_of(values[i]).unwrap(),
            fields[i].header,
        );
    } else {
        lemma_response_headers(fields, values, n - 1, i);
        if travels(fields, values, FieldLocation::Header, n - 1) {
            crate::wire::lemma_find_put(
                before,
                fields[n - 1].header,
                text_of(values[n - 1]).unwrap(),
                fields[i].header,
            );
        }
    }
}

/// Reading a response gives back the message that it was made from: from the
/// headers always, and from the body as it was framed. So the response
/// itself reads as the message wherever the JSON reader makes of the body
/// what was framed, as it does of a body in which nothing is sent.
pub proof fn lemma_response_round_trip(api: ApiView, values: Seq<ValueView>)
    requires
        is_valid(api),
        conforms(api.response, values),
        response_encoding(api, values) is Ok,
    ensures
        ({
            let response = response_encoding(api, values).unwrap();
            &&& decoded_all(
                api.response,
                Some(Seq::empty()),
                Seq::empty(),
                response.headers,
                framed(api.response, values),
                api.response.len() as int,
            ) == Ok::<Seq<ValueView>, DeserializationError>(values)
            &&& body_json(api.response, response.body) == framed(api.response, values)
                ==> response_decoding(api, response) == Ok::<Seq<ValueView>, DeserializationError>(
                values,
            )
            &&& sends_no_body(api.response, values) ==> response_decoding(api, response) == Ok::<
                Seq<ValueView>,
                DeserializationError,
            >(values)
        }),
{
    let fields = api.response;
    let all = fields.len() as int;
    let response = response_encoding(api, values).unwrap();
    crate::validate::lemma_valid(api);
    crate::message::lemma_named_at(fields, values, FieldLocation::Path, all);
    crate::message::lemma_named_at(fields, values, FieldLocation::Query, all);
    assert(texts(all_named(fields, values, FieldLocation::Path)) =~= Seq::<Seq<u8>>::empty());
    assert(query_of(fields, values) =~= Seq::<(Seq<u8>, Seq<u8>)>::empty());
    assert forall|i: int|
        0 <= i < all && (#[trigger] fields[i]).location == FieldLocation::Header implies find(
        response.headers,
        fields[i].header,
    ) == text_of(values[i]) by {
        lemma_response_headers(fields, values, all, i);
    }
    lemma_decoded(fields, values, Some(Seq::empty()), Seq::empty(), response.headers, all);
    assert(values.take(all) =~= values);
    if sends_no_body(fields, values) {
        lemma_response_without_body(fields, values);
    }
}

} // verus!
