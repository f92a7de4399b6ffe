//! Reading messages from the wire.

use vstd::prelude::*;
use crate::api::Api;
use crate::codec::body_json;
use crate::codec::decoded;
use crate::codec::decoded_all;
use crate::codec::empty_object;
use crate::codec::request_decoding;
use crate::codec::response_decoding;
use crate::codec::JsonBody;
use crate::error::DeserializationError;
use crate::error::FromHttpRequestError;
use crate::error::FromHttpResponseError;
use crate::error::ServerError;
use crate::message::values;
use crate::message::Message;
use crate::message::Value;
use crate::message::ValueView;
use crate::schema::fields;
use crate::schema::Field;
use crate::schema::FieldLocation;
use crate::text::rows;
use crate::wire::entries;
use crate::wire::Entry;
use crate::wire::HttpRequest;
use crate::wire::HttpResponse;

verus! {

/// What the arguments of a path hold, where there are any.
pub open spec fn args_view(args: Option<Vec<Vec<u8>>>) -> Option<Seq<Seq<u8>>> {
    match args {
        Some(a) => Some(rows(a@)),
        None => None,
    }
}

/// A type that reads the responses by which a server reports an error.
pub trait EndpointError: Sized {
    /// Reads `response`. Where it cannot, it hands the response back as it
    /// came.
    fn try_from_response(response: HttpResponse) -> (r: Result<Self, HttpResponse>)
        ensures
            r matches Err(back) ==> back == response,
    ;
}

/// The error type of an endpoint that declares none: it reads no response.
#[derive(Clone, Copy, Debug, PartialEq, Eq)]
pub struct Void;

impl EndpointError for Void {
    fn try_from_response(response: HttpResponse) -> (r: Result<Self, HttpResponse>)
        ensures
            r == Err::<Void, HttpResponse>(response),
    {
        Err(response)
    }
}

/// Hands the bytes to the JSON reader in the way that the schema asks for:
/// as an object where fields are members of the body, as one value where a
/// field is the whole body, and not at all where no field travels in the
/// body. An empty body stands for the empty object, and `{}` is known to
/// have no members without being read.
pub fn read_body(list: &Vec<Field>, body: &[u8]) -> (r: JsonBody)
    ensures
        r@ == body_json(fields(list@), body@),
{
    if crate::schema::count_at(list, FieldLocation::Body, list.len()) > 0 {
        let mut braces: Vec<u8> = Vec::new();
        braces.push(0x7b);
        braces.push(0x7d);
        assert(braces@ =~= empty_object());
        if body.len() == 0 || crate::text::same(body, braces.as_slice()) {
            let members: Vec<Entry> = Vec::new();
            assert(entries(members@) =~= Seq::empty());
            JsonBody::Members(members)
        } else {
            match crate::json::read_members(body) {
                Some(members) => JsonBody::Members(members),
                None => JsonBody::Malformed,
            }
        }
    } else if crate::schema::count_at(list, FieldLocation::NewtypeBody, list.len()) > 0 {
        let read = if body.len() == 0 {
            let mut braces: Vec<u8> = Vec::new();
            braces.push(0x7b);
            braces.push(0x7d);
            assert(braces@ =~= empty_object());
            crate::json::read_whole(braces.as_slice())
        } else {
            crate::json::read_whole(body)
        };
        match read {
            Some(text) => JsonBody::Whole(text),
            None => JsonBody::Malformed,
        }
    } else {
        JsonBody::Absent
    }
}

/// Reads the value of field `i` from the parts of a message.
pub fn value_from_parts(
    list: &Vec<Field>,
    i: usize,
    args: &Option<Vec<Vec<u8>>>,
    pairs: &Vec<Entry>,
    headers: &Vec<Entry>,
    json: &JsonBody,
) -> (r: Result<Value, DeserializationError>)
    requires
        i < list.len(),
    ensures
        match r {
            Ok(v) => decoded(
                fields(list@),
                i as int,
                args_view(*args),
                entries(pairs@),
                entries(headers@),
                json@,
            ) == Ok::<ValueView, DeserializationError>(v@),
            Err(e) => decoded(
                fields(list@),
                i as int,
                args_view(*args),
                entries(pairs@),
                entries(headers@),
                json@,
            ) == Err::<ValueView, DeserializationError>(e),
        },
{
    let f = &list[i];
    match f.location {
        FieldLocation::Path => {
            let k = crate::schema::count_at(list, FieldLocation::Path, i);
            match args {
                Some(a) => {
                    if k < a.len() {
                        Ok(Value::Text(crate::text::copy(a[k].as_slice())))
                    } else {
                        Err(DeserializationError::PathSegment)
                    }
                },
                None => Err(DeserializationError::PathSegment),
            }
        },
        FieldLocation::Query => match crate::wire::lookup(pairs, f.name.as_slice()) {
            Some(t) => Ok(Value::Text(crate::text::copy(t.as_slice()))),
            None => Err(DeserializationError::QueryParameter),
        },
        FieldLocation::QueryMap => Ok(Value::Pairs(crate::encode::copy_entries(pairs))),
        FieldLocation::Header => match crate::wire::lookup(headers, f.header.as_slice()) {
            Some(t) => Ok(Value::Text(crate::text::copy(t.as_slice()))),
            None => Err(DeserializationError::Header),
        },
        FieldLocation::Body => match json {
            JsonBody::Members(m) => match crate::wire::lookup(m, f.name.as_slice()) {
                Some(t) => Ok(Value::Json(Some(crate::text::copy(t.as_slice())))),
                None => if f.optional {
                    Ok(Value::Json(None))
                } else {
                    Err(DeserializationError::BodyField)
                },
            },
            _ => Err(DeserializationError::Body),
        },
        FieldLocation::NewtypeBody => match json {
            JsonBody::Whole(t) => Ok(Value::Json(Some(crate::text::copy(t.as_slice())))),
            _ => Err(DeserializationError::Body),
        },
    }
}

/// Reads a message from its parts: the arguments of the path, the
/// parameters of the query string, the headers, and what the JSON reader
/// made of the body. The fields are read in their order; the first that
/// cannot be read decides the error.
pub fn message_from_parts(
    list: &Vec<Field>,
    args: &Option<Vec<Vec<u8>>>,
    pairs: &Vec<Entry>,
    headers: &Vec<Entry>,
    json: &JsonBody,
) -> (r: Result<Message, DeserializationError>)
    ensures
        match r {
            Ok(m) => decoded_all(
                fields(list@),
                args_view(*args),
                entries(pairs@),
                entries(headers@),
                json@,
                list.len() as int,
            ) == Ok::<Seq<ValueView>, DeserializationError>(m@),
            Err(e) => decoded_all(
                fields(list@),
                args_view(*args),
                entries(pairs@),
                entries(headers@),
                json@,
                list.len() as int,
            ) == Err::<Seq<ValueView>, DeserializationError>(e),
        },
{
    let mut out: Vec<Value> = Vec::new();
    let mut i: usize = 0;
    assert(values(out@) =~= Seq::empty());
    while i < list.len()
        invariant
            i <= list.len(),
            decoded_all(
                fields(list@),
                args_view(*args),
                entries(pairs@),
                entries(headers@),
                json@,
                i as int,
            ) == Ok::<Seq<ValueView>, DeserializationError>(values(out@)),
        decreases list.len() - i,
    {
        match value_from_parts(list, i, args, pairs, headers, json) {
            Ok(v) => {
                let ghost before = values(out@);
                let ghost view = v@;
                out.push(v);
                assert(values(out@) =~= before.push(view));
            },
            Err(e) => {
                proof {
                    lemma_first_error(
                        fields(list@),
                        args_view(*args),
                        entries(pairs@),
                        entries(headers@),
                        json@,
                        i + 1,
                        list.len() as int,
                    );
                }
                return Err(e);
            },
        }
        i += 1;
    }
    Ok(Message { values: out })
}

/// An error among the first `n` fields is the error of the whole message.
pub proof fn lemma_first_error(
    list: Seq<crate::schema::FieldView>,
    args: Option<Seq<Seq<u8>>>,
    pairs: Seq<(Seq<u8>, Seq<u8>)>,
    headers: Seq<(Seq<u8>, Seq<u8>)>,
    json: crate::codec::JsonBodyView,
    n: int,
    all: int,
)
    requires
        n <= all,
        decoded_all(list, args, pairs, headers, json, n) is Err,
    ensures
        decoded_all(list, args, pairs, headers, json, all) == decoded_all(
            list,
            args,
            pairs,
            headers,
            json,
            n,
        ),
    decreases all - n,
{
    if n < all {
        lemma_first_error(list, args, pairs, headers, json, n, all - 1);
    }
}

/// Reads the message that a request holds.
pub fn decode_request(api: &Api, request: &HttpRequest) -> (r: Result<
    Message,
    FromHttpRequestError,
>)
    ensures
        match r {
            Ok(m) => request_decoding(api@, request@) == Ok::<
                Seq<ValueView>,
                DeserializationError,
            >(m@),
            Err(FromHttpRequestError::Deserialization(e)) => request_decoding(api@, request@)
                == Err::<Seq<ValueView>, DeserializationError>(e),
        },
{
    let list = &api.request.fields;
    let args = crate::path::read_path(api.metadata.path.as_slice(), request.path.as_slice());
    let pairs = crate::query::read_query(request.query.as_slice());
    let json = read_body(list, request.body.as_slice());
    match message_from_parts(list, &args, &pairs, &request.headers, &json) {
        Ok(m) => Ok(m),
        Err(e) => Err(FromHttpRequestError::Deserialization(e)),
    }
}

/// The error of the server that an error type's reading of a response
/// stands for: a known error with the value that it read, or an unknown one
/// with the response that it handed back.
pub open spec fn reported<E>(outcome: Result<E, HttpResponse>) -> ServerError<E> {
    match outcome {
        Ok(e) => ServerError::Known(e),
        Err(response) => ServerError::Unknown(response),
    }
}

/// What a response of a status from 400 up is, given what the endpoint's
/// error type made of it: a known error where it read a value, an unknown
/// one, with the response as it came, where it did not.
pub fn server_error<E>(outcome: Result<E, HttpResponse>) -> (r: ServerError<E>)
    ensures
        r == reported(outcome),
{
    match outcome {
        Ok(e) => ServerError::Known(e),
        Err(response) => ServerError::Unknown(response),
    }
}

/// Reads the message that a response holds. A response of a status below
/// 400 is read as a message. Any other is handed to the endpoint's error
/// type, and the result is what that type made of it: a known error of the
/// server with the value that the error type read, or an unknown one with
/// the response as it came.
pub fn decode_response<E: EndpointError>(api: &Api, response: HttpResponse) -> (r: Result<
    Message,
    FromHttpResponseError<E>,
>)
    ensures
        response.status < 400 ==> match r {
            Ok(m) => response_decoding(api@, response@) == Ok::<
                Seq<ValueView>,
                DeserializationError,
            >(m@),
            Err(FromHttpResponseError::Deserialization(e)) => response_decoding(api@, response@)
                == Err::<Seq<ValueView>, DeserializationError>(e),
            Err(FromHttpResponseError::Http(_)) => false,
        },
        response.status >= 400 ==> exists|outcome: Result<E, HttpResponse>|
            #[trigger] call_ensures(E::try_from_response, (response,), outcome) && r == Err::<
                Message,
                FromHttpResponseError<E>,
            >(FromHttpResponseError::Http(reported(outcome))),
        response.status >= 400 ==> match r {
            Err(FromHttpResponseError::Http(ServerError::Known(_))) => true,
            Err(FromHttpResponseError::Http(ServerError::Unknown(back))) => back == response,
            _ => false,
        },
{
    if response.status < 400 {
        let list = &api.response.fields;
        let args: Option<Vec<Vec<u8>>> = Some(Vec::new());
        let pairs: Vec<Entry> = Vec::new();
        assert(args_view(args) == Some(Seq::<Seq<u8>>::empty())) by {
            assert(rows(args.unwrap()@) =~= Seq::empty());
        }
        assert(entries(pairs@) =~= Seq::empty());
        let json = read_body(list, response.body.as_slice());
        match message_from_parts(list, &args, &pairs, &response.headers, &json) {
            Ok(m) => Ok(m),
            Err(e) => Err(FromHttpResponseError::Deserialization(e)),
        }
    } else {
        let outcome = E::try_from_response(response);
        Err(FromHttpResponseError::Http(server_error(outcome)))
    }
}

} // verus!
