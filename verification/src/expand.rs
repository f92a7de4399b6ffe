//! What is generated for an endpoint.
//!
//! `expand_all` holds an endpoint to the rules and makes of it everything
//! that its users need: the metadata record, the texts that document it,
//! the names of the types that its messages are read into, the mark of an
//! endpoint that is open to requests without credentials, and the four
//! routines that write and read its requests and responses.

use vstd::prelude::*;
use crate::api::Api;
use crate::api::ApiView;
use crate::codec::request_decoding;
use crate::codec::request_encoding;
use crate::codec::response_decoding;
use crate::codec::response_encoding;
use crate::decode::EndpointError;
use crate::encode::token_view;
use crate::error::CompileError;
use crate::error::CompileErrorView;
use crate::error::DefinitionError;
use crate::error::DeserializationError;
use crate::error::FromHttpRequestError;
use crate::error::FromHttpResponseError;
use crate::error::IntoHttpError;
use crate::error::ServerError;
use crate::lifetime::distinct;
use crate::message::conforms;
use crate::message::Message;
use crate::message::ValueView;
use crate::metadata::AuthScheme;
use crate::metadata::Metadata;
use crate::schema::fields;
use crate::schema::Field;
use crate::schema::FieldLocation;
use crate::schema::FieldView;
use crate::text::ascii;
use crate::text::join;
use crate::text::rows;
use crate::validate::is_valid;
use crate::validate::verdict;
use crate::wire::HttpRequest;
use crate::wire::HttpRequestView;
use crate::wire::HttpResponse;
use crate::wire::HttpResponseView;

verus! {

/// What is generated for an endpoint.
pub struct Endpoint {
    api: Api,
    metadata_doc: Vec<u8>,
    request_doc: Vec<u8>,
    response_doc: Vec<u8>,
    incoming_request_type: Vec<u8>,
    request_body_type: Vec<u8>,
    non_auth: bool,
}

/// What an `Endpoint` holds.
pub struct EndpointView {
    pub api: ApiView,
    pub metadata_doc: Seq<u8>,
    pub request_doc: Seq<u8>,
    pub response_doc: Seq<u8>,
    pub incoming_request_type: Seq<u8>,
    pub request_body_type: Seq<u8>,
    pub non_auth: bool,
}

/// The text that documents the metadata record of the endpoint `name`.
pub open spec fn metadata_doc(name: Seq<u8>) -> Seq<u8> {
    ascii("Metadata for the `"@) + name + ascii("` API endpoint."@)
}

/// The text that documents the request of the endpoint `name`.
pub open spec fn request_doc(name: Seq<u8>, description: Seq<u8>) -> Seq<u8> {
    ascii("Data for a request to the `"@) + name + ascii("` API endpoint.\n\n"@) + description
}

/// The text that documents the response of the endpoint `name`.
pub open spec fn response_doc(name: Seq<u8>) -> Seq<u8> {
    ascii("Data in the response from the `"@) + name + ascii("` API endpoint."@)
}

/// Whether field `i` counts: every field does, unless only those that
/// travel in the body are asked for.
pub open spec fn counts(fields: Seq<FieldView>, body_only: bool, i: int) -> bool {
    !body_only || fields[i].location == FieldLocation::Body || fields[i].location
        == FieldLocation::NewtypeBody
}

/// The lifetimes of the first `n` fields, one field after the other; of
/// those fields only that travel in the body, where `body_only` says so.
pub open spec fn all_lifetimes(fields: Seq<FieldView>, body_only: bool, n: int) -> Seq<Seq<u8>>
    decreases n,
{
    if n <= 0 {
        Seq::empty()
    } else if counts(fields, body_only, n - 1) {
        all_lifetimes(fields, body_only, n - 1) + fields[n - 1].lifetimes
    } else {
        all_lifetimes(fields, body_only, n - 1)
    }
}

/// The lifetimes that the types of the fields in the body name, each once.
pub open spec fn body_lifetimes(fields: Seq<FieldView>) -> Seq<Seq<u8>> {
    let all = all_lifetimes(fields, true, fields.len() as int);
    distinct(all, all.len() as int)
}

/// Whether the type of some field names a lifetime.
pub open spec fn contains_lifetimes(fields: Seq<FieldView>) -> bool {
    all_lifetimes(fields, false, fields.len() as int).len() > 0
}

/// The anonymous lifetime, `n` times.
pub open spec fn anonymous(n: nat) -> Seq<Seq<u8>> {
    Seq::new(n, |i: int| ascii("'_"@))
}

/// The name of the type that holds the body of a request, with one
/// anonymous lifetime for each lifetime of the fields in the body.
pub open spec fn body_type(fields: Seq<FieldView>) -> Seq<u8> {
    let n = body_lifetimes(fields).len();
    if n == 0 {
        ascii("RequestBody"@)
    } else {
        ascii("RequestBody"@) + seq![0x3cu8] + join(anonymous(n), 0x2c) + seq![0x3eu8]
    }
}

/// The name of the type that a request is read into: a type of its own
/// where the request borrows, else the request type itself.
pub open spec fn incoming_type(fields: Seq<FieldView>) -> Seq<u8> {
    if contains_lifetimes(fields) {
        ascii("IncomingRequest"@)
    } else {
        ascii("Request"@)
    }
}

/// What is generated for the endpoint `api`.
pub open spec fn generated(api: ApiView) -> EndpointView {
    EndpointView {
        api,
        metadata_doc: metadata_doc(api.metadata.name),
        request_doc: request_doc(api.metadata.name, api.metadata.description),
        response_doc: response_doc(api.metadata.name),
        incoming_request_type: incoming_type(api.request),
        request_body_type: body_type(api.request),
        non_auth: api.metadata.authentication == AuthScheme::Open,
    }
}

impl View for Endpoint {
    type V = EndpointView;

    closed spec fn view(&self) -> EndpointView {
        EndpointView {
            api: self.api@,
            metadata_doc: self.metadata_doc@,
            request_doc: self.request_doc@,
            response_doc: self.response_doc@,
            incoming_request_type: self.incoming_request_type@,
            request_body_type: self.request_body_type@,
            non_auth: self.non_auth,
        }
    }
}

/// The lifetimes of the fields, one field after the other.
pub fn collect_lifetimes(list: &Vec<Field>, body_only: bool) -> (r: Vec<Vec<u8>>)
    ensures
        rows(r@) == all_lifetimes(fields(list@), body_only, list.len() as int),
{
    let mut out: Vec<Vec<u8>> = Vec::new();
    let mut i: usize = 0;
    while i < list.len()
        invariant
            i <= list.len(),
            rows(out@) == all_lifetimes(fields(list@), body_only, i as int),
        decreases list.len() - i,
    {
        if !body_only || list[i].location == FieldLocation::Body || list[i].location
            == FieldLocation::NewtypeBody {
            let mut more = crate::text::copy_rows(&list[i].lifetimes);
            out.append(&mut more);
        }
        i += 1;
    }
    out
}

/// The number of lifetimes that the types of the fields in the body name.
pub fn body_lifetime_count(list: &Vec<Field>) -> (r: usize)
    ensures
        r == body_lifetimes(fields(list@)).len(),
{
    let all = collect_lifetimes(list, true);
    crate::lifetime::distinct_rows(&all).len()
}

/// The name of the type that holds the body of a request.
pub fn write_body_type(list: &Vec<Field>) -> (r: Vec<u8>)
    ensures
        r@ == body_type(fields(list@)),
{
    proof {
        reveal_strlit("RequestBody");
        reveal_strlit("'_");
    }
    let n = body_lifetime_count(list);
    let mut out = crate::text::bytes_of("RequestBody");
    if n > 0 {
        let mut marks: Vec<Vec<u8>> = Vec::new();
        let mut i: usize = 0;
        while i < n
            invariant
                i <= n,
                marks.len() == i,
                forall|j: int| 0 <= j < i ==> (#[trigger] marks@[j])@ == ascii("'_"@),
            decreases n - i,
        {
            proof {
                reveal_strlit("'_");
            }
            marks.push(crate::text::bytes_of("'_"));
            i += 1;
        }
        assert(rows(marks@) =~= anonymous(n as nat));
        out.push(0x3c);
        let inner = crate::text::join_rows(&marks, 0x2c);
        crate::text::append(&mut out, inner.as_slice());
        out.push(0x3e);
    }
    out
}

/// The name of the type that a request is read into.
pub fn write_incoming_type(list: &Vec<Field>) -> (r: Vec<u8>)
    ensures
        r@ == incoming_type(fields(list@)),
{
    proof {
        reveal_strlit("IncomingRequest");
        reveal_strlit("Request");
    }
    if collect_lifetimes(list, false).len() > 0 {
        crate::text::bytes_of("IncomingRequest")
    } else {
        crate::text::bytes_of("Request")
    }
}

/// The text that documents the metadata record of the endpoint `name`.
pub fn write_metadata_doc(name: &[u8]) -> (r: Vec<u8>)
    ensures
        r@ == metadata_doc(name@),
{
    proof {
        reveal_strlit("Metadata for the `");
        reveal_strlit("` API endpoint.");
    }
    let mut out = crate::text::bytes_of("Metadata for the `");
    crate::text::append(&mut out, name);
    crate::text::append(&mut out, crate::text::bytes_of("` API endpoint.").as_slice());
    out
}

/// The text that documents the request of the endpoint `name`.
pub fn write_request_doc(name: &[u8], description: &[u8]) -> (r: Vec<u8>)
    ensures
        r@ == request_doc(name@, description@),
{
    proof {
        reveal_strlit("Data for a request to the `");
        reveal_strlit("` API endpoint.\n\n");
    }
    let mut out = crate::text::bytes_of("Data for a request to the `");
    crate::text::append(&mut out, name);
    crate::text::append(&mut out, crate::text::bytes_of("` API endpoint.\n\n").as_slice());
    crate::text::append(&mut out, description);
    out
}

/// The text that documents the response of the endpoint `name`.
pub fn write_response_doc(name: &[u8]) -> (r: Vec<u8>)
    ensures
        r@ == response_doc(name@),
{
    proof {
        reveal_strlit("Data in the response from the `");
        reveal_strlit("` API endpoint.");
    }
    let mut out = crate::text::bytes_of("Data in the response from the `");
    crate::text::append(&mut out, name);
    crate::text::append(&mut out, crate::text::bytes_of("` API endpoint.").as_slice());
    out
}

/// Holds the endpoint to the rules and generates what belongs to it. Where
/// the endpoint breaks a rule, nothing is generated, and the error lists
/// every violation.
pub fn expand_all(api: Api) -> (r: Result<Endpoint, DefinitionError>)
    ensures
        match r {
            Ok(endpoint) => is_valid(api@) && endpoint@ == generated(api@),
            Err(e) => verdict(api@) == Some(e@),
        },
        r is Ok <==> crate::validate::in_order(api@),
{
    let api = match crate::validate::validate(api) {
        Ok(api) => api,
        Err(e) => {
            return Err(e);
        },
    };
    let metadata_doc = write_metadata_doc(api.metadata.name.as_slice());
    let request_doc = write_request_doc(
        api.metadata.name.as_slice(),
        api.metadata.description.as_slice(),
    );
    let response_doc = write_response_doc(api.metadata.name.as_slice());
    let incoming_request_type = write_incoming_type(&api.request.fields);
    let request_body_type = write_body_type(&api.request.fields);
    let non_auth = api.metadata.authentication == AuthScheme::Open;
    Ok(
        Endpoint {
            api,
            metadata_doc,
            request_doc,
            response_doc,
            incoming_request_type,
            request_body_type,
            non_auth,
        },
    )
}

/// What compiling the text of a definition gives: what is generated for
/// the endpoint that the text declares, unless the text is no definition,
/// its parts do not make an endpoint, or the endpoint breaks a rule.
pub open spec fn compiling(text: Seq<u8>) -> Result<EndpointView, CompileErrorView> {
    match crate::grammar::definition_of(text) {
        Err(f) => Err(CompileErrorView::Text(f)),
        Ok(definition) => match crate::api::parsing(definition) {
            Err(e) => Err(CompileErrorView::Definition(e)),
            Ok(api) => match verdict(api) {
                Some(e) => Err(CompileErrorView::Definition(e)),
                None => Ok(generated(api)),
            },
        },
    }
}

/// Compiles the text of a definition: reads the definition, assembles the
/// endpoint, holds it to the rules, and generates what belongs to it.
pub fn compile(text: &[u8]) -> (r: Result<Endpoint, CompileError>)
    ensures
        match r {
            Ok(endpoint) => compiling(text@) == Ok::<EndpointView, CompileErrorView>(endpoint@),
            Err(e) => compiling(text@) == Err::<EndpointView, CompileErrorView>(e@),
        },
{
    let definition = match crate::api::Definition::parse(text) {
        Ok(definition) => definition,
        Err(e) => {
            return Err(CompileError::Text(e));
        },
    };
    let api = match Api::parse(&definition) {
        Ok(api) => api,
        Err(e) => {
            return Err(CompileError::Definition(e));
        },
    };
    match expand_all(api) {
        Ok(endpoint) => Ok(endpoint),
        Err(e) => Err(CompileError::Definition(e)),
    }
}

impl Endpoint {
    /// What holds of every endpoint that was generated: it keeps the rules,
    /// and what belongs to it is what was generated for it.
    #[verifier::type_invariant]
    spec fn well_formed(self) -> bool {
        is_valid(self.api@) && self@ == generated(self.api@)
    }

    /// The endpoint itself, which keeps every rule.
    pub fn api(&self) -> (r: &Api)
        ensures
            r@ == self@.api,
            is_valid(self@.api),
            self@ == generated(self@.api),
    {
        proof {
            use_type_invariant(self);
        }
        &self.api
    }

    /// The metadata record of the endpoint.
    pub fn metadata(&self) -> (r: &Metadata)
        ensures
            r@ == self@.api.metadata,
    {
        &self.api.metadata
    }

    /// The text that documents the metadata record.
    pub fn metadata_doc(&self) -> (r: &Vec<u8>)
        ensures
            r@ == metadata_doc(self@.api.metadata.name),
    {
        proof {
            use_type_invariant(self);
        }
        &self.metadata_doc
    }

    /// The text that documents the request.
    pub fn request_doc(&self) -> (r: &Vec<u8>)
        ensures
            r@ == request_doc(self@.api.metadata.name, self@.api.metadata.description),
    {
        proof {
            use_type_invariant(self);
        }
        &self.request_doc
    }

    /// The text that documents the response.
    pub fn response_doc(&self) -> (r: &Vec<u8>)
        ensures
            r@ == response_doc(self@.api.metadata.name),
    {
        proof {
            use_type_invariant(self);
        }
        &self.response_doc
    }

    /// The name of the type that a request is read into.
    pub fn incoming_request_type(&self) -> (r: &Vec<u8>)
        ensures
            r@ == incoming_type(self@.api.request),
    {
        proof {
            use_type_invariant(self);
        }
        &self.incoming_request_type
    }

    /// The name of the type that holds the body of a request.
    pub fn request_body_type(&self) -> (r: &Vec<u8>)
        ensures
            r@ == body_type(self@.api.request),
    {
        proof {
            use_type_invariant(self);
        }
        &self.request_body_type
    }

    /// Whether the endpoint is open to requests without credentials.
    pub fn is_non_auth(&self) -> (r: bool)
        ensures
            r == (self@.api.metadata.authentication == AuthScheme::Open),
    {
        proof {
            use_type_invariant(self);
        }
        self.non_auth
    }

    /// Tests whether `message` is a request of this endpoint.
    pub fn accepts_request(&self, message: &Message) -> (r: bool)
        ensures
            r == conforms(self@.api.request, message@),
    {
        crate::message::message_conforms(&self.api.request.fields, message)
    }

    /// Tests whether `message` is a response of this endpoint.
    pub fn accepts_response(&self, message: &Message) -> (r: bool)
        ensures
            r == conforms(self@.api.response, message@),
    {
        crate::message::message_conforms(&self.api.response.fields, message)
    }

    /// Makes the request that holds `message`, to be sent to the server at
    /// `base_url`, with `access_token` where the endpoint asks for one.
    pub fn try_into_http_request(
        &self,
        message: &Message,
        base_url: &[u8],
        access_token: Option<&[u8]>,
    ) -> (r: Result<HttpRequest, IntoHttpError>)
        requires
            conforms(self@.api.request, message@),
        ensures
            is_valid(self@.api),
            match r {
                Ok(request) => request_encoding(
                    self@.api,
                    message@,
                    base_url@,
                    token_view(access_token),
                ) == Ok::<HttpRequestView, IntoHttpError>(request@),
                Err(e) => request_encoding(
                    self@.api,
                    message@,
                    base_url@,
                    token_view(access_token),
                ) == Err::<HttpRequestView, IntoHttpError>(e),
            },
    {
        proof {
            use_type_invariant(self);
        }
        crate::encode::encode_request(&self.api, message, base_url, access_token)
    }

    /// Reads the message that a request holds.
    pub fn try_from_http_request(&self, request: &HttpRequest) -> (r: Result<
        Message,
        FromHttpRequestError,
    >)
        ensures
            is_valid(self@.api),
            match r {
                Ok(m) => request_decoding(self@.api, request@) == Ok::<
                    Seq<ValueView>,
                    DeserializationError,
                >(m@),
                Err(FromHttpRequestError::Deserialization(e)) => request_decoding(
                    self@.api,
                    request@,
                ) == Err::<Seq<ValueView>, DeserializationError>(e),
            },
    {
        proof {
            use_type_invariant(self);
        }
        crate::decode::decode_request(&self.api, request)
    }

    /// Makes the response that holds `message`.
    pub fn try_into_http_response(&self, message: &Message) -> (r: Result<
        HttpResponse,
        IntoHttpError,
    >)
        requires
            conforms(self@.api.response, message@),
        ensures
            is_valid(self@.api),
            match r {
                Ok(response) => response_encoding(self@.api, message@) == Ok::<
                    HttpResponseView,
                    IntoHttpError,
                >(response@),
                Err(e) => response_encoding(self@.api, message@) == Err::<
                    HttpResponseView,
                    IntoHttpError,
                >(e),
            },
    {
        proof {
            use_type_invariant(self);
        }
        crate::encode::encode_response(&self.api, message)
    }

    /// Reads the message that a response holds. A response of a status
    /// below 400 is read as a message. Any other is handed to the error type
    /// `E`: the result is then what `E` made of it, a known error of the
    /// server with the value that `E` read, or an unknown one with the
    /// response as it came.
    pub fn try_from_http_response<E: EndpointError>(&self, response: HttpResponse) -> (r: Result<
        Message,
        FromHttpResponseError<E>,
    >)
        ensures
            is_valid(self@.api),
            response.status < 400 ==> match r {
                Ok(m) => response_decoding(self@.api, response@) == Ok::<
                    Seq<ValueView>,
                    DeserializationError,
                >(m@),
                Err(FromHttpResponseError::Deserialization(e)) => response_decoding(
                    self@.api,
                    response@,
                ) == Err::<Seq<ValueView>, DeserializationError>(e),
                Err(FromHttpResponseError::Http(_)) => false,
            },
            response.status >= 400 ==> exists|outcome: Result<E, HttpResponse>|
                #[trigger] call_ensures(E::try_from_response, (response,), outcome) && r == Err::<
                    Message,
                    FromHttpResponseError<E>,
                >(FromHttpResponseError::Http(crate::decode::reported(outcome))),
            response.status >= 400 ==> match r {
                Err(FromHttpResponseError::Http(ServerError::Known(_))) => true,
                Err(FromHttpResponseError::Http(ServerError::Unknown(back))) => back == response,
                _ => false,
            },
    {
        proof {
            use_type_invariant(self);
        }
        crate::decode::decode_response(&self.api, response)
    }
}

} // verus!
