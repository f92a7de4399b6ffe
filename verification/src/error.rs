//! What can go wrong: in a definition, and when a message is written or read.

use vstd::prelude::*;
use crate::wire::HttpResponse;

verus! {

/// The part of a definition in which a violation was found.
#[derive(Clone, Copy, Debug, PartialEq, Eq, Structural)]
pub enum Section {
    Metadata,
    Request,
    Response,
}

/// The rule that a definition breaks.
#[derive(Clone, Copy, Debug, PartialEq, Eq, Structural)]
pub enum Rule {
    /// The metadata has an entry under a key that it does not know.
    UnknownKey,
    /// The metadata has a second entry under one key.
    DuplicateKey,
    /// The value of a metadata entry is not of the kind, or not one of the
    /// words, that its key asks for.
    InvalidValue,
    /// The metadata lacks the method, the name or the path.
    MissingKey,
    /// A field has a location marker that is not recognized.
    UnknownMarker,
    /// A field has more than one location marker.
    ConflictingMarkers,
    /// The type of a field is not taken as a type: it has not the syntax of
    /// a type, or it is no plain text. A plain text holds no string, no
    /// braces and after `;` one word only, and nests brackets, `&`, `*` and
    /// `->` to a bounded depth.
    InvalidType,
    /// The path template is malformed.
    MalformedPath,
    /// The name of a field is not an identifier.
    InvalidName,
    /// A field has the name of an earlier field.
    DuplicateField,
    /// The header of a field is not a header name.
    InvalidHeader,
    /// A field has the header of an earlier field.
    DuplicateHeader,
    /// A field is the whole body although an earlier field is.
    SecondNewtypeBody,
    /// A field is a member of the body although another field is the whole
    /// body.
    BodyBesideNewtypeBody,
    /// A field is the whole query string although an earlier field is.
    SecondQueryMap,
    /// A field is a query parameter although another field is the whole
    /// query string.
    QueryBesideQueryMap,
    /// A path field does not have the name of the placeholder of its rank.
    PathMismatch,
    /// A placeholder of the path template has no path field.
    UnboundPlaceholder,
    /// A field of a `GET` request is a member of the body.
    GetWithBody,
    /// A field of a `GET` request is the whole body.
    GetWithNewtypeBody,
    /// A field of a response travels in the path or in the query string.
    ResponseLocation,
}

/// One broken rule, with the name of what breaks it: a field, a key of the
/// metadata, a placeholder, or the path template itself.
#[derive(Clone, Debug, PartialEq, Eq)]
pub struct Violation {
    pub rule: Rule,
    pub section: Section,
    pub item: Vec<u8>,
}

/// What a `Violation` holds.
pub struct ViolationView {
    pub rule: Rule,
    pub section: Section,
    pub item: Seq<u8>,
}

impl View for Violation {
    type V = ViolationView;

    open spec fn view(&self) -> ViolationView {
        ViolationView { rule: self.rule, section: self.section, item: self.item@ }
    }
}

/// The views of a sequence of violations.
pub open spec fn violations(v: Seq<Violation>) -> Seq<ViolationView> {
    v.map_values(|x: Violation| x@)
}

/// Why no endpoint can be made from a definition. Either way every violation
/// that was found is listed, not the first only.
#[derive(Clone, Debug, PartialEq, Eq)]
pub enum DefinitionError {
    /// The definition is malformed, and asks for nothing that cannot travel.
    Syntax(Vec<Violation>),
    /// The definition asks for what cannot travel.
    UnsupportedCombination {
        /// What cannot travel: at least one violation.
        offending: Vec<Violation>,
        /// What was found to be malformed beside it.
        malformed: Vec<Violation>,
    },
}

/// What a `DefinitionError` holds.
pub enum DefinitionErrorView {
    Syntax(Seq<ViolationView>),
    UnsupportedCombination { offending: Seq<ViolationView>, malformed: Seq<ViolationView> },
}

impl View for DefinitionError {
    type V = DefinitionErrorView;

    open spec fn view(&self) -> DefinitionErrorView {
        match self {
            DefinitionError::Syntax(list) => DefinitionErrorView::Syntax(violations(list@)),
            DefinitionError::UnsupportedCombination { offending, malformed } => {
                DefinitionErrorView::UnsupportedCombination {
                    offending: violations(offending@),
                    malformed: violations(malformed@),
                }
            },
        }
    }
}

/// What the text of a definition lacks at some place.
#[derive(Clone, Copy, Debug, PartialEq, Eq, Structural)]
pub enum Expected {
    /// One of the words `metadata`, `request`, `response` and `error`.
    Keyword,
    /// A `:`.
    Colon,
    /// A `{`.
    OpenBrace,
    /// A `,` or a `}`.
    Separator,
    /// A name.
    Name,
    /// A string, a word, `true` or `false`.
    Value,
    /// The end of a string.
    StringEnd,
    /// A `[` after `#`.
    OpenBracket,
    /// The `]` that ends an attribute.
    AttributeEnd,
    /// A type.
    Type,
}

/// Why a text is no definition: what is expected at the first place where
/// the text does not go on as a definition does.
#[derive(Clone, Copy, Debug, PartialEq, Eq)]
pub struct SyntaxError {
    pub at: usize,
    pub expected: Expected,
}

/// What a `SyntaxError` holds.
pub struct Fault {
    pub at: int,
    pub expected: Expected,
}

impl View for SyntaxError {
    type V = Fault;

    open spec fn view(&self) -> Fault {
        Fault { at: self.at as int, expected: self.expected }
    }
}

/// Why no endpoint can be made from the text of a definition.
#[derive(Clone, Debug, PartialEq, Eq)]
pub enum CompileError {
    /// The text is no definition.
    Text(SyntaxError),
    /// The definition declares no endpoint that keeps the rules.
    Definition(DefinitionError),
}

/// What a `CompileError` holds.
pub enum CompileErrorView {
    Text(Fault),
    Definition(DefinitionErrorView),
}

impl View for CompileError {
    type V = CompileErrorView;

    open spec fn view(&self) -> CompileErrorView {
        match self {
            CompileError::Text(e) => CompileErrorView::Text(e@),
            CompileError::Definition(e) => CompileErrorView::Definition(e@),
        }
    }
}

/// What the clause that names the error type lacks.
#[derive(Clone, Copy, Debug, PartialEq, Eq, Structural)]
pub enum ClauseError {
    /// The word `error`.
    Keyword,
    /// The `:` after the word.
    Colon,
    /// A type after the `:`: what stands there, all of it, is not taken as
    /// a type.
    Type,
}

/// Why a message could not be written.
#[derive(Clone, Copy, Debug, PartialEq, Eq, Structural)]
pub enum IntoHttpError {
    /// The endpoint asks for an access token and none was given.
    NeedsAuthentication,
    /// A header value holds a byte that no header value may hold.
    InvalidHeader,
}

/// What a message that could not be read lacks.
#[derive(Clone, Copy, Debug, PartialEq, Eq, Structural)]
pub enum DeserializationError {
    /// The path ends before a placeholder of the template.
    PathSegment,
    /// The query string has no parameter under a field's name.
    QueryParameter,
    /// There is no header under a field's header name.
    Header,
    /// The body is not JSON of the form that the schema asks for.
    Body,
    /// The body has no member under the name of a required field.
    BodyField,
}

/// Why a request could not be read.
#[derive(Clone, Copy, Debug, PartialEq, Eq, Structural)]
pub enum FromHttpRequestError {
    Deserialization(DeserializationError),
}

/// An error that a server reported.
#[derive(Clone, Debug, PartialEq, Eq)]
pub enum ServerError<E> {
    /// The endpoint's error type could read the response.
    Known(E),
    /// It could not: the response as it came.
    Unknown(HttpResponse),
}

/// Why a response gave no message.
#[derive(Clone, Debug, PartialEq, Eq)]
pub enum FromHttpResponseError<E> {
    /// The response could not be read.
    Deserialization(DeserializationError),
    /// The server reported an error.
    Http(ServerError<E>),
}

} // verus!
