//! Endpoint definitions: what is declared, the endpoint that is assembled
//! from it, and the type that reads the endpoint's error responses.

use vstd::prelude::*;
pub use crate::expand::expand_all;
pub use crate::schema::strip_serde_attrs;
use crate::error::violations;
use crate::error::ClauseError;
use crate::error::DefinitionError;
use crate::error::DefinitionErrorView;
use crate::error::Section;
use crate::error::Violation;
use crate::error::ViolationView;
use crate::metadata::meta_entries;
use crate::metadata::metadata_of;
use crate::metadata::metadata_violations;
use crate::metadata::MetaEntry;
use crate::metadata::MetaValueView;
use crate::metadata::Metadata;
use crate::metadata::MetadataView;
use crate::schema::declared;
use crate::schema::decls;
use crate::schema::declaration_violations;
use crate::schema::FieldDecl;
use crate::schema::FieldDeclView;
use crate::schema::FieldView;
use crate::schema::Schema;
use crate::text::ascii;
use crate::text::cut;
use crate::text::has_byte;
use crate::text::trim;
use crate::types::is_type;

verus! {

/// One endpoint: its metadata, the schemas of its request and its response,
/// and the type that reads the bodies of its error responses.
#[derive(Clone, Debug, PartialEq, Eq)]
pub struct Api {
    pub metadata: Metadata,
    pub request: Schema,
    pub response: Schema,
    /// The error type, as text.
    pub error_ty: Vec<u8>,
}

/// What an `Api` holds.
pub struct ApiView {
    pub metadata: MetadataView,
    pub request: Seq<FieldView>,
    pub response: Seq<FieldView>,
    pub error_ty: Seq<u8>,
}

impl View for Api {
    type V = ApiView;

    open spec fn view(&self) -> ApiView {
        ApiView {
            metadata: self.metadata@,
            request: self.request@,
            response: self.response@,
            error_ty: self.error_ty@,
        }
    }
}

/// An endpoint as it is declared.
#[derive(Clone, Debug, PartialEq, Eq)]
pub struct Definition {
    pub metadata: Vec<MetaEntry>,
    pub request: Vec<FieldDecl>,
    pub response: Vec<FieldDecl>,
    /// The clause that names the error type, `error: Type`; empty where the
    /// definition has none.
    pub error: Vec<u8>,
}

/// What a `Definition` holds.
pub struct DefinitionView {
    pub metadata: Seq<(Seq<u8>, MetaValueView)>,
    pub request: Seq<FieldDeclView>,
    pub response: Seq<FieldDeclView>,
    pub error: Seq<u8>,
}

impl View for Definition {
    type V = DefinitionView;

    open spec fn view(&self) -> DefinitionView {
        DefinitionView {
            metadata: meta_entries(self.metadata@),
            request: decls(self.request@),
            response: decls(self.response@),
            error: self.error@,
        }
    }
}

/// The type that reads the error responses of an endpoint, as it is named
/// in a definition.
#[derive(Clone, Debug, PartialEq, Eq)]
pub struct ErrorType {
    /// The type, as text.
    pub ty: Vec<u8>,
}

/// What a clause names as the error type: what stands after its first `:`,
/// all of it, without the blanks around it.
pub open spec fn clause_type(clause: Seq<u8>) -> Seq<u8> {
    trim(cut(clause, 0x3a).1)
}

/// What reading the clause `error: Type` gives: the type, or what the clause
/// lacks, which is the word `error`, the `:` after it, or what is taken as a
/// type. The clause is read as a whole: everything after the `:` is the
/// type, so nothing may follow the type, and a clause in which something
/// does lacks a type.
pub open spec fn clause_reading(clause: Seq<u8>) -> Result<Seq<u8>, ClauseError> {
    if trim(cut(clause, 0x3a).0) != ascii("error"@) {
        Err(ClauseError::Keyword)
    } else if !has_byte(clause, 0x3a) {
        Err(ClauseError::Colon)
    } else if !is_type(clause_type(clause)) {
        Err(ClauseError::Type)
    } else {
        Ok(clause_type(clause))
    }
}

/// The name of the error type of an endpoint that declares none.
pub open spec fn void() -> Seq<u8> {
    ascii("Void"@)
}

/// The error type of an endpoint with the given clause: the type that the
/// clause names, or `Void` where no type can be read from it.
pub open spec fn resolved_error_type(clause: Seq<u8>) -> Seq<u8> {
    match clause_reading(clause) {
        Ok(ty) => ty,
        Err(_) => void(),
    }
}

/// Everything that is wrong with the parts of a definition, each by itself:
/// with the metadata, then with the declarations of the request, then with
/// those of the response.
pub open spec fn definition_violations(definition: DefinitionView) -> Seq<ViolationView> {
    metadata_violations(definition.metadata) + declaration_violations(
        definition.request,
        Section::Request,
        definition.request.len() as int,
    ) + declaration_violations(
        definition.response,
        Section::Response,
        definition.response.len() as int,
    )
}

/// The endpoint that a definition declares.
pub open spec fn assembled(definition: DefinitionView) -> ApiView {
    ApiView {
        metadata: metadata_of(definition.metadata),
        request: declared(definition.request, Section::Request),
        response: declared(definition.response, Section::Response),
        error_ty: resolved_error_type(definition.error),
    }
}

/// What parsing a definition gives: the endpoint that it declares, unless
/// something is wrong with one of its parts, or it declares a `GET` request
/// with fields in the body.
pub open spec fn parsing(definition: DefinitionView) -> Result<ApiView, DefinitionErrorView> {
    let api = assembled(definition);
    let in_body = crate::validate::in_body(api);
    if definition_violations(definition).len() > 0 {
        Err(DefinitionErrorView::Syntax(definition_violations(definition)))
    } else if in_body.len() > 0 {
        Err(
            DefinitionErrorView::UnsupportedCombination {
                offending: in_body,
                malformed: Seq::empty(),
            },
        )
    } else {
        Ok(api)
    }
}

/// What reading a clause gives once it is known whether what it names is
/// taken as a type.
pub open spec fn clause_reading_with(clause: Seq<u8>, type_ok: bool) -> Result<
    Seq<u8>,
    ClauseError,
> {
    if trim(cut(clause, 0x3a).0) != ascii("error"@) {
        Err(ClauseError::Keyword)
    } else if !has_byte(clause, 0x3a) {
        Err(ClauseError::Colon)
    } else if !type_ok {
        Err(ClauseError::Type)
    } else {
        Ok(clause_type(clause))
    }
}

impl ErrorType {
    /// Reads the clause `error: Type`, given whether the text after the `:`
    /// is taken as a type.
    pub fn from_clause(clause: &[u8], type_ok: bool) -> (r: Result<ErrorType, ClauseError>)
        ensures
            match r {
                Ok(e) => clause_reading_with(clause@, type_ok) == Ok::<Seq<u8>, ClauseError>(e.ty@),
                Err(e) => clause_reading_with(clause@, type_ok) == Err::<Seq<u8>, ClauseError>(e),
            },
    {
        proof {
            reveal_strlit("error");
        }
        let (before, after) = crate::text::cut_at_byte(clause, 0x3a);
        let keyword = crate::text::trimmed(before.as_slice());
        if !crate::text::is_word(keyword.as_slice(), "error") {
            return Err(ClauseError::Keyword);
        }
        if !crate::text::contains_byte(clause, 0x3a) {
            return Err(ClauseError::Colon);
        }
        let ty = crate::text::trimmed(after.as_slice());
        if !type_ok {
            return Err(ClauseError::Type);
        }
        Ok(ErrorType { ty })
    }

    /// Reads the clause `error: Type`. It takes the whole clause: the type
    /// is all that stands after the first `:`, without the blanks around it,
    /// and nothing is left over.
    pub fn parse(clause: &[u8]) -> (r: Result<ErrorType, ClauseError>)
        ensures
            match r {
                Ok(e) => clause_reading(clause@) == Ok::<Seq<u8>, ClauseError>(e.ty@),
                Err(e) => clause_reading(clause@) == Err::<Seq<u8>, ClauseError>(e),
            },
            r matches Ok(e) ==> e.ty@ == trim(cut(clause@, 0x3a).1) && is_type(e.ty@),
    {
        let (_, after) = crate::text::cut_at_byte(clause, 0x3a);
        let ty = crate::text::trimmed(after.as_slice());
        let type_ok = crate::types::type_accepted(ty.as_slice());
        ErrorType::from_clause(clause, type_ok)
    }
}

/// The error type of an endpoint with the given clause.
pub fn resolve_error_type(clause: &[u8]) -> (r: Vec<u8>)
    ensures
        r@ == resolved_error_type(clause@),
{
    match ErrorType::parse(clause) {
        Ok(e) => e.ty,
        Err(_) => {
            proof {
                reveal_strlit("Void");
            }
            crate::text::bytes_of("Void")
        },
    }
}

/// Puts the violations of `more` at the end of `found`.
fn add_violations(found: &mut Vec<Violation>, more: Vec<Violation>)
    ensures
        violations(final(found)@) == violations(old(found)@) + violations(more@),
{
    let mut more = more;
    found.append(&mut more);
}

impl Api {
    /// Assembles the endpoint that a definition declares. Its parts are
    /// parsed each by itself. Where something is wrong with any of them, the
    /// error lists all of it. Where the parts are in order but the method is
    /// `GET` and fields of the request travel in the body, the error names
    /// each of these fields: the members of the body in their order, and
    /// after them the fields that are the whole body. The other rules are
    /// not looked at here.
    pub fn parse(definition: &Definition) -> (r: Result<Api, DefinitionError>)
        ensures
            match r {
                Ok(api) => parsing(definition@) == Ok::<ApiView, DefinitionErrorView>(api@),
                Err(e) => parsing(definition@) == Err::<ApiView, DefinitionErrorView>(e@),
            },
    {
        let mut found: Vec<Violation> = Vec::new();
        let metadata = Metadata::parse(&definition.metadata);
        let request = Schema::parse(&definition.request, Section::Request);
        let response = Schema::parse(&definition.response, Section::Response);
        let error_ty = resolve_error_type(definition.error.as_slice());
        match (metadata, request, response) {
            (Ok(metadata), Ok(request), Ok(response)) => {
                let api = Api { metadata, request, response, error_ty };
                let params = crate::path::template_parameters(api.metadata.path.as_slice());
                let in_body = crate::validate::find_in_body(&api, &params);
                if in_body.len() > 0 {
                    let malformed: Vec<Violation> = Vec::new();
                    assert(violations(malformed@) =~= Seq::empty());
                    Err(DefinitionError::UnsupportedCombination { offending: in_body, malformed })
                } else {
                    Ok(api)
                }
            },
            (metadata, request, response) => {
                if let Err(more) = metadata {
                    add_violations(&mut found, more);
                }
                if let Err(more) = request {
                    add_violations(&mut found, more);
                }
                if let Err(more) = response {
                    add_violations(&mut found, more);
                }
                Err(DefinitionError::Syntax(found))
            },
        }
    }
}

} // verus!
