//! The rules that an endpoint has to keep before messages can travel.
//!
//! Every rule is stated of one field: whether that field breaks it. The
//! diagnostic lists, rule by rule, every field that does, in the order of
//! declaration.

use vstd::prelude::*;
use crate::api::Api;
use crate::api::ApiView;
use crate::error::DefinitionError;
use crate::error::DefinitionErrorView;
use crate::error::Rule;
use crate::error::Section;
use crate::error::Violation;
use crate::error::ViolationView;
use crate::error::violations;
use crate::path::is_template;
use crate::path::parameters;
use crate::schema::count;
use crate::schema::fields;
use crate::schema::Field;
use crate::schema::FieldLocation;
use crate::schema::FieldView;
use crate::schema::is_header_name;
use crate::text::is_identifier;
use crate::text::rows;
use crate::wire::Method;

verus! {

/// The fields of the request or of the response.
pub open spec fn schema(api: ApiView, section: Section) -> Seq<FieldView> {
    match section {
        Section::Response => api.response,
        _ => api.request,
    }
}

/// Whether an earlier field has the name of field `i`.
pub open spec fn name_taken(list: Seq<FieldView>, i: int) -> bool {
    exists|j: int| 0 <= j < i && (#[trigger] list[j]).name == list[i].name
}

/// Whether an earlier header field has the header of field `i`.
pub open spec fn header_taken(list: Seq<FieldView>, i: int) -> bool {
    exists|j: int|
        0 <= j < i && (#[trigger] list[j]).location == FieldLocation::Header && list[j].header
            == list[i].header
}

/// Whether field `i` of the request or the response breaks `rule`.
pub open spec fn offends(api: ApiView, rule: Rule, section: Section, i: int) -> bool {
    let list = schema(api, section);
    let f = list[i];
    let all = list.len() as int;
    match rule {
        Rule::InvalidName => !is_identifier(f.name),
        Rule::DuplicateField => name_taken(list, i),
        Rule::InvalidHeader => f.location == FieldLocation::Header && !is_header_name(f.header),
        Rule::DuplicateHeader => f.location == FieldLocation::Header && header_taken(list, i),
        Rule::SecondNewtypeBody => f.location == FieldLocation::NewtypeBody && count(
            list,
            FieldLocation::NewtypeBody,
            i,
        ) > 0,
        Rule::BodyBesideNewtypeBody => f.location == FieldLocation::Body && count(
            list,
            FieldLocation::NewtypeBody,
            all,
        ) > 0,
        Rule::SecondQueryMap => f.location == FieldLocation::QueryMap && count(
            list,
            FieldLocation::QueryMap,
            i,
        ) > 0,
        Rule::QueryBesideQueryMap => f.location == FieldLocation::Query && count(
            list,
            FieldLocation::QueryMap,
            all,
        ) > 0,
        Rule::PathMismatch => {
            let k = count(list, FieldLocation::Path, i);
            let params = parameters(api.metadata.path);
            section == Section::Request && f.location == FieldLocation::Path && !(k < params.len()
                && params[k] == f.name)
        },
        Rule::GetWithBody => section == Section::Request && api.metadata.method == Method::Get
            && f.location == FieldLocation::Body,
        Rule::GetWithNewtypeBody => section == Section::Request && api.metadata.method
            == Method::Get && f.location == FieldLocation::NewtypeBody,
        Rule::ResponseLocation => section == Section::Response && (f.location
            == FieldLocation::Path || f.location == FieldLocation::Query || f.location
            == FieldLocation::QueryMap),
        _ => false,
    }
}

/// The violation that names field `i`.
pub open spec fn violation(api: ApiView, rule: Rule, section: Section, i: int) -> ViolationView {
    ViolationView { rule, section, item: schema(api, section)[i].name }
}

/// The fields among the first `n` that break `rule`, in their order.
pub open spec fn offenders(api: ApiView, rule: Rule, section: Section, n: int) -> Seq<
    ViolationView,
>
    decreases n,
{
    if n <= 0 {
        Seq::empty()
    } else if offends(api, rule, section, n - 1) {
        offenders(api, rule, section, n - 1).push(violation(api, rule, section, n - 1))
    } else {
        offenders(api, rule, section, n - 1)
    }
}

/// All the fields of a schema that break `rule`.
pub open spec fn all_offenders(api: ApiView, rule: Rule, section: Section) -> Seq<ViolationView> {
    offenders(api, rule, section, schema(api, section).len() as int)
}

/// The rules of a schema that have to do with its form, in the order in
/// which the diagnostic lists them.
pub open spec fn schema_rules() -> Seq<Rule> {
    seq![
        Rule::InvalidName,
        Rule::DuplicateField,
        Rule::InvalidHeader,
        Rule::DuplicateHeader,
        Rule::SecondNewtypeBody,
        Rule::BodyBesideNewtypeBody,
        Rule::SecondQueryMap,
        Rule::QueryBesideQueryMap,
        Rule::PathMismatch,
    ]
}

/// What the first `n` rules of form find in a schema.
pub open spec fn schema_violations(api: ApiView, section: Section, n: int) -> Seq<ViolationView>
    decreases n,
{
    if n <= 0 {
        Seq::empty()
    } else {
        schema_violations(api, section, n - 1) + all_offenders(
            api,
            schema_rules()[n - 1],
            section,
        )
    }
}

/// The violation of a malformed path template, if it is one.
pub open spec fn path_violations(api: ApiView) -> Seq<ViolationView> {
    if is_template(api.metadata.path) {
        Seq::empty()
    } else {
        seq![
            ViolationView {
                rule: Rule::MalformedPath,
                section: Section::Metadata,
                item: api.metadata.path,
            },
        ]
    }
}

/// The placeholders from the `from`-th on, each as a violation.
pub open spec fn unbound_from(params: Seq<Seq<u8>>, from: int) -> Seq<ViolationView> {
    Seq::new(
        if from < params.len() {
            (params.len() - from) as nat
        } else {
            0
        },
        |j: int|
            ViolationView {
                rule: Rule::UnboundPlaceholder,
                section: Section::Request,
                item: params[from + j],
            },
    )
}

/// The placeholders for which the request has no path field.
pub open spec fn unbound(api: ApiView) -> Seq<ViolationView> {
    unbound_from(
        parameters(api.metadata.path),
        count(api.request, FieldLocation::Path, api.request.len() as int),
    )
}

/// Everything in which the form of an endpoint is wrong.
pub open spec fn syntax_violations(api: ApiView) -> Seq<ViolationView> {
    path_violations(api) + schema_violations(api, Section::Request, 9) + schema_violations(
        api,
        Section::Response,
        9,
    ) + unbound(api)
}

/// The fields of a `GET` request that travel in the body: the members of
/// the body in their order, and after them the fields that are the whole
/// body.
pub open spec fn in_body(api: ApiView) -> Seq<ViolationView> {
    all_offenders(api, Rule::GetWithBody, Section::Request) + all_offenders(
        api,
        Rule::GetWithNewtypeBody,
        Section::Request,
    )
}

/// Everything that an endpoint asks for and that cannot travel: the fields
/// of a `GET` request that travel in the body, and then the fields of the
/// response that travel in the path or in the query string.
pub open spec fn unsupported(api: ApiView) -> Seq<ViolationView> {
    in_body(api) + all_offenders(api, Rule::ResponseLocation, Section::Response)
}

/// What is wrong with an endpoint: what cannot travel together with what is
/// malformed, if anything cannot travel, else what is malformed; `None`
/// where nothing is wrong.
pub open spec fn verdict(api: ApiView) -> Option<DefinitionErrorView> {
    if unsupported(api).len() > 0 {
        Some(
            DefinitionErrorView::UnsupportedCombination {
                offending: unsupported(api),
                malformed: syntax_violations(api),
            },
        )
    } else if syntax_violations(api).len() > 0 {
        Some(DefinitionErrorView::Syntax(syntax_violations(api)))
    } else {
        None
    }
}

/// Whether an endpoint keeps every rule.
pub open spec fn is_valid(api: ApiView) -> bool {
    verdict(api) is None
}

/// The list of offenders names exactly the fields that break the rule.
pub proof fn lemma_offenders(api: ApiView, rule: Rule, section: Section, n: int)
    ensures
        forall|i: int|
            0 <= i < n && #[trigger] offends(api, rule, section, i) ==> offenders(
                api,
                rule,
                section,
                n,
            ).contains(violation(api, rule, section, i)),
        forall|v: ViolationView| #[trigger]
            offenders(api, rule, section, n).contains(v) ==> exists|i: int|
                0 <= i < n && offends(api, rule, section, i) && v == violation(
                    api,
                    rule,
                    section,
                    i,
                ),
        offenders(api, rule, section, n).len() == 0 <==> forall|i: int|
            0 <= i < n ==> !#[trigger] offends(api, rule, section, i),
    decreases n,
{
    if n > 0 {
        lemma_offenders(api, rule, section, n - 1);
        let before = offenders(api, rule, section, n - 1);
        let now = offenders(api, rule, section, n);
        if offends(api, rule, section, n - 1) {
            let last = violation(api, rule, section, n - 1);
            assert(now[now.len() - 1] == last);
            assert forall|i: int| 0 <= i < n && #[trigger] offends(
                api,
                rule,
                section,
                i,
            ) implies now.contains(violation(api, rule, section, i)) by {
                if i < n - 1 {
                    let k = choose|k: int|
                        0 <= k < before.len() && before[k] == violation(api, rule, section, i);
                    assert(now[k] == before[k]);
                }
            }
            assert forall|v: ViolationView| #[trigger] now.contains(v) implies exists|i: int|
                0 <= i < n && offends(api, rule, section, i) && v == violation(
                    api,
                    rule,
                    section,
                    i,
                ) by {
                let k = choose|k: int| 0 <= k < now.len() && now[k] == v;
                if k < before.len() {
                    assert(before[k] == v);
                    assert(before.contains(v));
                }
            }
        }
    }
}

/// Whether a schema is in order by itself: the names of its fields are
/// identifiers and differ, the headers of its header fields are header names
/// and differ, at most one field is the whole body and none is a member of
/// the body beside it, and the same for the query string.
pub open spec fn schema_in_order(list: Seq<FieldView>) -> bool {
    let all = list.len() as int;
    &&& forall|i: int| 0 <= i < all ==> is_identifier((#[trigger] list[i]).name)
    &&& forall|i: int, j: int|
        0 <= i < j < all ==> (#[trigger] list[i]).name != (#[trigger] list[j]).name
    &&& forall|i: int|
        0 <= i < all && (#[trigger] list[i]).location == FieldLocation::Header ==> is_header_name(
            list[i].header,
        )
    &&& forall|i: int, j: int|
        0 <= i < j < all && (#[trigger] list[i]).location == FieldLocation::Header && (
        #[trigger] list[j]).location == FieldLocation::Header ==> list[i].header != list[j].header
    &&& count(list, FieldLocation::NewtypeBody, all) <= 1
    &&& count(list, FieldLocation::NewtypeBody, all) > 0 ==> count(list, FieldLocation::Body, all)
        == 0
    &&& count(list, FieldLocation::QueryMap, all) <= 1
    &&& count(list, FieldLocation::QueryMap, all) > 0 ==> count(list, FieldLocation::Query, all)
        == 0
}

/// Whether an endpoint is in order: its path template is well formed, its
/// request has one path field for each placeholder, in the order and under
/// the names of the placeholders, both schemas are in order by themselves, a
/// `GET` request has no field in the body, and the response has no field in
/// the path or in the query string.
pub open spec fn in_order(api: ApiView) -> bool {
    let params = parameters(api.metadata.path);
    let request = api.request.len() as int;
    let response = api.response.len() as int;
    &&& is_template(api.metadata.path)
    &&& count(api.request, FieldLocation::Path, request) == params.len()
    &&& forall|i: int|
        0 <= i < request && (#[trigger] api.request[i]).location == FieldLocation::Path
            ==> params[count(api.request, FieldLocation::Path, i)] == api.request[i].name
    &&& schema_in_order(api.request)
    &&& schema_in_order(api.response)
    &&& api.metadata.method == Method::Get ==> count(api.request, FieldLocation::Body, request)
        == 0 && count(api.request, FieldLocation::NewtypeBody, request) == 0
    &&& count(api.response, FieldLocation::Path, response) == 0
    &&& count(api.response, FieldLocation::Query, response) == 0
    &&& count(api.response, FieldLocation::QueryMap, response) == 0
}

/// No rule of form finds anything in a schema exactly when no field breaks
/// any of them.
pub proof fn lemma_schema_clean(api: ApiView, section: Section)
    ensures
        schema_violations(api, section, 9).len() == 0 <==> forall|k: int, i: int|
            0 <= k < 9 && 0 <= i < schema(api, section).len() ==> !#[trigger] offends(
                api,
                schema_rules()[k],
                section,
                i,
            ),
{
    reveal_with_fuel(schema_violations, 10);
    let n = schema(api, section).len() as int;
    lemma_offenders(api, Rule::InvalidName, section, n);
    lemma_offenders(api, Rule::DuplicateField, section, n);
    lemma_offenders(api, Rule::InvalidHeader, section, n);
    lemma_offenders(api, Rule::DuplicateHeader, section, n);
    lemma_offenders(api, Rule::SecondNewtypeBody, section, n);
    lemma_offenders(api, Rule::BodyBesideNewtypeBody, section, n);
    lemma_offenders(api, Rule::SecondQueryMap, section, n);
    lemma_offenders(api, Rule::QueryBesideQueryMap, section, n);
    lemma_offenders(api, Rule::PathMismatch, section, n);
    if schema_violations(api, section, 9).len() == 0 {
        assert forall|k: int, i: int| 0 <= k < 9 && 0 <= i < n implies !#[trigger] offends(
            api,
            schema_rules()[k],
            section,
            i,
        ) by {
            let rule = schema_rules()[k];
            assert(all_offenders(api, rule, section).len() == 0);
        }
    } else {
        let k = choose|k: int|
            0 <= k < 9 && all_offenders(api, schema_rules()[k], section).len() > 0;
        let rule = schema_rules()[k];
        let i = choose|i: int| 0 <= i < n && #[trigger] offends(api, rule, section, i);
        assert(offends(api, schema_rules()[k], section, i));
    }
}

/// Where no field at `location` has another one before it, at most one
/// field is there.
pub proof fn lemma_at_most_one(list: Seq<FieldView>, location: FieldLocation, n: int)
    requires
        n <= list.len(),
        forall|i: int|
            0 <= i < n && (#[trigger] list[i]).location == location ==> count(list, location, i)
                == 0,
    ensures
        count(list, location, n) <= 1,
    decreases n,
{
    if n > 0 {
        lemma_at_most_one(list, location, n - 1);
    }
}

/// Where every field at `location` has fewer than `bound` of them before it,
/// there are at most `bound`.
pub proof fn lemma_count_bound(list: Seq<FieldView>, location: FieldLocation, n: int, bound: int)
    requires
        n <= list.len(),
        bound >= 0,
        forall|i: int|
            0 <= i < n && (#[trigger] list[i]).location == location ==> count(list, location, i)
                < bound,
    ensures
        count(list, location, n) <= bound,
    decreases n,
{
    if n > 0 {
        lemma_count_bound(list, location, n - 1, bound);
    }
}

/// A schema in which no rule of form finds anything is in order.
pub proof fn lemma_schema_in_order(api: ApiView, section: Section)
    requires
        section != Section::Metadata,
        schema_violations(api, section, 9).len() == 0,
    ensures
        schema_in_order(schema(api, section)),
{
    let list = schema(api, section);
    let all = list.len() as int;
    lemma_schema_clean(api, section);
    assert forall|i: int| 0 <= i < all implies is_identifier((#[trigger] list[i]).name) by {
        assert(!offends(api, schema_rules()[0], section, i));
    }
    assert forall|i: int, j: int| 0 <= i < j < all implies (#[trigger] list[i]).name != (
    #[trigger] list[j]).name by {
        assert(!offends(api, schema_rules()[1], section, j));
    }
    assert forall|i: int|
        0 <= i < all && (#[trigger] list[i]).location
            == FieldLocation::Header implies is_header_name(list[i].header) by {
        assert(!offends(api, schema_rules()[2], section, i));
    }
    assert forall|i: int, j: int|
        0 <= i < j < all && (#[trigger] list[i]).location == FieldLocation::Header && (
        #[trigger] list[j]).location == FieldLocation::Header implies list[i].header
        != list[j].header by {
        assert(!offends(api, schema_rules()[3], section, j));
    }
    assert forall|i: int|
        0 <= i < all && (#[trigger] list[i]).location == FieldLocation::NewtypeBody implies count(
        list,
        FieldLocation::NewtypeBody,
        i,
    ) == 0 by {
        assert(!offends(api, schema_rules()[4], section, i));
        crate::schema::lemma_count(list, FieldLocation::NewtypeBody, i);
    }
    lemma_at_most_one(list, FieldLocation::NewtypeBody, all);
    crate::schema::lemma_count(list, FieldLocation::Body, all);
    if count(list, FieldLocation::NewtypeBody, all) > 0 {
        assert forall|i: int| 0 <= i < all implies (#[trigger] list[i]).location
            != FieldLocation::Body by {
            assert(!offends(api, schema_rules()[5], section, i));
        }
    }
    assert forall|i: int|
        0 <= i < all && (#[trigger] list[i]).location == FieldLocation::QueryMap implies count(
        list,
        FieldLocation::QueryMap,
        i,
    ) == 0 by {
        assert(!offends(api, schema_rules()[6], section, i));
        crate::schema::lemma_count(list, FieldLocation::QueryMap, i);
    }
    lemma_at_most_one(list, FieldLocation::QueryMap, all);
    crate::schema::lemma_count(list, FieldLocation::Query, all);
    if count(list, FieldLocation::QueryMap, all) > 0 {
        assert forall|i: int| 0 <= i < all implies (#[trigger] list[i]).location
            != FieldLocation::Query by {
            assert(!offends(api, schema_rules()[7], section, i));
        }
    }
}

/// An endpoint that keeps every rule is in order.
pub proof fn lemma_valid(api: ApiView)
    requires
        is_valid(api),
    ensures
        in_order(api),
{
    let params = parameters(api.metadata.path);
    let request = api.request.len() as int;
    let response = api.response.len() as int;
    assert(unsupported(api).len() == 0);
    assert(syntax_violations(api).len() == 0);
    assert(path_violations(api).len() == 0);
    assert(schema_violations(api, Section::Request, 9).len() == 0);
    assert(schema_violations(api, Section::Response, 9).len() == 0);
    assert(unbound(api).len() == 0);
    lemma_schema_in_order(api, Section::Request);
    lemma_schema_in_order(api, Section::Response);
    lemma_schema_clean(api, Section::Request);
    assert forall|i: int|
        0 <= i < request && (#[trigger] api.request[i]).location == FieldLocation::Path implies {
        &&& count(api.request, FieldLocation::Path, i) < params.len()
        &&& params[count(api.request, FieldLocation::Path, i)] == api.request[i].name
    } by {
        assert(!offends(api, schema_rules()[8], Section::Request, i));
    }
    lemma_count_bound(api.request, FieldLocation::Path, request, params.len() as int);
    lemma_offenders(api, Rule::GetWithBody, Section::Request, request);
    lemma_offenders(api, Rule::GetWithNewtypeBody, Section::Request, request);
    lemma_offenders(api, Rule::ResponseLocation, Section::Response, response);
    crate::schema::lemma_count(api.request, FieldLocation::Body, request);
    crate::schema::lemma_count(api.request, FieldLocation::NewtypeBody, request);
    crate::schema::lemma_count(api.response, FieldLocation::Path, response);
    crate::schema::lemma_count(api.response, FieldLocation::Query, response);
    crate::schema::lemma_count(api.response, FieldLocation::QueryMap, response);
    if api.metadata.method == Method::Get {
        assert forall|i: int| 0 <= i < request implies (#[trigger] api.request[i]).location
            != FieldLocation::Body && api.request[i].location != FieldLocation::NewtypeBody by {
            assert(!offends(api, Rule::GetWithBody, Section::Request, i));
            assert(!offends(api, Rule::GetWithNewtypeBody, Section::Request, i));
        }
    }
    assert forall|i: int| 0 <= i < response implies (#[trigger] api.response[i]).location
        != FieldLocation::Path && api.response[i].location != FieldLocation::Query
        && api.response[i].location != FieldLocation::QueryMap by {
        assert(!offends(api, Rule::ResponseLocation, Section::Response, i));
    }
}

/// No rule of form finds anything in a schema that is in order.
pub proof fn lemma_in_order_schema(api: ApiView, section: Section)
    requires
        section != Section::Metadata,
        in_order(api),
    ensures
        schema_violations(api, section, 9).len() == 0,
{
    let list = schema(api, section);
    let all = list.len() as int;
    let params = parameters(api.metadata.path);
    assert(schema_in_order(list));
    lemma_schema_clean(api, section);
    assert forall|k: int, i: int| 0 <= k < 9 && 0 <= i < all implies !#[trigger] offends(
        api,
        schema_rules()[k],
        section,
        i,
    ) by {
        let f = list[i];
        if k == 1 {
            if name_taken(list, i) {
                let j = choose|j: int| 0 <= j < i && (#[trigger] list[j]).name == list[i].name;
                assert(list[j].name != list[i].name);
            }
        } else if k == 3 {
            if f.location == FieldLocation::Header && header_taken(list, i) {
                let j = choose|j: int|
                    0 <= j < i && (#[trigger] list[j]).location == FieldLocation::Header
                        && list[j].header == list[i].header;
                assert(list[j].header != list[i].header);
            }
        } else if k == 4 {
            if f.location == FieldLocation::NewtypeBody {
                crate::schema::lemma_count_grows(list, FieldLocation::NewtypeBody, i + 1, all);
            }
        } else if k == 5 {
            crate::schema::lemma_count(list, FieldLocation::Body, all);
        } else if k == 6 {
            if f.location == FieldLocation::QueryMap {
                crate::schema::lemma_count_grows(list, FieldLocation::QueryMap, i + 1, all);
            }
        } else if k == 7 {
            crate::schema::lemma_count(list, FieldLocation::Query, all);
        } else if k == 8 {
            if section == Section::Request && f.location == FieldLocation::Path {
                crate::schema::lemma_count_grows(list, FieldLocation::Path, i + 1, all);
                crate::schema::lemma_count(list, FieldLocation::Path, i);
            }
        }
    }
}

/// An endpoint keeps every rule exactly when it is in order.
pub proof fn lemma_valid_iff_in_order(api: ApiView)
    ensures
        is_valid(api) <==> in_order(api),
{
    if is_valid(api) {
        lemma_valid(api);
    }
    if in_order(api) {
        let request = api.request.len() as int;
        let response = api.response.len() as int;
        lemma_in_order_schema(api, Section::Request);
        lemma_in_order_schema(api, Section::Response);
        lemma_offenders(api, Rule::GetWithBody, Section::Request, request);
    lemma_offenders(api, Rule::GetWithNewtypeBody, Section::Request, request);
        lemma_offenders(api, Rule::ResponseLocation, Section::Response, response);
        crate::schema::lemma_count(api.request, FieldLocation::Body, request);
        crate::schema::lemma_count(api.request, FieldLocation::NewtypeBody, request);
        crate::schema::lemma_count(api.response, FieldLocation::Path, response);
        crate::schema::lemma_count(api.response, FieldLocation::Query, response);
        crate::schema::lemma_count(api.response, FieldLocation::QueryMap, response);
        assert(unsupported(api).len() == 0);
        assert(path_violations(api).len() == 0);
        assert(unbound(api).len() == 0);
        assert(syntax_violations(api).len() == 0);
    }
}

/// An endpoint with the method `GET` and a request field that travels in the
/// body is refused for what cannot travel. The error begins with these
/// fields and names every one of them, no other field of the request, and
/// none twice: first the members of the body, then the fields that are the
/// whole body, both in the order of their declaration.
pub proof fn lemma_get_with_body(api: ApiView)
    requires
        api.metadata.method == Method::Get,
        exists|i: int|
            0 <= i < api.request.len() && ((#[trigger] api.request[i]).location
                == FieldLocation::Body || api.request[i].location == FieldLocation::NewtypeBody),
    ensures
        verdict(api) == Some(
            DefinitionErrorView::UnsupportedCombination {
                offending: unsupported(api),
                malformed: syntax_violations(api),
            },
        ),
        unsupported(api) == in_body(api) + all_offenders(
            api,
            Rule::ResponseLocation,
            Section::Response,
        ),
        in_body(api).len() == count(api.request, FieldLocation::Body, api.request.len() as int)
            + count(api.request, FieldLocation::NewtypeBody, api.request.len() as int),
        forall|i: int|
            0 <= i < api.request.len() && (#[trigger] api.request[i]).location
                == FieldLocation::Body ==> in_body(api)[count(api.request, FieldLocation::Body, i)]
                == (ViolationView {
                rule: Rule::GetWithBody,
                section: Section::Request,
                item: api.request[i].name,
            }),
        forall|i: int|
            0 <= i < api.request.len() && (#[trigger] api.request[i]).location
                == FieldLocation::NewtypeBody ==> in_body(api)[count(
                api.request,
                FieldLocation::Body,
                api.request.len() as int,
            ) + count(api.request, FieldLocation::NewtypeBody, i)] == (ViolationView {
                rule: Rule::GetWithNewtypeBody,
                section: Section::Request,
                item: api.request[i].name,
            }),
{
    let n = api.request.len() as int;
    lemma_located(api, Rule::GetWithBody, FieldLocation::Body, n);
    lemma_located(api, Rule::GetWithNewtypeBody, FieldLocation::NewtypeBody, n);
    crate::schema::lemma_count(api.request, FieldLocation::Body, n);
    crate::schema::lemma_count(api.request, FieldLocation::NewtypeBody, n);
}

/// Where a rule is broken by exactly the request fields at one location,
/// its offenders are these fields, each at the place that it has among
/// them.
pub proof fn lemma_located(api: ApiView, rule: Rule, location: FieldLocation, n: int)
    requires
        n <= api.request.len(),
        forall|i: int|
            0 <= i < n ==> (#[trigger] offends(api, rule, Section::Request, i) <==> api.request[i].location
                == location),
    ensures
        offenders(api, rule, Section::Request, n).len() == count(api.request, location, n),
        forall|i: int|
            0 <= i < n && (#[trigger] api.request[i]).location == location ==> {
                &&& 0 <= count(api.request, location, i) < count(api.request, location, n)
                &&& offenders(api, rule, Section::Request, n)[count(api.request, location, i)]
                    == violation(api, rule, Section::Request, i)
            },
    decreases n,
{
    if n > 0 {
        lemma_located(api, rule, location, n - 1);
        crate::schema::lemma_count(api.request, location, n - 1);
        assert(offends(api, rule, Section::Request, n - 1) <==> api.request[n - 1].location
            == location);
    }
}

/// Tests whether an earlier field has the name of field `i`.
fn name_is_taken(list: &Vec<Field>, i: usize) -> (r: bool)
    requires
        i < list.len(),
    ensures
        r == name_taken(fields(list@), i as int),
{
    let mut j: usize = 0;
    while j < i
        invariant
            j <= i < list.len(),
            forall|k: int| 0 <= k < j ==> (#[trigger] fields(list@)[k]).name != fields(list@)[i as int].name,
        decreases i - j,
    {
        assert(fields(list@)[j as int] == list@[j as int]@);
        if crate::text::same(list[j].name.as_slice(), list[i].name.as_slice()) {
            return true;
        }
        j += 1;
    }
    false
}

/// Tests whether an earlier header field has the header of field `i`.
fn header_is_taken(list: &Vec<Field>, i: usize) -> (r: bool)
    requires
        i < list.len(),
    ensures
        r == header_taken(fields(list@), i as int),
{
    let mut j: usize = 0;
    while j < i
        invariant
            j <= i < list.len(),
            forall|k: int|
                0 <= k < j ==> !((#[trigger] fields(list@)[k]).location == FieldLocation::Header
                    && fields(list@)[k].header == fields(list@)[i as int].header),
        decreases i - j,
    {
        assert(fields(list@)[j as int] == list@[j as int]@);
        assert(fields(list@)[i as int] == list@[i as int]@);
        if list[j].location == FieldLocation::Header && crate::text::same(
            list[j].header.as_slice(),
            list[i].header.as_slice(),
        ) {
            return true;
        }
        j += 1;
    }
    false
}

/// Tests whether field `i` of the request or the response breaks `rule`.
pub fn breaks(api: &Api, params: &Vec<Vec<u8>>, rule: Rule, section: Section, i: usize) -> (r:
    bool)
    requires
        i < schema(api@, section).len(),
        rows(params@) == parameters(api@.metadata.path),
    ensures
        r == offends(api@, rule, section, i as int),
{
    let list = match section {
        Section::Response => &api.response.fields,
        _ => &api.request.fields,
    };
    assert(fields(list@) == schema(api@, section));
    let f = &list[i];
    match rule {
        Rule::InvalidName => !crate::text::identifier(f.name.as_slice()),
        Rule::DuplicateField => name_is_taken(list, i),
        Rule::InvalidHeader => f.location == FieldLocation::Header && !crate::schema::header_name(
            f.header.as_slice(),
        ),
        Rule::DuplicateHeader => f.location == FieldLocation::Header && header_is_taken(list, i),
        Rule::SecondNewtypeBody => f.location == FieldLocation::NewtypeBody
            && crate::schema::count_at(list, FieldLocation::NewtypeBody, i) > 0,
        Rule::BodyBesideNewtypeBody => f.location == FieldLocation::Body
            && crate::schema::count_at(list, FieldLocation::NewtypeBody, list.len()) > 0,
        Rule::SecondQueryMap => f.location == FieldLocation::QueryMap && crate::schema::count_at(
            list,
            FieldLocation::QueryMap,
            i,
        ) > 0,
        Rule::QueryBesideQueryMap => f.location == FieldLocation::Query
            && crate::schema::count_at(list, FieldLocation::QueryMap, list.len()) > 0,
        Rule::PathMismatch => {
            if section == Section::Request && f.location == FieldLocation::Path {
                let k = crate::schema::count_at(list, FieldLocation::Path, i);
                if k < params.len() {
                    !crate::text::same(params[k].as_slice(), f.name.as_slice())
                } else {
                    true
                }
            } else {
                false
            }
        },
        Rule::GetWithBody => section == Section::Request && api.metadata.method == Method::Get
            && f.location == FieldLocation::Body,
        Rule::GetWithNewtypeBody => section == Section::Request && api.metadata.method
            == Method::Get && f.location == FieldLocation::NewtypeBody,
        Rule::ResponseLocation => section == Section::Response && (f.location
            == FieldLocation::Path || f.location == FieldLocation::Query || f.location
            == FieldLocation::QueryMap),
        _ => false,
    }
}

/// Puts at the end of `out` every field of the request or the response that
/// breaks `rule`.
pub fn collect(
    api: &Api,
    params: &Vec<Vec<u8>>,
    rule: Rule,
    section: Section,
    out: &mut Vec<Violation>,
)
    requires
        rows(params@) == parameters(api@.metadata.path),
    ensures
        violations(final(out)@) == violations(old(out)@) + all_offenders(api@, rule, section),
{
    let list = match section {
        Section::Response => &api.response.fields,
        _ => &api.request.fields,
    };
    let mut i: usize = 0;
    while i < list.len()
        invariant
            i <= list.len(),
            fields(list@) == schema(api@, section),
            rows(params@) == parameters(api@.metadata.path),
            violations(out@) == violations(old(out)@) + offenders(api@, rule, section, i as int),
        decreases list.len() - i,
    {
        assert(fields(list@)[i as int] == list@[i as int]@);
        if breaks(api, params, rule, section, i) {
            let ghost before = violations(out@);
            out.push(Violation { rule, section, item: crate::text::copy(list[i].name.as_slice()) });
            assert(violations(out@) =~= before.push(violation(api@, rule, section, i as int)));
        }
        i += 1;
    }
}

/// Puts at the end of `out` everything in which the form of a schema is
/// wrong.
fn collect_schema(api: &Api, params: &Vec<Vec<u8>>, section: Section, out: &mut Vec<Violation>)
    requires
        rows(params@) == parameters(api@.metadata.path),
    ensures
        violations(final(out)@) == violations(old(out)@) + schema_violations(api@, section, 9),
{
    let ghost start = violations(out@);
    assert(start + schema_violations(api@, section, 0) =~= start);
    collect(api, params, Rule::InvalidName, section, out);
    assert(violations(out@) =~= start + schema_violations(api@, section, 1));
    collect(api, params, Rule::DuplicateField, section, out);
    assert(violations(out@) =~= start + schema_violations(api@, section, 2));
    collect(api, params, Rule::InvalidHeader, section, out);
    assert(violations(out@) =~= start + schema_violations(api@, section, 3));
    collect(api, params, Rule::DuplicateHeader, section, out);
    assert(violations(out@) =~= start + schema_violations(api@, section, 4));
    collect(api, params, Rule::SecondNewtypeBody, section, out);
    assert(violations(out@) =~= start + schema_violations(api@, section, 5));
    collect(api, params, Rule::BodyBesideNewtypeBody, section, out);
    assert(violations(out@) =~= start + schema_violations(api@, section, 6));
    collect(api, params, Rule::SecondQueryMap, section, out);
    assert(violations(out@) =~= start + schema_violations(api@, section, 7));
    collect(api, params, Rule::QueryBesideQueryMap, section, out);
    assert(violations(out@) =~= start + schema_violations(api@, section, 8));
    collect(api, params, Rule::PathMismatch, section, out);
}

/// The fields of a `GET` request that travel in the body: the members of
/// the body in their order, and after them the fields that are the whole
/// body.
pub fn find_in_body(api: &Api, params: &Vec<Vec<u8>>) -> (r: Vec<Violation>)
    requires
        rows(params@) == parameters(api@.metadata.path),
    ensures
        violations(r@) == in_body(api@),
{
    let mut out: Vec<Violation> = Vec::new();
    collect(api, params, Rule::GetWithBody, Section::Request, &mut out);
    collect(api, params, Rule::GetWithNewtypeBody, Section::Request, &mut out);
    out
}

/// Everything that an endpoint asks for and that cannot travel.
pub fn find_unsupported(api: &Api, params: &Vec<Vec<u8>>) -> (r: Vec<Violation>)
    requires
        rows(params@) == parameters(api@.metadata.path),
    ensures
        violations(r@) == unsupported(api@),
{
    let mut out = find_in_body(api, params);
    collect(api, params, Rule::ResponseLocation, Section::Response, &mut out);
    out
}

/// Everything in which the form of an endpoint is wrong.
pub fn find_syntax_violations(api: &Api, params: &Vec<Vec<u8>>) -> (r: Vec<Violation>)
    requires
        rows(params@) == parameters(api@.metadata.path),
    ensures
        violations(r@) == syntax_violations(api@),
{
    let mut out: Vec<Violation> = Vec::new();
    if !crate::path::template(api.metadata.path.as_slice()) {
        out.push(
            Violation {
                rule: Rule::MalformedPath,
                section: Section::Metadata,
                item: crate::text::copy(api.metadata.path.as_slice()),
            },
        );
    }
    collect_schema(api, params, Section::Request, &mut out);
    collect_schema(api, params, Section::Response, &mut out);
    let bound = crate::schema::count_at(
        &api.request.fields,
        FieldLocation::Path,
        api.request.fields.len(),
    );
    let ghost before = violations(out@);
    let mut k: usize = bound;
    while k < params.len()
        invariant
            bound <= k,
            rows(params@) == parameters(api@.metadata.path),
            k - bound <= unbound_from(rows(params@), bound as int).len(),
            violations(out@) == before + unbound_from(rows(params@), bound as int).take(
                k - bound,
            ),
        decreases params.len() - k,
    {
        let ghost so_far = violations(out@);
        out.push(
            Violation {
                rule: Rule::UnboundPlaceholder,
                section: Section::Request,
                item: crate::text::copy(params[k].as_slice()),
            },
        );
        assert(violations(out@) =~= so_far.push(
            unbound_from(rows(params@), bound as int)[k - bound],
        ));
        k += 1;
    }
    out
}

/// Holds an endpoint to the rules. It comes back unchanged where it keeps
/// them all, which it does exactly when it is in order. Where it does not,
/// the error lists every violation, those of what cannot travel and those
/// of form together.
pub fn validate(api: Api) -> (r: Result<Api, DefinitionError>)
    ensures
        match r {
            Ok(same) => same == api && verdict(api@) is None,
            Err(e) => verdict(api@) == Some(e@),
        },
        r is Ok <==> in_order(api@),
{
    proof {
        lemma_valid_iff_in_order(api@);
    }
    let params = crate::path::template_parameters(api.metadata.path.as_slice());
    let offending = find_unsupported(&api, &params);
    let malformed = find_syntax_violations(&api, &params);
    if offending.len() > 0 {
        return Err(DefinitionError::UnsupportedCombination { offending, malformed });
    }
    if malformed.len() > 0 {
        return Err(DefinitionError::Syntax(malformed));
    }
    Ok(api)
}

} // verus!
