use ruma_api_macros::api::Api;
use ruma_api_macros::error::{DefinitionError, Rule, Section, Violation};
use ruma_api_macros::expand::expand_all;
use ruma_api_macros::metadata::{AuthScheme, Metadata};
use ruma_api_macros::schema::{count_at, header_name, Field, FieldLocation, Schema};
use ruma_api_macros::validate::{
    breaks, collect, find_in_body, find_syntax_violations, find_unsupported, validate,
};
use ruma_api_macros::wire::Method;

fn b(s: &str) -> Vec<u8> {
    s.as_bytes().to_vec()
}

fn field(name: &str, location: FieldLocation, header: &str) -> Field {
    Field {
        attrs: Vec::new(),
        name: b(name),
        ty: b("String"),
        location,
        header: b(header),
        optional: false,
        lifetimes: Vec::new(),
    }
}

fn api(method: Method, path: &str, request: Vec<Field>, response: Vec<Field>) -> Api {
    Api {
        metadata: Metadata {
            description: b("d"),
            method,
            name: b("n"),
            path: b(path),
            rate_limited: false,
            authentication: AuthScheme::Open,
        },
        request: Schema { fields: request },
        response: Schema { fields: response },
        error_ty: b("Void"),
    }
}

fn violation(rule: Rule, section: Section, item: &str) -> Violation {
    Violation { rule, section, item: b(item) }
}

fn syntax(list: Vec<Violation>) -> Result<Api, DefinitionError> {
    Err(DefinitionError::Syntax(list))
}

use FieldLocation::{Body, Header, NewtypeBody, Path, Query, QueryMap};

#[test]
fn an_endpoint_in_order_comes_back_unchanged() {
    let good = api(
        Method::Post,
        "/a/{x}/b/{y}",
        vec![
            field("x", Path, ""),
            field("q", Query, ""),
            field("y", Path, ""),
            field("h", Header, "x-h"),
            field("m", Body, ""),
        ],
        vec![field("h", Header, "x-h"), field("all", NewtypeBody, "")],
    );
    assert_eq!(validate(good.clone()), Ok(good));
    let empty = api(Method::Get, "/", Vec::new(), Vec::new());
    assert_eq!(validate(empty.clone()), Ok(empty));
}

#[test]
fn get_with_body_names_every_field_in_the_body() {
    let bad = api(
        Method::Get,
        "/a",
        vec![field("one", Body, ""), field("q", Query, ""), field("two", Body, "")],
        Vec::new(),
    );
    assert_eq!(
        validate(bad),
        Err(DefinitionError::UnsupportedCombination {
            offending: vec![
                violation(Rule::GetWithBody, Section::Request, "one"),
                violation(Rule::GetWithBody, Section::Request, "two"),
            ],
            malformed: Vec::new(),
        })
    );
    let whole = api(Method::Get, "/a", vec![field("all", NewtypeBody, "")], Vec::new());
    assert_eq!(
        validate(whole),
        Err(DefinitionError::UnsupportedCombination {
            offending: vec![violation(Rule::GetWithNewtypeBody, Section::Request, "all")],
            malformed: Vec::new(),
        })
    );
}

#[test]
fn get_with_body_names_the_members_before_the_whole_body() {
    let bad = api(
        Method::Get,
        "/a",
        vec![
            field("first", NewtypeBody, ""),
            field("one", Body, ""),
            field("second", NewtypeBody, ""),
            field("two", Body, ""),
        ],
        Vec::new(),
    );
    let params: Vec<Vec<u8>> = Vec::new();
    let expected = vec![
        violation(Rule::GetWithBody, Section::Request, "one"),
        violation(Rule::GetWithBody, Section::Request, "two"),
        violation(Rule::GetWithNewtypeBody, Section::Request, "first"),
        violation(Rule::GetWithNewtypeBody, Section::Request, "second"),
    ];
    assert_eq!(find_in_body(&bad, &params), expected);
    assert_eq!(find_unsupported(&bad, &params), expected);
    assert_eq!(
        validate(bad),
        Err(DefinitionError::UnsupportedCombination {
            offending: expected,
            malformed: vec![
                violation(Rule::SecondNewtypeBody, Section::Request, "second"),
                violation(Rule::BodyBesideNewtypeBody, Section::Request, "one"),
                violation(Rule::BodyBesideNewtypeBody, Section::Request, "two"),
            ],
        })
    );
}

#[test]
fn get_with_body_in_the_response_is_in_order() {
    let good = api(Method::Get, "/a", Vec::new(), vec![field("one", Body, "")]);
    assert!(validate(good).is_ok());
}

#[test]
fn what_cannot_travel_and_what_is_malformed_are_reported_together() {
    let bad = api(
        Method::Get,
        "no-slash",
        vec![field("one", Body, ""), field("one", Body, "")],
        vec![field("p", Path, ""), field("q", Query, ""), field("m", QueryMap, "")],
    );
    assert_eq!(
        validate(bad),
        Err(DefinitionError::UnsupportedCombination {
            offending: vec![
                violation(Rule::GetWithBody, Section::Request, "one"),
                violation(Rule::GetWithBody, Section::Request, "one"),
                violation(Rule::ResponseLocation, Section::Response, "p"),
                violation(Rule::ResponseLocation, Section::Response, "q"),
                violation(Rule::ResponseLocation, Section::Response, "m"),
            ],
            malformed: vec![
                violation(Rule::MalformedPath, Section::Metadata, "no-slash"),
                violation(Rule::DuplicateField, Section::Request, "one"),
                violation(Rule::QueryBesideQueryMap, Section::Response, "q"),
            ],
        })
    );
}

#[test]
fn a_malformed_path_is_named() {
    assert_eq!(
        validate(api(Method::Put, "a/b", Vec::new(), Vec::new())),
        syntax(vec![violation(Rule::MalformedPath, Section::Metadata, "a/b")])
    );
    assert_eq!(
        validate(api(Method::Put, "", Vec::new(), Vec::new())),
        syntax(vec![violation(Rule::MalformedPath, Section::Metadata, "")])
    );
}

#[test]
fn names_are_identifiers_and_differ() {
    let bad = api(
        Method::Put,
        "/",
        vec![field("a-b", Body, ""), field("x", Body, ""), field("x", Query, ""), field("", Body, "")],
        vec![field("x", Body, ""), field("y", Body, ""), field("x", Body, ""), field("x", Body, "")],
    );
    assert_eq!(
        validate(bad),
        syntax(vec![
            violation(Rule::InvalidName, Section::Request, "a-b"),
            violation(Rule::InvalidName, Section::Request, ""),
            violation(Rule::DuplicateField, Section::Request, "x"),
            violation(Rule::DuplicateField, Section::Response, "x"),
            violation(Rule::DuplicateField, Section::Response, "x"),
        ])
    );
}

#[test]
fn headers_are_header_names_and_differ() {
    let bad = api(
        Method::Put,
        "/",
        vec![
            field("a", Header, "x-a"),
            field("b", Header, "X-B"),
            field("c", Header, ""),
            field("d", Header, "x-a"),
            field("e", Body, "x-a"),
        ],
        vec![field("a", Header, "x-a"), field("b", Header, "x-a")],
    );
    assert_eq!(
        validate(bad),
        syntax(vec![
            violation(Rule::InvalidHeader, Section::Request, "b"),
            violation(Rule::InvalidHeader, Section::Request, "c"),
            violation(Rule::DuplicateHeader, Section::Request, "d"),
            violation(Rule::DuplicateHeader, Section::Response, "b"),
        ])
    );
    assert!(header_name(b"content-type"));
    assert!(header_name(b"x-9"));
    assert!(!header_name(b"Content-Type"));
    assert!(!header_name(b"x_a"));
    assert!(!header_name(b""));
}

#[test]
fn one_field_at_most_is_the_whole_body() {
    let bad = api(
        Method::Put,
        "/",
        vec![
            field("m", Body, ""),
            field("a", NewtypeBody, ""),
            field("n", Body, ""),
            field("b", NewtypeBody, ""),
            field("c", NewtypeBody, ""),
        ],
        vec![field("a", NewtypeBody, ""), field("m", Body, "")],
    );
    assert_eq!(
        validate(bad),
        syntax(vec![
            violation(Rule::SecondNewtypeBody, Section::Request, "b"),
            violation(Rule::SecondNewtypeBody, Section::Request, "c"),
            violation(Rule::BodyBesideNewtypeBody, Section::Request, "m"),
            violation(Rule::BodyBesideNewtypeBody, Section::Request, "n"),
            violation(Rule::BodyBesideNewtypeBody, Section::Response, "m"),
        ])
    );
}

#[test]
fn one_field_at_most_is_the_whole_query_string() {
    let bad = api(
        Method::Put,
        "/",
        vec![
            field("q", Query, ""),
            field("a", QueryMap, ""),
            field("b", QueryMap, ""),
            field("r", Query, ""),
        ],
        Vec::new(),
    );
    assert_eq!(
        validate(bad),
        syntax(vec![
            violation(Rule::SecondQueryMap, Section::Request, "b"),
            violation(Rule::QueryBesideQueryMap, Section::Request, "q"),
            violation(Rule::QueryBesideQueryMap, Section::Request, "r"),
        ])
    );
}

#[test]
fn path_fields_follow_the_placeholders() {
    let swapped = api(
        Method::Put,
        "/{a}/{b}",
        vec![field("b", Path, ""), field("x", Body, ""), field("a", Path, "")],
        Vec::new(),
    );
    assert_eq!(
        validate(swapped),
        syntax(vec![
            violation(Rule::PathMismatch, Section::Request, "b"),
            violation(Rule::PathMismatch, Section::Request, "a"),
        ])
    );
    let too_many = api(
        Method::Put,
        "/{a}",
        vec![field("a", Path, ""), field("b", Path, "")],
        Vec::new(),
    );
    assert_eq!(
        validate(too_many),
        syntax(vec![violation(Rule::PathMismatch, Section::Request, "b")])
    );
}

#[test]
fn every_placeholder_has_a_path_field() {
    let bad = api(Method::Put, "/{a}/x/{b}/{c}", vec![field("a", Path, "")], Vec::new());
    assert_eq!(
        validate(bad),
        syntax(vec![
            violation(Rule::UnboundPlaceholder, Section::Request, "b"),
            violation(Rule::UnboundPlaceholder, Section::Request, "c"),
        ])
    );
}

#[test]
fn violations_of_form_are_listed_part_by_part() {
    let bad = api(
        Method::Put,
        "/{a}/{b",
        vec![field("1", Path, ""), field("h", Header, "H")],
        vec![field("x", Body, ""), field("x", Body, "")],
    );
    assert_eq!(
        validate(bad),
        syntax(vec![
            violation(Rule::MalformedPath, Section::Metadata, "/{a}/{b"),
            violation(Rule::InvalidName, Section::Request, "1"),
            violation(Rule::InvalidHeader, Section::Request, "h"),
            violation(Rule::PathMismatch, Section::Request, "1"),
            violation(Rule::DuplicateField, Section::Response, "x"),
        ])
    );
}

#[test]
fn the_parts_of_the_validator_agree_with_it() {
    let bad = api(
        Method::Get,
        "/{a}",
        vec![field("m", Body, ""), field("m", Query, "")],
        vec![field("q", Query, "")],
    );
    let params = vec![b("a")];
    assert_eq!(
        find_unsupported(&bad, &params),
        vec![
            violation(Rule::GetWithBody, Section::Request, "m"),
            violation(Rule::ResponseLocation, Section::Response, "q"),
        ]
    );
    assert_eq!(
        find_syntax_violations(&bad, &params),
        vec![
            violation(Rule::DuplicateField, Section::Request, "m"),
            violation(Rule::UnboundPlaceholder, Section::Request, "a"),
        ]
    );
    assert!(breaks(&bad, &params, Rule::GetWithBody, Section::Request, 0));
    assert!(!breaks(&bad, &params, Rule::GetWithBody, Section::Request, 1));
    assert!(breaks(&bad, &params, Rule::DuplicateField, Section::Request, 1));
    assert!(!breaks(&bad, &params, Rule::UnknownKey, Section::Request, 1));
    let mut out = vec![violation(Rule::MissingKey, Section::Metadata, "kept")];
    collect(&bad, &params, Rule::ResponseLocation, Section::Response, &mut out);
    assert_eq!(
        out,
        vec![
            violation(Rule::MissingKey, Section::Metadata, "kept"),
            violation(Rule::ResponseLocation, Section::Response, "q"),
        ]
    );
    assert_eq!(count_at(&bad.request.fields, Body, 2), 1);
    assert_eq!(count_at(&bad.request.fields, Body, 0), 0);
    assert_eq!(count_at(&bad.request.fields, Path, 2), 0);
}

#[test]
fn nothing_is_generated_for_an_endpoint_out_of_order() {
    let bad = api(Method::Get, "/", vec![field("m", Body, "")], Vec::new());
    match expand_all(bad) {
        Err(DefinitionError::UnsupportedCombination { offending, malformed }) => {
            assert_eq!(offending, vec![violation(Rule::GetWithBody, Section::Request, "m")]);
            assert_eq!(malformed, Vec::new());
        }
        _ => panic!("an endpoint was generated"),
    }
    let bad = api(Method::Put, "/{a}", Vec::new(), Vec::new());
    match expand_all(bad) {
        Err(DefinitionError::Syntax(list)) => {
            assert_eq!(list, vec![violation(Rule::UnboundPlaceholder, Section::Request, "a")]);
        }
        _ => panic!("an endpoint was generated"),
    }
}
