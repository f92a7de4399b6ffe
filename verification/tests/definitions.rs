use ruma_api_macros::api::{resolve_error_type, Api, Definition, ErrorType};
use ruma_api_macros::error::{ClauseError, DefinitionError, Rule, Section, Violation};
use ruma_api_macros::marker::{header_constant, location_of_word, read_marker, to_wire_name};
use ruma_api_macros::metadata::{
    check_value, lookup_value, read_key, read_method, read_scheme, AuthScheme, Key, MetaEntry,
    MetaValue, Metadata,
};
use ruma_api_macros::schema::{
    attributes_under, attributes_without, check_declaration, classify_attributes, optional_type,
    strip_serde_attrs, Attribute, Field, FieldDecl, FieldLocation, Schema,
};
use ruma_api_macros::types::{
    length_after, number_at, plain, plain_at, type_accepted, NESTING_LIMIT,
};
use ruma_api_macros::wire::Method;

fn b(s: &str) -> Vec<u8> {
    s.as_bytes().to_vec()
}

fn text(key: &str, value: &str) -> MetaEntry {
    MetaEntry { key: b(key), value: MetaValue::Text(b(value)) }
}

fn word(key: &str, value: &str) -> MetaEntry {
    MetaEntry { key: b(key), value: MetaValue::Word(b(value)) }
}

fn flag(key: &str, value: bool) -> MetaEntry {
    MetaEntry { key: b(key), value: MetaValue::Flag(value) }
}

fn attr(path: &str, tokens: &str) -> Attribute {
    Attribute { path: b(path), tokens: b(tokens) }
}

fn decl(markers: &[&str], name: &str, ty: &str) -> FieldDecl {
    FieldDecl {
        attrs: markers.iter().map(|m| attr("ruma_api", m)).collect(),
        name: b(name),
        ty: b(ty),
    }
}

fn violation(rule: Rule, section: Section, item: &str) -> Violation {
    Violation { rule, section, item: b(item) }
}

fn full_metadata() -> Vec<MetaEntry> {
    vec![
        text("description", "Does something."),
        word("method", "POST"),
        text("name", "some_endpoint"),
        text("path", "/_matrix/some/endpoint/{baz}"),
        flag("rate_limited", true),
        word("authentication", "AccessToken"),
    ]
}

#[test]
fn metadata_is_read_from_its_entries() {
    assert_eq!(
        Metadata::parse(&full_metadata()),
        Ok(Metadata {
            description: b("Does something."),
            method: Method::Post,
            name: b("some_endpoint"),
            path: b("/_matrix/some/endpoint/{baz}"),
            rate_limited: true,
            authentication: AuthScheme::AccessToken,
        })
    );
}

#[test]
fn metadata_has_defaults_for_what_may_be_missing() {
    let entries = vec![word("method", "GET"), text("name", "n"), text("path", "/p")];
    assert_eq!(
        Metadata::parse(&entries),
        Ok(Metadata {
            description: b(""),
            method: Method::Get,
            name: b("n"),
            path: b("/p"),
            rate_limited: false,
            authentication: AuthScheme::Open,
        })
    );
}

#[test]
fn metadata_without_method_name_and_path_names_all_three() {
    assert_eq!(
        Metadata::parse(&vec![text("description", "d")]),
        Err(vec![
            violation(Rule::MissingKey, Section::Metadata, "method"),
            violation(Rule::MissingKey, Section::Metadata, "name"),
            violation(Rule::MissingKey, Section::Metadata, "path"),
        ])
    );
    assert_eq!(
        Metadata::parse(&Vec::new()),
        Err(vec![
            violation(Rule::MissingKey, Section::Metadata, "method"),
            violation(Rule::MissingKey, Section::Metadata, "name"),
            violation(Rule::MissingKey, Section::Metadata, "path"),
        ])
    );
}

#[test]
fn metadata_lists_every_entry_that_is_wrong() {
    let entries = vec![
        word("method", "FETCH"),
        text("name", ""),
        text("path", "no/slash"),
        text("colour", "blue"),
        word("method", "GET"),
        word("rate_limited", "yes"),
        word("authentication", "Password"),
        flag("description", true),
    ];
    assert_eq!(
        Metadata::parse(&entries),
        Err(vec![
            violation(Rule::InvalidValue, Section::Metadata, "method"),
            violation(Rule::InvalidValue, Section::Metadata, "name"),
            violation(Rule::InvalidValue, Section::Metadata, "path"),
            violation(Rule::UnknownKey, Section::Metadata, "colour"),
            violation(Rule::DuplicateKey, Section::Metadata, "method"),
            violation(Rule::InvalidValue, Section::Metadata, "rate_limited"),
            violation(Rule::InvalidValue, Section::Metadata, "authentication"),
            violation(Rule::InvalidValue, Section::Metadata, "description"),
        ])
    );
}

#[test]
fn metadata_words_are_read() {
    assert_eq!(read_key(b"rate_limited"), Some(Key::RateLimited));
    assert_eq!(read_key(b"Rate_Limited"), None);
    assert_eq!(Key::Authentication.bytes(), b("authentication"));
    assert_eq!(read_method(b"GET"), Some(Method::Get));
    assert_eq!(read_method(b"POST"), Some(Method::Post));
    assert_eq!(read_method(b"PUT"), Some(Method::Put));
    assert_eq!(read_method(b"DELETE"), Some(Method::Delete));
    assert_eq!(read_method(b"HEAD"), Some(Method::Head));
    assert_eq!(read_method(b"OPTIONS"), Some(Method::Options));
    assert_eq!(read_method(b"PATCH"), Some(Method::Patch));
    assert_eq!(read_method(b"CONNECT"), Some(Method::Connect));
    assert_eq!(read_method(b"TRACE"), Some(Method::Trace));
    assert_eq!(read_method(b"get"), None);
    assert_eq!(read_scheme(b"None"), Some(AuthScheme::Open));
    assert_eq!(read_scheme(b"AccessToken"), Some(AuthScheme::AccessToken));
    assert_eq!(read_scheme(b"ServerSignature"), Some(AuthScheme::ServerSignature));
    assert_eq!(read_scheme(b"QueryOnlyAccessToken"), Some(AuthScheme::QueryOnlyAccessToken));
    assert_eq!(read_scheme(b"none"), None);
    assert!(check_value(Key::Path, &MetaValue::Text(b("/a/{b}"))));
    assert!(!check_value(Key::Path, &MetaValue::Word(b("/a"))));
    let entries = full_metadata();
    assert_eq!(lookup_value(&entries, Key::Name), Some(&MetaValue::Text(b("some_endpoint"))));
    assert_eq!(lookup_value(&Vec::new(), Key::Name), None);
}

#[test]
fn markers_name_locations() {
    assert_eq!(read_marker(b"path"), Some((FieldLocation::Path, b(""))));
    assert_eq!(read_marker(b" query "), Some((FieldLocation::Query, b(""))));
    assert_eq!(read_marker(b"query_map"), Some((FieldLocation::QueryMap, b(""))));
    assert_eq!(read_marker(b"body"), Some((FieldLocation::Body, b(""))));
    assert_eq!(read_marker(b"newtype_body"), Some((FieldLocation::NewtypeBody, b(""))));
    assert_eq!(
        read_marker(b"header = CONTENT_TYPE"),
        Some((FieldLocation::Header, b("content-type")))
    );
    assert_eq!(read_marker(b"header=ETAG"), Some((FieldLocation::Header, b("etag"))));
    assert_eq!(location_of_word(b"header"), Some(FieldLocation::Header));
    assert_eq!(location_of_word(b"Header"), None);
}

#[test]
fn markers_that_are_not_recognized() {
    assert_eq!(read_marker(b""), None);
    assert_eq!(read_marker(b"cookie"), None);
    assert_eq!(read_marker(b"header"), None);
    assert_eq!(read_marker(b"header = "), None);
    assert_eq!(read_marker(b"header = content-type"), None);
    assert_eq!(read_marker(b"path = x"), None);
    assert_eq!(read_marker(b"body ="), None);
    assert_eq!(read_marker(b"PATH"), None);
}

#[test]
fn header_names_go_to_lower_case_with_hyphens() {
    assert!(header_constant(b"X_FRAME_OPTIONS"));
    assert!(header_constant(b"TE"));
    assert!(!header_constant(b""));
    assert!(!header_constant(b"Content_Type"));
    assert!(!header_constant(b"CONTENT-TYPE"));
    assert_eq!(to_wire_name(b"X_FRAME_OPTIONS"), b("x-frame-options"));
    assert_eq!(to_wire_name(b"SEC_WEBSOCKET_VERSION13"), b("sec-websocket-version13"));
}

#[test]
fn a_field_without_marker_is_a_member_of_the_body() {
    let attrs = vec![attr("doc", "= \"x\""), attr("serde", "default")];
    assert_eq!(classify_attributes(&attrs, Section::Request), Ok((FieldLocation::Body, b(""))));
    assert_eq!(
        classify_attributes(&Vec::new(), Section::Response),
        Ok((FieldLocation::Body, b("")))
    );
}

#[test]
fn a_field_has_at_most_one_marker_that_it_can_have() {
    let one = vec![attr("doc", "x"), attr("ruma_api", "query")];
    assert_eq!(classify_attributes(&one, Section::Request), Ok((FieldLocation::Query, b(""))));
    let two = vec![attr("ruma_api", "query"), attr("ruma_api", "path")];
    assert_eq!(classify_attributes(&two, Section::Request), Err(Rule::ConflictingMarkers));
    let bad = vec![attr("ruma_api", "query"), attr("ruma_api", "cookie")];
    assert_eq!(classify_attributes(&bad, Section::Request), Err(Rule::UnknownMarker));
    let path = vec![attr("ruma_api", "path")];
    assert_eq!(classify_attributes(&path, Section::Request), Ok((FieldLocation::Path, b(""))));
    assert_eq!(classify_attributes(&path, Section::Response), Err(Rule::UnknownMarker));
}

#[test]
fn attributes_are_selected_by_their_path() {
    let attrs = vec![attr("serde", "a"), attr("doc", "b"), attr("serde", "c"), attr("x", "d")];
    assert_eq!(attributes_without(&attrs, b"serde"), vec![attr("doc", "b"), attr("x", "d")]);
    assert_eq!(attributes_under(&attrs, b"serde"), vec![b("a"), b("c")]);
    assert_eq!(attributes_without(&attrs, b"none"), attrs);
    assert_eq!(attributes_under(&attrs, b"none"), Vec::<Vec<u8>>::new());
}

#[test]
fn optional_types_begin_with_option() {
    assert!(optional_type(b"Option<u32>"));
    assert!(optional_type(b"Option<Option<String>>"));
    assert!(!optional_type(b"Vec<Option<u32>>"));
    assert!(!optional_type(b"Option"));
    assert!(!optional_type(b"u32"));
}

#[test]
fn schema_is_made_of_the_declared_fields() {
    let decls = vec![
        decl(&["path"], "room_id", "&'a RoomId"),
        decl(&["header = CONTENT_TYPE"], "kind", "String"),
        FieldDecl {
            attrs: vec![attr("serde", "default"), attr("ruma_api", "query")],
            name: b("limit"),
            ty: b("Option<u32>"),
        },
        decl(&[], "body", "Foo<'a, 'b, 'a>"),
    ];
    let field = |attrs: Vec<Attribute>,
                 name: &str,
                 ty: &str,
                 location: FieldLocation,
                 header: &str,
                 optional: bool,
                 lifetimes: &[&str]| Field {
        attrs,
        name: b(name),
        ty: b(ty),
        location,
        header: b(header),
        optional,
        lifetimes: lifetimes.iter().map(|l| b(l)).collect(),
    };
    assert_eq!(
        Schema::parse(&decls, Section::Request),
        Ok(Schema {
            fields: vec![
                field(Vec::new(), "room_id", "&'a RoomId", FieldLocation::Path, "", false, &["a"]),
                field(Vec::new(), "kind", "String", FieldLocation::Header, "content-type", false, &[]),
                field(
                    vec![attr("serde", "default")],
                    "limit",
                    "Option<u32>",
                    FieldLocation::Query,
                    "",
                    true,
                    &[]
                ),
                field(
                    Vec::new(),
                    "body",
                    "Foo<'a, 'b, 'a>",
                    FieldLocation::Body,
                    "",
                    false,
                    &["a", "b"]
                ),
            ],
        })
    );
}

#[test]
fn schema_names_every_field_with_a_bad_marker() {
    let decls = vec![
        decl(&["cookie"], "a", "A"),
        decl(&["query"], "b", "B"),
        decl(&["query_map", "query"], "c", "C"),
        decl(&["path"], "d", "D"),
        decl(&["query", "path"], "e", "E"),
    ];
    assert_eq!(
        Schema::parse(&decls, Section::Response),
        Err(vec![
            violation(Rule::UnknownMarker, Section::Response, "a"),
            violation(Rule::ConflictingMarkers, Section::Response, "c"),
            violation(Rule::UnknownMarker, Section::Response, "d"),
            violation(Rule::UnknownMarker, Section::Response, "e"),
        ])
    );
    assert_eq!(
        Schema::parse(&decls, Section::Request),
        Err(vec![
            violation(Rule::UnknownMarker, Section::Request, "a"),
            violation(Rule::ConflictingMarkers, Section::Request, "c"),
            violation(Rule::ConflictingMarkers, Section::Request, "e"),
        ])
    );
}

#[test]
fn schema_names_every_field_with_a_bad_type() {
    let deep = "&".repeat(NESTING_LIMIT + 1) + "u8";
    let decls = vec![
        decl(&[], "a", "Vec<u8"),
        decl(&["query"], "b", "Vec<u8>"),
        decl(&["query"], "c", "not a type"),
        decl(&["cookie"], "d", "also not a type"),
        decl(&[], "e", &deep),
    ];
    assert_eq!(
        Schema::parse(&decls, Section::Request),
        Err(vec![
            violation(Rule::InvalidType, Section::Request, "a"),
            violation(Rule::InvalidType, Section::Request, "c"),
            violation(Rule::UnknownMarker, Section::Request, "d"),
            violation(Rule::InvalidType, Section::Request, "e"),
        ])
    );
}

#[test]
fn types_are_held_to_their_syntax() {
    for good in [
        "u8",
        "&'a str",
        "Vec<(u8, String)>",
        "fn(u8) -> u8",
        "[u8]",
        "[u8; 32]",
        "[[u8 ;N] ; 4 ]",
        "Matrix<3, 4>",
        "crate::a::B",
        "Option < & 'a mut [T] >",
        "Box<dyn Iterator<Item = u8> + 'a>",
        "*const u8",
        "!",
        "_",
    ] {
        assert!(type_accepted(good.as_bytes()), "{}", good);
    }
    for bad in [
        "", "Vec<", "a b", "u8,", "struct", "u8)", "'a", "<>", "&", "Vec<u8>>", "a::", "12",
        "[; 4]", "[u8; fn]",
    ] {
        assert!(plain(bad.as_bytes()), "{}", bad);
        assert!(!type_accepted(bad.as_bytes()), "{}", bad);
    }
}

#[test]
fn types_are_plain_texts() {
    for bad in [
        "[u8; 2 + 2]",
        "[u8; -1]",
        "[u8; ]",
        "[u8; 4",
        "u8;",
        "[u8; return 4]",
        "Foo<0x10>",
        "Foo<1u8>",
        "Foo<1e3>",
        "Foo<'a'>",
        "Foo<' a>",
        "Foo<'1>",
        "Foo<\"x\">",
        "Foo<{ N }>",
        "m!{}",
        "a.b",
        "u8 // no",
        "\0",
        "\u{e9}",
        "a'b",
        "x'",
    ] {
        assert!(!plain(bad.as_bytes()), "{}", bad);
        assert!(!type_accepted(bad.as_bytes()), "{}", bad);
    }
    assert!(!plain(&[0xff, 0xfe]));
    assert!(plain(b""));
    assert!(plain(b"A1_b 'a 'static 12 007"));
    assert!(plain_at(b"a1", 1));
    assert!(plain_at(b" 1", 1));
    assert!(!plain_at(b" 1a", 1));
    assert!(plain_at(b"[u8; N ]", 3));
    assert!(!plain_at(b"[u8; N M]", 3));
    assert!(number_at(b"12]", 0));
    assert!(!number_at(b"12a]", 0));
    assert!(length_after(b"; 4]", 0));
    assert!(!length_after(b"; ]", 0));
}

#[test]
fn types_of_any_length_are_taken() {
    let path = format!("a{}", "::a".repeat(400));
    assert!(type_accepted(path.as_bytes()));
    let tuple = format!("({})", "u8, ".repeat(400));
    assert!(type_accepted(tuple.as_bytes()));
    let flat = format!("({})", "Vec<&u8>, ".repeat(NESTING_LIMIT - 2));
    assert!(type_accepted(flat.as_bytes()));
    assert!(ErrorType::parse(format!("error: {}", path).as_bytes()).is_ok());
}

#[test]
fn types_are_nested_to_a_greatest_depth() {
    let wrap = |open: &str, close: &str, n: usize| {
        format!("{}u8{}", open.repeat(n), close.repeat(n))
    };
    for (open, close) in [
        ("[", "]"),
        ("(", ",)"),
        ("V<", ">"),
        ("fn(", ")"),
        ("&", ""),
        ("*const ", ""),
        ("&'a mut ", ""),
        ("Box<dyn Fn(", ")>"),
        ("[", "; 4]"),
        ("<", " as T>::X"),
        ("impl Fn(", ")"),
    ] {
        let levels = if open.matches(|c| c == '(' || c == '<').count() == 2 {
            NESTING_LIMIT / 2
        } else {
            NESTING_LIMIT
        };
        let at_limit = wrap(open, close, levels);
        assert!(plain(at_limit.as_bytes()), "{}", at_limit);
        assert!(type_accepted(at_limit.as_bytes()), "{}", at_limit);
        let beyond = wrap(open, close, levels + 1);
        assert!(!plain(beyond.as_bytes()), "{}", beyond);
        assert!(!type_accepted(beyond.as_bytes()), "{}", beyond);
    }
    let mixed = format!("{}u8{}", "Vec<&*const (".repeat(8), ",)>".repeat(8));
    assert!(type_accepted(mixed.as_bytes()));
    let returns = wrap("fn() -> (", ")", NESTING_LIMIT / 2);
    assert!(type_accepted(returns.as_bytes()));
    assert!(!plain(wrap("fn() -> (", ")", NESTING_LIMIT / 2 + 1).as_bytes()));
    assert!(plain("(".repeat(NESTING_LIMIT).as_bytes()));
    assert!(!type_accepted("(".repeat(NESTING_LIMIT).as_bytes()));
    assert!(!plain("(".repeat(NESTING_LIMIT + 1).as_bytes()));
    for flat in [">", "- >", "!", "dyn ", "fn ", "a::", "'a+", "?", "=", "for ", "impl ", "unsafe ", ")"] {
        let text = flat.repeat(2000);
        assert!(plain(text.as_bytes()), "{}", flat);
        assert!(!type_accepted(text.as_bytes()), "{}", flat);
    }
}

#[test]
fn return_arrows_are_counted_like_references() {
    let chain = |link: &str, n: usize| format!("{}u8", link.repeat(n));
    for link in ["fn()->", "Fn()->", "fn() -> ", "unsafe fn()->", "dyn Fn()->", "impl Fn()->"] {
        let at_limit = chain(link, NESTING_LIMIT - 1);
        assert!(plain(at_limit.as_bytes()), "{}", at_limit);
        assert!(type_accepted(at_limit.as_bytes()), "{}", at_limit);
        let beyond = chain(link, NESTING_LIMIT);
        assert!(!plain(beyond.as_bytes()), "{}", beyond);
        assert!(!type_accepted(beyond.as_bytes()), "{}", beyond);
        let long = chain(link, 5000);
        assert!(!plain(long.as_bytes()));
        assert!(!type_accepted(long.as_bytes()));
    }
    assert!(!plain("->".repeat(NESTING_LIMIT + 1).as_bytes()));
    assert!(plain("->".repeat(NESTING_LIMIT).as_bytes()));
    assert!(!type_accepted("->".repeat(NESTING_LIMIT).as_bytes()));
    let mixed = format!("{}u8", "&fn()->*const ".repeat(NESTING_LIMIT / 3));
    assert!(type_accepted(mixed.as_bytes()));
    assert!(!plain(format!("{}u8", "&fn()->*const ".repeat(NESTING_LIMIT / 3 + 1)).as_bytes()));
    let field = decl(&[], "f", &chain("fn()->", 5000));
    assert_eq!(
        Schema::parse(&vec![field], Section::Request),
        Err(vec![violation(Rule::InvalidType, Section::Request, "f")])
    );
}

#[test]
fn error_clause_is_read_as_a_whole() {
    assert_eq!(ErrorType::parse(b"error: X"), Ok(ErrorType { ty: b("X") }));
    assert_eq!(ErrorType::parse(b"error: X Y"), Err(ClauseError::Type));
    assert_eq!(ErrorType::parse(b"error: X, Y"), Err(ClauseError::Type));
    assert_eq!(ErrorType::parse(b"error: X error: Y"), Err(ClauseError::Type));
    assert_eq!(ErrorType::parse(b"error: X;"), Err(ClauseError::Type));
    assert_eq!(ErrorType::from_clause(b"error: X Y", true), Ok(ErrorType { ty: b("X Y") }));
}

#[test]
fn a_declaration_is_checked_given_what_is_known_of_its_type() {
    let query = vec![attr("ruma_api", "query")];
    assert_eq!(
        check_declaration(&query, Section::Request, true),
        (None, FieldLocation::Query, b(""))
    );
    assert_eq!(
        check_declaration(&query, Section::Request, false),
        (Some(Rule::InvalidType), FieldLocation::Query, b(""))
    );
    let bad = vec![attr("ruma_api", "cookie")];
    assert_eq!(
        check_declaration(&bad, Section::Request, false),
        (Some(Rule::UnknownMarker), FieldLocation::Body, b(""))
    );
}

#[test]
fn strip_serde_attrs_keeps_the_rest_in_order() {
    let field = Field {
        attrs: vec![
            attr("doc", "= \"The room.\""),
            attr("serde", "rename = \"room\""),
            attr("cfg", "feature = \"x\""),
            attr("serde", "default"),
        ],
        name: b("room_id"),
        ty: b("&'a RoomId"),
        location: FieldLocation::Header,
        header: b("x-room"),
        optional: true,
        lifetimes: vec![b("a")],
    };
    let stripped = strip_serde_attrs(&field);
    assert_eq!(
        stripped,
        Field {
            attrs: vec![attr("doc", "= \"The room.\""), attr("cfg", "feature = \"x\"")],
            ..field.clone()
        }
    );
    assert_eq!(strip_serde_attrs(&stripped), stripped);
}

#[test]
fn error_clause_names_a_type() {
    assert_eq!(ErrorType::parse(b"error: crate::Error"), Ok(ErrorType { ty: b("crate::Error") }));
    assert_eq!(
        ErrorType::parse(b"  error :  Vec<(u8, &'static str)>  "),
        Ok(ErrorType { ty: b("Vec<(u8, &'static str)>") })
    );
}

#[test]
fn error_clause_says_what_it_lacks() {
    assert_eq!(ErrorType::parse(b""), Err(ClauseError::Keyword));
    assert_eq!(ErrorType::parse(b"err: X"), Err(ClauseError::Keyword));
    assert_eq!(ErrorType::parse(b"Error: X"), Err(ClauseError::Keyword));
    assert_eq!(ErrorType::parse(b"error"), Err(ClauseError::Colon));
    assert_eq!(ErrorType::parse(b" error "), Err(ClauseError::Colon));
    assert_eq!(ErrorType::parse(b"error:"), Err(ClauseError::Type));
    assert_eq!(ErrorType::parse(b"error: Vec<"), Err(ClauseError::Type));
    assert_eq!(ErrorType::parse(b"error: a b"), Err(ClauseError::Type));
    assert_eq!(ErrorType::parse(b"error: 12"), Err(ClauseError::Type));
    assert_eq!(ErrorType::parse(b"error: \xff\xfe"), Err(ClauseError::Type));
}

#[test]
fn error_clause_type_is_a_plain_text() {
    assert_eq!(
        ErrorType::parse(b"error: [u8; 4]"),
        Ok(ErrorType { ty: b("[u8; 4]") })
    );
    assert_eq!(ErrorType::parse(b"error: [u8; 2 + 2]"), Err(ClauseError::Type));
    let deep = format!("error: {}u8", "&".repeat(NESTING_LIMIT + 1));
    assert_eq!(ErrorType::parse(deep.as_bytes()), Err(ClauseError::Type));
}

#[test]
fn error_clause_is_read_given_the_syntax_of_its_type() {
    assert_eq!(ErrorType::from_clause(b"error: X", true), Ok(ErrorType { ty: b("X") }));
    assert_eq!(ErrorType::from_clause(b"error: X", false), Err(ClauseError::Type));
    assert_eq!(ErrorType::from_clause(b"oops: X", true), Err(ClauseError::Keyword));
    assert_eq!(ErrorType::from_clause(b"error X", true), Err(ClauseError::Keyword));
    assert_eq!(ErrorType::from_clause(b"error", true), Err(ClauseError::Colon));
}

#[test]
fn error_type_defaults_to_void() {
    assert_eq!(resolve_error_type(b"error: MyError"), b("MyError"));
    assert_eq!(resolve_error_type(b""), b("Void"));
    assert_eq!(resolve_error_type(b"error: ("), b("Void"));
    assert_eq!(resolve_error_type(b"fault: MyError"), b("Void"));
}

fn sample_definition() -> Definition {
    Definition {
        metadata: full_metadata(),
        request: vec![
            decl(&[], "foo", "String"),
            decl(&["header = CONTENT_TYPE"], "content_type", "String"),
            decl(&["query"], "bar", "String"),
            decl(&["path"], "baz", "String"),
        ],
        response: vec![
            decl(&["header = CONTENT_TYPE"], "other", "String"),
            decl(&[], "value", "Option<String>"),
        ],
        error: b("error: crate::Error"),
    }
}

#[test]
fn definition_is_assembled() {
    let api = Api::parse(&sample_definition()).unwrap();
    assert_eq!(api.metadata.name, b("some_endpoint"));
    assert_eq!(api.metadata.method, Method::Post);
    assert_eq!(api.error_ty, b("crate::Error"));
    let locations: Vec<FieldLocation> = api.request.fields.iter().map(|f| f.location).collect();
    assert_eq!(
        locations,
        vec![
            FieldLocation::Body,
            FieldLocation::Header,
            FieldLocation::Query,
            FieldLocation::Path
        ]
    );
    assert_eq!(api.request.fields[1].header, b("content-type"));
    assert_eq!(api.response.fields.len(), 2);
    assert!(api.response.fields[1].optional);
    assert!(!api.response.fields[0].optional);
}

#[test]
fn definition_without_error_clause_has_the_void_error_type() {
    let mut definition = sample_definition();
    definition.error = Vec::new();
    assert_eq!(Api::parse(&definition).unwrap().error_ty, b("Void"));
}

#[test]
fn get_with_body_fields_names_every_field() {
    let mut definition = sample_definition();
    definition.metadata[1] = word("method", "GET");
    definition.request.push(decl(&["newtype_body"], "all", "Vec<u8>"));
    definition.request.push(decl(&["body"], "more", "u8"));
    assert_eq!(
        Api::parse(&definition),
        Err(DefinitionError::UnsupportedCombination {
            offending: vec![
                violation(Rule::GetWithBody, Section::Request, "foo"),
                violation(Rule::GetWithBody, Section::Request, "more"),
                violation(Rule::GetWithNewtypeBody, Section::Request, "all"),
            ],
            malformed: Vec::new(),
        })
    );
}

#[test]
fn get_without_body_fields_is_assembled() {
    let mut definition = sample_definition();
    definition.metadata[1] = word("method", "GET");
    definition.request.remove(0);
    assert!(Api::parse(&definition).is_ok());
}

#[test]
fn definition_lists_what_is_wrong_with_all_its_parts() {
    let mut definition = sample_definition();
    definition.metadata[1] = word("method", "GET");
    definition.metadata.remove(2);
    definition.request.push(decl(&["cookie"], "c", "C"));
    definition.response.push(decl(&["path"], "p", "P"));
    definition.response.push(decl(&["query", "query"], "q", "Q"));
    assert_eq!(
        Api::parse(&definition),
        Err(DefinitionError::Syntax(vec![
            violation(Rule::MissingKey, Section::Metadata, "name"),
            violation(Rule::UnknownMarker, Section::Request, "c"),
            violation(Rule::UnknownMarker, Section::Response, "p"),
            violation(Rule::ConflictingMarkers, Section::Response, "q"),
        ]))
    );
}
