use ruma_api_macros::api::{Api, Definition};
use ruma_api_macros::error::{Expected, SyntaxError};
use ruma_api_macros::grammar::{
    read_attribute, read_attributes, read_byte, read_clause, read_entries, read_entry, read_field,
    read_field_name, read_fields, read_keyword, read_name, read_section, read_value,
    split_attribute, value_of_word,
};
use ruma_api_macros::metadata::{MetaEntry, MetaValue};
use ruma_api_macros::schema::{Attribute, FieldDecl, FieldLocation};
use ruma_api_macros::syntax::{
    blanks_end, find_attribute_end, find_type_end, find_word_end, read_escape, read_string,
};

fn b(s: &str) -> Vec<u8> {
    s.as_bytes().to_vec()
}

fn attr(path: &str, tokens: &str) -> Attribute {
    Attribute { path: b(path), tokens: b(tokens) }
}

fn lacks(at: usize, expected: Expected) -> SyntaxError {
    SyntaxError { at, expected }
}

const SAMPLE: &str = r#"
metadata: {
    description: "Does \"something\".",
    method: POST,
    name: "some_endpoint",
    path: "/_matrix/some/endpoint/{baz}",
    rate_limited: false,
    authentication: None,
}

request: {
    pub foo: String,

    #[ruma_api(header = CONTENT_TYPE)]
    pub content_type: String,

    #[doc = "A, {tricky] one"]
    #[serde(default)]
    #[ruma_api(query)]
    pub bar: Option<BTreeMap<String, Vec<(u8, u8)>>>,

    #[ruma_api(path)]
    baz: &'a str
}

response: {
    # [ruma_api (header = CONTENT_TYPE)]
    pub other : String ,
    pub value : fn(u8, u8) -> Vec<u8> ,
}

error: crate::Error
"#;

#[test]
fn a_definition_is_read_from_its_text() {
    let definition = Definition::parse(SAMPLE.as_bytes()).unwrap();
    assert_eq!(
        definition.metadata,
        vec![
            MetaEntry { key: b("description"), value: MetaValue::Text(b("Does \"something\".")) },
            MetaEntry { key: b("method"), value: MetaValue::Word(b("POST")) },
            MetaEntry { key: b("name"), value: MetaValue::Text(b("some_endpoint")) },
            MetaEntry {
                key: b("path"),
                value: MetaValue::Text(b("/_matrix/some/endpoint/{baz}")),
            },
            MetaEntry { key: b("rate_limited"), value: MetaValue::Flag(false) },
            MetaEntry { key: b("authentication"), value: MetaValue::Word(b("None")) },
        ]
    );
    assert_eq!(
        definition.request,
        vec![
            FieldDecl { attrs: Vec::new(), name: b("foo"), ty: b("String") },
            FieldDecl {
                attrs: vec![attr("ruma_api", "header = CONTENT_TYPE")],
                name: b("content_type"),
                ty: b("String"),
            },
            FieldDecl {
                attrs: vec![
                    attr("doc", "= \"A, {tricky] one\""),
                    attr("serde", "default"),
                    attr("ruma_api", "query"),
                ],
                name: b("bar"),
                ty: b("Option<BTreeMap<String, Vec<(u8, u8)>>>"),
            },
            FieldDecl { attrs: vec![attr("ruma_api", "path")], name: b("baz"), ty: b("&'a str") },
        ]
    );
    assert_eq!(
        definition.response,
        vec![
            FieldDecl {
                attrs: vec![attr("ruma_api", "header = CONTENT_TYPE")],
                name: b("other"),
                ty: b("String"),
            },
            FieldDecl { attrs: Vec::new(), name: b("value"), ty: b("fn(u8, u8) -> Vec<u8>") },
        ]
    );
    assert_eq!(definition.error, b("error: crate::Error"));
}

#[test]
fn a_definition_read_from_text_is_assembled() {
    let definition = Definition::parse(SAMPLE.as_bytes()).unwrap();
    let api = Api::parse(&definition).unwrap();
    assert_eq!(api.metadata.description, b("Does \"something\"."));
    assert_eq!(api.error_ty, b("crate::Error"));
    let locations: Vec<FieldLocation> = api.request.fields.iter().map(|f| f.location).collect();
    assert_eq!(
        locations,
        vec![
            FieldLocation::Body,
            FieldLocation::Header,
            FieldLocation::Query,
            FieldLocation::Path
        ]
    );
    assert!(api.request.fields[2].optional);
    assert_eq!(api.request.fields[2].attrs, vec![
        attr("doc", "= \"A, {tricky] one\""),
        attr("serde", "default"),
    ]);
    assert_eq!(api.request.fields[3].lifetimes, vec![b("a")]);
}

#[test]
fn the_smallest_definition() {
    let definition = Definition::parse(b"metadata:{}request:{}response:{}").unwrap();
    assert_eq!(
        definition,
        Definition {
            metadata: Vec::new(),
            request: Vec::new(),
            response: Vec::new(),
            error: Vec::new(),
        }
    );
    let spaced = Definition::parse(b" metadata : { } request : { } response : { } \n").unwrap();
    assert_eq!(spaced, definition);
}

#[test]
fn the_sections_come_in_their_order() {
    assert_eq!(Definition::parse(b""), Err(lacks(0, Expected::Keyword)));
    assert_eq!(Definition::parse(b"  request: {}"), Err(lacks(2, Expected::Keyword)));
    assert_eq!(Definition::parse(b"metadata {}"), Err(lacks(9, Expected::Colon)));
    assert_eq!(Definition::parse(b"metadata: []"), Err(lacks(10, Expected::OpenBrace)));
    assert_eq!(Definition::parse(b"metadata: {} response: {}"), Err(lacks(13, Expected::Keyword)));
    assert_eq!(
        Definition::parse(b"metadata: {} request: {} error: X"),
        Err(lacks(25, Expected::Keyword))
    );
    assert_eq!(Definition::parse(b"metadata: {} request: {"), Err(lacks(23, Expected::Name)));
    assert_eq!(Definition::parse(b"metadata: {} 7"), Err(lacks(13, Expected::Keyword)));
}

#[test]
fn entries_have_a_key_a_colon_and_a_value() {
    assert_eq!(
        read_entry(b" name : \"x\" ,", 0),
        Ok((MetaEntry { key: b("name"), value: MetaValue::Text(b("x")) }, 11))
    );
    assert_eq!(read_entry(b": x", 0), Err(lacks(0, Expected::Name)));
    assert_eq!(read_entry(b"a x", 0), Err(lacks(2, Expected::Colon)));
    assert_eq!(read_entry(b"a: ,", 0), Err(lacks(3, Expected::Value)));
    assert_eq!(read_entry(b"a: \"x", 0), Err(lacks(3, Expected::StringEnd)));
    assert_eq!(read_entry(b"a: \"\\q\"", 0), Err(lacks(3, Expected::StringEnd)));
    assert_eq!(
        read_entries(b"a: x, b: true }", 0),
        Ok((
            vec![
                MetaEntry { key: b("a"), value: MetaValue::Word(b("x")) },
                MetaEntry { key: b("b"), value: MetaValue::Flag(true) },
            ],
            15
        ))
    );
    assert_eq!(read_entries(b"a: x b: y }", 0), Err(lacks(5, Expected::Separator)));
    assert_eq!(read_entries(b"a: x,, }", 0), Err(lacks(5, Expected::Name)));
    assert_eq!(read_entries(b"a: x", 0), Err(lacks(4, Expected::Separator)));
    assert_eq!(read_entries(b" }", 0), Ok((Vec::new(), 2)));
}

#[test]
fn values_are_strings_words_and_flags() {
    assert_eq!(read_value(b" \"a b\" ", 0), Ok((MetaValue::Text(b("a b")), 6)));
    assert_eq!(read_value(b"\"\"", 0), Ok((MetaValue::Text(b("")), 2)));
    assert_eq!(read_value(b"GET,", 0), Ok((MetaValue::Word(b("GET")), 3)));
    assert_eq!(read_value(b"true", 0), Ok((MetaValue::Flag(true), 4)));
    assert_eq!(read_value(b"false", 0), Ok((MetaValue::Flag(false), 5)));
    assert_eq!(read_value(b"truth", 0), Ok((MetaValue::Word(b("truth")), 5)));
    assert_eq!(read_value(b"12", 0), Err(lacks(0, Expected::Value)));
    assert_eq!(value_of_word(b("true")), MetaValue::Flag(true));
    assert_eq!(value_of_word(b("True")), MetaValue::Word(b("True")));
}

#[test]
fn strings_hold_escapes() {
    assert_eq!(read_string(b"a\\nb\\t\\\\\\\"\\'\\0\\r\" rest", 0), Some((b("a\nb\t\\\"'\0\r"), 17)));
    assert_eq!(read_string(b"\"", 0), Some((b(""), 1)));
    assert_eq!(read_string(b"abc", 0), None);
    assert_eq!(read_string(b"a\\", 0), None);
    assert_eq!(read_string(b"a\\x41\"", 0), None);
    assert_eq!(read_string(b"", 0), None);
    assert_eq!(read_escape(b'n'), Some(b'\n'));
    assert_eq!(read_escape(b'u'), None);
}

#[test]
fn names_words_and_bytes_are_found_after_blanks() {
    assert_eq!(read_name(b"  room_id: X", 0), Ok((b("room_id"), 9)));
    assert_eq!(read_name(b"_x", 0), Ok((b("_x"), 2)));
    assert_eq!(read_name(b"9x", 0), Err(lacks(0, Expected::Name)));
    assert_eq!(read_name(b"   ", 1), Err(lacks(3, Expected::Name)));
    assert_eq!(read_keyword(b" request:", 0, b"request"), Ok(8));
    assert_eq!(read_keyword(b" requests:", 0, b"request"), Err(lacks(1, Expected::Keyword)));
    assert_eq!(read_keyword(b" :", 0, b"request"), Err(lacks(1, Expected::Keyword)));
    assert_eq!(read_byte(b"  {", 0, b'{', Expected::OpenBrace), Ok(3));
    assert_eq!(read_byte(b"  (", 0, b'{', Expected::OpenBrace), Err(lacks(2, Expected::OpenBrace)));
    assert_eq!(read_byte(b"", 0, b'{', Expected::OpenBrace), Err(lacks(0, Expected::OpenBrace)));
    assert_eq!(read_section(b"request : {x", 0, b"request"), Ok(11));
    assert_eq!(blanks_end(b" \t\r\nx ", 0), 4);
    assert_eq!(blanks_end(b"x", 0), 0);
    assert_eq!(blanks_end(b"  ", 1), 2);
    assert_eq!(find_word_end(b"ab_1-c", 0), 4);
    assert_eq!(find_word_end(b"-", 0), 0);
}

#[test]
fn attributes_end_at_their_bracket() {
    assert_eq!(find_attribute_end(b"a(b[c]{d})] x", 0), 10);
    assert_eq!(find_attribute_end(b"doc = \"]\\\"]\"] x", 0), 12);
    assert_eq!(find_attribute_end(b"a(b", 0), 3);
    assert_eq!(find_attribute_end(b")", 0), 0);
    assert_eq!(
        read_attribute(b"[ruma_api(header = ETAG)] pub", 0),
        Ok((attr("ruma_api", "header = ETAG"), 25))
    );
    assert_eq!(read_attribute(b" [ serde ( default ) ] ", 0), Ok((attr("serde", "default"), 22)));
    assert_eq!(read_attribute(b"[doc = \"x\"]", 0), Ok((attr("doc", "= \"x\""), 11)));
    assert_eq!(read_attribute(b"[non_exhaustive]", 0), Ok((attr("non_exhaustive", ""), 16)));
    assert_eq!(read_attribute(b"[a::b(c)]", 0), Ok((attr("a::b", "c"), 9)));
    assert_eq!(read_attribute(b"(x)", 0), Err(lacks(0, Expected::OpenBracket)));
    assert_eq!(read_attribute(b"[x(y]", 0), Err(lacks(5, Expected::AttributeEnd)));
    assert_eq!(read_attribute(b"[x)", 0), Err(lacks(2, Expected::AttributeEnd)));
    assert_eq!(split_attribute(b" a ( b ) "), attr("a", "b"));
    assert_eq!(split_attribute(b"a(b)c"), attr("a", "(b)c"));
    assert_eq!(split_attribute(b""), attr("", ""));
    assert_eq!(
        read_attributes(b" #[a] # [b(c)] pub x", 0),
        Ok((vec![attr("a", ""), attr("b", "c")], 15))
    );
    assert_eq!(read_attributes(b" pub x", 0), Ok((Vec::new(), 1)));
    assert_eq!(read_attributes(b"#[a] #(b)", 0), Err(lacks(6, Expected::OpenBracket)));
}

#[test]
fn types_end_at_a_comma_outside_all_brackets() {
    assert_eq!(find_type_end(b"Vec<u8>, x", 0), 7);
    assert_eq!(find_type_end(b"Map<A, (B, C)>, x", 0), 14);
    assert_eq!(find_type_end(b"fn(A) -> B, x", 0), 10);
    assert_eq!(find_type_end(b"[u8; 4] }", 0), 8);
    assert_eq!(find_type_end(b"u8", 0), 2);
    assert_eq!(find_type_end(b"u8>", 0), 2);
    assert_eq!(find_type_end(b"", 0), 0);
}

#[test]
fn fields_have_attributes_a_name_and_a_type() {
    assert_eq!(
        read_field(b" #[a] pub x : Vec<u8> , y", 0),
        Ok((FieldDecl { attrs: vec![attr("a", "")], name: b("x"), ty: b("Vec<u8>") }, 22))
    );
    assert_eq!(
        read_field(b"x:u8}", 0),
        Ok((FieldDecl { attrs: Vec::new(), name: b("x"), ty: b("u8") }, 4))
    );
    assert_eq!(read_field(b"pub : u8", 0), Err(lacks(4, Expected::Name)));
    assert_eq!(read_field(b"x u8", 0), Err(lacks(2, Expected::Colon)));
    assert_eq!(read_field(b"x: ,", 0), Err(lacks(3, Expected::Type)));
    assert_eq!(read_field(b"x:", 0), Err(lacks(2, Expected::Type)));
    assert_eq!(read_field(b"#[a x: u8", 0), Err(lacks(9, Expected::AttributeEnd)));
    assert_eq!(read_field_name(b" pub  pub_key", 0), Ok((b("pub_key"), 13)));
    assert_eq!(read_field_name(b"public", 0), Ok((b("public"), 6)));
    assert_eq!(
        read_fields(b"a: A, b: B< C, D >,}", 0),
        Ok((
            vec![
                FieldDecl { attrs: Vec::new(), name: b("a"), ty: b("A") },
                FieldDecl { attrs: Vec::new(), name: b("b"), ty: b("B< C, D >") },
            ],
            20
        ))
    );
    assert_eq!(read_fields(b"a: A) }", 0), Err(lacks(4, Expected::Separator)));
    assert_eq!(read_fields(b"a: A", 0), Err(lacks(4, Expected::Separator)));
}

#[test]
fn the_error_clause_is_empty_or_names_a_type() {
    assert_eq!(read_clause(b"} \n ", 1), Ok(b("")));
    assert_eq!(read_clause(b"}", 1), Ok(b("")));
    assert_eq!(read_clause(b"}  error : Vec<u8> ", 1), Ok(b("error : Vec<u8>")));
    assert_eq!(read_clause(b"}  fault: X", 1), Err(lacks(3, Expected::Keyword)));
    assert_eq!(read_clause(b"} error X", 1), Err(lacks(2, Expected::Keyword)));
    assert_eq!(read_clause(b"} error ", 1), Err(lacks(2, Expected::Colon)));
    assert_eq!(read_clause(b"} error: 'a", 1), Err(lacks(2, Expected::Type)));
    assert_eq!(
        Definition::parse(b"metadata:{}request:{}response:{} x"),
        Err(lacks(33, Expected::Keyword))
    );
}
