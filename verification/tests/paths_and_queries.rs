use ruma_api_macros::path::{
    placeholder, read_path, segment, split_path, template, template_parameters, write_path,
};
use ruma_api_macros::query::{read_query, write_query};
use ruma_api_macros::wire::{lookup, Entry, HttpRequest, Method};

fn b(s: &str) -> Vec<u8> {
    s.as_bytes().to_vec()
}

fn rows(list: &[&str]) -> Vec<Vec<u8>> {
    list.iter().map(|s| b(s)).collect()
}

fn pairs(list: &[(&str, &str)]) -> Vec<Entry> {
    list.iter().map(|(k, v)| Entry { name: b(k), value: b(v) }).collect()
}

#[test]
fn templates_begin_with_a_slash_and_hold_segments() {
    assert!(template(b"/_matrix/foo/{room_id}/bar"));
    assert!(template(b"/"));
    assert!(template(b"/a//b"));
    assert!(template(b"/{a}/{b}"));
    assert!(!template(b""));
    assert!(!template(b"_matrix/foo"));
    assert!(!template(b"/a/{b"));
    assert!(!template(b"/a/b}"));
    assert!(!template(b"/a/x{b}"));
    assert!(!template(b"/a/{}"));
    assert!(!template(b"/a/{1x}"));
    assert!(!template(b"/a b"));
    assert!(!template(b"/a?b"));
    assert!(!template(b"/a#b"));
}

#[test]
fn segments_are_placeholders_or_literals() {
    assert!(placeholder(b"{room_id}"));
    assert!(placeholder(b"{}"));
    assert!(!placeholder(b"{"));
    assert!(!placeholder(b"room_id"));
    assert!(segment(b"{room_id}"));
    assert!(segment(b"r0"));
    assert!(segment(b""));
    assert!(!segment(b"{room id}"));
    assert!(!segment(b"a{b"));
    assert_eq!(split_path(b"/a/{b}/c"), rows(&["a", "{b}", "c"]));
    assert_eq!(split_path(b""), rows(&[""]));
}

#[test]
fn parameters_are_the_names_of_the_placeholders() {
    assert_eq!(template_parameters(b"/_matrix/foo/{room_id}/bar"), rows(&["room_id"]));
    assert_eq!(template_parameters(b"/{a}/x/{b}"), rows(&["a", "b"]));
    assert_eq!(template_parameters(b"/a/b"), rows(&[]));
}

#[test]
fn path_substitution_percent_encodes_the_value() {
    let path = write_path(b"/_matrix/foo/{room_id}/bar", &rows(&["!abc:example.org"]));
    assert_eq!(path, b("/_matrix/foo/%21abc%3Aexample.org/bar"));
    assert_eq!(
        read_path(b"/_matrix/foo/{room_id}/bar", &path),
        Some(rows(&["!abc:example.org"]))
    );
}

#[test]
fn path_reading_takes_a_raw_segment_as_it_is() {
    assert_eq!(
        read_path(b"/_matrix/foo/{room_id}/bar", b"/_matrix/foo/!abc:example.org/bar"),
        Some(rows(&["!abc:example.org"]))
    );
}

#[test]
fn path_values_with_slashes_stay_in_their_segment() {
    let path = write_path(b"/{a}/{b}", &rows(&["x/y", "z"]));
    assert_eq!(path, b("/x%2Fy/z"));
    assert_eq!(read_path(b"/{a}/{b}", &path), Some(rows(&["x/y", "z"])));
}

#[test]
fn placeholders_are_filled_in_their_order() {
    assert_eq!(write_path(b"/{a}/x/{b}", &rows(&["1", "2"])), b("/1/x/2"));
    assert_eq!(write_path(b"/a/b", &rows(&[])), b("/a/b"));
    assert_eq!(write_path(b"/", &rows(&[])), b("/"));
    assert_eq!(write_path(b"/{a}/{b}", &rows(&["1"])), b("/1/{b}"));
}

#[test]
fn a_path_that_ends_before_a_placeholder_holds_no_arguments() {
    assert_eq!(read_path(b"/a/{b}", b"/a"), None);
    assert_eq!(read_path(b"/a/{b}", b""), None);
    assert_eq!(read_path(b"/a/{b}", b"/a/"), Some(rows(&[""])));
    assert_eq!(read_path(b"/a/{b}", b"/zzz/1/more"), Some(rows(&["1"])));
    assert_eq!(read_path(b"/a/b", b""), Some(rows(&[])));
}

#[test]
fn query_pairs_are_encoded_and_joined() {
    assert_eq!(write_query(&pairs(&[("a", "1"), ("b c", "d&e=f")])), b("a=1&b%20c=d%26e%3Df"));
    assert_eq!(write_query(&pairs(&[])), b(""));
    assert_eq!(write_query(&pairs(&[("", "")])), b("="));
    assert_eq!(write_query(&pairs(&[("room_id", "!x")])), b("room_id=%21x"));
}

#[test]
fn query_reading_skips_empty_pieces() {
    assert_eq!(read_query(b"a=1&b%20c=d%26e%3Df"), pairs(&[("a", "1"), ("b c", "d&e=f")]));
    assert_eq!(read_query(b""), pairs(&[]));
    assert_eq!(read_query(b"&&a=1&"), pairs(&[("a", "1")]));
    assert_eq!(read_query(b"flag"), pairs(&[("flag", "")]));
    assert_eq!(read_query(b"a=b=c"), pairs(&[("a", "b=c")]));
    assert_eq!(read_query(b"a=x+y"), pairs(&[("a", "x+y")]));
    assert_eq!(read_query(b"="), pairs(&[("", "")]));
}

#[test]
fn query_reading_undoes_writing() {
    let list = pairs(&[("k", "v"), ("k", "w"), ("", "x"), ("a&b", "c=d"), ("e", "")]);
    assert_eq!(read_query(&write_query(&list)), list);
}

#[test]
fn lookup_finds_the_first_entry() {
    let list = pairs(&[("a", "1"), ("b", "2"), ("a", "3")]);
    assert_eq!(lookup(&list, b"a"), Some(&b("1")));
    assert_eq!(lookup(&list, b"b"), Some(&b("2")));
    assert_eq!(lookup(&list, b"c"), None);
}

#[test]
fn uri_has_a_question_mark_only_before_a_query() {
    let mut request = HttpRequest {
        method: Method::Get,
        base: b("https://example.org"),
        path: b("/a/b"),
        query: b(""),
        headers: Vec::new(),
        body: Vec::new(),
    };
    assert_eq!(request.uri(), b("https://example.org/a/b"));
    request.query = b("x=1");
    assert_eq!(request.uri(), b("https://example.org/a/b?x=1"));
    assert_eq!(Method::Delete.to_bytes(), b("DELETE"));
    assert_eq!(Method::Get.to_bytes(), b("GET"));
}
