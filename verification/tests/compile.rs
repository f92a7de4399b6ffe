use ruma_api_macros::api::{expand_all, strip_serde_attrs, Api, Definition};
use ruma_api_macros::decode::Void;
use ruma_api_macros::error::{
    CompileError, DefinitionError, Expected, Rule, Section, SyntaxError, Violation,
};
use ruma_api_macros::expand::compile;
use ruma_api_macros::message::{Message, Value};
use ruma_api_macros::metadata::AuthScheme;
use ruma_api_macros::schema::{first_at, FieldLocation, Schema};
use ruma_api_macros::wire::{Entry, Method};

fn b(s: &str) -> Vec<u8> {
    s.as_bytes().to_vec()
}

const SEND: &str = r#"
metadata: {
    description: "Send a message event to a room.",
    method: PUT,
    name: "create_message_event",
    path: "/_matrix/client/r0/rooms/{room_id}/send/{event_type}/{txn_id}",
    rate_limited: false,
    authentication: AccessToken,
}

request: {
    #[ruma_api(path)]
    pub room_id: &'a RoomId,

    #[ruma_api(path)]
    pub event_type: EventType,

    #[ruma_api(path)]
    pub txn_id: &'a str,

    #[ruma_api(newtype_body)]
    pub data: Box<RawJsonValue>,
}

response: {
    pub event_id: EventId,
}

error: crate::Error
"#;

#[test]
fn a_definition_is_compiled_from_its_text() {
    let endpoint = match compile(SEND.as_bytes()) {
        Ok(endpoint) => endpoint,
        Err(e) => panic!("{:?}", e),
    };
    assert_eq!(endpoint.metadata().method, Method::Put);
    assert_eq!(endpoint.metadata().authentication, AuthScheme::AccessToken);
    assert_eq!(endpoint.api().error_ty, b("crate::Error"));
    assert_eq!(endpoint.incoming_request_type(), &b("IncomingRequest"));
    assert_eq!(endpoint.request_body_type(), &b("RequestBody"));
    assert!(!endpoint.is_non_auth());
    let message = Message {
        values: vec![
            Value::Text(b("!room:example.org")),
            Value::Text(b("m.room.message")),
            Value::Text(b("txn 1/2")),
            Value::Json(Some(b("{\"msgtype\":\"m.text\",\"body\":\"hi\"}"))),
        ],
    };
    assert!(endpoint.accepts_request(&message));
    let request = endpoint
        .try_into_http_request(&message, b"https://matrix.example.org/", Some(b"secret"))
        .unwrap();
    assert_eq!(
        request.uri(),
        b("https://matrix.example.org/_matrix/client/r0/rooms/%21room%3Aexample.org/send/m.room.message/txn%201%2F2")
    );
    assert_eq!(request.headers, vec![Entry { name: b("authorization"), value: b("Bearer secret") }]);
    assert_eq!(request.body, b("{\"msgtype\":\"m.text\",\"body\":\"hi\"}"));
    assert_eq!(endpoint.try_from_http_request(&request), Ok(message));
    let reply = Message { values: vec![Value::Json(Some(b("\"$event:example.org\"")))] };
    let response = endpoint.try_into_http_response(&reply).unwrap();
    assert_eq!(response.body, b("{\"event_id\":\"$event:example.org\"}"));
    assert_eq!(endpoint.try_from_http_response::<Void>(response), Ok(reply));
}

#[test]
fn compiling_is_reading_assembling_and_generating() {
    let definition = Definition::parse(SEND.as_bytes()).unwrap();
    let api = Api::parse(&definition).unwrap();
    let by_steps = match expand_all(api.clone()) {
        Ok(endpoint) => endpoint,
        Err(e) => panic!("{:?}", e),
    };
    let at_once = match compile(SEND.as_bytes()) {
        Ok(endpoint) => endpoint,
        Err(e) => panic!("{:?}", e),
    };
    assert_eq!(by_steps.api(), at_once.api());
    assert_eq!(by_steps.api(), &api);
    assert_eq!(by_steps.metadata_doc(), at_once.metadata_doc());
    assert_eq!(by_steps.request_doc(), at_once.request_doc());
}

fn failure(text: &str) -> CompileError {
    match compile(text.as_bytes()) {
        Ok(_) => panic!("compiled"),
        Err(e) => e,
    }
}

#[test]
fn a_text_that_is_no_definition_is_not_compiled() {
    assert_eq!(
        failure("metadata: { method: GET "),
        CompileError::Text(SyntaxError { at: 24, expected: Expected::Separator })
    );
    assert_eq!(failure(""), CompileError::Text(SyntaxError { at: 0, expected: Expected::Keyword }));
}

#[test]
fn a_definition_with_wrong_parts_is_not_compiled() {
    let text = r#"metadata: { method: GET, name: "n" }
        request: { #[ruma_api(cookie)] a: A, b: [u8; 2 + 2] }
        response: { }"#;
    assert_eq!(
        failure(text),
        CompileError::Definition(DefinitionError::Syntax(vec![
            Violation { rule: Rule::MissingKey, section: Section::Metadata, item: b("path") },
            Violation { rule: Rule::UnknownMarker, section: Section::Request, item: b("a") },
            Violation { rule: Rule::InvalidType, section: Section::Request, item: b("b") },
        ]))
    );
}

#[test]
fn a_get_endpoint_with_body_fields_is_not_compiled() {
    let text = r#"metadata: { method: GET, name: "n", path: "/p" }
        request: { a: A, #[ruma_api(query)] q: Q, #[ruma_api(body)] c: C }
        response: { }"#;
    assert_eq!(
        failure(text),
        CompileError::Definition(DefinitionError::UnsupportedCombination {
            offending: vec![
                Violation { rule: Rule::GetWithBody, section: Section::Request, item: b("a") },
                Violation { rule: Rule::GetWithBody, section: Section::Request, item: b("c") },
            ],
            malformed: Vec::new(),
        })
    );
}

#[test]
fn an_endpoint_that_breaks_a_rule_is_not_compiled() {
    let text = r#"metadata: { method: POST, name: "n", path: "/p/{id}" }
        request: { #[ruma_api(header = ETAG)] a: A, #[ruma_api(header = ETAG)] b: B }
        response: { #[ruma_api(query)] q: Q }"#;
    assert_eq!(
        failure(text),
        CompileError::Definition(DefinitionError::UnsupportedCombination {
            offending: vec![Violation {
                rule: Rule::ResponseLocation,
                section: Section::Response,
                item: b("q"),
            }],
            malformed: vec![
                Violation { rule: Rule::DuplicateHeader, section: Section::Request, item: b("b") },
                Violation {
                    rule: Rule::UnboundPlaceholder,
                    section: Section::Request,
                    item: b("id"),
                },
            ],
        })
    );
    let text = r#"metadata: { method: POST, name: "n", path: "/p/{id}" }
        request: { #[ruma_api(header = ETAG)] a: A, #[ruma_api(header = ETAG)] b: B }
        response: { }"#;
    assert_eq!(
        failure(text),
        CompileError::Definition(DefinitionError::Syntax(vec![
            Violation { rule: Rule::DuplicateHeader, section: Section::Request, item: b("b") },
            Violation { rule: Rule::UnboundPlaceholder, section: Section::Request, item: b("id") },
        ]))
    );
}

#[test]
fn the_serde_attributes_of_a_compiled_field_can_be_stripped() {
    let text = r#"metadata: { method: POST, name: "n", path: "/p" }
        request: { #[serde(default)] #[doc = "x"] #[ruma_api(query)] q: Option<u8> }
        response: { }"#;
    let endpoint = match compile(text.as_bytes()) {
        Ok(endpoint) => endpoint,
        Err(e) => panic!("{:?}", e),
    };
    let field = &endpoint.api().request.fields[0];
    assert_eq!(field.attrs.len(), 2);
    let stripped = strip_serde_attrs(field);
    assert_eq!(stripped.attrs.len(), 1);
    assert_eq!(stripped.attrs[0].path, b("doc"));
    assert_eq!(stripped.attrs[0].tokens, b("= \"x\""));
    assert_eq!(stripped.name, field.name);
    assert!(stripped.optional);
}

#[test]
fn schemas_know_where_their_fields_travel() {
    let endpoint = match compile(SEND.as_bytes()) {
        Ok(endpoint) => endpoint,
        Err(e) => panic!("{:?}", e),
    };
    let request: &Schema = &endpoint.api().request;
    let response: &Schema = &endpoint.api().response;
    assert!(request.has_path_fields());
    assert!(!request.has_body_fields());
    assert!(!request.has_header_fields());
    assert!(!request.has_query_fields());
    assert_eq!(request.newtype_body_field(), Some(3));
    assert_eq!(request.query_map_field(), None);
    assert!(response.has_body_fields());
    assert!(!response.has_path_fields());
    assert_eq!(response.newtype_body_field(), None);
    assert_eq!(first_at(&request.fields, FieldLocation::Path), Some(0));
    assert_eq!(first_at(&request.fields, FieldLocation::Query), None);
}

#[test]
fn nothing_but_the_error_clause_follows_the_sections() {
    let sections = "metadata: { method: POST, name: \"n\", path: \"/p\" } request: {} response: {}";
    let text = |rest: &str| format!("{}{}", sections, rest);
    let at = sections.len() + 1;
    assert!(compile(text("").as_bytes()).is_ok());
    assert!(compile(text(" \n").as_bytes()).is_ok());
    assert!(compile(text(" error: crate::Error ").as_bytes()).is_ok());
    assert!(compile(text(" error: [u8; 4]").as_bytes()).is_ok());
    assert_eq!(
        failure(&text(" junk")),
        CompileError::Text(SyntaxError { at, expected: Expected::Keyword })
    );
    assert_eq!(
        failure(&text(" errors: X")),
        CompileError::Text(SyntaxError { at, expected: Expected::Keyword })
    );
    assert_eq!(
        failure(&text(" error")),
        CompileError::Text(SyntaxError { at, expected: Expected::Colon })
    );
    assert_eq!(
        failure(&text(" error: ")),
        CompileError::Text(SyntaxError { at, expected: Expected::Type })
    );
    assert_eq!(
        failure(&text(" error: Vec<")),
        CompileError::Text(SyntaxError { at, expected: Expected::Type })
    );
    assert_eq!(
        failure(&text(" error: X error: Y")),
        CompileError::Text(SyntaxError { at, expected: Expected::Type })
    );
    assert_eq!(
        failure(&text(" }")),
        CompileError::Text(SyntaxError { at, expected: Expected::Keyword })
    );
}
