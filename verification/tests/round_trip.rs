use ruma_api_macros::api::Api;
use ruma_api_macros::decode::{decode_request, decode_response, Void};
use ruma_api_macros::encode::{encode_request, encode_response};
use ruma_api_macros::error::{
    DeserializationError, FromHttpRequestError, FromHttpResponseError, IntoHttpError, ServerError,
};
use ruma_api_macros::message::{Message, Value};
use ruma_api_macros::metadata::{AuthScheme, Metadata};
use ruma_api_macros::schema::{Field, FieldLocation, Schema};
use ruma_api_macros::validate::validate;
use ruma_api_macros::wire::{Entry, HttpResponse, Method};

fn b(s: &str) -> Vec<u8> {
    s.as_bytes().to_vec()
}

fn field(name: &str, ty: &str, location: FieldLocation, header: &str) -> Field {
    Field {
        attrs: Vec::new(),
        name: b(name),
        ty: b(ty),
        location,
        header: b(header),
        optional: ty.starts_with("Option<"),
        lifetimes: Vec::new(),
    }
}

fn sample() -> Api {
    Api {
        metadata: Metadata {
            description: b("Sends a message."),
            method: Method::Put,
            name: b("send_message"),
            path: b("/_matrix/foo/{room_id}/bar"),
            rate_limited: false,
            authentication: AuthScheme::AccessToken,
        },
        request: Schema {
            fields: vec![
                field("room_id", "RoomId", FieldLocation::Path, ""),
                field("since", "String", FieldLocation::Query, ""),
                field("agent", "String", FieldLocation::Header, "user-agent"),
                field("body", "String", FieldLocation::Body, ""),
                field("count", "Option<u32>", FieldLocation::Body, ""),
            ],
        },
        response: Schema {
            fields: vec![
                field("kind", "String", FieldLocation::Header, "content-type"),
                field("event_id", "String", FieldLocation::Body, ""),
            ],
        },
        error_ty: b("Void"),
    }
}

#[test]
fn request_round_trip_with_all_locations() {
    let api = validate(sample()).unwrap();
    let message = Message {
        values: vec![
            Value::Text(b("!abc:example.org")),
            Value::Text(b("a b&c=d")),
            Value::Text(b("test/1.0")),
            Value::Json(Some(b("\"hello\""))),
            Value::Json(Some(b("3"))),
        ],
    };
    let request =
        encode_request(&api, &message, b"https://example.org/", Some(b"abc123")).unwrap();
    assert_eq!(request.method, Method::Put);
    assert_eq!(request.base, b("https://example.org"));
    assert_eq!(request.path, b("/_matrix/foo/%21abc%3Aexample.org/bar"));
    assert_eq!(request.query, b("since=a%20b%26c%3Dd"));
    assert_eq!(
        request.headers,
        vec![
            Entry { name: b("user-agent"), value: b("test/1.0") },
            Entry { name: b("authorization"), value: b("Bearer abc123") },
        ]
    );
    assert_eq!(request.body, b("{\"body\":\"hello\",\"count\":3}"));
    assert_eq!(
        request.uri(),
        b("https://example.org/_matrix/foo/%21abc%3Aexample.org/bar?since=a%20b%26c%3Dd")
    );
    assert_eq!(decode_request(&api, &request), Ok(message));
}

#[test]
fn request_without_token_needs_authentication() {
    let api = validate(sample()).unwrap();
    let message = Message {
        values: vec![
            Value::Text(b("x")),
            Value::Text(b("y")),
            Value::Text(b("z")),
            Value::Json(Some(b("1"))),
            Value::Json(None),
        ],
    };
    assert_eq!(
        encode_request(&api, &message, b"https://example.org", None),
        Err(IntoHttpError::NeedsAuthentication)
    );
}

#[test]
fn response_round_trip() {
    let api = validate(sample()).unwrap();
    let message = Message {
        values: vec![Value::Text(b("application/json")), Value::Json(Some(b("\"$1:e.org\"")))],
    };
    let response = encode_response(&api, &message).unwrap();
    assert_eq!(response.status, 200);
    assert_eq!(
        response.headers,
        vec![Entry { name: b("content-type"), value: b("application/json") }]
    );
    assert_eq!(response.body, b("{\"event_id\":\"$1:e.org\"}"));
    assert_eq!(decode_response::<Void>(&api, response), Ok(message));
}

#[test]
fn unknown_server_error_keeps_the_response() {
    let api = validate(sample()).unwrap();
    let response = HttpResponse { status: 404, headers: Vec::new(), body: b("not json") };
    assert_eq!(
        decode_response::<Void>(&api, response.clone()),
        Err(FromHttpResponseError::Http(ServerError::Unknown(response)))
    );
}

#[test]
fn malformed_body_is_refused() {
    let api = validate(sample()).unwrap();
    let message = Message {
        values: vec![
            Value::Text(b("x")),
            Value::Text(b("y")),
            Value::Text(b("z")),
            Value::Json(Some(b("1"))),
            Value::Json(None),
        ],
    };
    let mut request = encode_request(&api, &message, b"", Some(b"t")).unwrap();
    request.body = b("{\"body\":");
    assert_eq!(
        decode_request(&api, &request),
        Err(FromHttpRequestError::Deserialization(DeserializationError::Body))
    );
}
