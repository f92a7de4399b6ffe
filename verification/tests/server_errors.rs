use ruma_api_macros::api::Api;
use ruma_api_macros::decode::{decode_response, server_error, EndpointError, Void};
use ruma_api_macros::error::{FromHttpResponseError, ServerError};
use ruma_api_macros::metadata::{AuthScheme, Metadata};
use ruma_api_macros::schema::Schema;
use ruma_api_macros::wire::{Entry, HttpResponse, Method};

fn b(s: &str) -> Vec<u8> {
    s.as_bytes().to_vec()
}

fn bare() -> Api {
    Api {
        metadata: Metadata {
            description: b(""),
            method: Method::Get,
            name: b("ping"),
            path: b("/ping"),
            rate_limited: false,
            authentication: AuthScheme::Open,
        },
        request: Schema { fields: Vec::new() },
        response: Schema { fields: Vec::new() },
        error_ty: b("Failure"),
    }
}

/// An error type that reads bodies of the form `{"errcode":...}`.
#[derive(Clone, Debug, PartialEq, Eq)]
struct Failure {
    status: u16,
    code: String,
}

impl EndpointError for Failure {
    fn try_from_response(response: HttpResponse) -> Result<Self, HttpResponse> {
        let parsed: Result<serde_json::Value, serde_json::Error> =
            serde_json::from_slice(&response.body);
        match parsed {
            Ok(value) => match value.get("errcode").and_then(|code| code.as_str()) {
                Some(code) => Ok(Failure { status: response.status, code: code.to_string() }),
                None => Err(response),
            },
            Err(_) => Err(response),
        }
    }
}

#[test]
fn known_error_carries_the_decoded_value() {
    let response = HttpResponse {
        status: 404,
        headers: vec![Entry { name: b("content-type"), value: b("application/json") }],
        body: b("{\"errcode\":\"M_NOT_FOUND\"}"),
    };
    assert_eq!(
        decode_response::<Failure>(&bare(), response),
        Err(FromHttpResponseError::Http(ServerError::Known(Failure {
            status: 404,
            code: "M_NOT_FOUND".to_string(),
        })))
    );
}

#[test]
fn unknown_error_keeps_status_and_body() {
    let response = HttpResponse { status: 404, headers: Vec::new(), body: b("<html>gone</html>") };
    match decode_response::<Failure>(&bare(), response) {
        Err(FromHttpResponseError::Http(ServerError::Unknown(back))) => {
            assert_eq!(back.status, 404);
            assert_eq!(back.body, b("<html>gone</html>"));
            assert_eq!(back.headers, Vec::new());
        }
        other => panic!("unexpected: {:?}", other),
    }
}

#[test]
fn void_reads_no_response() {
    let response = HttpResponse { status: 500, headers: Vec::new(), body: b("{\"errcode\":\"X\"}") };
    assert_eq!(Void::try_from_response(response.clone()), Err(response.clone()));
    assert_eq!(
        decode_response::<Void>(&bare(), response.clone()),
        Err(FromHttpResponseError::Http(ServerError::Unknown(response)))
    );
}

#[test]
fn status_399_is_a_message_and_status_400_is_an_error() {
    let ok = HttpResponse { status: 399, headers: Vec::new(), body: b("{}") };
    assert!(decode_response::<Void>(&bare(), ok).is_ok());
    let bad = HttpResponse { status: 400, headers: Vec::new(), body: b("{}") };
    assert_eq!(
        decode_response::<Void>(&bare(), bad.clone()),
        Err(FromHttpResponseError::Http(ServerError::Unknown(bad)))
    );
}

#[test]
fn server_error_wraps_both_outcomes() {
    let response = HttpResponse { status: 418, headers: Vec::new(), body: b("tea") };
    assert_eq!(server_error::<u8>(Ok(7)), ServerError::Known(7));
    assert_eq!(server_error::<u8>(Err(response.clone())), ServerError::Unknown(response));
}
