//! Responses formatted from canonical errors, with byte-exact JSON bodies.

use anyhow_http::http_error::{GenericError, HttpError};
use anyhow_http::response::{HttpErrorResponse, Json};
use anyhow_http::value::Value;

#[test]
fn http_error_response_json() {
    let resp: HttpErrorResponse = Json::into_http_error_response(HttpError::from_status_code(400));
    assert_eq!(resp.http_error.status_code(), 400);
}

#[test]
fn http_error_json_response() {
    let mut e: HttpError = HttpError::from_status_code(400).with_reason("invalid param".to_string());
    e.add("ctx".to_string(), Value::Str("some context".to_string()))
        .unwrap();
    e.add("code".to_string(), Value::Int(1234)).unwrap();
    let resp = Json::into_http_error_response(e);
    assert_eq!(resp.http_error.status_code(), 400);
    assert_eq!(
        resp.body,
        "{\"code\":1234,\"ctx\":\"some context\",\"error\":\"invalid param\"}"
    );
    assert_eq!(resp.content_type, "application/json");
}

#[test]
fn json_format_response_nested() {
    let mut e: HttpError = HttpError::from_status_code(400).with_reason("invalid param".to_string());
    e.add("ctx".to_string(), Value::Str("some context".to_string()))
        .unwrap();
    e.add("code".to_string(), Value::Int(1234)).unwrap();
    let body = Json::error_body(&e);
    assert_eq!(
        body,
        "{\"error\":{\"code\":1234,\"ctx\":\"some context\",\"message\":\"invalid param\"}}"
    );
}

#[test]
fn json_message_falls_back_to_registry_phrase() {
    let body = Json::error_body(&HttpError::from_status_code(404));
    assert_eq!(body, "{\"error\":{\"message\":\"Not Found\"}}");
}

#[test]
fn plain_and_html_responses_keep_their_bodies() {
    let plain = HttpErrorResponse::plain(HttpError::from_status_code(400), "oops".to_string());
    assert_eq!(plain.body, "oops");
    assert_eq!(plain.content_type, "text/plain");

    let html = HttpErrorResponse::html(
        HttpError::from_status_code(400),
        "<h1>oops</h1>".to_string(),
    );
    assert_eq!(html.body, "<h1>oops</h1>");
    assert_eq!(html.content_type, "text/html");
}

#[test]
fn json_response_over_entries() {
    let entries: Vec<(String, Value)> = Vec::new();
    let resp = HttpErrorResponse::json(HttpError::from_status_code(400), &entries);
    assert_eq!(resp.body, "{}");
    assert_eq!(resp.content_type, "application/json");
}

#[test]
fn http_error_response_from_anyhow_downcast() {
    let outer: GenericError = HttpError::from_status_code(400).into_boxed();
    let resp = Json::into_http_error_response(HttpError::from_err(outer));
    assert_eq!(resp.http_error.status_code(), 400);

    let wrapped = GenericError::Context(
        "while replying".to_string(),
        Box::new(HttpError::from_status_code(400).into_boxed()),
    );
    let resp = Json::into_http_error_response(HttpError::from_err(wrapped));
    assert_eq!(resp.http_error.status_code(), 400);
}
