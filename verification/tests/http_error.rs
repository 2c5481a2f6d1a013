//! The canonical error's builders, accessors, rendering and recovery.

use anyhow_http::http_error::{GenericError, HttpError};
use anyhow_http::value::Value;

#[test]
fn http_error_display() {
    let e: HttpError = HttpError::default();
    assert_eq!(e.to_display_string(), "HttpError(500 Internal Server Error)");

    let e: HttpError = HttpError::default().with_reason("reason".to_string());
    assert_eq!(
        e.to_display_string(),
        "HttpError(500 Internal Server Error): reason"
    );

    let e: HttpError =
        HttpError::default().with_source_err(GenericError::Message("error".to_string()));
    assert_eq!(
        e.to_display_string(),
        "HttpError(500 Internal Server Error): source: error"
    );

    let e: HttpError = HttpError::default()
        .with_reason("reason".to_string())
        .with_source_err(GenericError::Message("error".to_string()));
    assert_eq!(
        e.to_display_string(),
        "HttpError(500 Internal Server Error): reason, source: error"
    );
}

#[test]
fn http_error_new_const() {
    let err: HttpError = HttpError::new();
    assert_eq!(err.status_code(), 500);
}

#[test]
fn http_error_from_static() {
    let err: HttpError = HttpError::from_static(400, "invalid request");
    assert_eq!(err.status_code(), 400);
    assert_eq!(err.reason(), Some("invalid request".to_string()));
}

#[test]
fn http_error_default() {
    let e: HttpError = HttpError::default();
    assert_eq!(e.status_code(), 500);
}

#[test]
fn http_error_from_status_code() {
    let e: HttpError = HttpError::from_status_code(400);
    assert_eq!(e.status_code(), 400);
}

#[test]
fn http_error_from_err() {
    let e: HttpError = HttpError::from_err(GenericError::Message("error".to_string()));
    assert_eq!(e.status_code(), 500);
    assert_eq!(e.source().unwrap().render(false), "error");

    let rendered = std::fmt::Error.to_string();
    let e: HttpError = HttpError::from_err(GenericError::Message(rendered.clone()));
    assert_eq!(e.status_code(), 500);
    assert_eq!(e.source().unwrap().render(false), rendered);
}

#[derive(Debug)]
struct LocalError;

impl std::fmt::Display for LocalError {
    fn fmt(&self, f: &mut std::fmt::Formatter<'_>) -> std::fmt::Result {
        f.write_str("CustomError")
    }
}

impl From<LocalError> for HttpError {
    fn from(_: LocalError) -> Self {
        Self::default().with_status_code(400)
    }
}

impl From<LocalError> for GenericError {
    fn from(_: LocalError) -> Self {
        HttpError::default().with_status_code(400).into_boxed()
    }
}

#[test]
fn http_error_from_custom_impl_try() {
    let res: std::result::Result<(), HttpError> = (|| {
        Err(LocalError)?;
        unreachable!()
    })();
    let e = res.unwrap_err();
    assert_eq!(e.status_code(), 400);
}

#[test]
fn http_error_into_anyhow() {
    let res: std::result::Result<(), GenericError> = (|| {
        Err(LocalError)?;
        unreachable!()
    })();
    let e = res.unwrap_err();
    assert_eq!(HttpError::from_err(e).status_code(), 400);
}

#[test]
fn http_error_with_status_code() {
    let e: HttpError = HttpError::default().with_status_code(400);
    assert_eq!(e.status_code(), 400);
}

#[test]
fn http_error_with_reason() {
    let e: HttpError = HttpError::default().with_reason("reason".to_string());
    assert_eq!(e.reason(), Some("reason".to_string()));
}

#[test]
fn http_error_with_source_context() {
    let e: HttpError = HttpError::default().with_source_context("context".to_string());
    assert_eq!(
        e.source().map(|s| s.render(false)),
        Some("context".to_string())
    );

    let e: HttpError = HttpError::default()
        .with_source_err(GenericError::Message("source".to_string()))
        .with_source_context("context".to_string());
    assert_eq!(e.source().unwrap().render(true), "context: source");
}

#[test]
fn http_error_with_dyn_source_error() {
    let dyn_err = GenericError::Message(std::fmt::Error.to_string());
    let e: HttpError = HttpError::default().with_boxed_source_err(dyn_err);
    assert_eq!(e.source().unwrap().render(false), std::fmt::Error.to_string());
}

#[test]
fn http_error_with_source_error() {
    let e: HttpError =
        HttpError::default().with_source_err(GenericError::Message(std::fmt::Error.to_string()));
    assert_eq!(e.source().unwrap().render(false), std::fmt::Error.to_string());
}

#[test]
fn http_error_data() {
    let mut e: HttpError = HttpError::default();
    e.add("key".to_string(), Value::Int(1234)).unwrap();
    assert_eq!(e.get("key").and_then(|v| v.as_i64()), Some(1234));
    assert_eq!(e.get("key").and_then(|v| v.as_str()), None);
}

#[test]
fn http_error_with_data() {
    let e: HttpError = HttpError::default()
        .with_data(vec![
            ("key1".to_string(), Value::Int(1234)),
            ("key2".to_string(), Value::Int(5678)),
        ])
        .unwrap();
    assert_eq!(e.get("key1").and_then(|v| v.as_i64()), Some(1234));
    assert_eq!(e.get("key2").and_then(|v| v.as_i64()), Some(5678));
}

#[test]
fn http_error_with_headers() {
    let e: HttpError = HttpError::default()
        .with_header("content-type".to_string(), "application/json".to_string())
        .with_header("x-custom-header".to_string(), "42".to_string());
    assert_eq!(
        e.header("content-type").map(|v| v.as_str()),
        Some("application/json")
    );
    assert_eq!(e.header("x-custom-header").map(|v| v.as_str()), Some("42"));
}

#[test]
fn http_error_anyhow_downcast() {
    let outer: GenericError = HttpError::from_status_code(400).into_boxed();
    let e = HttpError::from_err(outer);
    assert_eq!(e.status_code(), 400);
}

#[test]
fn http_error_recovers_through_context() {
    let inner: HttpError = HttpError::from_static(400, "invalid request")
        .with_key_value("code".to_string(), Value::Int(7));
    let wrapped = GenericError::Context(
        "while handling the request".to_string(),
        Box::new(GenericError::Context(
            "while parsing".to_string(),
            Box::new(inner.into_boxed()),
        )),
    );
    let e = HttpError::from_err(wrapped);
    assert_eq!(e.status_code(), 400);
    assert_eq!(e.reason(), Some("invalid request".to_string()));
    assert_eq!(e.get("code").and_then(|v| v.as_i64()), Some(7));
    assert!(e.source().is_none());
}

#[test]
fn http_error_context_without_canonical_error_wraps() {
    let wrapped = GenericError::Context(
        "while handling".to_string(),
        Box::new(GenericError::Message("io failure".to_string())),
    );
    let e = HttpError::from_err(wrapped);
    assert_eq!(e.status_code(), 500);
    assert_eq!(
        e.source().map(|s| s.render(true)),
        Some("while handling: io failure".to_string())
    );
}

#[test]
fn http_error_header_names_ignore_ascii_case() {
    let e: HttpError = HttpError::default()
        .with_header("X-Custom-Header".to_string(), "1".to_string())
        .with_header("x-custom-header".to_string(), "2".to_string());
    assert_eq!(e.headers().len(), 1);
    assert_eq!(e.header("X-CUSTOM-HEADER").map(|v| v.as_str()), Some("2"));
}
