//! The ad-hoc constructor shorthands, written out as the builder chains they
//! stand for.

use anyhow_http::bridge::BridgeError;
use anyhow_http::http_error::{GenericError, HttpError};

#[test]
fn http_error_status_code() {
    let e: HttpError = HttpError::from_status_code(400);
    assert_eq!(e.status_code(), 400);
}

#[test]
fn http_error_only_reason() {
    let i: i32 = 1;
    let e: HttpError = HttpError::from_status_code(400).with_reason(format!("error {}", i));
    assert_eq!(e.status_code(), 400);
    assert_eq!(e.reason(), Some("error 1".to_string()));
}

#[test]
fn http_error_status_and_source() {
    let source = GenericError::Message("an error".to_string());
    let e: HttpError = HttpError::from_status_code(400).with_source_err(source);
    assert_eq!(e.status_code(), 400);
    assert!(e.source().is_some());
}

#[test]
fn http_error_status_source_and_format() {
    let source = GenericError::Message("an error".to_string());
    let e: HttpError = HttpError::from_status_code(400)
        .with_source_err(source)
        .with_reason(format!("error {}", 1));
    assert_eq!(e.status_code(), 400);
    assert!(e.source().is_some());
    assert_eq!(e.reason(), Some("error 1".to_string()));
}

#[test]
fn http_error_static() {
    let err: HttpError = HttpError::from_static(400, "error");
    assert_eq!(err.status_code(), 400);
    assert_eq!(err.reason(), Some("error".to_string()));
}

#[test]
fn http_error_bridge() {
    let _err: GenericError = HttpError::from_static(400, "error").bridge_error();
    let _err: HttpError = HttpError::from_static(400, "error");
}
