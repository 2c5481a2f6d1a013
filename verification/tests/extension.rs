//! The result and option extension traits.

use anyhow_http::extension::{OptionExt, ResultExt};
use anyhow_http::http_error::{GenericError, HttpError};

#[test]
fn http_err_ext_result_map_status() {
    let result: Result<(), GenericError> = Err(GenericError::Message("error".to_string()));
    let http_result: Result<(), HttpError> = result.map_status(400);

    let Err(e) = http_result else { unreachable!() };
    assert_eq!(e.status_code(), 400);
    assert_eq!(e.source().unwrap().render(false), "error".to_owned());
}

#[test]
fn http_err_ext_result_map_http_error() {
    let s: Result<i32, HttpError> = "nan"
        .parse::<i32>()
        .map_err(|err| GenericError::Message(err.to_string()))
        .map_status(400);
    assert_eq!(s, Err(HttpError::from_status_code(400)));

    let result: Result<(), GenericError> = Err(GenericError::Message("error".to_string()));
    let http_result: Result<(), HttpError> =
        result.map_http_error(400, "invalid request".to_string());

    let Err(e) = http_result else { unreachable!() };
    assert_eq!(e.status_code(), 400);
    assert_eq!(e.source().unwrap().render(false), "error".to_owned());
    assert_eq!(e.reason(), Some("invalid request".to_string()));
}

#[test]
fn http_err_ext_option() {
    let opt: Option<()> = None;
    let http_result: Result<(), HttpError> = opt.ok_or_status(400);

    let Err(e) = http_result else { unreachable!() };
    assert_eq!(e.status_code(), 400);
    assert!(e.source().is_none());
}
