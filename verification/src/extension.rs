//! Extension traits that map failures into the canonical error: results
//! whose error becomes a canonical error with a chosen status, and options
//! whose absence does.

use vstd::prelude::*;

use crate::http_error::{gen_wf, http_wf, GenericError, HttpError};
use crate::status::valid_status_code;

verus! {

/// Maps the error of a `Result` into a canonical error.
pub trait ResultExt: Sized {
    type Item;

    /// Wraps the error, if any, in a canonical error with the given status.
    fn map_status(self, status_code: u16) -> Result<Self::Item, HttpError>
        requires
            valid_status_code(status_code),
    ;

    /// Wraps the error, if any, in a canonical error with the given status
    /// and reason.
    fn map_http_error(self, status_code: u16, reason: String) -> Result<Self::Item, HttpError>
        requires
            valid_status_code(status_code),
    ;
}

impl<T> ResultExt for Result<T, GenericError> {
    type Item = T;

    fn map_status(self, status_code: u16) -> (r: Result<T, HttpError>)
        ensures
            self matches Ok(v) ==> (r matches Ok(w) && w == v),
            self matches Err(e) ==> (r matches Err(h) && h.status_code == status_code && (match
                crate::http_error::spec_recover_http(e) {
                Some(b) => h.reason == b.reason && h.data == b.data && h.source == b.source
                    && h.headers == b.headers,
                None => h.reason is None && h.source == Some(e) && h.data@ == Seq::<(
                    String,
                    crate::value::Value,
                )>::empty() && h.headers@ == Seq::<(String, String)>::empty(),
            })),
            (self matches Err(e) && gen_wf(e)) ==> (r matches Err(h) && http_wf(h)),
    {
        match self {
            Ok(v) => Ok(v),
            Err(e) => Err(HttpError::from_err(e).with_status_code(status_code)),
        }
    }

    fn map_http_error(self, status_code: u16, reason: String) -> (r: Result<T, HttpError>)
        ensures
            self matches Ok(v) ==> (r matches Ok(w) && w == v),
            self matches Err(e) ==> (r matches Err(h) && h.status_code == status_code && h.reason
                == Some(reason)),
            (self matches Err(e) && gen_wf(e)) ==> (r matches Err(h) && http_wf(h)),
    {
        match self {
            Ok(v) => Ok(v),
            Err(e) => Err(
                HttpError::from_err(e).with_status_code(status_code).with_reason(reason),
            ),
        }
    }
}

/// Turns an `Option` into a `Result` against a canonical error.
pub trait OptionExt: Sized {
    type Item;

    /// Maps `Some` to `Ok` and `None` to a canonical error with the given
    /// status.
    fn ok_or_status(self, status_code: u16) -> Result<Self::Item, HttpError>
        requires
            valid_status_code(status_code),
    ;
}

impl<T> OptionExt for Option<T> {
    type Item = T;

    fn ok_or_status(self, status_code: u16) -> (r: Result<T, HttpError>)
        ensures
            self matches Some(v) ==> (r matches Ok(w) && w == v),
            self is None ==> (r matches Err(h) && h.status_code == status_code && h.reason is None
                && h.source is None && h.data@ == Seq::<(String, crate::value::Value)>::empty()
                && http_wf(h)),
    {
        match self {
            Some(v) => Ok(v),
            None => Err(HttpError::from_status_code(status_code)),
        }
    }
}

} // verus!
