//! The HTTP status-code registry, consulted through the `http` crate.
//!
//! The canonical error model stores a status code as a plain `u16` whose
//! validity is decided by the registry validator below; the registry's
//! canonical reason phrases are reached through a second trusted wrapper.

use vstd::prelude::*;

verus! {

/// The codes the registry accepts: three decimal digits, first digit nonzero.
pub open spec fn valid_status_code(code: u16) -> bool {
    100 <= code <= 999
}

/// Relies on `http::StatusCode::from_u16`, which accepts exactly the codes in
/// `100..=999`.
#[verifier::external_body]
pub fn registry_validate(code: u16) -> (r: bool)
    ensures
        r == valid_status_code(code),
{
    http::StatusCode::from_u16(code).is_ok()
}

/// The registry's canonical reason phrase for `code`, if the registry names
/// one; what the phrase is stays the `http` crate's knowledge.
pub uninterp spec fn canonical_reason_of(code: u16) -> Option<Seq<char>>;

/// Relies on `http::StatusCode::from_u16` and
/// `http::StatusCode::canonical_reason`: the phrase is a fixed table lookup,
/// a function of the code alone.
#[verifier::external_body]
pub fn canonical_reason(code: u16) -> (r: Option<String>)
    requires
        valid_status_code(code),
    ensures
        match r {
            Some(s) => canonical_reason_of(code) == Some(s@),
            None => canonical_reason_of(code) is None,
        },
{
    match http::StatusCode::from_u16(code) {
        Ok(status) => status.canonical_reason().map(|reason| reason.to_string()),
        Err(_) => None,
    }
}

} // verus!
