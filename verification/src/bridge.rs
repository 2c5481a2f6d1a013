//! The bridge that moves a canonical error into another error type: the
//! generated conversions, and callers that hold a canonical error, reach the
//! ambient generic error (or the canonical type itself) through it.

use vstd::prelude::*;

use crate::http_error::{GenericError, HttpError};

verus! {

/// Conversion of an error into the error type a caller works in.
pub trait BridgeError<E> {
    fn bridge_error(self) -> E;
}

impl BridgeError<GenericError> for HttpError {
    /// The canonical error travels intact inside the ambient error;
    /// recovering it yields it unchanged.
    fn bridge_error(self) -> (r: GenericError)
        ensures
            r matches GenericError::Http(h) && *h == self,
    {
        self.into_boxed()
    }
}

} // verus!
