//! The errors of a gateway request.

use vstd::prelude::*;
use vstd::std_specs::convert::FromSpecImpl;

verus! {

/// A failure of the transport that carries requests to the gateway, with
/// the transport's own description of it.
#[derive(Debug)]
pub enum TransportError {
    /// The HTTP exchange failed.
    Http(String),
    /// Reading or writing on the connection failed.
    Io(String),
}

/// Why a request to the gateway failed.
#[derive(Debug)]
pub enum RequestError {
    /// The transport could not complete the exchange.
    TransportFailure(TransportError),
    /// The gateway answered, but not with what the action calls for.
    InvalidResponse,
}

impl From<TransportError> for RequestError {
    fn from(err: TransportError) -> (r: RequestError) {
        RequestError::TransportFailure(err)
    }
}

impl FromSpecImpl<TransportError> for RequestError {
    open spec fn obeys_from_spec() -> bool {
        true
    }

    open spec fn from_spec(err: TransportError) -> RequestError {
        RequestError::TransportFailure(err)
    }
}

} // verus!
