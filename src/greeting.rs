//! Day -1: the root greeting and the deliberate fault.

use vstd::prelude::*;

verus! {

/// The fault that the error endpoint raises; served as a server error.
pub enum ServerError {
    Internal,
}

/// The text served at the root.
pub fn hello_world() -> (r: &'static str)
    ensures
        r@ == "Hello, world!"@,
{
    "Hello, world!"
}

/// Fails unconditionally with a server error, whatever the request.
pub fn error() -> (r: Result<&'static str, ServerError>)
    ensures
        r is Err,
{
    Err(ServerError::Internal)
}

} // verus!
