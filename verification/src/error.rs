use crate::config::Method;
use vstd::prelude::*;

verus! {

/// Process-level error type: configuration problems are fatal at startup,
/// per-request problems surface as a client-error response.
#[derive(Debug)]
pub enum Error {
    /// A route pattern could not be compiled into a matcher.
    Regex(String),
    /// The request used an HTTP method the forwarder does not translate.
    InvalidRoute(String),
    /// Any other failure, described by a message.
    Custom(String),
}

impl Error {
    pub fn custom(msg: String) -> (r: Error)
        ensures
            r == Error::Custom(msg),
    {
        Error::Custom(msg)
    }

    pub fn invalid_route(route: &Method) -> (r: Error)
        ensures
            r matches Error::InvalidRoute(s) && s@ == route.spec_name(),
    {
        Error::InvalidRoute(String::from_str(route.name()))
    }
}

} // verus!
