//! Why a request could not be handed to a backend.

use vstd::prelude::*;

verus! {

/// Why no backend was chosen.
#[derive(Debug, Clone, Copy, PartialEq, Eq, Structural)]
pub enum ProxyError {
    ReadLockFailed,
    NoBackends,
    NoRouteMatched,
}

impl ProxyError {
    /// The text that stands for the error.
    pub open spec fn text(self) -> Seq<char> {
        match self {
            ProxyError::ReadLockFailed => "Failed to acquire settings read lock"@,
            ProxyError::NoBackends => "No backends configured for matched route"@,
            ProxyError::NoRouteMatched =>
                "No route matched the request path and no fallback was configured"@,
        }
    }

    /// Says in words what went wrong.
    pub fn message(&self) -> (r: &'static str)
        ensures
            r@ == self.text(),
    {
        match self {
            ProxyError::ReadLockFailed => "Failed to acquire settings read lock",
            ProxyError::NoBackends => "No backends configured for matched route",
            ProxyError::NoRouteMatched =>
                "No route matched the request path and no fallback was configured",
        }
    }
}

/// Each error has its own text.
pub proof fn law_errors_are_told_apart(a: ProxyError, b: ProxyError)
    ensures
        a.text() == b.text() <==> a == b,
        ProxyError::NoRouteMatched.text()
            == "No route matched the request path and no fallback was configured"@,
        ProxyError::NoBackends.text() == "No backends configured for matched route"@,
        ProxyError::ReadLockFailed.text() == "Failed to acquire settings read lock"@,
{
    reveal_strlit("Failed to acquire settings read lock");
    reveal_strlit("No backends configured for matched route");
    reveal_strlit("No route matched the request path and no fallback was configured");
}

} // verus!
