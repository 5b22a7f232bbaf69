//! Request logging: which endpoint is wrapped, whose address is logged, and
//! how loud the outcome of a request is reported.

use vstd::prelude::*;

verus! {

/// How loud a request's outcome is logged.
#[derive(Debug, Clone, Copy, PartialEq, Eq, Structural)]
pub enum Level {
    Error,
    Warn,
    Debug,
}

/// What is logged when a request is over.
#[derive(Debug, Clone, Copy, PartialEq, Eq)]
pub struct Report {
    pub level: Level,
    /// `"response"` where the endpoint answered, `"error"` where it failed.
    pub message: &'static str,
}

/// Whether `status` says that the server failed.
pub open spec fn is_server_error(status: int) -> bool {
    500 <= status < 600
}

/// Whether `status` says that the client's request was at fault.
pub open spec fn is_client_error(status: int) -> bool {
    400 <= status < 500
}

/// The level at which an outcome with `status` is logged.
pub open spec fn level_of(status: int) -> Level {
    if is_server_error(status) {
        Level::Error
    } else if is_client_error(status) {
        Level::Warn
    } else {
        Level::Debug
    }
}

/// The level at which an outcome with `status` is logged: server errors as
/// errors, client errors as warnings, all else for debugging only.
pub fn level_for(status: u16) -> (level: Level)
    ensures
        level == level_of(status as int),
{
    if 500 <= status && status < 600 {
        Level::Error
    } else if 400 <= status && status < 500 {
        Level::Warn
    } else {
        Level::Debug
    }
}

/// The address that a request is logged under: the one that the proxy
/// headers name, else the peer's.
pub fn logged_addr(real_ip: Option<String>, peer: String) -> (addr: String)
    ensures
        addr == match real_ip {
            Some(ip) => ip,
            None => peer,
        },
{
    match real_ip {
        Some(ip) => ip,
        None => peer,
    }
}

/// The middleware that logs each request of the endpoint it wraps.
#[derive(Debug, Clone, Copy, PartialEq, Eq)]
pub struct Tracing;

impl Default for Tracing {
    fn default() -> (t: Tracing)
        ensures
            t == Tracing,
    {
        Tracing
    }
}

/// An endpoint whose requests are logged.
pub struct TracingEndpoint<E> {
    inner: E,
}

impl Tracing {
    /// Wraps `ep`.
    pub fn transform<E>(&self, ep: E) -> (wrapped: TracingEndpoint<E>)
        ensures
            wrapped.wrapped() == ep,
    {
        TracingEndpoint { inner: ep }
    }
}

impl<E> TracingEndpoint<E> {
    /// The endpoint that is wrapped.
    pub closed spec fn wrapped(&self) -> E {
        self.inner
    }

    /// The endpoint that is wrapped.
    pub fn inner(&self) -> (ep: &E)
        ensures
            *ep == self.wrapped(),
    {
        &self.inner
    }

    /// What to log once the wrapped endpoint is done: `outcome` holds the
    /// status of its response, or of the error it failed with.
    pub fn report(&self, outcome: Result<u16, u16>) -> (report: Report)
        ensures
            match outcome {
                Ok(status) => report.level == level_of(status as int) && report.message@
                    == "response"@,
                Err(status) => report.level == level_of(status as int) && report.message@
                    == "error"@,
            },
    {
        match outcome {
            Ok(status) => Report { level: level_for(status), message: "response" },
            Err(status) => Report { level: level_for(status), message: "error" },
        }
    }
}

} // verus!
