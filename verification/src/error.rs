//! Failures as the HTTP edge reports them: a status code and a message.

use vstd::prelude::*;
use vstd::string::*;

verus! {

/// Status of a request that is malformed.
pub const BAD_REQUEST: u16 = 400;

/// Status of a request that carries no valid session or lacks the role.
pub const UNAUTHORIZED: u16 = 401;

/// Status of a request that failed on a collaborator's side.
pub const INTERNAL_SERVER_ERROR: u16 = 500;

/// A failure as it is handed to the client.
#[derive(Debug, PartialEq, Eq)]
pub struct RespError {
    pub status: u16,
    pub message: String,
}

/// What a [`RespError`] holds, as mathematical values.
pub ghost struct RespErrorView {
    pub status: int,
    pub message: Seq<char>,
}

impl View for RespError {
    type V = RespErrorView;

    open spec fn view(&self) -> RespErrorView {
        RespErrorView { status: self.status as int, message: self.message@ }
    }
}

impl Clone for RespError {
    fn clone(&self) -> (copy: Self)
        ensures
            copy@ == self@,
    {
        RespError { status: self.status, message: self.message.clone() }
    }
}

impl RespError {
    /// A failure with the given status and message.
    pub fn new(status: u16, message: &str) -> (e: RespError)
        ensures
            e@ == (RespErrorView { status: status as int, message: message@ }),
    {
        RespError { status, message: String::from_str(message) }
    }
}

/// Turns the failure of a step into the failure that the client sees, and
/// keeps what caused it.
pub trait WrapRespErr<T, E>: Sized {
    /// What the step gave: its value, or the error it failed with.
    spec fn outcome(self) -> Result<T, E>;

    /// Keeps a success as it is. A failure becomes the pair of what the
    /// client is told, `status` and `msg`, and the error that is wrapped,
    /// unchanged.
    fn wrap_resp_err(self, status: u16, msg: &str) -> (r: Result<T, (RespError, E)>)
        ensures
            match self.outcome() {
                Ok(t) => r == Ok::<T, (RespError, E)>(t),
                Err(cause) => r is Err && r->Err_0.0@ == (RespErrorView {
                    status: status as int,
                    message: msg@,
                }) && r->Err_0.1 == cause,
            },
    ;
}

impl<T, E> WrapRespErr<T, E> for Result<T, E> {
    open spec fn outcome(self) -> Result<T, E> {
        self
    }

    fn wrap_resp_err(self, status: u16, msg: &str) -> (r: Result<T, (RespError, E)>) {
        match self {
            Ok(t) => Ok(t),
            Err(cause) => Err((RespError::new(status, msg), cause)),
        }
    }
}

} // verus!
