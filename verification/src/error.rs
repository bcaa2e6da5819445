//! Errors: a category and a message for the caller.

use vstd::prelude::*;
use vstd::string::StringExecFns;

verus! {

/// Category of error.
#[derive(Debug, Copy, Clone, PartialEq, Eq, Structural)]
pub enum ErrorCode {
    /// The host, port, or interface was incorrect.
    CouldNotResolveAddr,
    /// Called methods in the wrong order. E.g. `symbol` after `column`.
    InvalidApiCall,
    /// A network error connecting or flushing data out.
    SocketError,
    /// The string or symbol field is not encoded in valid UTF-8.
    InvalidUtf8,
    /// The table name, symbol name or column name contains bad characters.
    InvalidName,
}

/// An error with its category and a message for a human reader.
#[derive(Debug)]
pub struct Error {
    code: ErrorCode,
    msg: String,
}

/// What an [`Error`] holds, as mathematical values.
pub struct ErrorView {
    pub code: ErrorCode,
    pub msg: Seq<char>,
}

impl View for Error {
    type V = ErrorView;

    closed spec fn view(&self) -> ErrorView {
        ErrorView { code: self.code, msg: self.msg@ }
    }
}

impl Error {
    /// An error of category `code` with the message `msg`.
    pub fn new(code: ErrorCode, msg: String) -> (e: Error)
        ensures
            e@ == (ErrorView { code, msg: msg@ }),
    {
        Error { code, msg }
    }

    /// The category of the error.
    pub fn code(&self) -> (c: ErrorCode)
        ensures
            c == self@.code,
    {
        self.code
    }

    /// The message of the error.
    pub fn msg(&self) -> (m: &str)
        ensures
            m@ == self@.msg,
    {
        self.msg.as_str()
    }
}

/// The view of a result that carries no value on success.
pub open spec fn outcome(r: Result<(), Error>) -> Result<(), ErrorView> {
    match r {
        Ok(_) => Ok(()),
        Err(e) => Err(e@),
    }
}

/// The error for a failed transport step: the category `SocketError` and
/// the text of the underlying failure after `prefix`.
pub open spec fn socket_error(prefix: Seq<char>, io_err: Seq<char>) -> ErrorView {
    ErrorView { code: ErrorCode::SocketError, msg: prefix + io_err }
}

/// Turns the text of a failed transport step into an error: `prefix` says
/// which step failed, `io_err` is what the transport reported.
pub fn map_io_to_socket_err(prefix: &str, io_err: &str) -> (e: Error)
    ensures
        e@ == socket_error(prefix@, io_err@),
{
    let mut msg = String::new();
    msg.append(prefix);
    msg.append(io_err);
    Error::new(ErrorCode::SocketError, msg)
}

/// The message for a call that the state `advice` belongs to refuses.
pub open spec fn state_error_msg(op: Seq<char>, advice: Seq<char>) -> Seq<char> {
    "State error: Bad call to `"@ + op + "`, "@ + advice + ". Must now call `close`."@
}

/// The error for a call made out of order: `op` names the call and
/// `advice` says what should have been called.
pub fn state_error(op: &str, advice: &str) -> (e: Error)
    ensures
        e@ == (ErrorView {
            code: ErrorCode::InvalidApiCall,
            msg: state_error_msg(op@, advice@),
        }),
{
    let mut msg = String::new();
    msg.append("State error: Bad call to `");
    msg.append(op);
    msg.append("`, ");
    msg.append(advice);
    msg.append(". Must now call `close`.");
    Error::new(ErrorCode::InvalidApiCall, msg)
}

} // verus!
