use vstd::prelude::*;

verus! {

/// The classes of failure that a route can report.
#[derive(Clone, Copy, Debug, PartialEq, Eq, Structural)]
pub enum ErrorKind {
    BadRequest,
    Unauthorized,
    NotFound,
    Conflict,
    Forbidden,
    Internal,
}

/// The HTTP status that carries each class of failure.
pub open spec fn status_of(kind: ErrorKind) -> u16 {
    match kind {
        ErrorKind::BadRequest => 400,
        ErrorKind::Unauthorized => 401,
        ErrorKind::NotFound => 404,
        ErrorKind::Conflict => 409,
        ErrorKind::Forbidden => 403,
        ErrorKind::Internal => 500,
    }
}

impl ErrorKind {
    /// The HTTP status code of this class of failure.
    pub fn status_code(&self) -> (r: u16)
        ensures
            r == status_of(*self),
    {
        match self {
            ErrorKind::BadRequest => 400,
            ErrorKind::Unauthorized => 401,
            ErrorKind::NotFound => 404,
            ErrorKind::Conflict => 409,
            ErrorKind::Forbidden => 403,
            ErrorKind::Internal => 500,
        }
    }
}

/// Any error that a route of the server can report: its class and a
/// plain-text message for the response body.
#[derive(Clone, Debug)]
pub struct ServerError {
    pub kind: ErrorKind,
    pub message: String,
}

impl ServerError {
    /// The HTTP status code that this error is reported with.
    pub fn status_code(&self) -> (r: u16)
        ensures
            r == status_of(self.kind),
    {
        self.kind.status_code()
    }
}

/// A `BadRequest` error with the given message.
pub fn bad_request(message: &str) -> (r: ServerError)
    ensures
        r.kind == ErrorKind::BadRequest,
        r.message@ == message@,
{
    ServerError { kind: ErrorKind::BadRequest, message: message.to_string() }
}

/// A `NotFound` error with the given message.
pub fn not_found(message: &str) -> (r: ServerError)
    ensures
        r.kind == ErrorKind::NotFound,
        r.message@ == message@,
{
    ServerError { kind: ErrorKind::NotFound, message: message.to_string() }
}

/// An `Internal` error with the given message.
pub fn internal(message: &str) -> (r: ServerError)
    ensures
        r.kind == ErrorKind::Internal,
        r.message@ == message@,
{
    ServerError { kind: ErrorKind::Internal, message: message.to_string() }
}

/// A `Conflict` error with the given message.
pub fn conflict(message: &str) -> (r: ServerError)
    ensures
        r.kind == ErrorKind::Conflict,
        r.message@ == message@,
{
    ServerError { kind: ErrorKind::Conflict, message: message.to_string() }
}

/// A `Forbidden` error with the given message.
pub fn forbidden(message: &str) -> (r: ServerError)
    ensures
        r.kind == ErrorKind::Forbidden,
        r.message@ == message@,
{
    ServerError { kind: ErrorKind::Forbidden, message: message.to_string() }
}

} // verus!
