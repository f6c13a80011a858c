//! Error replies of the gateway, and the conversions of `Option` and
//! `Result` into them.
use vstd::prelude::*;

verus! {

/// The ways in which a gateway request can fail. Each is answered with its
/// HTTP status and a JSON body `{"error": <message>}`.
#[derive(Debug, Clone, Copy, PartialEq, Eq, Structural)]
pub enum Failure {
    NotFound,
    InternalServerError,
    BadRequest,
}

/// The HTTP status code of a failure.
pub open spec fn failure_status(f: Failure) -> u16 {
    match f {
        Failure::NotFound => 404,
        Failure::InternalServerError => 500,
        Failure::BadRequest => 400,
    }
}

impl Failure {
    /// The HTTP status code of this failure.
    pub fn status(&self) -> (r: u16)
        ensures
            r == failure_status(*self),
    {
        match self {
            Failure::NotFound => 404,
            Failure::InternalServerError => 500,
            Failure::BadRequest => 400,
        }
    }

    /// The text of the `error` field of the reply body.
    pub fn message(&self) -> (r: &'static str)
        ensures
            *self == Failure::NotFound ==> r@ == "Function not found"@,
            *self == Failure::InternalServerError ==> r@ == "Internal server error"@,
            *self == Failure::BadRequest ==> r@ == "Bad request"@,
    {
        match self {
            Failure::NotFound => "Function not found",
            Failure::InternalServerError => "Internal server error",
            Failure::BadRequest => "Bad request",
        }
    }
}

/// A missing value answers "not found".
pub trait FunctionNotFound<T>: Sized {
    /// The value carried, if any.
    spec fn present(self) -> Option<T>;

    fn or_not_found(self) -> (r: Result<T, Failure>)
        ensures
            r == (match self.present() {
                Some(v) => Ok(v),
                None => Err(Failure::NotFound),
            }),
    ;
}

impl<T> FunctionNotFound<T> for Option<T> {
    open spec fn present(self) -> Option<T> {
        self
    }

    fn or_not_found(self) -> (r: Result<T, Failure>) {
        match self {
            Some(v) => Ok(v),
            None => Err(Failure::NotFound),
        }
    }
}

impl<T, E> FunctionNotFound<T> for Result<T, E> {
    open spec fn present(self) -> Option<T> {
        match self {
            Ok(v) => Some(v),
            Err(_) => None,
        }
    }

    fn or_not_found(self) -> (r: Result<T, Failure>) {
        match self {
            Ok(v) => Ok(v),
            Err(_) => Err(Failure::NotFound),
        }
    }
}

/// A missing value or an error answers "internal server error". The message
/// names the operation that failed; the reply does not depend on it.
pub trait InternalServerError<T>: Sized {
    /// The value carried, if any.
    spec fn available(self) -> Option<T>;

    fn or_internal_error(self, message: &str) -> (r: Result<T, Failure>)
        ensures
            r == (match self.available() {
                Some(v) => Ok(v),
                None => Err(Failure::InternalServerError),
            }),
    ;
}

impl<T, E> InternalServerError<T> for Result<T, E> {
    open spec fn available(self) -> Option<T> {
        match self {
            Ok(v) => Some(v),
            Err(_) => None,
        }
    }

    fn or_internal_error(self, message: &str) -> (r: Result<T, Failure>) {
        match self {
            Ok(v) => Ok(v),
            Err(_) => Err(Failure::InternalServerError),
        }
    }
}

impl<T> InternalServerError<T> for Option<T> {
    open spec fn available(self) -> Option<T> {
        self
    }

    fn or_internal_error(self, message: &str) -> (r: Result<T, Failure>) {
        match self {
            Some(v) => Ok(v),
            None => Err(Failure::InternalServerError),
        }
    }
}

/// An error answers "bad request". The message names what could not be
/// read; the reply does not depend on it.
pub trait BadRequest<T>: Sized {
    /// The value carried, if any.
    spec fn accepted(self) -> Option<T>;

    fn or_bad_request(self, message: &str) -> (r: Result<T, Failure>)
        ensures
            r == (match self.accepted() {
                Some(v) => Ok(v),
                None => Err(Failure::BadRequest),
            }),
    ;
}

impl<T, E> BadRequest<T> for Result<T, E> {
    open spec fn accepted(self) -> Option<T> {
        match self {
            Ok(v) => Some(v),
            Err(_) => None,
        }
    }

    fn or_bad_request(self, message: &str) -> (r: Result<T, Failure>) {
        match self {
            Ok(v) => Ok(v),
            Err(_) => Err(Failure::BadRequest),
        }
    }
}

} // verus!
