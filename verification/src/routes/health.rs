//! Liveness probe.

use vstd::prelude::*;

verus! {

/// The HTTP statuses this service answers with.
#[derive(Clone, Copy, Debug, PartialEq, Eq, Structural)]
pub enum Status {
    Success,
    SeeOther,
    BadRequest,
    Unauthorized,
    Forbidden,
    NotFound,
    InternalServerError,
}

impl Status {
    /// The numeric status code.
    pub open spec fn spec_code(self) -> int {
        match self {
            Status::Success => 200,
            Status::SeeOther => 303,
            Status::BadRequest => 400,
            Status::Unauthorized => 401,
            Status::Forbidden => 403,
            Status::NotFound => 404,
            Status::InternalServerError => 500,
        }
    }

    /// The numeric status code.
    pub fn code(&self) -> (c: u16)
        ensures
            c == self.spec_code(),
    {
        match self {
            Status::Success => 200,
            Status::SeeOther => 303,
            Status::BadRequest => 400,
            Status::Unauthorized => 401,
            Status::Forbidden => 403,
            Status::NotFound => 404,
            Status::InternalServerError => 500,
        }
    }
}

/// An answer that sends the user agent elsewhere.
#[derive(Debug)]
pub struct Redirect {
    pub location: String,
}

impl Redirect {
    /// A redirect is answered 303.
    pub fn status(&self) -> (s: Status)
        ensures
            s == Status::SeeOther,
    {
        Status::SeeOther
    }
}

/// The liveness probe always answers 200.
pub fn health_check() -> (s: Status)
    ensures
        s == Status::Success,
{
    Status::Success
}

} // verus!
