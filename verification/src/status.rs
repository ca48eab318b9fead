//! The statuses that the node answers requests with.
use vstd::prelude::*;

verus! {

/// How a request was answered.
#[derive(Clone, Copy, Debug, PartialEq, Eq, Structural)]
pub enum Status {
    Done,
    Created,
    BadRequest,
    Forbidden,
    NotFound,
    Conflict,
    TooManyRequests,
    InternalServerError,
}

impl Status {
    /// The HTTP status code.
    pub open spec fn spec_code(self) -> u16 {
        match self {
            Status::Done => 200,
            Status::Created => 201,
            Status::BadRequest => 400,
            Status::Forbidden => 403,
            Status::NotFound => 404,
            Status::Conflict => 409,
            Status::TooManyRequests => 429,
            Status::InternalServerError => 500,
        }
    }

    /// The HTTP status code.
    pub fn code(self) -> (c: u16)
        ensures
            c == self.spec_code(),
    {
        match self {
            Status::Done => 200,
            Status::Created => 201,
            Status::BadRequest => 400,
            Status::Forbidden => 403,
            Status::NotFound => 404,
            Status::Conflict => 409,
            Status::TooManyRequests => 429,
            Status::InternalServerError => 500,
        }
    }
}

/// The status after a row was written, or was not.
pub open spec fn written_status(written: bool) -> Status {
    if written {
        Status::Created
    } else {
        Status::InternalServerError
    }
}

/// The status after a row was written, or was not.
pub fn write_status(written: bool) -> (s: Status)
    ensures
        s == written_status(written),
{
    if written {
        Status::Created
    } else {
        Status::InternalServerError
    }
}

/// The code of a status is the HTTP code of its name, and each status has its own.
pub proof fn law_status_codes(s: Status, c: u16)
    requires
        call_ensures(Status::code, (s,), c),
    ensures
        s == Status::Done <==> c == 200,
        s == Status::Created <==> c == 201,
        s == Status::BadRequest <==> c == 400,
        s == Status::Forbidden <==> c == 403,
        s == Status::NotFound <==> c == 404,
        s == Status::Conflict <==> c == 409,
        s == Status::TooManyRequests <==> c == 429,
        s == Status::InternalServerError <==> c == 500,
{
}

/// A row that was written is answered with `Created`, and one that was not with
/// `InternalServerError`.
pub proof fn law_write_status(written: bool, s: Status)
    requires
        call_ensures(write_status, (written,), s),
    ensures
        written <==> s == Status::Created,
        !written <==> s == Status::InternalServerError,
{
}

} // verus!
