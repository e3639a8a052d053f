use vstd::prelude::*;

verus! {

/// The outcome of a request, as it appears on the status line.
#[derive(Clone, Copy, Debug, PartialEq, Eq, Structural)]
pub enum Status {
    /// `200 OK`
    OK,
    /// `400 BAD REQUEST`
    BadRequest,
    /// `404 NOT FOUND`
    NotFound,
    /// `422 UNPROCESSABLE ENTITY`
    UnprocessableEntity,
    /// `500 INTERNAL SERVER ERROR`
    ServerError,
}

impl Status {
    /// The wire text of a status: the numeric code, a space, and the reason
    /// phrase in upper case.
    pub open spec fn text(self) -> Seq<char> {
        match self {
            Status::OK => "200 OK"@,
            Status::BadRequest => "400 BAD REQUEST"@,
            Status::NotFound => "404 NOT FOUND"@,
            Status::UnprocessableEntity => "422 UNPROCESSABLE ENTITY"@,
            Status::ServerError => "500 INTERNAL SERVER ERROR"@,
        }
    }

    /// The wire text of this status as a string slice.
    pub fn as_str(&self) -> (text: &'static str)
        ensures
            text@ == self.text(),
    {
        match self {
            Status::OK => "200 OK",
            Status::BadRequest => "400 BAD REQUEST",
            Status::NotFound => "404 NOT FOUND",
            Status::UnprocessableEntity => "422 UNPROCESSABLE ENTITY",
            Status::ServerError => "500 INTERNAL SERVER ERROR",
        }
    }
}

} // verus!
