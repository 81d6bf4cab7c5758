use vstd::prelude::*;

verus! {

/// The status classes that a response can carry.
#[derive(Clone, Copy, Debug, PartialEq, Eq, Structural)]
pub enum HTTPStatusCode {
    OK,
    BadRequest,
    Forbidden,
    NotFound,
    MethodNotAllowed,
    NotImplemented,
}

/// The numeric HTTP status of each class.
pub open spec fn spec_status_code(c: HTTPStatusCode) -> u16 {
    match c {
        HTTPStatusCode::OK => 200,
        HTTPStatusCode::BadRequest => 400,
        HTTPStatusCode::Forbidden => 403,
        HTTPStatusCode::NotFound => 404,
        HTTPStatusCode::MethodNotAllowed => 405,
        HTTPStatusCode::NotImplemented => 501,
    }
}

/// The reason phrase of each class.
pub open spec fn spec_status_name(c: HTTPStatusCode) -> Seq<char> {
    match c {
        HTTPStatusCode::OK => "OK"@,
        HTTPStatusCode::BadRequest => "Bad request"@,
        HTTPStatusCode::Forbidden => "Forbidden"@,
        HTTPStatusCode::NotFound => "Not found"@,
        HTTPStatusCode::MethodNotAllowed => "Method not allowed"@,
        HTTPStatusCode::NotImplemented => "Not implemented"@,
    }
}

/// The numeric status of each class, in decimal digits.
pub open spec fn spec_status_digits(c: HTTPStatusCode) -> Seq<char> {
    match c {
        HTTPStatusCode::OK => "200"@,
        HTTPStatusCode::BadRequest => "400"@,
        HTTPStatusCode::Forbidden => "403"@,
        HTTPStatusCode::NotFound => "404"@,
        HTTPStatusCode::MethodNotAllowed => "405"@,
        HTTPStatusCode::NotImplemented => "501"@,
    }
}

impl HTTPStatusCode {
    /// The numeric status in decimal digits.
    pub fn digits(&self) -> (r: &'static str)
        ensures
            r@ == spec_status_digits(*self),
    {
        match self {
            HTTPStatusCode::OK => "200",
            HTTPStatusCode::BadRequest => "400",
            HTTPStatusCode::Forbidden => "403",
            HTTPStatusCode::NotFound => "404",
            HTTPStatusCode::MethodNotAllowed => "405",
            HTTPStatusCode::NotImplemented => "501",
        }
    }

    pub fn status_code(&self) -> (r: u16)
        ensures
            r == spec_status_code(*self),
    {
        match self {
            HTTPStatusCode::OK => 200,
            HTTPStatusCode::BadRequest => 400,
            HTTPStatusCode::Forbidden => 403,
            HTTPStatusCode::NotFound => 404,
            HTTPStatusCode::MethodNotAllowed => 405,
            HTTPStatusCode::NotImplemented => 501,
        }
    }

    pub fn name(&self) -> (r: &'static str)
        ensures
            r@ == spec_status_name(*self),
    {
        match self {
            HTTPStatusCode::OK => "OK",
            HTTPStatusCode::BadRequest => "Bad request",
            HTTPStatusCode::Forbidden => "Forbidden",
            HTTPStatusCode::NotFound => "Not found",
            HTTPStatusCode::MethodNotAllowed => "Method not allowed",
            HTTPStatusCode::NotImplemented => "Not implemented",
        }
    }
}

} // verus!
