use vstd::prelude::*;
use vstd::string::*;

use crate::http_status_code::{spec_status_digits, spec_status_name, HTTPStatusCode};

verus! {

/// The outcome of one request: a status class and a human-readable message.
pub struct ResponseData {
    pub code: HTTPStatusCode,
    pub content: String,
}

impl ResponseData {
    pub fn configure_success() -> (r: Self)
        ensures
            r.code == HTTPStatusCode::OK,
            r.content@ == "Configuration completed successfullly."@,
    {
        ResponseData { code: HTTPStatusCode::OK, content: "Configuration completed successfullly.".to_owned() }
    }

    pub fn not_found() -> (r: Self)
        ensures
            r.code == HTTPStatusCode::NotFound,
            r.content@ == Seq::<char>::empty(),
    {
        ResponseData { code: HTTPStatusCode::NotFound, content: String::new() }
    }

    pub fn limb_not_found() -> (r: Self)
        ensures
            r.code == HTTPStatusCode::NotFound,
            r.content@ == "That limb does not exist."@,
    {
        ResponseData { code: HTTPStatusCode::NotFound, content: "That limb does not exist.".to_owned() }
    }

    pub fn ok(content: &str) -> (r: Self)
        ensures
            r.code == HTTPStatusCode::OK,
            r.content@ == content@,
    {
        ResponseData { code: HTTPStatusCode::OK, content: content.to_owned() }
    }

    pub fn bad_request(content: &str) -> (r: Self)
        ensures
            r.code == HTTPStatusCode::BadRequest,
            r.content@ == content@,
    {
        ResponseData { code: HTTPStatusCode::BadRequest, content: content.to_owned() }
    }

    pub fn method_not_allowed(content: &str) -> (r: Self)
        ensures
            r.code == HTTPStatusCode::MethodNotAllowed,
            r.content@ == content@,
    {
        ResponseData { code: HTTPStatusCode::MethodNotAllowed, content: content.to_owned() }
    }

    pub fn not_implemented(content: &str) -> (r: Self)
        ensures
            r.code == HTTPStatusCode::NotImplemented,
            r.content@ == content@,
    {
        ResponseData { code: HTTPStatusCode::NotImplemented, content: content.to_owned() }
    }

    pub fn forbidden() -> (r: Self)
        ensures
            r.code == HTTPStatusCode::Forbidden,
            r.content@ == Seq::<char>::empty(),
    {
        ResponseData { code: HTTPStatusCode::Forbidden, content: String::new() }
    }

    /// The body sent for this response: the content alone where the status is OK,
    /// else the numeric status, its name and, on the next line, the content.
    pub fn rendered(&self) -> (r: String)
        ensures
            r@ == if self.code == HTTPStatusCode::OK {
                self.content@
            } else {
                spec_status_digits(self.code) + " "@ + spec_status_name(self.code) + "\n"@ + self.content@
            },
    {
        match self.code {
            HTTPStatusCode::OK => self.content.clone(),
            _ => {
                let mut r = String::from_str(self.code.digits());
                r.append(" ");
                r.append(self.code.name());
                r.append("\n");
                r.append(self.content.as_str());
                r
            },
        }
    }

    pub fn site_index() -> (r: Self)
        ensures
            r.code == HTTPStatusCode::OK,
            r.content@ == "PHAL Server"@,
    {
        Self::ok("PHAL Server")
    }
}

} // verus!
