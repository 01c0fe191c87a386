use vstd::prelude::*;
use crate::headers::Headers;

verus! {

/// What a script asks for when it starts a request.
pub struct HttpRequest {
    pub url: String,
    pub method: String,
    pub headers: Headers,
    pub body: Vec<u8>,
    pub text_body: Option<String>,
    pub timeout_ms: u64,
}

impl HttpRequest {
    /// A request to `url` with every other field at its default: method
    /// `GET`, no headers, an empty body, no text body, a 30 s deadline.
    pub fn new(url: String) -> (r: HttpRequest)
        ensures
            r.url == url,
            r.method@ == "GET"@,
            r.headers@.len() == 0,
            r.body@.len() == 0,
            r.text_body is None,
            r.timeout_ms == 30_000,
    {
        HttpRequest {
            url,
            method: default_method(),
            headers: Headers::default(),
            body: Vec::new(),
            text_body: None,
            timeout_ms: default_timeout(),
        }
    }
}

/// Method used when the script names none.
pub fn default_method() -> (r: String)
    ensures
        r@ == "GET"@,
{
    String::from_str("GET")
}

/// Deadline, in milliseconds, used when the script names none.
pub fn default_timeout() -> (r: u64)
    ensures
        r == 30_000,
{
    30_000
}

} // verus!
