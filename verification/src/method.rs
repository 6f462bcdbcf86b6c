//! The HTTP methods a webhook request can use.

use vstd::prelude::*;

verus! {

/// An HTTP request method.
#[derive(Debug, Clone, Copy, PartialEq, Eq, Structural)]
pub enum HttpMethod {
    Options,
    Get,
    Post,
    Put,
    Delete,
    Head,
    Trace,
    Connect,
    Patch,
}

impl HttpMethod {
    /// The method's name as it appears in a request line.
    pub fn as_str(&self) -> (res: &'static str)
        ensures
            res@ == method_name(*self),
    {
        match self {
            HttpMethod::Options => "OPTIONS",
            HttpMethod::Get => "GET",
            HttpMethod::Post => "POST",
            HttpMethod::Put => "PUT",
            HttpMethod::Delete => "DELETE",
            HttpMethod::Head => "HEAD",
            HttpMethod::Trace => "TRACE",
            HttpMethod::Connect => "CONNECT",
            HttpMethod::Patch => "PATCH",
        }
    }
}

/// The name of `method` as it appears in a request line.
pub open spec fn method_name(method: HttpMethod) -> Seq<char> {
    match method {
        HttpMethod::Options => "OPTIONS"@,
        HttpMethod::Get => "GET"@,
        HttpMethod::Post => "POST"@,
        HttpMethod::Put => "PUT"@,
        HttpMethod::Delete => "DELETE"@,
        HttpMethod::Head => "HEAD"@,
        HttpMethod::Trace => "TRACE"@,
        HttpMethod::Connect => "CONNECT"@,
        HttpMethod::Patch => "PATCH"@,
    }
}

} // verus!
