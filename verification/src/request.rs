//! Plain descriptions of the HTTP traffic the two protocol variants need.
//! The library only builds and interprets these values; an outer shell
//! performs the actual network round trips.

use vstd::prelude::*;

verus! {

/// The HTTP method of one request.
#[derive(Clone, Copy, Debug, PartialEq, Eq, Structural)]
pub enum Method {
    Get,
    Post,
}

/// One request to the router, relative to the management base URL.
/// `path_and_query` starting with a slash replaces the base URL's path;
/// otherwise it is joined onto it, exactly as the two firmware generations
/// expect.
#[derive(Debug)]
pub struct HttpRequest {
    pub method: Method,
    pub path_and_query: String,
    pub headers: Vec<(String, String)>,
    pub body: Option<String>,
}

/// How the HTTP client for one login must be configured: the legacy firmware
/// rejects requests without a browser-like signature, and the new firmware
/// keeps its session in cookies.
#[derive(Debug)]
pub struct HttpClientConfig {
    pub cookie_store: bool,
    pub default_headers: Vec<(String, String)>,
    pub user_agent: String,
}

/// The fixed desktop browser signature both variants present.
pub open spec fn spec_user_agent() -> Seq<char> {
    "Mozilla/5.0 (Windows NT 10.0; Win64; x64; rv:138.0) Gecko/20100101 Firefox/138.0"@
}

/// The fixed desktop browser signature both variants present.
pub fn user_agent() -> (r: String)
    ensures
        r@ == spec_user_agent(),
{
    "Mozilla/5.0 (Windows NT 10.0; Win64; x64; rv:138.0) Gecko/20100101 Firefox/138.0".to_owned()
}

} // verus!
