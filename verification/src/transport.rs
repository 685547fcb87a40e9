//! The HTTP client library as the governor sees it: opaque requests,
//! responses and errors that are carried through, and the few calls that the
//! decisions are made from. Nothing in this file is proved; each contract is
//! taken from the library's source. Where a call returns an opaque value
//! that depends on its arguments alone, the value has a name here, so that
//! the contracts built on the call can say which value they mean.

use vstd::prelude::*;

verus! {

/// `reqwest::Client`, the handle to the outbound connection pool: opaque.
#[verifier::external_type_specification]
#[verifier::external_body]
pub struct ExClient(reqwest::Client);

/// `reqwest::Request`, a request that is ready to be sent: opaque.
#[verifier::external_type_specification]
#[verifier::external_body]
pub struct ExRequest(reqwest::Request);

/// `reqwest::Response`, a response whose body is yet to be read: opaque.
#[verifier::external_type_specification]
#[verifier::external_body]
pub struct ExResponse(reqwest::Response);

/// `reqwest::Error`, whatever went wrong in the client library: opaque.
#[verifier::external_type_specification]
#[verifier::external_body]
pub struct ExError(reqwest::Error);

/// What every upstream URL begins with: the scheme, the host and the root of
/// the path.
pub open spec fn upstream_root() -> Seq<char> {
    "https://api.beatsaver.com/maps/"@
}

/// Whether a URL lies under the upstream's root.
pub open spec fn is_upstream_url(url: Seq<char>) -> bool {
    url.len() >= upstream_root().len() && url.subrange(0, upstream_root().len() as int)
        == upstream_root()
}

/// What the client library makes of a URL: the GET request for it, or the
/// error of a text that does not parse as a URL with a host. It depends on
/// the text of the URL alone, not on the client that builds it.
pub uninterp spec fn built_get(url: Seq<char>) -> Result<reqwest::Request, reqwest::Error>;

/// The second request that the client library makes of a request: one like
/// the first, or `None` where the body cannot be read twice.
pub uninterp spec fn request_copy(request: reqwest::Request) -> Option<reqwest::Request>;

/// The status that a response carries.
pub uninterp spec fn response_status(response: reqwest::Response) -> u16;

/// `reqwest::Client::get` followed by `RequestBuilder::build`: what the
/// library makes of the URL, whichever client is asked. The URL lies under
/// the upstream's root, so that it names no user and no password, which the
/// library would move into a header.
#[verifier::external_body]
pub(crate) fn build_get(client: &reqwest::Client, url: &str) -> (built: Result<
    reqwest::Request,
    reqwest::Error,
>)
    requires
        is_upstream_url(url@),
    ensures
        built == built_get(url@),
{
    client.get(url).build()
}

/// `reqwest::Request::try_clone`: the copy that the library makes of the
/// request. Nothing is claimed of when there is one.
#[verifier::external_body]
pub(crate) fn try_clone_request(request: &reqwest::Request) -> (copy: Option<reqwest::Request>)
    ensures
        copy == request_copy(*request),
{
    request.try_clone()
}

/// `reqwest::Response::status` as a number, through `StatusCode::as_u16`:
/// the status that the response carries. Nothing is claimed of the number.
#[verifier::external_body]
pub(crate) fn status_of(response: &reqwest::Response) -> (status: u16)
    ensures
        status == response_status(*response),
{
    response.status().as_u16()
}

/// `http::StatusCode::from_u16` accepts a number exactly when it has three
/// digits, that is from 100 up to 999.
#[verifier::external_body]
pub(crate) fn is_status_code(code: u16) -> (valid: bool)
    ensures
        valid == (100 <= code && code < 1000),
{
    warp::http::StatusCode::from_u16(code).is_ok()
}

/// The `Debug` text of a `reqwest::Error` behind a fixed lead: the result
/// begins with the lead, and nothing is claimed of what follows it.
#[verifier::external_body]
pub(crate) fn describe_error(lead: &str, error: &reqwest::Error) -> (text: String)
    ensures
        text@.len() >= lead@.len(),
        text@.subrange(0, lead@.len() as int) == lead@,
{
    format!("{}{:?}", lead, error)
}

} // verus!
