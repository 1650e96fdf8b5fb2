//! The requests that the collector sends to the appliance, as plain values,
//! and the ways in which they fail. Sending them is left to the caller.

use vstd::prelude::*;
use vstd::string::StringExecFns;
use crate::api::{AuthRequest, AuthResponse};
use crate::text::{decimal, decimal_string};
use crate::window::WindowBoundary;

verus! {

/// Why a call to the appliance gave no usable response.
#[derive(Clone, Copy, Debug, PartialEq, Eq, Structural)]
pub enum FetchError {
    /// No response came within the time allowed for one call.
    Timeout,
    /// The connection failed for another reason.
    Network,
    /// The response carried a status other than success.
    Status(u16),
    /// The body was not the JSON that the endpoint is meant to return.
    Malformed,
}

/// Why the exporter could not do what was asked of it.
#[derive(Clone, Copy, Debug, PartialEq, Eq, Structural)]
pub enum ExporterError {
    /// The credential exchange at startup failed.
    Auth(FetchError),
    /// One of the calls of a cycle failed.
    Fetch(FetchError),
    /// The metric store could not be written out.
    Encode,
}

/// The number of seconds allowed for one call.
pub const TIMEOUT_SECONDS: u64 = 30;

/// The address of the appliance: the scheme, by whether TLS is used, and the
/// host.
pub open spec fn spec_base_url(host: Seq<char>, tls: bool) -> Seq<char> {
    (if tls {
        "https"@
    } else {
        "http"@
    }) + "://"@ + host
}

/// The address of one resource of the appliance's API.
pub open spec fn spec_api_url(base: Seq<char>, path: Seq<char>) -> Seq<char> {
    base + "/api/"@ + path
}

/// The path of the query log of one window, with its length limit.
pub open spec fn spec_queries_path(window: WindowBoundary) -> Seq<char> {
    "queries?from="@ + decimal(window.start as nat) + "&until="@ + decimal(window.end as nat)
        + "&length=1000000"@
}

/// The headers of a read: JSON is asked for, and the session token goes
/// along where there is one.
pub open spec fn spec_read_headers(sid: Option<String>) -> Seq<(Seq<char>, Seq<char>)> {
    match sid {
        Some(token) => seq![("accept"@, "application/json"@), ("sid"@, token@)],
        None => seq![("accept"@, "application/json"@)],
    }
}

/// The headers of the credential exchange: JSON is asked for and sent.
pub open spec fn spec_auth_headers() -> Seq<(Seq<char>, Seq<char>)> {
    seq![("accept"@, "application/json"@), ("content-type"@, "application/json"@)]
}

/// Whether a status code reports success.
pub open spec fn is_success(status: u16) -> bool {
    200 <= status < 300
}

/// A read of one resource: where to send it and with which headers.
#[derive(Debug)]
pub struct ApiRequest {
    pub url: String,
    pub headers: Vec<(String, String)>,
}

/// The credential exchange: where to send it, with which headers and body.
#[derive(Debug)]
pub struct AuthCall {
    pub url: String,
    pub headers: Vec<(String, String)>,
    pub body: AuthRequest,
}

/// Builds the address of the appliance.
pub fn base_url(host: &str, tls: bool) -> (base: String)
    ensures
        base@ == spec_base_url(host@, tls),
{
    let scheme = if tls {
        "https"
    } else {
        "http"
    };
    String::from_str(scheme).concat("://").concat(host)
}

/// Builds the address of one resource of the appliance's API.
pub fn api_url(base: &str, path: &str) -> (url: String)
    ensures
        url@ == spec_api_url(base@, path@),
{
    String::from_str(base).concat("/api/").concat(path)
}

/// The path of the summary statistics.
pub fn summary_path() -> (path: &'static str)
    ensures
        path@ == "stats/summary"@,
{
    "stats/summary"
}

/// The path of the upstream statistics.
pub fn upstreams_path() -> (path: &'static str)
    ensures
        path@ == "stats/upstreams"@,
{
    "stats/upstreams"
}

/// Builds the path of the query log of one window.
pub fn queries_path(window: WindowBoundary) -> (path: String)
    ensures
        path@ == spec_queries_path(window),
{
    let from = decimal_string(window.start);
    let until = decimal_string(window.end);
    String::from_str("queries?from=").concat(from.as_str()).concat("&until=").concat(
        until.as_str(),
    ).concat("&length=1000000")
}

/// Builds the headers of a read.
pub fn read_headers(sid: &Option<String>) -> (headers: Vec<(String, String)>)
    ensures
        headers.deep_view() == spec_read_headers(*sid),
{
    let mut headers = vec![(String::from_str("accept"), String::from_str("application/json"))];
    match sid {
        Some(token) => {
            headers.push((String::from_str("sid"), token.clone()));
        },
        None => {},
    }
    assert(headers.deep_view() =~= spec_read_headers(*sid));
    headers
}

/// Builds a read of one resource.
pub fn read_request(base: &str, path: &str, sid: &Option<String>) -> (request: ApiRequest)
    ensures
        request.url@ == spec_api_url(base@, path@),
        request.headers.deep_view() == spec_read_headers(*sid),
{
    ApiRequest { url: api_url(base, path), headers: read_headers(sid) }
}

/// Builds the credential exchange for a password.
pub fn auth_call(base: &str, password: &str) -> (call: AuthCall)
    ensures
        call.url@ == spec_api_url(base@, "auth"@),
        call.headers.deep_view() == spec_auth_headers(),
        call.body.password@ == password@,
{
    let headers = vec![
        (String::from_str("accept"), String::from_str("application/json")),
        (String::from_str("content-type"), String::from_str("application/json")),
    ];
    assert(headers.deep_view() =~= spec_auth_headers());
    AuthCall {
        url: api_url(base, "auth"),
        headers,
        body: AuthRequest { password: String::from_str(password) },
    }
}

/// Judges the status of a response: any status but success is an error that
/// carries the status.
pub fn check_status(status: u16) -> (outcome: Result<(), FetchError>)
    ensures
        outcome == (if is_success(status) {
            Ok::<(), FetchError>(())
        } else {
            Err(FetchError::Status(status))
        }),
{
    if 200 <= status && status < 300 {
        Ok(())
    } else {
        Err(FetchError::Status(status))
    }
}

/// The session that the credential exchange gave: none where no credential
/// is configured, the token of the response where the exchange succeeded, and
/// an authentication error for every failure of it.
pub fn session_of(auth: Option<Result<AuthResponse, FetchError>>) -> (session: Result<
    Option<String>,
    ExporterError,
>)
    ensures
        match auth {
            None => session == Ok::<Option<String>, ExporterError>(None),
            Some(Ok(response)) => session == Ok::<Option<String>, ExporterError>(
                Some(response.session.sid),
            ),
            Some(Err(e)) => session == Err::<Option<String>, ExporterError>(ExporterError::Auth(e)),
        },
{
    match auth {
        None => Ok(None),
        Some(Ok(response)) => Ok(Some(response.session.sid)),
        Some(Err(e)) => Err(ExporterError::Auth(e)),
    }
}

} // verus!
