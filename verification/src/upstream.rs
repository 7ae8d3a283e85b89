//! The calls into the HTTP client crate and the URL parser.

use crate::error::ProxyError;
use vstd::prelude::*;

verus! {

/// Seconds after which a request to a target is given up.
pub const REQUEST_TIMEOUT_SECS: u64 = 30;

/// A client of the HTTP client crate; opaque here.
#[verifier::external_type_specification]
#[verifier::external_body]
pub struct ExClient(reqwest::Client);

/// The request timeout that a client was built with, in seconds.
pub uninterp spec fn client_timeout_secs(client: reqwest::Client) -> u64;

/// How many idle sockets for each host a client was built to keep.
pub uninterp spec fn client_idle_limit(client: reqwest::Client) -> usize;

/// Calls `reqwest::ClientBuilder::build` on a builder whose `timeout` and
/// `pool_max_idle_per_host` were set. If a client comes back, it has these two
/// settings. Whether one does depends on the TLS backend and on the configuration of the
/// machine, of which nothing is claimed.
#[verifier::external_body]
pub(crate) fn build_client(timeout_secs: u64, idle_limit: usize) -> (built: Result<
    reqwest::Client,
    reqwest::Error,
>)
    ensures
        built matches Ok(client) ==> client_timeout_secs(client) == timeout_secs
            && client_idle_limit(client) == idle_limit,
{
    reqwest::Client::builder()
        .timeout(std::time::Duration::from_secs(timeout_secs))
        .pool_max_idle_per_host(idle_limit)
        .build()
}

/// What `url::Url::parse` makes of a text, as far as it is used here: nothing if the text
/// is not an absolute URL, and otherwise the text of the host, if the URL has one.
pub uninterp spec fn parsed_host(target: Seq<char>) -> Option<Option<Seq<char>>>;

/// Calls `url::Url::parse` and reads `host_str` of what it returns. The result depends on
/// the text alone and is called [`parsed_host`]; which error comes back is not stated.
#[verifier::external_body]
pub(crate) fn parse_host(target: &str) -> (parsed: Result<Option<String>, url::ParseError>)
    ensures
        match parsed {
            Ok(Some(host)) => parsed_host(target@) == Some(Some(host@)),
            Ok(None) => parsed_host(target@) == Some(None::<Seq<char>>),
            Err(_) => parsed_host(target@) is None,
        },
{
    url::Url::parse(target).map(|url| url.host_str().map(|host| host.to_string()))
}

/// The host to connect to, given what the URL parser said of a target. A target that does
/// not parse and one without a host are both invalid.
pub fn require_host(parsed: Result<Option<String>, url::ParseError>) -> (host: Result<
    String,
    ProxyError,
>)
    ensures
        match parsed {
            Ok(Some(h)) => host == Ok::<String, ProxyError>(h),
            _ => host == Err::<String, ProxyError>(ProxyError::InvalidHost),
        },
{
    match parsed {
        Ok(Some(h)) => Ok(h),
        Ok(None) => Err(ProxyError::InvalidHost),
        Err(_) => Err(ProxyError::InvalidHost),
    }
}

/// The host of a target.
pub fn target_host(target: &str) -> (host: Result<String, ProxyError>)
    ensures
        match host {
            Ok(h) => parsed_host(target@) == Some(Some(h@)),
            Err(e) => e == ProxyError::InvalidHost && (parsed_host(target@) is None || parsed_host(
                target@,
            )->Some_0 is None),
        },
{
    require_host(parse_host(target))
}

} // verus!
