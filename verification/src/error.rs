//! The ways in which a request can fail.

use vstd::prelude::*;
use vstd::string::*;

verus! {

/// Failure of the HTTP client crate; opaque here, only carried along.
#[verifier::external_type_specification]
#[verifier::external_body]
pub struct ExHttpError(reqwest::Error);

/// Failure of the URL parser; opaque here, only carried along.
#[verifier::external_type_specification]
#[verifier::external_body]
pub struct ExUrlError(url::ParseError);

/// Why a request was not answered.
#[derive(Debug)]
pub enum ProxyError {
    RateLimitExceeded,
    RouteNotFound(String),
    InvalidHost,
    MaxConnectionsReached,
    HttpClient(reqwest::Error),
    UrlParse(url::ParseError),
}

/// What a [`ProxyError`] says, with text as a sequence of characters.
pub enum ErrorView {
    RateLimitExceeded,
    RouteNotFound(Seq<char>),
    InvalidHost,
    MaxConnectionsReached,
    HttpClient(reqwest::Error),
    UrlParse(url::ParseError),
}

impl View for ProxyError {
    type V = ErrorView;

    open spec fn view(&self) -> ErrorView {
        match *self {
            ProxyError::RateLimitExceeded => ErrorView::RateLimitExceeded,
            ProxyError::RouteNotFound(path) => ErrorView::RouteNotFound(path@),
            ProxyError::InvalidHost => ErrorView::InvalidHost,
            ProxyError::MaxConnectionsReached => ErrorView::MaxConnectionsReached,
            ProxyError::HttpClient(e) => ErrorView::HttpClient(e),
            ProxyError::UrlParse(e) => ErrorView::UrlParse(e),
        }
    }
}

impl ProxyError {
    /// Whether `text` is the line that describes this error. The two variants that
    /// carry another crate's error end in that error's own display text.
    pub open spec fn described_by(&self, text: Seq<char>) -> bool {
        match *self {
            ProxyError::RateLimitExceeded => text == "Rate limit exceeded"@,
            ProxyError::RouteNotFound(path) => text == "Route not found: "@ + path@,
            ProxyError::InvalidHost => text == "Invalid host"@,
            ProxyError::MaxConnectionsReached => text == "Max connections reached for host"@,
            ProxyError::HttpClient(e) => exists|shown: String|
                #[trigger] to_string_from_display_ensures::<reqwest::Error>(&e, shown)
                    && text == "HTTP client error: "@ + shown@,
            ProxyError::UrlParse(e) => exists|shown: String|
                #[trigger] to_string_from_display_ensures::<url::ParseError>(&e, shown)
                    && text == "URL parse error: "@ + shown@,
        }
    }

    /// The line that describes this error.
    pub fn message(&self) -> (text: String)
        ensures
            self.described_by(text@),
    {
        match self {
            ProxyError::RateLimitExceeded => "Rate limit exceeded".to_string(),
            ProxyError::RouteNotFound(path) => "Route not found: ".to_string().concat(path.as_str()),
            ProxyError::InvalidHost => "Invalid host".to_string(),
            ProxyError::MaxConnectionsReached => "Max connections reached for host".to_string(),
            ProxyError::HttpClient(e) => {
                let shown = e.to_string();
                "HTTP client error: ".to_string().concat(shown.as_str())
            },
            ProxyError::UrlParse(e) => {
                let shown = e.to_string();
                "URL parse error: ".to_string().concat(shown.as_str())
            },
        }
    }
}

/// Which error it is, and the path that it names, are read off its view.
pub proof fn view_tells_errors_apart(error: ProxyError, path: Seq<char>)
    ensures
        error@ == ErrorView::RateLimitExceeded <==> error == ProxyError::RateLimitExceeded,
        error@ == ErrorView::RouteNotFound(path) <==> (error matches ProxyError::RouteNotFound(p)
            && p@ == path),
        error@ == ErrorView::InvalidHost <==> error == ProxyError::InvalidHost,
        error@ == ErrorView::MaxConnectionsReached <==> error == ProxyError::MaxConnectionsReached,
        error matches ProxyError::HttpClient(e) ==> error@ == ErrorView::HttpClient(e),
        error matches ProxyError::UrlParse(e) ==> error@ == ErrorView::UrlParse(e),
{
}

/// What the line that describes an error says: each has its own words, a missing route is
/// named in full, and the failure of another crate is shown in that crate's own words.
pub proof fn line_says_what_went_wrong(error: ProxyError, line: Seq<char>)
    requires
        error.described_by(line),
    ensures
        error is RateLimitExceeded ==> line == "Rate limit exceeded"@,
        error matches ProxyError::RouteNotFound(path) ==> line == "Route not found: "@ + path@,
        error is InvalidHost ==> line == "Invalid host"@,
        error is MaxConnectionsReached ==> line == "Max connections reached for host"@,
        error matches ProxyError::HttpClient(e) ==> exists|shown: String|
            #[trigger] to_string_from_display_ensures::<reqwest::Error>(&e, shown) && line
                == "HTTP client error: "@ + shown@,
        error matches ProxyError::UrlParse(e) ==> exists|shown: String|
            #[trigger] to_string_from_display_ensures::<url::ParseError>(&e, shown) && line
                == "URL parse error: "@ + shown@,
{
}

impl From<reqwest::Error> for ProxyError {
    fn from(e: reqwest::Error) -> (r: Self) {
        ProxyError::HttpClient(e)
    }
}

impl vstd::std_specs::convert::FromSpecImpl<reqwest::Error> for ProxyError {
    open spec fn obeys_from_spec() -> bool {
        true
    }

    open spec fn from_spec(e: reqwest::Error) -> Self {
        ProxyError::HttpClient(e)
    }
}

impl From<url::ParseError> for ProxyError {
    fn from(e: url::ParseError) -> (r: Self) {
        ProxyError::UrlParse(e)
    }
}

impl vstd::std_specs::convert::FromSpecImpl<url::ParseError> for ProxyError {
    open spec fn obeys_from_spec() -> bool {
        true
    }

    open spec fn from_spec(e: url::ParseError) -> Self {
        ProxyError::UrlParse(e)
    }
}

} // verus!
