//! What the HTTP front end answers.

use crate::error::ProxyError;
use vstd::prelude::*;
use vstd::string::*;
use vstd::utf8::*;

verus! {

/// Status of an answer that is in order.
pub const STATUS_OK: u16 = 200;

/// Status of every request that was not answered.
pub const STATUS_TOO_MANY_REQUESTS: u16 = 429;

/// Status of a server that is not healthy.
pub const STATUS_UNAVAILABLE: u16 = 503;

/// Bytes of a body that a preview shows.
pub const PREVIEW_BYTES: usize = 50;

/// Failure of the JSON parser; opaque here.
#[verifier::external_type_specification]
#[verifier::external_body]
pub struct ExJsonError(serde_json::Error);

/// What the JSON parser makes of a text, written out again without white space; nothing if
/// the text is not JSON.
pub uninterp spec fn compact_json(text: Seq<char>) -> Option<Seq<char>>;

/// Calls `serde_json::from_str` for a `serde_json::Value` and writes what it returns out
/// again. The result depends on the text alone and is called [`compact_json`]; which
/// error comes back is not stated.
#[verifier::external_body]
fn parse_json(text: &str) -> (json: Result<String, serde_json::Error>)
    ensures
        match json {
            Ok(compact) => compact_json(text@) == Some(compact@),
            Err(_) => compact_json(text@) is None,
        },
{
    serde_json::from_str::<serde_json::Value>(text).map(|value| value.to_string())
}

/// The body of an answer.
pub enum ReplyBody {
    /// A JSON text.
    Json(String),
    /// Any other text.
    Text(String),
    /// A JSON object with these two members.
    Failure { error: String, path: String },
}

/// An answer.
pub struct Reply {
    pub status: u16,
    pub body: ReplyBody,
}

/// The path that a request below the proxy's own prefix asks for.
pub fn api_path(path: &str) -> (full: String)
    ensures
        full@ == "/api/"@ + path@,
{
    "/api/".to_string().concat(path)
}

/// The answer to a request for `path`: its body as JSON if it is that, and as it came if it
/// is not; or what went wrong.
pub fn proxy_reply(path: String, outcome: Result<String, ProxyError>) -> (reply: Reply)
    ensures
        match outcome {
            Ok(body) => {
                &&& reply.status == STATUS_OK
                &&& match compact_json(body@) {
                    Some(json) => reply.body matches ReplyBody::Json(text) && text@ == json,
                    None => reply.body == ReplyBody::Text(body),
                }
            },
            Err(e) => {
                &&& reply.status == STATUS_TOO_MANY_REQUESTS
                &&& reply.body matches ReplyBody::Failure { error, path: p }
                &&& e.described_by(error@)
                &&& p == path
            },
        },
{
    match outcome {
        Ok(body) => {
            let json = parse_json(body.as_str());
            body_reply(body, json)
        },
        Err(e) => Reply {
            status: STATUS_TOO_MANY_REQUESTS,
            body: ReplyBody::Failure { error: e.message(), path },
        },
    }
}

/// The answer with `body`, given what the JSON parser said of it.
pub fn body_reply(body: String, json: Result<String, serde_json::Error>) -> (reply: Reply)
    ensures
        reply.status == STATUS_OK,
        reply.body == (match json {
            Ok(compact) => ReplyBody::Json(compact),
            Err(_) => ReplyBody::Text(body),
        }),
{
    Reply {
        status: STATUS_OK,
        body: match json {
            Ok(compact) => ReplyBody::Json(compact),
            Err(_) => ReplyBody::Text(body),
        },
    }
}

/// The data of the event that an item of a stream is sent as.
pub fn event_data(item: Result<String, ProxyError>) -> (data: String)
    ensures
        match item {
            Ok(text) => data == text,
            Err(e) => exists|line: Seq<char>| #[trigger]
                e.described_by(line) && data@ == "Error: "@ + line,
        },
{
    match item {
        Ok(text) => text,
        Err(e) => {
            let line = e.message();
            "Error: ".to_string().concat(line.as_str())
        },
    }
}

/// The status and the word that report the health of a server.
pub fn health_reply(healthy: bool) -> (reply: (u16, &'static str))
    ensures
        healthy ==> reply.0 == STATUS_OK && reply.1@ == "healthy"@,
        !healthy ==> reply.0 == STATUS_UNAVAILABLE && reply.1@ == "degraded"@,
{
    if healthy {
        (STATUS_OK, "healthy")
    } else {
        (STATUS_UNAVAILABLE, "degraded")
    }
}

/// The metrics page.
pub fn metrics_reply(page: String) -> (reply: Reply)
    ensures
        reply == (Reply { status: STATUS_OK, body: ReplyBody::Text(page) }),
{
    Reply { status: STATUS_OK, body: ReplyBody::Text(page) }
}

/// Whether `://` stands at position `at` of `url`.
pub open spec fn scheme_ends_at(url: Seq<char>, at: int) -> bool {
    &&& 0 <= at <= url.len() - 3
    &&& url[at] == ':'
    &&& url[at + 1] == '/'
    &&& url[at + 2] == '/'
}

/// What follows the first `://` from position `from` on; all of `url` if there is none.
pub open spec fn after_scheme(url: Seq<char>, from: int) -> Seq<char>
    decreases url.len() - from,
{
    if from > url.len() - 3 {
        url
    } else if scheme_ends_at(url, from) {
        url.skip(from + 3)
    } else {
        after_scheme(url, from + 1)
    }
}

/// What follows the scheme of a URL; all of a text that names no scheme.
pub fn without_scheme(url: &str) -> (rest: &str)
    ensures
        rest@ == after_scheme(url@, 0),
{
    let n: usize = url.unicode_len();
    let mut at: usize = 0;
    while at < n && n - at >= 3
        invariant
            n == url@.len(),
            at <= n,
            after_scheme(url@, 0) == after_scheme(url@, at as int),
        decreases n - at,
    {
        if url.get_char(at) == ':' && url.get_char(at + 1) == '/' && url.get_char(at + 2) == '/' {
            return url.substring_char(at + 3, n);
        }
        at = at + 1;
    }
    url
}

/// A route, for display.
pub fn route_line(path: &str, target: &str) -> (line: String)
    ensures
        line@ == path@ + " -> "@ + after_scheme(target@, 0),
{
    path.to_string().concat(" -> ").concat(without_scheme(target))
}

/// What is shown of a URL is what stands behind its scheme.
pub proof fn scheme_is_left_out(scheme: Seq<char>, rest: Seq<char>)
    requires
        !scheme.contains(':'),
    ensures
        after_scheme(scheme + "://"@ + rest, 0) == rest,
{
    reveal_strlit("://");
    let url = scheme + "://"@ + rest;
    let end = scheme.len() as int;
    assert forall|i: int| 0 <= i < end implies !(url[i] == ':' && url[i + 1] == '/'
        && #[trigger] url[i + 2] == '/') by {
        assert(scheme.contains(scheme[i]));
    }
    what_follows_the_first_separator_is_shown(url, end);
    assert(url.skip(end + 3) =~= rest);
}

/// Of a text in which `://` stands, what follows where it stands first is shown, to its end.
pub proof fn what_follows_the_first_separator_is_shown(url: Seq<char>, end: int)
    requires
        0 <= end,
        end + 3 <= url.len(),
        url[end] == ':' && url[end + 1] == '/' && url[end + 2] == '/',
        forall|i: int|
            0 <= i < end ==> !(url[i] == ':' && url[i + 1] == '/' && #[trigger] url[i + 2] == '/'),
    ensures
        after_scheme(url, 0) == url.subrange(end + 3, url.len() as int),
{
    lemma_separator_is_reached(url, end, 0);
    assert(url.skip(end + 3) =~= url.subrange(end + 3, url.len() as int));
}

/// A text in which `://` does not stand is shown whole.
pub proof fn text_without_separator_is_whole(url: Seq<char>)
    requires
        forall|i: int|
            0 <= i && i + 3 <= url.len() ==> !(url[i] == ':' && url[i + 1] == '/'
                && #[trigger] url[i + 2] == '/'),
    ensures
        after_scheme(url, 0) == url,
{
    lemma_separator_is_not_reached(url, 0);
}

/// No `://` before the first one.
proof fn lemma_separator_is_reached(url: Seq<char>, end: int, from: int)
    requires
        0 <= from <= end,
        scheme_ends_at(url, end),
        forall|i: int|
            0 <= i < end ==> !(url[i] == ':' && url[i + 1] == '/' && #[trigger] url[i + 2] == '/'),
    ensures
        after_scheme(url, from) == url.skip(end + 3),
    decreases end - from,
{
    if from < end {
        assert(!(url[from] == ':' && url[from + 1] == '/' && url[from + 2] == '/'));
        lemma_separator_is_reached(url, end, from + 1);
    }
}

/// No `://` at all.
proof fn lemma_separator_is_not_reached(url: Seq<char>, from: int)
    requires
        0 <= from,
        forall|i: int|
            0 <= i && i + 3 <= url.len() ==> !(url[i] == ':' && url[i + 1] == '/'
                && #[trigger] url[i + 2] == '/'),
    ensures
        after_scheme(url, from) == url,
    decreases url.len() - from,
{
    if from + 3 <= url.len() {
        assert(!(url[from] == ':' && url[from + 1] == '/' && url[from + 2] == '/'));
        lemma_separator_is_not_reached(url, from + 1);
    }
}

/// A body, or the start of a long one with dots after it.
pub fn preview(body: &str) -> (shown: String)
    requires
        encode_utf8(body@).len() <= PREVIEW_BYTES || is_char_boundary(
            encode_utf8(body@),
            PREVIEW_BYTES as int,
        ),
    ensures
        shown@ == (if encode_utf8(body@).len() > PREVIEW_BYTES {
            decode_utf8(encode_utf8(body@).subrange(0, PREVIEW_BYTES as int)) + "..."@
        } else {
            body@
        }),
{
    if body.as_bytes().len() > PREVIEW_BYTES {
        let (start, _) = body.split_at(PREVIEW_BYTES);
        proof {
            encode_utf8_decode_utf8(start@);
        }
        start.to_string().concat("...")
    } else {
        body.to_string()
    }
}

} // verus!
