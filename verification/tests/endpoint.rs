use proxy_server::endpoint::{
    api_path, body_reply, event_data, health_reply, metrics_reply, preview, proxy_reply,
    route_line, without_scheme,
};
use proxy_server::upstream::{require_host, target_host};
use proxy_server::{ProxyError, ReplyBody};

fn json_error() -> serde_json::Error {
    serde_json::from_str::<serde_json::Value>("{").unwrap_err()
}

#[test]
fn path_below_the_prefix() {
    assert_eq!(api_path("users"), "/api/users");
    assert_eq!(api_path(""), "/api/");
}

#[test]
fn json_body_is_written_out_again() {
    let body = "{ \"b\" : [1, 2.50, null],\n \"a\": \"x\" }".to_string();
    let reply = proxy_reply("/api/a".to_string(), Ok(body));
    assert_eq!(reply.status, 200);
    match reply.body {
        ReplyBody::Json(text) => assert_eq!(text, "{\"a\":\"x\",\"b\":[1,2.5,null]}"),
        _ => panic!("the body is JSON"),
    }
}

#[test]
fn other_body_stays_as_it_came() {
    let reply = proxy_reply("/api/a".to_string(), Ok("<p> hi </p>".to_string()));
    assert_eq!(reply.status, 200);
    assert!(matches!(reply.body, ReplyBody::Text(text) if text == "<p> hi </p>"));
}

#[test]
fn body_goes_by_what_the_parser_said() {
    let reply = body_reply("raw".to_string(), Ok("compact".to_string()));
    assert!(matches!(reply.body, ReplyBody::Json(text) if text == "compact"));
    let reply = body_reply("raw".to_string(), Err(json_error()));
    assert!(matches!(reply.body, ReplyBody::Text(text) if text == "raw"));
}

#[test]
fn failure_names_error_and_path() {
    let reply = proxy_reply("/api/a".to_string(), Err(ProxyError::InvalidHost));
    assert_eq!(reply.status, 429);
    match reply.body {
        ReplyBody::Failure { error, path } => {
            assert_eq!(error, "Invalid host");
            assert_eq!(path, "/api/a");
        }
        _ => panic!("the request failed"),
    }
}

#[test]
fn items_become_events() {
    assert_eq!(event_data(Ok("text".to_string())), "text");
    assert_eq!(
        event_data(Err(ProxyError::RouteNotFound("/a".to_string()))),
        "Error: Route not found: /a"
    );
}

#[test]
fn errors_are_described() {
    assert_eq!(ProxyError::RateLimitExceeded.message(), "Rate limit exceeded");
    assert_eq!(
        ProxyError::MaxConnectionsReached.message(),
        "Max connections reached for host"
    );
    assert_eq!(
        ProxyError::from(url::ParseError::EmptyHost).message(),
        "URL parse error: empty host"
    );
    let failure = reqwest::Client::new().get("no url").build().unwrap_err();
    let expected = format!("HTTP client error: {}", failure);
    assert_eq!(ProxyError::from(failure).message(), expected);
}

#[test]
fn host_of_a_target() {
    assert_eq!(target_host("https://httpbin.org/get").unwrap(), "httpbin.org");
    assert_eq!(target_host("http://127.0.0.1:80/").unwrap(), "127.0.0.1");
    assert!(matches!(target_host("httpbin.org"), Err(ProxyError::InvalidHost)));
    assert_eq!(require_host(Ok(Some("h".to_string()))).unwrap(), "h");
    assert!(matches!(require_host(Ok(None)), Err(ProxyError::InvalidHost)));
    assert!(matches!(
        require_host(Err(url::ParseError::EmptyHost)),
        Err(ProxyError::InvalidHost)
    ));
}

#[test]
fn health_is_reported() {
    assert_eq!(health_reply(true), (200, "healthy"));
    assert_eq!(health_reply(false), (503, "degraded"));
}

#[test]
fn metrics_page_is_plain_text() {
    let reply = metrics_reply("page".to_string());
    assert_eq!(reply.status, 200);
    assert!(matches!(reply.body, ReplyBody::Text(text) if text == "page"));
}

#[test]
fn route_is_shown_as_a_line() {
    assert_eq!(
        route_line("/api/users", "https://jsonplaceholder.typicode.com/users"),
        "/api/users -> jsonplaceholder.typicode.com/users"
    );
    assert_eq!(
        route_line("/a", "http://h.example/b?at=http://i.example/"),
        "/a -> h.example/b?at=http://i.example/"
    );
    assert_eq!(route_line("/a", "nowhere"), "/a -> nowhere");
    assert_eq!(route_line("/a", ""), "/a -> ");
}

#[test]
fn scheme_is_left_out() {
    assert_eq!(without_scheme("https://h.example/"), "h.example/");
    assert_eq!(without_scheme("://h"), "h");
    assert_eq!(without_scheme("http://"), "");
    assert_eq!(without_scheme("http:/h"), "http:/h");
    assert_eq!(without_scheme("a:b://c://d"), "c://d");
    assert_eq!(without_scheme("sch\u{e9}ma://h\u{f4}te/"), "h\u{f4}te/");
    assert_eq!(without_scheme("://"), "");
    assert_eq!(without_scheme(":/"), ":/");
}

#[test]
fn long_body_is_cut() {
    let fifty = "0123456789".repeat(5);
    assert_eq!(preview(&fifty), fifty);
    assert_eq!(preview(&format!("{}x", fifty)), format!("{}...", fifty));
    assert_eq!(preview(""), "");
    let wide = "\u{e9}".repeat(26);
    assert_eq!(preview(&wide), format!("{}...", "\u{e9}".repeat(25)));
}
