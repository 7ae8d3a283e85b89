use proxy_server::{Fetch, ProxyError, ProxyServer};

fn failure() -> reqwest::Error {
    reqwest::Client::new().get("no url").build().unwrap_err()
}

fn started(server: &mut ProxyServer, path: &str) -> Fetch {
    match server.handle_request(path, 0, 0) {
        Ok(fetch) => fetch,
        Err(e) => panic!("{}", e.message()),
    }
}

#[test]
fn limit_is_spread_over_a_minute() {
    let rate = |rpm: usize| ProxyServer::new(rpm, 1, 0).rate_limiter().refill_rate();
    assert_eq!(rate(60), 1_000_000_000);
    assert_eq!(rate(7), 8_571_428_571);
    assert_eq!(rate(1), 60_000_000_000);
    assert_eq!(rate(0), 1_000_000_000);
    assert_eq!(rate(0x1_0000_0002), 30_000_000_000);
    assert_eq!(rate(0xffff_ffff), 13);
}

#[test]
fn routes_are_added_replaced_and_removed() {
    let mut server = ProxyServer::new(100, 10, 0);
    assert_eq!(server.remove_route("/a"), None);
    server.add_route("/a", "http://one.example/x");
    server.add_route("/b", "http://two.example/y");
    server.add_route("/a", "http://three.example/z");
    assert_eq!(started(&mut server, "/a").host, "three.example");
    assert_eq!(started(&mut server, "/b").host, "two.example");
    assert_eq!(
        server.remove_route("/a"),
        Some("http://three.example/z".to_string())
    );
    assert_eq!(server.remove_route("/a"), None);
    assert_eq!(started(&mut server, "/b").target, "http://two.example/y");
}

#[test]
fn request_goes_to_the_target_of_its_route() {
    let mut server = ProxyServer::new(1, 1, 0);
    server.add_route("/a", "https://user@Sub.Example.COM:8443/p?q=1#f");
    let fetch = started(&mut server, "/a");
    assert_eq!(fetch.target, "https://user@Sub.Example.COM:8443/p?q=1#f");
    assert_eq!(fetch.host, "sub.example.com");
    assert_eq!(fetch.user_agent, "Rust-Proxy-Server/1.0");
}

#[test]
fn missing_route_is_named() {
    let mut server = ProxyServer::new(1, 1, 0);
    match server.handle_request("/nowhere", 0, 0) {
        Err(ProxyError::RouteNotFound(path)) => assert_eq!(path, "/nowhere"),
        _ => panic!("the path has no route"),
    }
    assert_eq!(server.rate_limiter().available_tokens(), 0);
}

#[test]
fn target_without_host_is_invalid() {
    for target in ["not a url", "", "data:text/plain,x", "unix:/run/foo.socket"] {
        let mut server = ProxyServer::new(1, 1, 0);
        server.add_route("/a", target);
        assert!(matches!(
            server.handle_request("/a", 0, 0),
            Err(ProxyError::InvalidHost)
        ));
        assert!(server.connection_pool().stats().is_empty());
    }
}

#[test]
fn rate_limit_comes_before_the_route() {
    let mut server = ProxyServer::new(1, 1, 0);
    assert!(matches!(
        server.handle_request("/a", 0, 0),
        Err(ProxyError::RouteNotFound(_))
    ));
    assert!(matches!(
        server.handle_request("/a", 0, 0),
        Err(ProxyError::RateLimitExceeded)
    ));
    assert!(matches!(
        server.handle_request("/a", 60_000_000_000, 1),
        Err(ProxyError::RouteNotFound(_))
    ));
}

#[test]
fn host_at_its_limit_is_refused() {
    let mut server = ProxyServer::new(10, 1, 0);
    server.add_route("/a", "http://h.example/");
    let fetch = started(&mut server, "/a");
    assert!(matches!(
        server.handle_request("/a", 0, 0),
        Err(ProxyError::MaxConnectionsReached)
    ));
    assert!(server.finish_request(fetch, Ok(String::new()), 0).is_ok());
    assert!(server.handle_request("/a", 0, 0).is_ok());
}

#[test]
fn answered_request_returns_its_connection() {
    let mut server = ProxyServer::new(10, 1, 0);
    server.add_route("/a", "http://h.example/");
    let fetch = started(&mut server, "/a");
    let done = server
        .finish_request(fetch, Ok("body".to_string()), 1234)
        .unwrap();
    assert_eq!(done.body, "body");
    assert_eq!(done.duration, 1234);
    assert_eq!(
        server.connection_pool().stats(),
        vec![("h.example".to_string(), 1)]
    );
    started(&mut server, "/a");
    assert_eq!(server.connection_pool().total_created(), 1);
    assert_eq!(server.connection_pool().total_reused(), 1);
    assert_eq!(server.connection_pool().active_connections(), 1);
}

#[test]
fn broken_requests_do_not_use_up_the_limit() {
    let mut server = ProxyServer::new(10, 1, 0);
    server.add_route("/a", "http://h.example/");
    for _ in 0..3 {
        let fetch = started(&mut server, "/a");
        assert!(matches!(
            server.finish_request(fetch, Err(failure()), 0),
            Err(ProxyError::HttpClient(_))
        ));
    }
    let fetch = started(&mut server, "/a");
    server.abandon_request(fetch);
    assert!(server.handle_request("/a", 0, 0).is_ok());
    assert_eq!(server.connection_pool().total_created(), 5);
    assert_eq!(server.connection_pool().total_reused(), 0);
    assert_eq!(server.connection_pool().active_connections(), 1);
    let page = server.get_metrics("");
    assert!(page.contains("\nproxy_requests_failed 4\n"));
    assert!(page.contains("\nproxy_requests_successful 0\n"));
    assert!(page.contains("\nproxy_requests_total 5\n"));
}

#[test]
fn metrics_of_a_server() {
    let mut server = ProxyServer::new(10, 1, 0);
    server.add_route("/a", "http://h.example/");
    let fetch = started(&mut server, "/a");
    server
        .finish_request(fetch, Ok("body".to_string()), 1)
        .unwrap();
    started(&mut server, "/a");
    assert!(server.handle_request("/a", 0, 0).is_err());
    let page = server.get_metrics("DURATIONS\n");
    let expected = "# HELP pool_active_connections Active connections\n\
                    # TYPE pool_active_connections gauge\n\
                    pool_active_connections 1\n\
                    # HELP pool_connections_created Total connections created\n\
                    # TYPE pool_connections_created counter\n\
                    pool_connections_created 1\n\
                    # HELP pool_connections_reused Total connections reused\n\
                    # TYPE pool_connections_reused counter\n\
                    pool_connections_reused 1\n\
                    DURATIONS\n\
                    # HELP proxy_requests_failed Failed requests\n\
                    # TYPE proxy_requests_failed counter\n\
                    proxy_requests_failed 1\n\
                    # HELP proxy_requests_successful Successful requests\n\
                    # TYPE proxy_requests_successful counter\n\
                    proxy_requests_successful 1\n\
                    # HELP proxy_requests_total Total requests\n\
                    # TYPE proxy_requests_total counter\n\
                    proxy_requests_total 3\n";
    assert_eq!(page, expected);
}

#[test]
fn server_is_healthy_without_tokens() {
    let mut server = ProxyServer::new(1, 1, 0);
    assert!(server.health_check());
    assert!(server.rate_limiter().acquire(0, 0).is_ok());
    assert!(server.health_check());
}

#[test]
fn server_serves_up_to_its_limit() {
    let limit = proxy_server::server::DEFAULT_REQUESTS_PER_MINUTE;
    assert_eq!(limit, 60);
    let mut server = ProxyServer::new(limit, 1, 0);
    server.add_route("/bad", "no url");
    let mut past = 0;
    for i in 0..100 {
        let path = if i % 2 == 0 { "/bad" } else { "/missing" };
        match server.handle_request(path, 0, 0) {
            Err(ProxyError::RateLimitExceeded) => assert!(i >= 60),
            Err(_) => past += 1,
            Ok(_) => panic!("there is nowhere to go"),
        }
    }
    assert_eq!(past, 60);
    assert!(server.get_metrics("").contains("\nproxy_requests_failed 100\n"));
    assert!(server.get_metrics("").ends_with("\nproxy_requests_total 100\n"));
}

#[test]
fn refused_request_is_counted_as_failed() {
    let mut server = ProxyServer::new(0, 10, 0);
    assert!(matches!(
        server.handle_request("/x", 0, 0),
        Err(ProxyError::RateLimitExceeded)
    ));
    let page = server.get_metrics("");
    assert!(page.contains("\nproxy_requests_failed 1\n"));
    assert!(page.contains("\nproxy_requests_successful 0\n"));
    assert!(page.contains("\nproxy_requests_total 1\n"));
}

#[test]
fn requests_are_accounted_for() {
    let mut server = ProxyServer::new(20, 10, 0);
    server.add_route("/a", "http://h.example/");
    let mut under_way = vec![];
    for _ in 0..6 {
        under_way.push(started(&mut server, "/a"));
    }
    for path in ["/b", "/c"] {
        assert!(server.handle_request(path, 0, 0).is_err());
    }
    for _ in 0..3 {
        let fetch = under_way.pop().unwrap();
        assert!(server.finish_request(fetch, Ok(String::new()), 0).is_ok());
    }
    let fetch = under_way.pop().unwrap();
    assert!(server.finish_request(fetch, Err(failure()), 0).is_err());
    let page = server.get_metrics("");
    assert!(page.contains("\nproxy_requests_failed 3\n"));
    assert!(page.contains("\nproxy_requests_successful 3\n"));
    assert!(page.contains("\nproxy_requests_total 8\n"));
    assert_eq!(under_way.len(), 2);
    assert!(page.contains("\npool_active_connections 2\n"));
}

#[test]
fn rate_limit_holds_over_time() {
    let second: u128 = 1_000_000_000;
    let mut server = ProxyServer::new(60, 1, 0);
    let mut past = 0;
    for tenth in 0..1200 {
        let now = tenth * second / 10;
        let limiter = server.rate_limiter();
        let due = (limiter.since_refill(now) / limiter.refill_rate()) as usize;
        if !matches!(
            server.handle_request("/x", now, due),
            Err(ProxyError::RateLimitExceeded)
        ) {
            past += 1;
        }
    }
    assert_eq!(past, 60 + 119);
}

#[test]
fn routes_are_listed() {
    let mut server = ProxyServer::new(60, 10, 0);
    assert!(server.route_listing().is_empty());
    server.add_route("/api/users", "https://jsonplaceholder.typicode.com/users");
    server.add_route("/api/posts", "http://old.example/");
    server.add_route("/api/todos", "https://jsonplaceholder.typicode.com/todos");
    server.add_route("/api/posts", "https://jsonplaceholder.typicode.com/posts");
    server.remove_route("/api/todos");
    let mut lines = server.route_listing();
    lines.sort();
    assert_eq!(
        lines,
        vec![
            (
                "/api/posts".to_string(),
                "https://jsonplaceholder.typicode.com/posts".to_string()
            ),
            (
                "/api/users".to_string(),
                "https://jsonplaceholder.typicode.com/users".to_string()
            ),
        ]
    );
}
