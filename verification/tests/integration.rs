//! The server, the limiter and the pool as a caller uses them.

use proxy_server::{ConnectionPool, ProxyError, ProxyServer, RateLimiter};

#[test]
fn test_rate_limiter() {
    let mut server = ProxyServer::new(5, 10, 0); // 5 RPM

    // First 5 requests should succeed
    for i in 0..5 {
        let result = server.rate_limiter().acquire(0, 0);
        assert!(result.is_ok(), "Request {} should succeed", i);
    }

    // 6th request should fail
    let result = server.rate_limiter().acquire(0, 0);
    assert!(result.is_err(), "6th request should be rate limited");
}

#[test]
fn test_route_management() {
    let mut server = ProxyServer::new(100, 10, 0);

    // Add a route
    server.add_route("/test", "https://httpbin.org/get");

    // Verify it exists by trying to handle
    let result = server.handle_request("/test", 0, 0);
    match result {
        Err(ProxyError::RouteNotFound(_)) => panic!("Route should exist"),
        _ => {}
    }

    // Remove route
    server.remove_route("/test");

    // Now should get route not found
    let result = server.handle_request("/test", 0, 0);
    assert!(matches!(result, Err(ProxyError::RouteNotFound(_))));
}

#[test]
fn test_connection_pool() {
    let mut pool = ConnectionPool::new(2);

    // Get two connections
    let client1 = pool.get_connection("example.com").unwrap();
    let client2 = pool.get_connection("example.com").unwrap();

    // Third should hit limit
    let result = pool.get_connection("example.com");
    assert!(result.is_err());

    // Return one connection
    pool.return_connection("example.com", client1);

    // Now can get another
    let client3 = pool.get_connection("example.com");
    assert!(client3.is_ok());

    drop(client2);
    drop(client3);
}

#[test]
fn test_concurrent_requests() {
    let mut server = ProxyServer::new(100, 10, 0);
    server.add_route("/api/users", "https://jsonplaceholder.typicode.com/users");

    // All ten requests are under way before the first one is answered.
    let mut under_way = vec![];
    for _ in 0..10 {
        under_way.push(server.handle_request("/api/users", 0, 0));
    }

    let results: Vec<Result<String, ProxyError>> = under_way
        .into_iter()
        .map(|started| {
            let fetch = started?;
            let done = server.finish_request(fetch, Ok("[]".to_string()), 1)?;
            Ok(done.body)
        })
        .collect();
    let success_count = results.iter().filter(|r| r.is_ok()).count();

    // At least some should succeed
    assert!(success_count > 0);
    assert_eq!(success_count, 10);
}

#[test]
fn test_send_sync() {
    // Compile-time test to ensure types are Send + Sync
    fn assert_send_sync<T: Send + Sync>() {}

    assert_send_sync::<RateLimiter>();
    assert_send_sync::<ConnectionPool>();
    assert_send_sync::<ProxyServer>();
}
