use proxy_server::{ConnectionPool, ProxyError};
use reqwest::Client;

fn tagged(tag: &'static str) -> Client {
    Client::builder().user_agent(tag).build().unwrap()
}

fn is_tagged(client: &Client, tag: &str) -> bool {
    format!("{:?}", client).contains(tag)
}

#[test]
fn new_connection_has_the_request_timeout() {
    let mut pool = ConnectionPool::new(1);
    let client = pool.get_connection("example.com").unwrap();
    assert!(format!("{:?}", client).contains("timeout: 30s"));
}

#[test]
fn last_returned_connection_is_reused_first() {
    let mut pool = ConnectionPool::new(3);
    for _ in 0..2 {
        pool.get_connection("h").unwrap();
    }
    pool.return_connection("h", tagged("first-back"));
    pool.return_connection("h", tagged("second-back"));
    assert!(is_tagged(&pool.get_connection("h").unwrap(), "second-back"));
    assert!(is_tagged(&pool.get_connection("h").unwrap(), "first-back"));
    assert_eq!(pool.total_created(), 2);
    assert_eq!(pool.total_reused(), 2);
    assert_eq!(pool.active_connections(), 2);
}

#[test]
fn hosts_are_independent() {
    let mut pool = ConnectionPool::new(1);
    assert!(pool.get_connection("a").is_ok());
    assert!(pool.get_connection("b").is_ok());
    assert!(matches!(
        pool.get_connection("a"),
        Err(ProxyError::MaxConnectionsReached)
    ));
    assert!(matches!(
        pool.get_connection("b"),
        Err(ProxyError::MaxConnectionsReached)
    ));
    assert_eq!(pool.active_connections(), 2);
}

#[test]
fn pool_without_room_refuses() {
    let mut pool = ConnectionPool::new(0);
    assert!(matches!(
        pool.get_connection("h"),
        Err(ProxyError::MaxConnectionsReached)
    ));
    assert_eq!(pool.stats(), vec![("h".to_string(), 0)]);
    assert_eq!(pool.total_created(), 0);
}

#[test]
fn connection_for_an_unknown_host_is_closed() {
    let mut pool = ConnectionPool::new(2);
    pool.return_connection("h", tagged("stray"));
    assert_eq!(pool.stats(), vec![]);
    assert_eq!(pool.active_connections(), -1);
    assert!(!is_tagged(&pool.get_connection("h").unwrap(), "stray"));
}

#[test]
fn surplus_connection_is_closed() {
    let mut pool = ConnectionPool::new(1);
    pool.get_connection("h").unwrap();
    pool.return_connection("h", tagged("kept"));
    pool.return_connection("h", tagged("surplus"));
    assert_eq!(pool.stats(), vec![("h".to_string(), 1)]);
    assert!(is_tagged(&pool.get_connection("h").unwrap(), "kept"));
    assert!(pool.get_connection("h").is_err());
}

#[test]
fn closed_connection_makes_room() {
    let mut pool = ConnectionPool::new(1);
    pool.get_connection("h").unwrap();
    assert!(pool.get_connection("h").is_err());
    assert_eq!(pool.active_connections(), 1);
    pool.discard_connection("h");
    assert_eq!(pool.active_connections(), 0);
    assert!(pool.get_connection("h").is_ok());
    assert_eq!(pool.total_created(), 2);
    pool.discard_connection("elsewhere");
    assert_eq!(pool.active_connections(), 1);
    assert_eq!(pool.stats(), vec![("h".to_string(), 0)]);
}

#[test]
fn made_connection_is_handed_out() {
    let mut pool = ConnectionPool::new(1);
    let client = pool.add_connection("h", Ok(tagged("made"))).unwrap();
    assert!(is_tagged(&client, "made"));
    assert_eq!(pool.total_created(), 1);
    assert!(pool.get_connection("h").is_err());
}

#[test]
fn connection_that_cannot_be_made_is_an_error() {
    let mut pool = ConnectionPool::new(1);
    let failure = Client::new().get("no url").build().unwrap_err();
    assert!(matches!(
        pool.add_connection("h", Err(failure)),
        Err(ProxyError::HttpClient(_))
    ));
    assert_eq!(pool.total_created(), 0);
    assert_eq!(pool.active_connections(), 0);
    assert!(pool.get_connection("h").is_ok());
}

#[test]
fn stats_list_idle_connections() {
    let mut pool = ConnectionPool::new(5);
    for _ in 0..3 {
        pool.get_connection("a").unwrap();
    }
    pool.get_connection("b").unwrap();
    pool.return_connection("a", tagged("x"));
    pool.return_connection("a", tagged("y"));
    let mut stats = pool.stats();
    stats.sort();
    assert_eq!(stats, vec![("a".to_string(), 2), ("b".to_string(), 0)]);
}

#[test]
fn known_hosts_are_those_asked_for() {
    let mut pool = ConnectionPool::new(2);
    pool.return_connection("never", tagged("stray"));
    pool.discard_connection("nowhere");
    pool.get_connection("a").unwrap();
    pool.get_connection("b").unwrap();
    for tag in ["p", "q", "r", "s"] {
        pool.return_connection("a", tagged(tag));
    }
    pool.discard_connection("b");
    let mut stats = pool.stats();
    stats.sort();
    assert_eq!(stats, vec![("a".to_string(), 2), ("b".to_string(), 0)]);
}

#[test]
fn connection_that_was_not_handed_out_is_kept_too() {
    let mut pool = ConnectionPool::new(3);
    pool.get_connection("h").unwrap();
    pool.discard_connection("h");
    for tag in ["first", "second"] {
        pool.return_connection("h", tagged(tag));
    }
    assert!(is_tagged(&pool.get_connection("h").unwrap(), "second"));
    assert!(is_tagged(&pool.get_connection("h").unwrap(), "first"));
}
