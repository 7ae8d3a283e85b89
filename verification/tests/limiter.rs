use proxy_server::{ProxyError, RateLimiter};

const SECOND: u128 = 1_000_000_000;

#[test]
fn bucket_starts_full() {
    let limiter = RateLimiter::new(7, 12 * SECOND, 40);
    assert_eq!(limiter.available_tokens(), 7);
    assert_eq!(limiter.refill_rate(), 12 * SECOND);
    assert_eq!(limiter.since_refill(50), 10);
    assert_eq!(limiter.since_refill(30), 0);
}

#[test]
fn refused_request_changes_nothing() {
    let mut limiter = RateLimiter::new(1, SECOND, 5);
    assert!(limiter.acquire(6, 0).is_ok());
    for now in 7..20 {
        assert!(matches!(
            limiter.acquire(now, 0),
            Err(ProxyError::RateLimitExceeded)
        ));
        assert_eq!(limiter.available_tokens(), 0);
        assert_eq!(limiter.since_refill(now), now - 5);
    }
}

#[test]
fn refill_stops_at_capacity() {
    let mut limiter = RateLimiter::new(3, SECOND, 0);
    assert!(limiter.acquire(1, 0).is_ok());
    assert_eq!(limiter.available_tokens(), 2);
    assert!(limiter.acquire(9, 100).is_ok());
    assert_eq!(limiter.available_tokens(), 2);
    assert_eq!(limiter.since_refill(10), 1);
}

#[test]
fn refill_ends_refusal() {
    let mut limiter = RateLimiter::new(2, SECOND, 0);
    assert!(limiter.acquire(0, 0).is_ok());
    assert!(limiter.acquire(0, 0).is_ok());
    assert!(limiter.acquire(0, 0).is_err());
    assert!(limiter.acquire(SECOND, 1).is_ok());
    assert!(limiter.acquire(SECOND, 0).is_err());
}

#[test]
fn bucket_without_room_never_grants() {
    let mut limiter = RateLimiter::new(0, SECOND, 0);
    assert!(limiter.acquire(0, 0).is_err());
    assert!(limiter.acquire(SECOND, 1000).is_err());
    assert_eq!(limiter.available_tokens(), 0);
}

#[test]
fn grants_are_bounded() {
    let mut limiter = RateLimiter::new(4, SECOND, 0);
    let dues = [0usize, 0, 1, 0, 0, 0, 2, 0, 0, 0, 0, 3, 0, 0, 0, 0];
    let mut granted = 0;
    for (now, due) in dues.iter().enumerate() {
        if limiter.acquire(now as u128, *due).is_ok() {
            granted += 1;
        }
        assert!(limiter.available_tokens() <= 4);
    }
    assert_eq!(granted, 10);
    assert_eq!(granted + limiter.available_tokens(), 4 + 6);
}

#[test]
fn try_acquire_is_refused_while_the_limiter_is_held() {
    assert!(matches!(
        RateLimiter::try_acquire(None, 0, 5),
        Err(ProxyError::RateLimitExceeded)
    ));
}

#[test]
fn try_acquire_takes_a_token() {
    let mut limiter = RateLimiter::new(1, SECOND, 0);
    assert!(RateLimiter::try_acquire(Some(&mut limiter), 0, 0).is_ok());
    assert_eq!(limiter.available_tokens(), 0);
    assert!(RateLimiter::try_acquire(Some(&mut limiter), 0, 0).is_err());
    assert!(RateLimiter::try_acquire(Some(&mut limiter), 1, 1).is_ok());
    assert_eq!(limiter.since_refill(1), 0);
}

#[test]
fn rate_is_kept_over_time() {
    let mut limiter = RateLimiter::new(3, 2 * SECOND, 0);
    let mut granted = 0;
    for half in 0..=20 {
        let now = half * SECOND / 2;
        let due = (limiter.since_refill(now) / limiter.refill_rate()) as usize;
        if limiter.acquire(now, due).is_ok() {
            granted += 1;
        }
    }
    assert_eq!(granted, 3 + 10 / 2);
}

#[test]
fn trying_is_acquiring() {
    let mut tried = RateLimiter::new(2, SECOND, 0);
    let mut waited = RateLimiter::new(2, SECOND, 0);
    let mut granted = 0;
    for (now, due) in [(0, 0), (1, 0), (2, 0), (3, 1), (4, 0), (9, 5), (10, 0), (11, 0)] {
        let answer = RateLimiter::try_acquire(Some(&mut tried), now, due);
        assert_eq!(answer.is_ok(), waited.acquire(now, due).is_ok());
        if answer.is_ok() {
            granted += 1;
        }
        assert_eq!(tried.available_tokens(), waited.available_tokens());
        assert_eq!(tried.since_refill(20), waited.since_refill(20));
    }
    assert_eq!(granted, 5);
}
