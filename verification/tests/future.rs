use proxy_server::{PollStep, ProxyError, RateLimitedFuture, RateLimiter, WithRateLimiting};
use std::future::{ready, Ready};

type Limited = RateLimitedFuture<Ready<u8>, &'static str>;

fn limited() -> Limited {
    ready(7u8).with_rate_limit("handle")
}

#[test]
fn new_future_has_no_token() {
    let future = limited();
    assert!(!future.acquired);
    assert_eq!(future.limiter, "handle");
}

#[test]
fn future_takes_one_token() {
    let mut limiter = RateLimiter::new(5, 1, 0);
    let mut future = limited();
    for _ in 0..3 {
        assert_eq!(future.poll(Some(&mut limiter), 0, 0), PollStep::PollInner);
        assert!(future.acquired);
        assert_eq!(limiter.available_tokens(), 4);
    }
    assert_eq!(future.poll(None, 0, 0), PollStep::PollInner);
}

#[test]
fn future_without_token_is_polled_again() {
    let retry = PollStep::Retry { after_millis: 100 };
    let mut limiter = RateLimiter::new(1, 1, 0);
    let mut first = limited();
    let mut second = limited();
    assert_eq!(first.poll(None, 0, 0), retry);
    assert_eq!(first.poll(Some(&mut limiter), 0, 0), PollStep::PollInner);
    assert_eq!(second.poll(Some(&mut limiter), 0, 0), retry);
    assert!(!second.acquired);
    assert_eq!(second.poll(Some(&mut limiter), 1, 1), PollStep::PollInner);
}

#[test]
fn output_is_handed_on() {
    assert!(matches!(Limited::finish_poll(Some(7u8)), Some(Ok(7))));
    let pending: Option<Result<u8, ProxyError>> = Limited::finish_poll(None);
    assert!(pending.is_none());
}
