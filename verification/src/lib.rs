//! Rate limiting, connection pooling and request routing for an HTTP proxy.
//!
//! The library decides; its caller does the waiting, the sending and the locking. Time
//! comes in as a number of nanoseconds, and replies of targets come in as values.

pub mod endpoint;
pub mod error;
pub mod future;
pub mod history;
pub mod limiter;
pub mod metrics;
pub mod pool;
pub mod server;
pub mod stream;
pub mod table;
pub mod upstream;

pub use endpoint::{Reply, ReplyBody};
pub use error::ProxyError;
pub use future::{PollStep, RateLimitedFuture, WithRateLimiting};
pub use limiter::RateLimiter;
pub use pool::ConnectionPool;
pub use server::{Completed, Fetch, ProxyServer};
pub use stream::{ResponseStream, StreamAction, StreamEvent, StreamState};
