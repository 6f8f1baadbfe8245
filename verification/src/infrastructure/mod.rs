//! Infrastructure layer: the rate limiter and the rules of the store and
//! logging adapters.

pub mod logging;
pub mod rate_limit;
pub mod redis;

pub use logging::{LoggingConfig, RequestLogger};
pub use rate_limit::{InMemoryRateLimiter, RateLimitConfig, RateLimitError, RateLimiter};
pub use redis::RedisConfig;
