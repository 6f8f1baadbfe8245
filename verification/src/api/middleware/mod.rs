//! Middleware of the API: rate limiting and error handling.

pub mod error;
pub mod rate_limit;

pub use error::ErrorHandlerMiddleware;
pub use rate_limit::RateLimitMiddleware;
