//! API layer: what the HTTP handlers and middleware decide, apart from the
//! server that carries it out.

pub mod http;
pub mod middleware;
pub mod v1;
