//! Ephemeral payload sharing service: the verified core.
//!
//! The heart of the crate is a sliding-window request rate limiter that
//! coordinates through a shared sorted-set store (see
//! [`infrastructure::rate_limit`]). Around it sit the payload domain model
//! and the decisions of the application and API layers, written as pure
//! functions on plain values so that they can be stated and proved.

pub mod api;
pub mod application;
pub mod domain;
pub mod infrastructure;
pub mod text;
