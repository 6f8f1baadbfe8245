//! Version 1 of the API.

pub mod payload;
