//! Domain model of the sharing service: payloads, their identifiers, their
//! MIME types and the instants that bound their life.

pub mod hash_id;
pub mod mime_type;
pub mod payload;

pub mod time;
