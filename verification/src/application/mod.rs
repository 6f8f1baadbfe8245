//! Application layer: the requests and responses of the service and the
//! decisions of its use cases.

pub mod dtos;

pub mod use_cases;
