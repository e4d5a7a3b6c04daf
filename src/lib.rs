//! Turns the HTML fragments served by the service-order portal into typed
//! records: search results, brief orders, detailed orders with their history
//! and work-schedule rows. Every field keeps its own validity, so a record is
//! produced even from a damaged document; the guaranteed forms are derived
//! only when every required field is present and valid.

pub mod text;
pub mod number;
pub mod serializable_int_error_kind;
pub mod serializable_parse_error_kind;
pub mod data;
pub mod dom;
pub mod field;
pub mod scan;
pub mod brief_request;
pub mod view_request;
pub mod basic_search;
pub mod work_schedule;
pub mod error;
pub mod payload;
pub mod session;
