//! The values that the records are made of, each with its own parser.

pub mod address;
pub mod comment;
pub mod datetime;
pub mod full_comment;
pub mod internal_status;
pub mod mdu;
pub mod order_type;
pub mod status;
pub mod time_constrains;
