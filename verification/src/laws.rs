//! What the operations of the library are for, stated of their inputs and results.

pub mod accepts;
pub mod deploy_key;
pub mod json;
pub mod listing;
pub mod organization;
pub mod paging;
pub mod paint;
pub mod progress;
pub mod records;
pub mod request;
pub mod retry;
pub mod text;
