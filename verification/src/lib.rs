//! Audits of a GitHub organization: what is asked of GitHub, what its answers are taken
//! for, and what an audit reports.
//!
//! The library makes no requests itself. It says which request is due, takes in the
//! answer, and says what follows.

pub mod deploy_key;
pub mod json;
pub mod laws;
pub mod listing;
pub mod organization;
pub mod paging;
pub mod paint;
pub mod progress;
pub mod records;
pub mod request;
pub mod retry;
pub mod text;

pub use crate::organization::Bootstrap;
pub use crate::progress::ProgressTracker;
pub use crate::records::{Collaborator, GitHubIndex, Member, Permissions, Repository, Team};
pub use crate::request::GraphQLQuery;
pub use vstd::hash_map::StringHashMap;
