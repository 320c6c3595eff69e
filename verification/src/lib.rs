//! Cleanup of untagged container-image versions on the GitHub package
//! registry: the data model, the requests and their interpretation, and the
//! paginated list-filter-delete workflow, verified with Verus.

pub mod api;
pub mod cleanup;
pub mod client;
pub mod error;
pub mod laws;
pub mod session;
pub mod text;
