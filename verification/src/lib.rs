//! Mirror a set of remote repositories into local directories.
//!
//! The crate holds the verified core of the tool: the paginated
//! repository listing (a cursor over the hosting API's pages), the
//! grammar of the pagination link header, the request-URL builders,
//! the clone-or-update decision machine of the mirror synchronizer,
//! and the aggregation of per-repository outcomes into a run summary.
//! The surrounding shell performs the network, version-control and
//! filesystem work that these components plan, and feeds the results
//! back in as events.

pub mod config;
pub mod github;
pub mod link;
pub mod mirror;
pub mod pagination;
pub mod repo;
pub mod summary;
pub mod text;
