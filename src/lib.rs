//! Verified core of a local code-search indexing daemon: the embedding
//! provider's request framing, the vector store's write and query rules,
//! the bounded-concurrency reindexing job, and the process-wide context cell.

pub mod predicate;
pub mod provider;
pub mod store;
pub mod job;
pub mod context;
