//! What the library decides about its per-source databases: the rows it
//! models, how chapter URIs are matched, what a table-of-contents sync or a
//! download does to a row, when the legacy database is migrated, and which
//! source IDs resolve to an open database.
pub mod connection;
pub mod migration;
pub mod models;
pub mod registry;

pub use connection::{data_changed, toc_upsert, uri_variants, TocUpsert};
pub use models::{Chapter, Volume};
pub use registry::{SourceEntry, SourceRegistry};
