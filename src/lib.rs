//! The ingestion and storage core of a local event daemon.
//!
//! Clients submit event envelopes (`envelope`, admitted by `api`); a worker
//! batches them (`worker`), keeps their content as compressed, encrypted,
//! content-addressed blobs (`blobs`, `crypto`), and records them in a metadata
//! store whose blob index counts the events that reference each blob (`db`,
//! with its statements in `sql`). Purges remove events by criteria and recount
//! the index (`purge`).
use vstd::prelude::*;

pub mod api;
pub mod blobs;
pub mod crypto;
pub mod db;
pub mod envelope;
pub mod purge;
pub mod socket;
pub mod sql;
pub mod text;
pub mod worker;

verus! {

} // verus!
