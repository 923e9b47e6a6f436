//! Subscriber pipeline: turns the ordered stream of committed sub-DAGs that a
//! consensus layer produces into ordered batches of transactions, delivered to
//! a downstream notifier through a bounded channel.
//!
//! The pipeline fetches each referenced batch from local worker storage or a
//! remote peer (with bounded retries and single-flight deduplication),
//! reassembles the fetched batches into the sub-DAG's own certificate order,
//! and recovers after a restart without re-delivering already-executed
//! sub-DAGs. Every component is a deterministic state machine; the I/O that
//! drives it (storage lookups, RPC, clocks) lives outside this crate and hands
//! in plain values.

pub mod batch_source;
pub mod channel;
pub mod driver;
pub mod errors;
pub mod metrics;
pub mod reassembler;
pub mod recovery;
pub mod scheduler;
pub mod store;
pub mod types;
