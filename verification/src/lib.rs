//! Multi-tenant feed polling, deduplication and notification fan-out.
//!
//! The library owns the data model and the decision logic of the pipeline:
//! source registration behind a tier-quota gate, feed parsing, watermark
//! deduplication, subscription resolution with tenant isolation, batch
//! rendering and pacing, and webhook signature verification. Network and
//! chat-transport I/O live outside the library and hand plain values in.

pub mod dedup;
pub mod fetch;
pub mod identity;
pub mod models;
pub mod notify;
pub mod payment;
pub mod registry;
pub mod storekeys;
pub mod subs;
pub mod sweep;
pub mod text;
