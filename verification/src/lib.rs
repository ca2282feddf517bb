//! Verified core of a public-contracts harvesting pipeline.
//!
//! The library covers the logic of the scraper: the compact interval set and
//! the resumable progress ledger, the portal's field-level decoding rules, the
//! payload shapes sent to the portal, the producer/consumer pipeline
//! decisions, the dual-store write plan, and the statistics windows. All I/O
//! (HTTP, database, search index, files) lives outside the library and hands
//! it plain values.

pub mod basegov;
pub mod contract;
pub mod dates;
pub mod decode;
pub mod pipeline;
pub mod portal;
pub mod progress;
pub mod rangeset;
pub mod search;
pub mod stats;
pub mod storeplan;
pub mod text;
