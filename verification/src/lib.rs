//! Verified token accounting for Codex usage rollouts.
//!
//! The library turns already-decoded rollout records into per-day token
//! deltas, keeps the lineage state that decides which counters a rollout
//! owns, accounts independent response records, and keeps the content-free
//! failure evidence of a scan.
use vstd::prelude::*;

pub mod account;
pub mod catalog_rules;
pub mod cli;
pub mod clock;
pub mod failure_capture;
pub mod file_days;
pub mod file_scan;
pub mod files;
pub mod fingerprint;
pub mod index_line;
pub mod index_store;
pub mod parent;
pub mod parent_probe;
pub mod prefix_anchor;
pub mod pricing;
pub mod report;
pub mod reprice;
pub mod response_usage;
pub mod scan_pass;
pub mod rollout;
pub mod text;
pub mod tokens;

verus! {

} // verus!
