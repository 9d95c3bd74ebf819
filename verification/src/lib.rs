//! Bulk file deletion, verified at its core.
//!
//! The crate selects files under a set of root directories by glob pattern
//! and size floor, and removes them permanently or moves them to the host
//! trash, after an explicit confirmation step.  The decision logic — size
//! parsing, root-set collection, pattern-based matching, scan aggregation,
//! sweep planning and summarising, and the confirmation gate — lives here
//! and carries contracts checked by Verus.  Directory walking, deletion and
//! terminal interaction are performed by an unverified front end that feeds
//! this crate plain values and executes the plans it returns.

pub mod errors;
pub mod text;
pub mod size;
pub mod paths;
pub mod pattern;
pub mod scan;
pub mod sweep;
pub mod gate;
pub mod cli;
