//! Disk cleanup engine: file admission rules, scan aggregation, deletion
//! tallies and progress tracking, with their contracts proved by Verus.
//!
//! Walking directories, reading metadata and deleting files are left to the
//! caller, which hands the engine plain values and acts on what it returns.
pub mod clean;
pub mod config;
pub mod errors;
pub mod filter;
pub mod glob;
pub mod laws;
pub mod scan;
pub mod service;
