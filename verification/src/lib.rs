//! Package security gate: lockfile diffing, risk scoring, source pattern
//! analysis and report assembly, with their contracts proved by Verus.

pub mod text;
pub mod types;
pub mod config;
pub mod manifest;
pub mod scorer;
pub mod manifest_diff;
pub mod tier1_osv;
pub mod tier2_meta;
pub mod tier3_analyzer;
pub mod hook;
pub mod scan;
pub mod report;
pub mod cli;
