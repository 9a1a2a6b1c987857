//! Verified core of a desktop launcher for local Node.js projects: run
//! identifiers, input checks, log handling, the table of running scripts,
//! workspace configuration and editor detection.

pub mod outside;
pub mod text;
pub mod ids;
pub mod paths;
pub mod logs;
pub mod runs;
pub mod config;
pub mod scan;
pub mod ide;
