//! Fan control for Apple Silicon machines: the decisions of the daemon, its
//! wire formats and its safety rules, with their contracts.

pub mod cli;
pub mod config;
pub mod control;
pub mod correlation;
pub mod flt;
pub mod glyph;
pub mod launchd;
pub mod log;
pub mod security;
pub mod smc;
pub mod text;
