//! Build-time tooling: the configuration of type generation and the record
//! of what a scan read.

pub mod build_config;
pub mod cache;
pub mod config_builders;
pub mod registry;
pub mod rule_output;
pub mod expansion_cache;
