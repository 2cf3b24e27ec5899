//! Argument parsing, configuration settings, flag interpretation, telemetry
//! fields and output text for the `ores-otel` command-line tool.

pub mod text;
pub mod error;
pub mod args;
pub mod env_map;
pub mod flags;
pub mod config;
pub mod telemetry;
pub mod commands;
pub mod markers;
