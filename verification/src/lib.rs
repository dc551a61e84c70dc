//! Command-line parsing, config switching rules and live-frame helpers of
//! the Kwybars audio visualizer, with their contracts.

pub mod text;
pub mod cli;
pub mod config_path;
pub mod control;
pub mod live;
