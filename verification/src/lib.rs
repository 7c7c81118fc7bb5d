//! The decisions behind `cargo embed`: flash a firmware image, reset the target and
//! attach to its RTT channels.

pub mod args;
pub mod attach;
pub mod channels;
pub mod config;
pub mod hex;
pub mod logname;
pub mod plan;
pub mod probe;
pub mod report;
pub mod run;
pub mod show;
pub mod style;
pub mod text;
pub mod ui;
