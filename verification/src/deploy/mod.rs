//! Running a cluster on one machine.

pub mod app;
pub mod install;
pub mod local;
