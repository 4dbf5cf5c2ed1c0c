//! Engines that run inside the Windows Subsystem for Linux.

pub mod engine;
pub mod laws;
pub mod path;
pub mod probe;
pub mod process;
