//! The shared domain: objects, their states, and the error catalog.

pub mod error;
pub mod laws;
pub mod model;
pub mod state_machine;
