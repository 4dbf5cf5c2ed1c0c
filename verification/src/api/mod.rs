//! The HTTP interface: who may use it, what it answers, and what it passes on to
//! the engine.

pub mod auth;
pub mod error;
pub mod gateway;
pub mod laws;
pub mod models;
pub mod proxy;
