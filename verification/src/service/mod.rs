//! The launcher as a whole: how it starts, how its settings are changed, which
//! models it offers, and how it shuts down.

pub mod error;
pub mod laws;
pub mod models;
pub mod settings;
pub mod shutdown;
pub mod startup;
