//! Models, settings and the rules of the launcher.

pub mod capability;
pub mod catalog;
pub mod catalog_laws;
pub mod config;
pub mod error;
pub mod gguf;
pub mod model;
pub mod path_order;
pub mod pattern;
pub mod reconcile;
pub mod reconcile_laws;
pub mod scan;
pub mod watch;
pub mod redaction;
pub mod log;
pub mod log_laws;
pub mod lifecycle_model;
pub mod lifecycle;
pub mod lifecycle_laws;
pub mod engine;
