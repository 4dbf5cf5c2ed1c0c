//! Verified core of a local model-serving launcher.

pub mod domain;
pub mod launcher;
pub mod text;
pub mod text_laws;
pub mod wsl;
pub mod api;
pub mod service;
pub mod ui;
pub mod desktop;
pub mod json;
