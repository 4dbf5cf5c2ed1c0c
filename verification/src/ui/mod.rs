//! What the user sees and does: the list of models, the dialogs, the log and the
//! icon in the notification area.

pub mod dialog;
pub mod laws;
pub mod logs;
pub mod notice;
pub mod sizes;
pub mod tray;
pub mod view_model;
