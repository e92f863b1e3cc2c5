//! The terminal interface.
pub mod editor;
pub mod settings;
pub mod settings_laws;
pub mod model;
pub mod model_laws;
pub mod key_laws;
pub mod ui;
pub mod ui_laws;
