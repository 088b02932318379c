//! The rules behind the settings window.

pub mod general;
pub mod settings_view;
pub mod editing;
