//! The rules behind the vault's views: text shown in lists, settings, window
//! names, and the queues of notices and locks.

pub mod details;
pub mod primitives;
pub mod settings;
pub mod settings_view;
pub mod window_management;
pub mod onboard_view;
