//! A password vault: an encrypted database of entries whose fields keep
//! their whole edit history, with field presets and a password generator.

pub mod text;
pub mod encryption;
pub mod im_vector;
pub mod db;
pub mod config;
pub mod password_gen;
pub mod ui;
pub mod lock;
pub mod sortable;
