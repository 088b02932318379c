//! The rules behind the entry details view.

pub mod list_item;
pub mod detail_view;
