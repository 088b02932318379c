//! The rules behind the small building blocks of the views.

pub mod button;
pub mod debounce;
pub mod que;
pub mod toast;
