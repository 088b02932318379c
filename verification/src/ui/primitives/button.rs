//! The kinds of buttons.

use vstd::prelude::*;

verus! {

/// The size of an icon button.
#[derive(Debug, Clone, Copy, PartialEq, Eq, Structural)]
pub enum ButtonVariant {
    Default,
    Tiny,
}

} // verus!
