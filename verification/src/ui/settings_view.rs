//! The tabs of the first settings window.

use vstd::prelude::*;

verus! {

/// A tab of the first settings window.
#[derive(Debug, Clone, Copy, PartialEq, Eq, Structural, Hash)]
pub enum Tabs {
    General,
    Editing,
    Database,
}

/// The name of each tab.
pub open spec fn tab_name(t: Tabs) -> Seq<char> {
    match t {
        Tabs::General => "General"@,
        Tabs::Editing => "Editing"@,
        Tabs::Database => "Database"@,
    }
}

impl Tabs {
    /// The name of the tab.
    pub fn to_string(&self) -> (s: String)
        ensures
            s@ == tab_name(*self),
    {
        match self {
            Tabs::General => "General".to_owned(),
            Tabs::Editing => "Editing".to_owned(),
            Tabs::Database => "Database".to_owned(),
        }
    }
}

} // verus!
