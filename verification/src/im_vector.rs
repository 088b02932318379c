//! The persistent vectors of the `im` crate that the vault hands to its views:
//! the sidebar list of entries and the history of a field.

use vstd::prelude::*;

verus! {

#[verifier::external_type_specification]
#[verifier::external_body]
#[verifier::reject_recursive_types(A)]
pub struct ExImVector<A>(im::Vector<A>);

/// The rows that a sidebar list holds, front to back: an entry's id, its
/// title and its position in the database.
pub uninterp spec fn sidebar_items(v: im::Vector<(usize, &'static str, usize)>) -> Seq<(usize, Seq<char>, usize)>;

/// The values that a field history holds, front to back: a timestamp and the
/// value written then.
pub uninterp spec fn history_items(v: im::Vector<(u64, String)>) -> Seq<(u64, Seq<char>)>;

/// Calls `im::Vector::new` for a sidebar list. Trusted: the list is empty.
#[verifier::external_body]
pub(crate) fn sidebar_new() -> (v: im::Vector<(usize, &'static str, usize)>)
    ensures
        sidebar_items(v) == Seq::<(usize, Seq<char>, usize)>::empty(),
{
    im::Vector::new()
}

/// Calls `im::Vector::push_back` on a sidebar list. Trusted: the row is
/// appended at the back and the other rows stay as they were.
#[verifier::external_body]
pub(crate) fn sidebar_push_back(v: &mut im::Vector<(usize, &'static str, usize)>, row: (usize, &'static str, usize))
    ensures
        sidebar_items(*final(v)) == sidebar_items(*old(v)).push((row.0, row.1@, row.2)),
{
    v.push_back(row)
}

/// Calls `im::Vector::new` for a field history. Trusted: the history is empty.
#[verifier::external_body]
pub(crate) fn history_new() -> (v: im::Vector<(u64, String)>)
    ensures
        history_items(v) == Seq::<(u64, Seq<char>)>::empty(),
{
    im::Vector::new()
}

/// Calls `im::Vector::push_back` on a field history. Trusted: the value is
/// appended at the back and the other values stay as they were.
#[verifier::external_body]
pub(crate) fn history_push_back(v: &mut im::Vector<(u64, String)>, item: (u64, String))
    ensures
        history_items(*final(v)) == history_items(*old(v)).push((item.0, item.1@)),
{
    v.push_back(item)
}

/// Calls `String::leak`: the string's text, kept for the rest of the program.
#[verifier::external_body]
pub(crate) fn leak_string(s: String) -> (r: &'static str)
    ensures
        r@ == s@,
{
    s.leak()
}

} // verus!
