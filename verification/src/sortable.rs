//! Reordering a list by dragging one item onto another.

use vstd::prelude::*;

verus! {

broadcast use {vstd::seq_lib::to_multiset_remove, vstd::seq_lib::to_multiset_insert};

/// The position of the first occurrence of `x`.
pub open spec fn first_position(s: Seq<usize>, x: usize) -> Option<int>
    decreases s.len(),
{
    if s.len() == 0 {
        None
    } else {
        match first_position(s.drop_last(), x) {
            Some(i) => Some(i),
            None => if s.last() == x {
                Some(s.len() - 1)
            } else {
                None
            },
        }
    }
}

proof fn lemma_first_position(s: Seq<usize>, x: usize)
    ensures
        match first_position(s, x) {
            Some(i) => 0 <= i < s.len() && s[i] == x && forall|j: int| 0 <= j < i ==> s[j] != x,
            None => forall|j: int| 0 <= j < s.len() ==> s[j] != x,
        },
    decreases s.len(),
{
    if s.len() > 0 {
        let t = s.drop_last();
        lemma_first_position(t, x);
        assert forall|j: int| 0 <= j < s.len() - 1 implies #[trigger] t[j] == s[j] by {}
        assert(s.last() == s[s.len() - 1]);
        if first_position(t, x) is None {
            assert forall|j: int| 0 <= j < s.len() - 1 implies s[j] != x by {
                assert(t[j] != x);
            }
        } else {
            let i = first_position(t, x)->0;
            assert forall|j: int| 0 <= j < i implies s[j] != x by {
                assert(t[j] != x);
            }
        }
    }
}

fn position(items: &Vec<usize>, x: usize) -> (r: usize)
    requires
        items@.contains(x),
    ensures
        first_position(items@, x) == Some(r as int),
{
    proof { lemma_first_position(items@, x); }
    let mut i: usize = 0;
    while i < items.len()
        invariant
            0 <= i <= items@.len(),
            items@.contains(x),
            forall|j: int| 0 <= j < i ==> items@[j] != x,
            match first_position(items@, x) {
                Some(k) => 0 <= k < items@.len() && items@[k] == x && forall|j: int| 0 <= j < k ==> items@[j] != x,
                None => forall|j: int| 0 <= j < items@.len() ==> items@[j] != x,
            },
        decreases items@.len() - i,
    {
        if items[i] == x {
            return i;
        }
        i += 1;
    }
    i
}

/// The items after the dragged one is taken out and put where the hovered
/// one was.
pub open spec fn spec_sort_items(items: Seq<usize>, dragger_id: usize, hover_id: usize) -> Seq<usize> {
    if dragger_id == hover_id {
        items
    } else {
        let d = first_position(items, dragger_id)->0;
        let h = first_position(items, hover_id)->0;
        items.remove(d).insert(h, dragger_id)
    }
}

/// Moves the dragged item to the position of the hovered one.
pub fn sort_items(sortable_items: &mut Vec<usize>, dragger_id: usize, hover_id: usize)
    requires
        dragger_id != hover_id ==> old(sortable_items)@.contains(dragger_id) && old(sortable_items)@.contains(hover_id),
    ensures
        final(sortable_items)@ == spec_sort_items(old(sortable_items)@, dragger_id, hover_id),
{
    if dragger_id != hover_id {
        let dragger_pos = position(sortable_items, dragger_id);
        let hover_pos = position(sortable_items, hover_id);
        proof {
            lemma_first_position(old(sortable_items)@, dragger_id);
            lemma_first_position(old(sortable_items)@, hover_id);
        }
        sortable_items.remove(dragger_pos);
        sortable_items.insert(hover_pos, dragger_id);
    }
}

/// Dragging only reorders: the items are the same, as many times each.
pub proof fn law_sort_items_permutes(items: Seq<usize>, dragger_id: usize, hover_id: usize)
    requires
        dragger_id != hover_id ==> items.contains(dragger_id) && items.contains(hover_id),
    ensures
        spec_sort_items(items, dragger_id, hover_id).to_multiset() == items.to_multiset(),
{
    if dragger_id != hover_id {
        lemma_first_position(items, dragger_id);
        lemma_first_position(items, hover_id);
        let d = first_position(items, dragger_id)->0;
        let h = first_position(items, hover_id)->0;
        let removed = items.remove(d);
        assert(removed.to_multiset() == items.to_multiset().remove(dragger_id));
        assert(removed.insert(h, dragger_id).to_multiset() == removed.to_multiset().insert(dragger_id));
        broadcast use vstd::multiset::group_multiset_axioms;
        assert(items.to_multiset().count(dragger_id) > 0) by {
            broadcast use vstd::seq_lib::group_to_multiset_ensures;
        }
        assert(items.to_multiset().remove(dragger_id).insert(dragger_id) =~= items.to_multiset());
    }
}

} // verus!
