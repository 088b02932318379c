//! The queues of pending tooltips, notices and locks: each holds the ids of
//! the timers still waiting to act.

use vstd::prelude::*;

verus! {

/// The ids of the pending tooltip, notice and lock timers.
#[derive(Debug)]
pub struct Que {
    pub tooltip: Vec<u8>,
    pub toast: Vec<u8>,
    pub lock: Vec<u8>,
}

/// The ids without `id`, in order.
pub open spec fn without_id(s: Seq<u8>, id: u8) -> Seq<u8>
    decreases s.len(),
{
    if s.len() == 0 {
        s
    } else {
        let rest = without_id(s.drop_last(), id);
        if s.last() == id {
            rest
        } else {
            rest.push(s.last())
        }
    }
}

/// Removes every `id` from the ids, keeping the others in order.
pub fn remove_id(ids: &mut Vec<u8>, id: u8)
    ensures
        final(ids)@ == without_id(old(ids)@, id),
{
    let ghost s = old(ids)@;
    let mut kept: Vec<u8> = Vec::new();
    let mut i: usize = 0;
    while i < ids.len()
        invariant
            0 <= i <= s.len(),
            ids@ == s,
            kept@ == without_id(s.take(i as int), id),
        decreases s.len() - i,
    {
        assert(s.take(i + 1).drop_last() =~= s.take(i as int));
        if ids[i] != id {
            kept.push(ids[i]);
        }
        i += 1;
    }
    assert(s.take(s.len() as int) =~= s);
    *ids = kept;
}

/// Whether the ids hold `id`.
pub fn contains_id(ids: &Vec<u8>, id: u8) -> (r: bool)
    ensures
        r == ids@.contains(id),
{
    let mut i: usize = 0;
    while i < ids.len()
        invariant
            0 <= i <= ids@.len(),
            forall|j: int| 0 <= j < i ==> ids@[j] != id,
        decreases ids@.len() - i,
    {
        if ids[i] == id {
            assert(ids@[i as int] == id);
            return true;
        }
        i += 1;
    }
    false
}

/// Removing an id leaves none of it, and keeps every other id.
pub proof fn law_without_id(s: Seq<u8>, id: u8)
    ensures
        forall|x: u8| #[trigger] without_id(s, id).contains(x) <==> (x != id && s.contains(x)),
    decreases s.len(),
{
    if s.len() == 0 {
        assert forall|x: u8| #[trigger] without_id(s, id).contains(x) <==> (x != id && s.contains(x)) by {
            vstd::seq_lib::lemma_seq_empty_contains_nothing(x);
            assert(s =~= Seq::<u8>::empty());
        }
    } else {
        let t = s.drop_last();
        law_without_id(t, id);
        assert(s =~= t.push(s.last()));
        assert forall|x: u8| #[trigger] without_id(s, id).contains(x) <==> (x != id && s.contains(x)) by {
            vstd::seq_lib::lemma_seq_contains_after_push(t, s.last(), x);
            vstd::seq_lib::lemma_seq_contains_after_push(without_id(t, id), s.last(), x);
        }
    }
}

impl Default for Que {
    fn default() -> (q: Self)
        ensures
            q.tooltip@.len() == 0,
            q.toast@.len() == 0,
            q.lock@.len() == 0,
    {
        Que { tooltip: Vec::new(), toast: Vec::new(), lock: Vec::new() }
    }
}

impl Que {
    /// Forgets every pending tooltip.
    pub fn unque_all_tooltips(&mut self)
        ensures
            final(self).tooltip@.len() == 0,
            final(self).toast@ == old(self).toast@,
            final(self).lock@ == old(self).lock@,
    {
        self.tooltip = Vec::new();
    }

    /// Forgets every pending notice.
    pub fn unque_all_toasts(&mut self)
        ensures
            final(self).toast@.len() == 0,
            final(self).tooltip@ == old(self).tooltip@,
            final(self).lock@ == old(self).lock@,
    {
        self.toast = Vec::new();
    }
}

} // verus!
