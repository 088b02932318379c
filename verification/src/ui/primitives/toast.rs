//! Notices shown to the user, each dismissed by its own timer.

use vstd::prelude::*;
use crate::ui::primitives::que::{contains_id, remove_id, without_id, Que};

verus! {

/// How long a notice stays, in seconds.
pub const DISMISS_TIMEOUT: u64 = 10;

/// The notices on screen (id and text) and the queues of pending timers.
#[derive(Debug)]
pub struct ToastSignals {
    pub toasts: Vec<(u8, String)>,
    pub que: Que,
}

/// The notices without those with the id, in order.
pub open spec fn without_toast(s: Seq<(u8, Seq<char>)>, id: u8) -> Seq<(u8, Seq<char>)>
    decreases s.len(),
{
    if s.len() == 0 {
        s
    } else {
        let rest = without_toast(s.drop_last(), id);
        if s.last().0 == id {
            rest
        } else {
            rest.push(s.last())
        }
    }
}

/// What the notices are.
pub open spec fn toasts_view(s: Seq<(u8, String)>) -> Seq<(u8, Seq<char>)> {
    s.map_values(|t: (u8, String)| (t.0, t.1@))
}

/// The id that [`ToastSignals::add`] gives a new notice: one more than the
/// last pending one (1 when none is pending).
pub open spec fn next_toast_id(pending: Seq<u8>) -> int {
    if pending.len() == 0 {
        1
    } else {
        pending.last() + 1
    }
}

fn remove_toast(toasts: &mut Vec<(u8, String)>, id: u8)
    ensures
        toasts_view(final(toasts)@) == without_toast(toasts_view(old(toasts)@), id),
{
    let ghost s = toasts_view(old(toasts)@);
    let mut old_toasts: Vec<(u8, String)> = Vec::new();
    std::mem::swap(&mut old_toasts, toasts);
    let mut i: usize = 0;
    while i < old_toasts.len()
        invariant
            0 <= i <= s.len(),
            s == toasts_view(old_toasts@),
            toasts_view(toasts@) == without_toast(s.take(i as int), id),
        decreases s.len() - i,
    {
        assert(s.take(i + 1).drop_last() =~= s.take(i as int));
        if old_toasts[i].0 != id {
            let ghost before = toasts@;
            toasts.push((old_toasts[i].0, old_toasts[i].1.clone()));
            assert(toasts_view(toasts@) =~= toasts_view(before).push(s[i as int]));
        }
        i += 1;
    }
    assert(s.take(s.len() as int) =~= s);
}

impl ToastSignals {
    /// No notice yet, with the given queues.
    pub fn new(que: Que) -> (t: Self)
        ensures
            t.toasts@.len() == 0,
            t.que == que,
    {
        ToastSignals { toasts: Vec::new(), que }
    }

    /// Forgets the pending timer of a notice.
    pub fn unque_toast(&mut self, id: u8)
        ensures
            final(self).que.toast@ == without_id(old(self).que.toast@, id),
            final(self).que.tooltip@ == old(self).que.tooltip@,
            final(self).que.lock@ == old(self).que.lock@,
            final(self).toasts@ == old(self).toasts@,
    {
        remove_id(&mut self.que.toast, id);
    }

    /// Removes every notice and forgets their timers.
    pub fn kill_all_toasts(&mut self)
        ensures
            final(self).toasts@.len() == 0,
            final(self).que.toast@.len() == 0,
            final(self).que.tooltip@ == old(self).que.tooltip@,
            final(self).que.lock@ == old(self).que.lock@,
    {
        self.toasts = Vec::new();
        self.que.unque_all_toasts();
    }

    /// Shows a notice and queues its timer; returns its id, one more than the
    /// last pending one. The caller dismisses it after [`DISMISS_TIMEOUT`]
    /// seconds with [`ToastSignals::dismiss`].
    pub fn add(&mut self, text: String) -> (id: u8)
        requires
            old(self).que.toast@.len() > 0 ==> old(self).que.toast@.last() < 255,
        ensures
            id == next_toast_id(old(self).que.toast@),
            toasts_view(final(self).toasts@) == toasts_view(old(self).toasts@).push((id, text@)),
            final(self).que.toast@ == old(self).que.toast@.push(id),
            final(self).que.tooltip@ == old(self).que.tooltip@,
            final(self).que.lock@ == old(self).que.lock@,
    {
        let n = self.que.toast.len();
        let id: u8 = if n == 0 {
            1
        } else {
            self.que.toast[n - 1] + 1
        };
        let ghost before = self.toasts@;
        let ghost t = text@;
        self.toasts.push((id, text));
        assert(toasts_view(self.toasts@) =~= toasts_view(before).push((id, t)));
        self.que.toast.push(id);
        id
    }

    /// What the timer of a notice does when it runs: if the notice is still
    /// pending, its timer is forgotten and the notice removed; otherwise
    /// nothing changes.
    pub fn dismiss(&mut self, id: u8)
        ensures
            old(self).que.toast@.contains(id) ==> {
                &&& final(self).que.toast@ == without_id(old(self).que.toast@, id)
                &&& toasts_view(final(self).toasts@) == without_toast(toasts_view(old(self).toasts@), id)
            },
            !old(self).que.toast@.contains(id) ==> {
                &&& final(self).que.toast@ == old(self).que.toast@
                &&& final(self).toasts@ == old(self).toasts@
            },
            final(self).que.tooltip@ == old(self).que.tooltip@,
            final(self).que.lock@ == old(self).que.lock@,
    {
        if contains_id(&self.que.toast, id) {
            self.unque_toast(id);
            remove_toast(&mut self.toasts, id);
        }
    }
}

} // verus!
