//! Runs only the last of a burst of actions: each call is numbered, and when
//! its delay is over it runs only if no later call came in the meantime.

use vstd::prelude::*;

verus! {

/// The delay of a debounce and the number of the latest call (0 once it ran).
#[derive(Debug)]
pub struct Debounce {
    pub duration_ms: u64,
    counter: u64,
}

impl View for Debounce {
    type V = (u64, u64);

    closed spec fn view(&self) -> (u64, u64) {
        (self.duration_ms, self.counter)
    }
}

impl Default for Debounce {
    fn default() -> (d: Self)
        ensures
            d@ == (100u64, 0u64),
    {
        Debounce { duration_ms: 100, counter: 0 }
    }
}

/// A debounce after a new call is numbered, and the call's number: one past
/// the latest.
pub open spec fn debounce_added(d: (u64, u64)) -> ((u64, u64), u64) {
    ((d.0, (d.1 + 1) as u64), (d.1 + 1) as u64)
}

/// Whether a call runs when its delay is over, and the debounce after: it
/// runs exactly when it is still the latest, and then the count starts again.
pub open spec fn debounce_fired(d: (u64, u64), call: u64) -> (bool, (u64, u64)) {
    if d.1 == call {
        (true, (d.0, 0u64))
    } else {
        (false, d)
    }
}

/// A debounce after `k` calls are numbered.
pub open spec fn debounce_after_calls(d: (u64, u64), k: nat) -> (u64, u64) {
    (d.0, (d.1 + k) as u64)
}

impl Debounce {
    /// Numbers a new call; the caller runs its action after the delay if
    /// [`Debounce::fire`] says so.
    pub fn add(&mut self) -> (call: u64)
        requires
            old(self)@.1 < u64::MAX,
        ensures
            (final(self)@, call) == debounce_added(old(self)@),
    {
        self.counter = self.counter + 1;
        self.counter
    }

    /// When the delay of a call is over: it runs exactly when it is still the
    /// latest call, and the count starts again.
    pub fn fire(&mut self, call: u64) -> (run: bool)
        ensures
            (run, final(self)@) == debounce_fired(old(self)@, call),
    {
        if self.counter == call {
            self.counter = 0;
            true
        } else {
            false
        }
    }
}


/// Only the last of a burst runs: `k` calls numbered one after another get
/// the numbers that follow the latest one, in order; while a later call has
/// come, an earlier call of the burst does not run and changes nothing; the
/// last call runs and the count starts again at 0; after that no call of the
/// burst runs.
pub proof fn law_debounce_burst(d: (u64, u64), k: nat)
    requires
        0 < k,
        d.1 + k <= u64::MAX,
    ensures
        forall|j: nat| j < k ==> #[trigger] debounce_added(debounce_after_calls(d, j))
            == (debounce_after_calls(d, j + 1), (d.1 + j + 1) as u64),
        forall|j: nat, t: u64| d.1 < t < d.1 + j && j <= k
            ==> #[trigger] debounce_fired(debounce_after_calls(d, j), t) == (false, debounce_after_calls(d, j)),
        debounce_fired(debounce_after_calls(d, k), (d.1 + k) as u64) == (true, (d.0, 0u64)),
        forall|t: u64| d.1 < t <= d.1 + k ==> #[trigger] debounce_fired((d.0, 0u64), t) == (false, (d.0, 0u64)),
{
}


/// What happens to a debounce: a new call, or the delay of a numbered call
/// ending.
#[derive(Debug, Clone, Copy, PartialEq, Eq, Structural)]
pub enum DebounceStep {
    Call,
    DelayOver(u64),
}

/// A debounce after some steps.
pub open spec fn debounce_steps(d: (u64, u64), steps: Seq<DebounceStep>) -> (u64, u64)
    decreases steps.len(),
{
    if steps.len() == 0 {
        d
    } else {
        let before = debounce_steps(d, steps.drop_last());
        match steps.last() {
            DebounceStep::Call => debounce_added(before).0,
            DebounceStep::DelayOver(t) => debounce_fired(before, t).1,
        }
    }
}

/// The number of calls among some steps.
pub open spec fn calls_in(steps: Seq<DebounceStep>) -> nat
    decreases steps.len(),
{
    if steps.len() == 0 {
        0
    } else {
        calls_in(steps.drop_last()) + if steps.last() == DebounceStep::Call { 1nat } else { 0nat }
    }
}

/// Whether the step at `m` is the end of a delay whose call runs.
pub open spec fn step_runs(d: (u64, u64), steps: Seq<DebounceStep>, m: int) -> bool {
    match steps[m] {
        DebounceStep::Call => false,
        DebounceStep::DelayOver(t) => debounce_fired(debounce_steps(d, steps.take(m)), t).0,
    }
}

/// The number that the call at `m` gets.
pub open spec fn step_call_number(d: (u64, u64), steps: Seq<DebounceStep>, m: int) -> u64 {
    debounce_added(debounce_steps(d, steps.take(m))).1
}

/// The steps of a burst of `k` calls made on `d`: the delay of each call ends
/// after the next call was made (for the last call, after it was made), and
/// no other delay ends.
pub open spec fn burst_timing(d: (u64, u64), k: nat, steps: Seq<DebounceStep>) -> bool {
    &&& calls_in(steps) == k
    &&& forall|m: int| 0 <= m < steps.len() ==> (#[trigger] steps[m] matches DebounceStep::DelayOver(t) ==> {
        &&& d.1 < t <= d.1 + k
        &&& calls_in(steps.take(m)) >= t - d.1 + if t < d.1 + k { 1int } else { 0int }
    })
}

proof fn lemma_calls_in_prefix(steps: Seq<DebounceStep>, m: int)
    requires
        0 <= m <= steps.len(),
    ensures
        calls_in(steps.take(m)) <= calls_in(steps),
    decreases steps.len(),
{
    if m == steps.len() {
        assert(steps.take(m) =~= steps);
    } else {
        let init = steps.drop_last();
        assert(init.take(m) =~= steps.take(m));
        lemma_calls_in_prefix(init, m);
    }
}

proof fn lemma_take_contains(steps: Seq<DebounceStep>, m: int, x: DebounceStep)
    requires
        0 < m <= steps.len(),
    ensures
        steps.take(m).contains(x) <==> steps.take(m - 1).contains(x) || steps[m - 1] == x,
{
    let (p, q) = (steps.take(m), steps.take(m - 1));
    if p.contains(x) {
        let j = choose|j: int| 0 <= j < p.len() && p[j] == x;
        if j < m - 1 {
            assert(q[j] == x);
        }
    }
    if q.contains(x) {
        let j = choose|j: int| 0 <= j < q.len() && q[j] == x;
        assert(p[j] == x);
    }
    if steps[m - 1] == x {
        assert(p[m - 1] == x);
    }
}

#[verifier::spinoff_prover]
proof fn lemma_burst_prefix(d: (u64, u64), k: nat, steps: Seq<DebounceStep>, m: int)
    requires
        0 < k,
        d.1 + k <= u64::MAX,
        burst_timing(d, k, steps),
        0 <= m <= steps.len(),
    ensures
        calls_in(steps.take(m)) <= k,
        debounce_steps(d, steps.take(m)) == if steps.take(m).contains(DebounceStep::DelayOver((d.1 + k) as u64)) {
            (d.0, 0u64)
        } else {
            (d.0, (d.1 + calls_in(steps.take(m))) as u64)
        },
        steps.take(m).contains(DebounceStep::DelayOver((d.1 + k) as u64)) ==> calls_in(steps.take(m)) == k,
    decreases m,
{
    lemma_calls_in_prefix(steps, m);
    let last = DebounceStep::DelayOver((d.1 + k) as u64);
    if m == 0 {
        assert(steps.take(0) =~= Seq::<DebounceStep>::empty());
    } else {
        lemma_burst_prefix(d, k, steps, m - 1);
        let p = steps.take(m);
        let q = steps.take(m - 1);
        assert(p.drop_last() =~= q);
        assert(p.last() == steps[m - 1]);
        lemma_take_contains(steps, m, last);
        match steps[m - 1] {
            DebounceStep::Call => {
                if q.contains(last) {
                    assert(calls_in(p) == k + 1);
                }
            },
            DebounceStep::DelayOver(t) => {
                assert(steps[m - 1] matches DebounceStep::DelayOver(t) ==> {
                    &&& d.1 < t <= d.1 + k
                    &&& calls_in(steps.take(m - 1)) >= t - d.1 + if t < d.1 + k { 1int } else { 0int }
                });
            },
        }
    }
}

/// Only the last call of a burst runs, once: in any order of steps in which
/// the delay of each call ends after the next call was made, each call gets
/// the number after the one before; the end of the last call's delay runs it
/// the first time and never again; no other call runs; and once it ran the
/// count is 0 again.
pub proof fn law_debounce_burst_steps(d: (u64, u64), k: nat, steps: Seq<DebounceStep>)
    requires
        0 < k,
        d.1 + k <= u64::MAX,
        burst_timing(d, k, steps),
    ensures
        forall|m: int| 0 <= m < steps.len() && steps[m] == DebounceStep::Call
            ==> #[trigger] step_call_number(d, steps, m) == d.1 + calls_in(steps.take(m)) + 1,
        forall|m: int| 0 <= m < steps.len() ==> (#[trigger] step_runs(d, steps, m) <==> (
            steps[m] == DebounceStep::DelayOver((d.1 + k) as u64)
                && !steps.take(m).contains(DebounceStep::DelayOver((d.1 + k) as u64)))),
        debounce_steps(d, steps) == if steps.contains(DebounceStep::DelayOver((d.1 + k) as u64)) {
            (d.0, 0u64)
        } else {
            debounce_after_calls(d, k)
        },
{
    let last = DebounceStep::DelayOver((d.1 + k) as u64);
    assert forall|m: int| 0 <= m < steps.len() && steps[m] == DebounceStep::Call
        implies #[trigger] step_call_number(d, steps, m) == d.1 + calls_in(steps.take(m)) + 1 by {
        lemma_burst_prefix(d, k, steps, m);
        lemma_burst_prefix(d, k, steps, m + 1);
        assert(steps.take(m + 1).drop_last() =~= steps.take(m));
        lemma_take_contains(steps, m + 1, last);
    }
    assert forall|m: int| 0 <= m < steps.len() implies (#[trigger] step_runs(d, steps, m) <==> (
        steps[m] == last && !steps.take(m).contains(last))) by {
        lemma_burst_prefix(d, k, steps, m);
        if let DebounceStep::DelayOver(t) = steps[m] {
            assert(steps[m] matches DebounceStep::DelayOver(t) ==> {
                &&& d.1 < t <= d.1 + k
                &&& calls_in(steps.take(m)) >= t - d.1 + if t < d.1 + k { 1int } else { 0int }
            });
        }
    }
    lemma_burst_prefix(d, k, steps, steps.len() as int);
    assert(steps.take(steps.len() as int) =~= steps);
}

} // verus!
