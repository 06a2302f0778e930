//! March control: the termination policy of the ray marcher.
//!
//! A march advances along a ray one step at a time. After each step the
//! caller reports whether the step ended near a surface and whether the ray
//! has travelled out of range; either ends the march. The control counts the
//! steps and ends the march on its own once the step limit is reached.

use vstd::prelude::*;

verus! {

/// What a march control holds: the step limit, the steps taken so far, and
/// whether an outcome has ended the march.
pub struct MarchState {
    pub limit: nat,
    pub taken: nat,
    pub stopped: bool,
}

impl MarchState {
    /// The state of a march that has not begun.
    pub open spec fn fresh(limit: nat) -> MarchState {
        MarchState { limit, taken: 0, stopped: false }
    }

    /// Whether the march goes on: no outcome has ended it and the limit is
    /// not reached.
    pub open spec fn wants_step(self) -> bool {
        !self.stopped && self.taken < self.limit
    }

    /// The state after one more step whose outcome ends the march or not.
    /// A march that is over stays as it is.
    pub open spec fn after(self, stop: bool) -> MarchState {
        if self.wants_step() {
            MarchState { limit: self.limit, taken: self.taken + 1, stopped: stop }
        } else {
            self
        }
    }

    /// The state after the steps whose outcomes are `stops`, in that order.
    pub open spec fn replay(self, stops: Seq<bool>) -> MarchState
        decreases stops.len(),
    {
        if stops.len() == 0 {
            self
        } else {
            self.after(stops[0]).replay(stops.drop_first())
        }
    }
}

/// The number of outcomes at the front of `stops` that do not end a march.
pub open spec fn open_run(stops: Seq<bool>) -> nat
    decreases stops.len(),
{
    if stops.len() == 0 || stops[0] {
        0
    } else {
        1 + open_run(stops.drop_first())
    }
}

/// The smaller of two numbers.
pub open spec fn least(a: int, b: int) -> int {
    if a <= b {
        a
    } else {
        b
    }
}

/// The number of steps that a march takes when step after step is offered
/// to it with the outcomes `stops`: it ends with the first outcome that
/// stops it, with the last outcome offered, or with the step that reaches
/// the limit, whichever comes first.
pub open spec fn steps_run(limit: nat, stops: Seq<bool>) -> int {
    least(limit as int, least(stops.len() as int, open_run(stops) as int + 1))
}

/// Counts the steps of one march and says when it is over.
pub struct MarchControl {
    limit: u32,
    taken: u32,
    stopped: bool,
}

impl View for MarchControl {
    type V = MarchState;

    closed spec fn view(&self) -> MarchState {
        MarchState { limit: self.limit as nat, taken: self.taken as nat, stopped: self.stopped }
    }
}

impl MarchControl {
    #[verifier::type_invariant]
    spec fn within_limit(self) -> bool {
        self.taken <= self.limit
    }

    /// The control of a march of at most `limit` steps.
    pub fn new(limit: u32) -> (control: MarchControl)
        ensures
            control@ == MarchState::fresh(limit as nat),
    {
        MarchControl { limit, taken: 0, stopped: false }
    }

    /// Whether another step is to be taken.
    pub fn wants_step(&self) -> (go: bool)
        ensures
            go == self@.wants_step(),
    {
        !self.stopped && self.taken < self.limit
    }

    /// The number of steps taken so far, which never exceeds the limit.
    pub fn steps_taken(&self) -> (n: u32)
        ensures
            n == self@.taken,
            self@.taken <= self@.limit,
    {
        proof {
            use_type_invariant(self);
        }
        self.taken
    }

    /// Records the outcome of one step: the march is over if the step ended
    /// near a surface or the ray is out of range, and goes on otherwise
    /// while the limit allows. Recording on a march that is over changes
    /// nothing.
    pub fn record(&mut self, near_surface: bool, out_of_range: bool)
        ensures
            final(self)@ == old(self)@.after(near_surface || out_of_range),
    {
        proof {
            use_type_invariant(&*self);
        }
        if !self.stopped && self.taken < self.limit {
            self.taken = self.taken + 1;
            self.stopped = near_surface || out_of_range;
        }
    }
}

/// The state that a control can be in: it has taken no more steps than its
/// limit.
pub open spec fn reachable(state: MarchState) -> bool {
    state.taken <= state.limit
}

/// A march never takes more steps than its limit, whatever the outcomes
/// are, and takes at most one step for each outcome.
pub proof fn lemma_march_bounded(state: MarchState, stops: Seq<bool>)
    requires
        reachable(state),
    ensures
        reachable(state.replay(stops)),
        state.replay(stops).limit == state.limit,
        state.taken <= state.replay(stops).taken <= state.taken + stops.len(),
    decreases stops.len(),
{
    if stops.len() > 0 {
        lemma_march_bounded(state.after(stops[0]), stops.drop_first());
    }
}

/// A march is over once as many outcomes were recorded as its limit allowed
/// steps.
pub proof fn lemma_march_ends(state: MarchState, stops: Seq<bool>)
    requires
        reachable(state),
        stops.len() >= state.limit - state.taken,
    ensures
        !state.replay(stops).wants_step(),
    decreases stops.len(),
{
    if !state.wants_step() {
        lemma_march_stays_over(state, stops);
    } else {
        lemma_march_ends(state.after(stops[0]), stops.drop_first());
    }
}

/// A march that is over stays over, and its count stays.
pub proof fn lemma_march_stays_over(state: MarchState, stops: Seq<bool>)
    requires
        !state.wants_step(),
    ensures
        state.replay(stops) == state,
    decreases stops.len(),
{
    if stops.len() > 0 {
        lemma_march_stays_over(state, stops.drop_first());
    }
}

/// From the start, a march takes exactly `steps_run` steps, and an outcome
/// has ended it exactly if that step's outcome stops it.
pub proof fn lemma_march_length(limit: nat, stops: Seq<bool>)
    ensures
        MarchState::fresh(limit).replay(stops).taken == steps_run(limit, stops),
        MarchState::fresh(limit).replay(stops).stopped == (steps_run(limit, stops) > 0
            && stops[steps_run(limit, stops) - 1]),
        forall|k: int| 0 <= k < steps_run(limit, stops) - 1 ==> !stops[k],
{
    lemma_replay_length(MarchState::fresh(limit), stops);
    lemma_open_run(stops);
}

/// The outcomes counted by `open_run` do not stop a march, and the one that
/// follows them, if there is one, does.
pub proof fn lemma_open_run(stops: Seq<bool>)
    ensures
        open_run(stops) <= stops.len(),
        forall|k: int| 0 <= k < open_run(stops) ==> !stops[k],
        open_run(stops) < stops.len() ==> stops[open_run(stops) as int],
    decreases stops.len(),
{
    if stops.len() > 0 && !stops[0] {
        let rest = stops.drop_first();
        lemma_open_run(rest);
        assert forall|k: int| 0 <= k < open_run(stops) implies !stops[k] by {
            if k > 0 {
                assert(stops[k] == rest[k - 1]);
            }
        }
        if open_run(stops) < stops.len() {
            assert(stops[open_run(stops) as int] == rest[open_run(rest) as int]);
        }
    }
}

proof fn lemma_replay_length(state: MarchState, stops: Seq<bool>)
    requires
        reachable(state),
        !state.stopped,
    ensures
        state.replay(stops).taken == state.taken + steps_run(
            (state.limit - state.taken) as nat,
            stops,
        ),
        state.replay(stops).stopped == (steps_run((state.limit - state.taken) as nat, stops) > 0
            && stops[steps_run((state.limit - state.taken) as nat, stops) - 1]),
    decreases stops.len(),
{
    if stops.len() > 0 {
        let rest = stops.drop_first();
        let next = state.after(stops[0]);
        if !state.wants_step() {
            lemma_march_stays_over(state, stops);
        } else if stops[0] {
            lemma_march_stays_over(next, rest);
        } else {
            lemma_replay_length(next, rest);
            let n = steps_run((next.limit - next.taken) as nat, rest);
            if n > 0 {
                assert(stops[n] == rest[n - 1]);
            }
        }
    }
}

} // verus!
