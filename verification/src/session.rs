//! The frame loop's decisions: when to quit, when to recompute the buffer,
//! and when to present it as it is.
//!
//! Once per frame the caller polls the window and hands the result in; it
//! gets back what to do, does it, and polls again.

use vstd::prelude::*;

verus! {

/// What the window reports at the start of a frame.
#[derive(Clone, Copy, Debug)]
pub struct Input {
    /// The window is still open.
    pub open: bool,
    /// The quit key is held down.
    pub quit_key: bool,
    /// The redraw key went down since the last frame.
    pub redraw_key: bool,
}

/// What to do in a frame.
#[derive(Clone, Copy, Debug, PartialEq, Eq, Structural)]
pub enum Action {
    /// Leave the loop.
    Quit,
    /// Recompute the whole buffer, then present it.
    Redraw,
    /// Present the buffer as it is.
    Present,
}

/// The action of a frame. `unrendered` says that the buffer has not been
/// computed yet. Quitting comes first; the buffer is recomputed when it is
/// asked for, and in any case before it is first presented.
pub open spec fn decide(unrendered: bool, input: Input) -> Action {
    if !input.open || input.quit_key {
        Action::Quit
    } else if input.redraw_key || unrendered {
        Action::Redraw
    } else {
        Action::Present
    }
}

/// Whether the buffer is still not computed after the frames whose inputs
/// are `inputs`, in that order.
pub open spec fn unrendered_after(inputs: Seq<Input>) -> bool
    decreases inputs.len(),
{
    if inputs.len() == 0 {
        true
    } else {
        let before = unrendered_after(inputs.drop_last());
        before && decide(before, inputs.last()) != Action::Redraw
    }
}

/// The action of frame `k` in a run of the loop from its start.
pub open spec fn action_at(inputs: Seq<Input>, k: int) -> Action
    recommends
        0 <= k < inputs.len(),
{
    decide(unrendered_after(inputs.take(k)), inputs[k])
}

/// The state of the frame loop: whether the buffer has been computed.
#[derive(Clone, Copy, Debug)]
pub struct FrameLoop {
    first_launch: bool,
}

impl FrameLoop {
    /// Whether the buffer has not been computed yet.
    pub closed spec fn unrendered(self) -> bool {
        self.first_launch
    }

    /// The loop before its first frame.
    pub fn new() -> (frames: FrameLoop)
        ensures
            frames.unrendered(),
    {
        FrameLoop { first_launch: true }
    }

    /// Decides the action of the next frame and notes a redraw.
    pub fn next(&mut self, input: Input) -> (action: Action)
        ensures
            action == decide(old(self).unrendered(), input),
            final(self).unrendered() == (old(self).unrendered() && action != Action::Redraw),
    {
        if !input.open || input.quit_key {
            Action::Quit
        } else if input.redraw_key || self.first_launch {
            self.first_launch = false;
            Action::Redraw
        } else {
            Action::Present
        }
    }
}

/// The buffer is never presented before it was computed: a frame that
/// presents it as it is comes after a frame that redrew it.
pub proof fn lemma_present_follows_redraw(inputs: Seq<Input>, k: int)
    requires
        0 <= k < inputs.len(),
        action_at(inputs, k) == Action::Present,
    ensures
        exists|j: int| 0 <= j < k && action_at(inputs, j) == Action::Redraw,
{
    lemma_rendered_by_redraw(inputs, k);
}

/// The first frame of a run redraws the buffer unless it quits.
pub proof fn lemma_first_frame_redraws(inputs: Seq<Input>)
    requires
        inputs.len() > 0,
    ensures
        action_at(inputs, 0) == Action::Quit || action_at(inputs, 0) == Action::Redraw,
{
    assert(inputs.take(0).len() == 0);
}

proof fn lemma_rendered_by_redraw(inputs: Seq<Input>, k: int)
    requires
        0 <= k <= inputs.len(),
        !unrendered_after(inputs.take(k)),
    ensures
        exists|j: int| 0 <= j < k && action_at(inputs, j) == Action::Redraw,
    decreases k,
{
    let upto = inputs.take(k);
    if k == 0 {
        assert(upto.len() == 0);
    } else {
        assert(upto.drop_last() =~= inputs.take(k - 1));
        assert(upto.last() == inputs[k - 1]);
        if unrendered_after(inputs.take(k - 1)) {
            assert(action_at(inputs, k - 1) == Action::Redraw);
        } else {
            lemma_rendered_by_redraw(inputs, k - 1);
        }
    }
}

} // verus!
