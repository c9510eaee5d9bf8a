use vstd::prelude::*;

verus! {

/// What the host loop does next.
#[derive(Debug, Clone, Copy, PartialEq, Eq, Structural)]
pub enum FrameAction {
    /// Run one more micro-step, then report the clock.
    Step,
    /// The frame's physics burst is over: derive and draw.
    Render,
}

/// Whether a frame that began at clock reading `start` has used up `budget`
/// by reading `now`. A clock that reads earlier than `start` counts as no
/// time spent.
pub open spec fn frame_over(start: u64, now: u64, budget: u64) -> bool {
    now > start && now - start > budget
}

/// `n + 1`, held at the largest `u64`.
pub open spec fn bump(n: u64) -> u64 {
    if n < u64::MAX { (n + 1) as u64 } else { n }
}

/// Fits as many micro-steps into a frame as its wall-clock budget allows,
/// and at least one. Clock readings and the budget are in one unit of the
/// host's choosing (nanoseconds, say).
pub struct FrameScheduler {
    budget: u64,
    frame_start: u64,
    steps_in_frame: u64,
    total_steps: u64,
}

impl FrameScheduler {
    pub closed spec fn spec_budget(&self) -> u64 {
        self.budget
    }

    pub closed spec fn spec_frame_start(&self) -> u64 {
        self.frame_start
    }

    pub closed spec fn spec_steps_in_frame(&self) -> u64 {
        self.steps_in_frame
    }

    pub closed spec fn spec_total_steps(&self) -> u64 {
        self.total_steps
    }

    pub fn new(budget: u64) -> (r: FrameScheduler)
        ensures
            r.spec_budget() == budget,
            r.spec_frame_start() == 0,
            r.spec_steps_in_frame() == 0,
            r.spec_total_steps() == 0,
    {
        FrameScheduler { budget, frame_start: 0, steps_in_frame: 0, total_steps: 0 }
    }

    /// Starts a frame at clock reading `now`. A frame always begins with a
    /// micro-step, so the answer is always `Step`.
    pub fn begin_frame(&mut self, now: u64) -> (r: FrameAction)
        ensures
            r == FrameAction::Step,
            final(self).spec_frame_start() == now,
            final(self).spec_steps_in_frame() == 0,
            final(self).spec_budget() == old(self).spec_budget(),
            final(self).spec_total_steps() == old(self).spec_total_steps(),
    {
        self.frame_start = now;
        self.steps_in_frame = 0;
        FrameAction::Step
    }

    /// Records a finished micro-step, the clock then reading `now`, and says
    /// whether to step again or render.
    pub fn after_step(&mut self, now: u64) -> (r: FrameAction)
        ensures
            r == (if frame_over(old(self).spec_frame_start(), now, old(self).spec_budget()) {
                FrameAction::Render
            } else {
                FrameAction::Step
            }),
            final(self).spec_steps_in_frame() == bump(old(self).spec_steps_in_frame()),
            final(self).spec_total_steps() == bump(old(self).spec_total_steps()),
            final(self).spec_frame_start() == old(self).spec_frame_start(),
            final(self).spec_budget() == old(self).spec_budget(),
    {
        if self.steps_in_frame < u64::MAX {
            self.steps_in_frame = self.steps_in_frame + 1;
        }
        if self.total_steps < u64::MAX {
            self.total_steps = self.total_steps + 1;
        }
        if now > self.frame_start && now - self.frame_start > self.budget {
            FrameAction::Render
        } else {
            FrameAction::Step
        }
    }

    pub fn budget(&self) -> (r: u64)
        ensures
            r == self.spec_budget(),
    {
        self.budget
    }

    /// Micro-steps run in the current frame.
    pub fn steps_in_frame(&self) -> (r: u64)
        ensures
            r == self.spec_steps_in_frame(),
    {
        self.steps_in_frame
    }

    /// Micro-steps run since the scheduler was made; simulated time is this
    /// count times the micro-timestep.
    pub fn total_steps(&self) -> (r: u64)
        ensures
            r == self.spec_total_steps(),
    {
        self.total_steps
    }
}

/// Micro-steps a frame runs when the clock reads `readings[k]` after its
/// `k + 1`-th step: up to and including the first step after which the
/// budget is used up, or all of them if it never is.
pub open spec fn steps_run(start: u64, budget: u64, readings: Seq<u64>) -> nat
    decreases readings.len(),
{
    if readings.len() == 0 {
        0
    } else if frame_over(start, readings[0], budget) {
        1
    } else {
        1 + steps_run(start, budget, readings.drop_first())
    }
}

/// A frame never runs zero micro-steps: given any clock readings it runs at
/// least one, and never more than there are readings.
pub proof fn lemma_frame_runs_at_least_one_step(start: u64, budget: u64, readings: Seq<u64>)
    requires
        readings.len() > 0,
    ensures
        1 <= steps_run(start, budget, readings) <= readings.len(),
    decreases readings.len(),
{
    if !frame_over(start, readings[0], budget) && readings.len() > 1 {
        lemma_frame_runs_at_least_one_step(start, budget, readings.drop_first());
    } else if readings.len() == 1 {
        assert(steps_run(start, budget, readings.drop_first()) == 0);
    }
}

/// With a budget of zero a frame runs exactly one micro-step, then renders,
/// as soon as the clock has moved on from the frame's start.
pub proof fn lemma_zero_budget_runs_one_step(start: u64, readings: Seq<u64>)
    requires
        readings.len() > 0,
        readings[0] > start,
    ensures
        steps_run(start, 0, readings) == 1,
{
}

} // verus!
