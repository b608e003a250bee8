use vstd::prelude::*;

verus! {

pub const NANOS_PER_SECOND: u64 = 1_000_000_000;

/// What the control loop is to do with one frame.
#[derive(Clone, Copy, Debug, PartialEq, Eq, Structural)]
pub enum FrameAction {
    /// Simulation is paused: no step is due.
    Idle,
    /// Run this many fixed-size simulation steps.
    Run(u64),
    /// The accumulated time reached a second: it was discarded and simulation
    /// is paused until the caller resumes it.
    Halted,
}

/// Wall-clock time not yet simulated, drained in steps of a fixed size, in
/// nanoseconds.
pub struct TimeBudget {
    budget_ns: u64,
    step_ns: u64,
    simulating: bool,
}

impl TimeBudget {
    /// Time accumulated and not yet simulated.
    pub closed spec fn budget(&self) -> nat {
        self.budget_ns as nat
    }

    /// Size of one simulation step.
    pub closed spec fn step(&self) -> nat {
        self.step_ns as nat
    }

    /// Whether frames currently feed the simulation.
    pub closed spec fn simulating(&self) -> bool {
        self.simulating
    }

    /// The budget stays under a second and the step is not empty.
    pub open spec fn wf(&self) -> bool {
        &&& self.budget() < NANOS_PER_SECOND
        &&& self.step() > 0
    }

    /// A paused budget with nothing accumulated.
    pub fn new(step_ns: u64) -> (r: Self)
        requires
            step_ns > 0,
        ensures
            r.wf(),
            r.budget() == 0,
            r.step() == step_ns,
            !r.simulating(),
    {
        TimeBudget { budget_ns: 0, step_ns, simulating: false }
    }

    pub fn budget_ns(&self) -> (r: u64)
        ensures
            r == self.budget(),
    {
        self.budget_ns
    }

    pub fn step_ns(&self) -> (r: u64)
        ensures
            r == self.step(),
    {
        self.step_ns
    }

    pub fn is_simulating(&self) -> (r: bool)
        ensures
            r == self.simulating(),
    {
        self.simulating
    }

    /// Changes the step size; the accumulated time is kept.
    pub fn set_step_ns(&mut self, step_ns: u64)
        requires
            old(self).wf(),
            step_ns > 0,
        ensures
            final(self).wf(),
            final(self).step() == step_ns,
            final(self).budget() == old(self).budget(),
            final(self).simulating() == old(self).simulating(),
    {
        self.step_ns = step_ns;
    }

    /// Resumes or pauses the simulation; the accumulated time is kept.
    pub fn set_simulating(&mut self, simulating: bool)
        requires
            old(self).wf(),
        ensures
            final(self).wf(),
            final(self).simulating() == simulating,
            final(self).budget() == old(self).budget(),
            final(self).step() == old(self).step(),
    {
        self.simulating = simulating;
    }

    /// Accounts for a frame that took `elapsed_ns`. While simulating, the
    /// frame's time joins the budget; if the budget then reaches a second it is
    /// discarded and simulation pauses, otherwise as many whole steps as it
    /// holds are due and the remainder, less than a step, is kept.
    pub fn frame(&mut self, elapsed_ns: u64) -> (r: FrameAction)
        requires
            old(self).wf(),
        ensures
            final(self).wf(),
            final(self).step() == old(self).step(),
            !old(self).simulating() ==> {
                &&& r == FrameAction::Idle
                &&& final(self).budget() == old(self).budget()
                &&& !final(self).simulating()
            },
            old(self).simulating() && old(self).budget() + elapsed_ns >= NANOS_PER_SECOND ==> {
                &&& r == FrameAction::Halted
                &&& final(self).budget() == 0
                &&& !final(self).simulating()
            },
            old(self).simulating() && old(self).budget() + elapsed_ns < NANOS_PER_SECOND ==> {
                let total = old(self).budget() + elapsed_ns;
                &&& r == FrameAction::Run((total / (old(self).step() as int)) as u64)
                &&& final(self).budget() == total % (old(self).step() as int)
                &&& final(self).simulating()
            },
            r matches FrameAction::Run(n) ==> {
                &&& n * final(self).step() + final(self).budget() == old(self).budget()
                    + elapsed_ns
                &&& final(self).budget() < final(self).step()
            },
    {
        if !self.simulating {
            return FrameAction::Idle;
        }
        if elapsed_ns >= NANOS_PER_SECOND - self.budget_ns {
            self.budget_ns = 0;
            self.simulating = false;
            return FrameAction::Halted;
        }
        let total = self.budget_ns + elapsed_ns;
        let steps = total / self.step_ns;
        self.budget_ns = total % self.step_ns;
        proof {
            vstd::arithmetic::div_mod::lemma_fundamental_div_mod(total as int, self.step_ns as int);
            vstd::arithmetic::div_mod::lemma_mod_pos_bound(total as int, self.step_ns as int);
            vstd::arithmetic::mul::lemma_mul_is_commutative(steps as int, self.step_ns as int);
        }
        FrameAction::Run(steps)
    }
}

} // verus!
