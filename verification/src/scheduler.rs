//! The decisions of the fixed-rate control cycle: what a cycle does with
//! the controller, and how long the loop rests before the next one.
//!
//! The loop itself belongs to the caller, who reads the clock, runs the
//! controller and sleeps. Times are whole nanoseconds.

use vstd::prelude::*;

verus! {

/// The nominal cycle period, ten milliseconds.
pub const NOMINAL_PERIOD_NANOS: u64 = 10_000_000;

/// What a cycle does with the controller.
#[derive(Clone, Copy, Debug, PartialEq, Eq, Structural)]
pub enum TickPlan {
    /// Run the control law once with this time step and send out what it
    /// commands.
    Control { dt_nanos: u64 },
    /// Send out the neutral command, all four actuators at zero, and clear
    /// the controller's integrators.
    Neutral,
}

/// What the loop does at the end of a cycle.
#[derive(Clone, Copy, Debug, PartialEq, Eq, Structural)]
pub enum Pacing {
    /// The cycle ended early: rest for this long.
    Sleep { nanos: u64 },
    /// The cycle used up its period or more: start the next one at once.
    /// `late_nanos` is the time by which the period was exceeded.
    Overrun { late_nanos: u64 },
}

/// The plan of a cycle with period `period_nanos`: the control law runs
/// only while the pilot has the controller enabled, and its time step is
/// the period, never the time that a cycle happened to take.
pub open spec fn plan_for(period_nanos: u64, controller_enable: bool) -> TickPlan {
    if controller_enable {
        TickPlan::Control { dt_nanos: period_nanos }
    } else {
        TickPlan::Neutral
    }
}

/// The pacing of a cycle that took `elapsed_nanos` of its `period_nanos`.
pub open spec fn pacing_for(period_nanos: u64, elapsed_nanos: u64) -> Pacing {
    if elapsed_nanos < period_nanos {
        Pacing::Sleep { nanos: (period_nanos - elapsed_nanos) as u64 }
    } else {
        Pacing::Overrun { late_nanos: (elapsed_nanos - period_nanos) as u64 }
    }
}

/// The scheduler of the control loop: a period that is greater than zero.
pub struct ControlScheduler {
    period_nanos: u64,
}

impl ControlScheduler {
    /// The period in nanoseconds.
    pub closed spec fn view(&self) -> u64 {
        self.period_nanos
    }

    /// The period is greater than zero, so that the control law's time
    /// step is.
    #[verifier::type_invariant]
    pub closed spec fn positive(&self) -> bool {
        self.period_nanos > 0
    }

    /// A scheduler with the given period.
    pub fn new(period_nanos: u64) -> (scheduler: Self)
        requires
            period_nanos > 0,
        ensures
            scheduler@ == period_nanos,
    {
        ControlScheduler { period_nanos }
    }

    /// A scheduler with the nominal period.
    pub fn nominal() -> (scheduler: Self)
        ensures
            scheduler@ == NOMINAL_PERIOD_NANOS,
    {
        ControlScheduler { period_nanos: NOMINAL_PERIOD_NANOS }
    }

    /// The period in nanoseconds, greater than zero.
    pub fn period_nanos(&self) -> (period: u64)
        ensures
            period == self@,
            period > 0,
    {
        proof {
            use_type_invariant(self);
        }
        self.period_nanos
    }

    /// What this cycle does with the controller, given the pilot's enable
    /// switch as it was read at the start of the cycle.
    pub fn plan(&self, controller_enable: bool) -> (plan: TickPlan)
        ensures
            plan == plan_for(self@, controller_enable),
            plan matches TickPlan::Control { dt_nanos } ==> dt_nanos > 0,
    {
        proof {
            use_type_invariant(self);
        }
        if controller_enable {
            TickPlan::Control { dt_nanos: self.period_nanos }
        } else {
            TickPlan::Neutral
        }
    }

    /// What the loop does at the end of a cycle that took `elapsed_nanos`:
    /// it rests for what is left of the period, or not at all when nothing
    /// is left.
    pub fn pacing(&self, elapsed_nanos: u64) -> (pacing: Pacing)
        ensures
            pacing == pacing_for(self@, elapsed_nanos),
    {
        if elapsed_nanos < self.period_nanos {
            Pacing::Sleep { nanos: self.period_nanos - elapsed_nanos }
        } else {
            Pacing::Overrun { late_nanos: elapsed_nanos - self.period_nanos }
        }
    }
}

/// A cycle that rests ends exactly one period after it began; one that
/// does not rest has already lasted that long.
pub proof fn lemma_cycle_lasts_a_period(period_nanos: u64, elapsed_nanos: u64)
    ensures
        match pacing_for(period_nanos, elapsed_nanos) {
            Pacing::Sleep { nanos } => nanos > 0 && elapsed_nanos + nanos == period_nanos,
            Pacing::Overrun { late_nanos } => elapsed_nanos == period_nanos + late_nanos,
        },
{
}

} // verus!
