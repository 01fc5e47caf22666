//! The ritual gate of the embodied predictive substrate: the anti-grind clause
//! that decides whether the agent may exert itself.
//!
//! The ritual gate opens when the metabolic budget is not exhausted, the settlement
//! channel lies in its dignity band, and at least `refractory_steps` steps have
//! passed since the last exertion. The two threshold comparisons are made on
//! the continuous channels by the caller; the ritual gate holds the refractory clock
//! and the order in which the conditions are judged.

use vstd::prelude::*;

verus! {

/// Why the ritual gate is open or closed.
#[derive(Clone, Copy, Debug, PartialEq, Eq, Structural)]
pub enum GateStatus {
    /// No step has been taken yet.
    Uninitialized,
    /// The metabolic budget is below its threshold.
    MetabolicExhaustion,
    /// The settlement channel lies outside the dignity band.
    SettlementInstability,
    /// Too few steps have passed since the last exertion.
    RefractoryActive,
    /// Every condition holds.
    GateOpen,
}

impl GateStatus {
    /// The status as the upper-case reason code reported to the outside.
    pub fn reason(&self) -> (r: &'static str)
        ensures
            match *self {
                GateStatus::Uninitialized => r@ == "UNINITIALIZED"@,
                GateStatus::MetabolicExhaustion => r@ == "METABOLIC_EXHAUSTION"@,
                GateStatus::SettlementInstability => r@ == "SETTLEMENT_INSTABILITY"@,
                GateStatus::RefractoryActive => r@ == "REFRACTORY_ACTIVE"@,
                GateStatus::GateOpen => r@ == "GATE_OPEN"@,
            },
    {
        match self {
            GateStatus::Uninitialized => "UNINITIALIZED",
            GateStatus::MetabolicExhaustion => "METABOLIC_EXHAUSTION",
            GateStatus::SettlementInstability => "SETTLEMENT_INSTABILITY",
            GateStatus::RefractoryActive => "REFRACTORY_ACTIVE",
            GateStatus::GateOpen => "GATE_OPEN",
        }
    }
}

/// The ritual gate's verdict, judged in order: exhaustion, then settlement, then the
/// refractory clock.
pub open spec fn gate_decision(
    refractory_steps: u32,
    elapsed: u32,
    budget_exhausted: bool,
    settlement_unstable: bool,
) -> GateStatus {
    if budget_exhausted {
        GateStatus::MetabolicExhaustion
    } else if settlement_unstable {
        GateStatus::SettlementInstability
    } else if elapsed < refractory_steps {
        GateStatus::RefractoryActive
    } else {
        GateStatus::GateOpen
    }
}

/// One tick of the refractory clock, which stops at `u32::MAX`.
pub open spec fn tick_clock(elapsed: u32) -> u32 {
    if elapsed == u32::MAX {
        elapsed
    } else {
        (elapsed + 1) as u32
    }
}

/// One step of the ritual gate: tick the clock, judge, and restart the clock when
/// the ritual gate opens. Gives the new clock and the verdict.
pub open spec fn gate_step(
    refractory_steps: u32,
    elapsed: u32,
    budget_exhausted: bool,
    settlement_unstable: bool,
) -> (u32, GateStatus) {
    let ticked = tick_clock(elapsed);
    let status = gate_decision(refractory_steps, ticked, budget_exhausted, settlement_unstable);
    (if status == GateStatus::GateOpen { 0 } else { ticked }, status)
}

/// The ritual gate opens only when every condition holds: an exhausted budget
/// closes it whatever the clock says, and a stable settlement is judged next.
pub proof fn lemma_gate_requires_all_conditions(
    refractory_steps: u32,
    elapsed: u32,
    budget_exhausted: bool,
    settlement_unstable: bool,
)
    ensures
        budget_exhausted ==> gate_decision(
            refractory_steps,
            elapsed,
            budget_exhausted,
            settlement_unstable,
        ) == GateStatus::MetabolicExhaustion,
        !budget_exhausted && settlement_unstable ==> gate_decision(
            refractory_steps,
            elapsed,
            budget_exhausted,
            settlement_unstable,
        ) == GateStatus::SettlementInstability,
        !budget_exhausted && !settlement_unstable && elapsed < refractory_steps ==> gate_decision(
            refractory_steps,
            elapsed,
            budget_exhausted,
            settlement_unstable,
        ) == GateStatus::RefractoryActive,
        (gate_decision(refractory_steps, elapsed, budget_exhausted, settlement_unstable)
            == GateStatus::GateOpen) == (!budget_exhausted && !settlement_unstable && elapsed
            >= refractory_steps),
{
}

/// A step of the ritual gate judges the clock one tick on (stopping at
/// `u32::MAX`), and restarts the clock from zero exactly when it opens;
/// otherwise the clock keeps the ticked count.
pub proof fn lemma_step_restarts_clock_on_opening(
    refractory_steps: u32,
    elapsed: u32,
    budget_exhausted: bool,
    settlement_unstable: bool,
)
    ensures
        ({
            let ticked: u32 = if elapsed == u32::MAX {
                u32::MAX
            } else {
                (elapsed + 1) as u32
            };
            let (clock, status) = gate_step(
                refractory_steps,
                elapsed,
                budget_exhausted,
                settlement_unstable,
            );
            &&& (status == GateStatus::GateOpen) == (!budget_exhausted && !settlement_unstable
                && ticked >= refractory_steps)
            &&& budget_exhausted ==> status == GateStatus::MetabolicExhaustion
            &&& !budget_exhausted && settlement_unstable ==> status
                == GateStatus::SettlementInstability
            &&& status != GateStatus::GateOpen && !budget_exhausted && !settlement_unstable
                ==> status == GateStatus::RefractoryActive
            &&& status == GateStatus::GateOpen ==> clock == 0
            &&& status != GateStatus::GateOpen ==> clock == ticked
        }),
{
}

/// The clock after `n` steps in which the budget was not exhausted and the
/// settlement stayed in its band.
pub open spec fn clock_after_healthy_steps(refractory_steps: u32, elapsed: u32, n: nat) -> u32
    decreases n,
{
    if n == 0 {
        elapsed
    } else {
        gate_step(
            refractory_steps,
            clock_after_healthy_steps(refractory_steps, elapsed, (n - 1) as nat),
            false,
            false,
        ).0
    }
}

/// Within the refractory period after an exertion the clock just counts the steps.
proof fn lemma_clock_counts_healthy_steps(refractory_steps: u32, m: nat)
    requires
        m < refractory_steps,
    ensures
        clock_after_healthy_steps(refractory_steps, 0, m) == m,
    decreases m,
{
    if m > 0 {
        lemma_clock_counts_healthy_steps(refractory_steps, (m - 1) as nat);
    }
}

/// After the ritual gate opens, with the budget and settlement in order, it is held
/// closed as refractory for the next `refractory_steps - 1` steps and opens
/// again on step `refractory_steps`: a healthy agent exerts itself once per
/// refractory period.
pub proof fn lemma_refractory_period(refractory_steps: u32, n: nat)
    requires
        1 <= n <= refractory_steps,
    ensures
        gate_step(
            refractory_steps,
            clock_after_healthy_steps(refractory_steps, 0, (n - 1) as nat),
            false,
            false,
        ).1 == (if n < refractory_steps {
            GateStatus::RefractoryActive
        } else {
            GateStatus::GateOpen
        }),
{
    lemma_clock_counts_healthy_steps(refractory_steps, (n - 1) as nat);
}

/// No refractory steps remain exactly when the refractory clause no longer
/// holds the ritual gate closed.
pub proof fn lemma_remaining_zero_iff_clause_met(refractory_steps: u32, elapsed: u32)
    ensures
        ((if elapsed < refractory_steps {
            refractory_steps - elapsed
        } else {
            0
        }) == 0) == (gate_decision(refractory_steps, elapsed, false, false)
            == GateStatus::GateOpen),
{
}

/// The ritual gate's refractory clock.
#[derive(Clone, Copy, Debug)]
pub struct RitualGate {
    pub refractory_steps: u32,
    steps_since_exertion: u32,
}

impl RitualGate {
    /// The refractory period, in steps.
    pub closed spec fn period(self) -> u32 {
        self.refractory_steps
    }

    /// Steps since the last exertion, as the clock counts them.
    pub closed spec fn elapsed(self) -> u32 {
        self.steps_since_exertion
    }

    /// A ritual gate with a refractory period of 40 steps that has never been exerted.
    pub fn new() -> (g: Self)
        ensures
            g.period() == 40,
            g.elapsed() == u32::MAX,
    {
        RitualGate { refractory_steps: 40, steps_since_exertion: u32::MAX }
    }

    /// Judges the ritual gate. `budget_exhausted` is whether the metabolic budget is
    /// below its threshold; `settlement_unstable` whether the settlement channel
    /// lies outside the dignity band. Gives whether the ritual gate is open and why.
    pub fn check(&self, budget_exhausted: bool, settlement_unstable: bool) -> (res: (bool, GateStatus))
        ensures
            res.1 == gate_decision(
                self.period(),
                self.elapsed(),
                budget_exhausted,
                settlement_unstable,
            ),
            res.0 == (res.1 == GateStatus::GateOpen),
            budget_exhausted ==> res == (false, GateStatus::MetabolicExhaustion),
            !budget_exhausted && settlement_unstable ==> res == (
                false,
                GateStatus::SettlementInstability,
            ),
            !budget_exhausted && !settlement_unstable ==> res == (if self.elapsed()
                < self.period() {
                (false, GateStatus::RefractoryActive)
            } else {
                (true, GateStatus::GateOpen)
            }),
    {
        if budget_exhausted {
            return (false, GateStatus::MetabolicExhaustion);
        }
        if settlement_unstable {
            return (false, GateStatus::SettlementInstability);
        }
        if self.steps_since_exertion < self.refractory_steps {
            return (false, GateStatus::RefractoryActive);
        }
        (true, GateStatus::GateOpen)
    }

    /// Advances the clock by one step, stopping at `u32::MAX`.
    pub fn tick(&mut self)
        ensures
            final(self).elapsed() == tick_clock(old(self).elapsed()),
            final(self).elapsed() == (if old(self).elapsed() == u32::MAX {
                u32::MAX
            } else {
                (old(self).elapsed() + 1) as u32
            }),
            final(self).period() == old(self).period(),
    {
        self.steps_since_exertion = self.steps_since_exertion.saturating_add(1);
    }

    /// Records an exertion: the clock restarts from zero.
    pub fn exert(&mut self)
        ensures
            final(self).elapsed() == 0,
            final(self).period() == old(self).period(),
    {
        self.steps_since_exertion = 0;
    }

    /// Steps left before the refractory clause is satisfied (zero once it is).
    pub fn refractory_remaining(&self) -> (r: u32)
        ensures
            r == (if self.elapsed() < self.period() {
                self.period() - self.elapsed()
            } else {
                0
            }),
    {
        self.refractory_steps.saturating_sub(self.steps_since_exertion)
    }

    /// One step of the ritual gate, as the substrate takes it: tick the clock, judge,
    /// and record an exertion when the ritual gate opens.
    pub fn advance(&mut self, budget_exhausted: bool, settlement_unstable: bool) -> (res: (
        bool,
        GateStatus,
    ))
        ensures
            (final(self).elapsed(), res.1) == gate_step(
                old(self).period(),
                old(self).elapsed(),
                budget_exhausted,
                settlement_unstable,
            ),
            res.0 == (res.1 == GateStatus::GateOpen),
            final(self).period() == old(self).period(),
            res.0 ==> final(self).elapsed() == 0,
            !res.0 ==> final(self).elapsed() == (if old(self).elapsed() == u32::MAX {
                u32::MAX
            } else {
                (old(self).elapsed() + 1) as u32
            }),
            budget_exhausted ==> res == (false, GateStatus::MetabolicExhaustion),
            !budget_exhausted && settlement_unstable ==> res == (
                false,
                GateStatus::SettlementInstability,
            ),
            !budget_exhausted && !settlement_unstable ==> res.0 == (old(self).elapsed()
                == u32::MAX || old(self).elapsed() + 1 >= old(self).period()),
    {
        self.tick();
        let (open, status) = self.check(budget_exhausted, settlement_unstable);
        if open {
            self.exert();
        }
        (open, status)
    }
}

} // verus!
