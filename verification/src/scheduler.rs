//! The cooperative loop of the node, as a machine that the loop's owner runs.
//!
//! Every turn of the loop services the transport once, unconditionally, and
//! then asks the scheduler whether a sampling cycle is due. If one is, the
//! owner runs one conversion to its end and reports the outcome; the scheduler
//! answers with the reading to transmit, if there is one, and moves its
//! deadline on by one period. Deadlines advance from the previous deadline, not
//! from the time of firing, so a late turn does not shift the schedule.

use vstd::prelude::*;
use crate::calibration::{apply, calibrated, Offset};
use crate::clock::{
    instant_after, instant_plus, instant_reached, lemma_instant_after_is_sum,
    lemma_reached_is_order, reached,
};
use crate::error::AcquisitionError;

verus! {

/// The two states of the loop.
#[derive(Clone, Copy, Debug, PartialEq, Eq, Structural)]
pub enum LoopPhase {
    /// Waiting for the deadline of the next sampling cycle.
    AwaitingDeadline,
    /// A sampling cycle is due: one conversion is to be run and reported.
    Sampling,
}

/// What to do in one turn of the loop. The transport is serviced in every
/// turn, before anything else.
#[derive(Clone, Copy, Debug, PartialEq, Eq, Structural)]
pub enum Turn {
    /// Service the transport and do nothing further.
    Service,
    /// Service the transport, then run one conversion and report its outcome.
    ServiceAndSample,
}

/// Mathematical state of the scheduler.
pub struct SchedulerModel {
    /// Instant from which the next sampling cycle is due, in timer ticks.
    pub deadline: u64,
    /// Period between sampling cycles, in timer ticks.
    pub period: u64,
    /// Zero offset subtracted from every sample.
    pub offset: int,
    /// Current state of the loop.
    pub phase: LoopPhase,
}

impl SchedulerModel {
    /// State of a scheduler started at `now`: the first cycle is due one
    /// period later.
    pub open spec fn initial(now: u64, period: u64, offset: int) -> SchedulerModel {
        SchedulerModel {
            deadline: instant_after(now, period),
            period,
            offset,
            phase: LoopPhase::AwaitingDeadline,
        }
    }

    /// Whether a turn at `now` has a sampling cycle to run.
    pub open spec fn due(self, now: u64) -> bool {
        self.phase == LoopPhase::Sampling || reached(now, self.deadline)
    }

    /// What a turn at `now` has to do.
    pub open spec fn turn(self, now: u64) -> Turn {
        if self.due(now) {
            Turn::ServiceAndSample
        } else {
            Turn::Service
        }
    }

    /// The state after a turn at `now` has begun.
    pub open spec fn gate(self, now: u64) -> SchedulerModel {
        if self.due(now) {
            SchedulerModel { phase: LoopPhase::Sampling, ..self }
        } else {
            self
        }
    }

    /// The reading to transmit for the outcome of a sampling cycle: the
    /// calibrated sample, or nothing when the conversion failed or no cycle
    /// was due.
    pub open spec fn reading(self, outcome: Result<i32, AcquisitionError>) -> Option<i32> {
        match outcome {
            Ok(raw) if self.phase == LoopPhase::Sampling => Some(
                calibrated(raw as int, self.offset) as i32,
            ),
            _ => None,
        }
    }

    /// The state after the outcome of a sampling cycle has been reported:
    /// whether the conversion succeeded or not, the deadline moves on by one
    /// period and the loop waits again. A report with no cycle due changes
    /// nothing.
    pub open spec fn settle(self) -> SchedulerModel {
        if self.phase == LoopPhase::Sampling {
            SchedulerModel {
                deadline: instant_after(self.deadline, self.period),
                phase: LoopPhase::AwaitingDeadline,
                ..self
            }
        } else {
            self
        }
    }

    /// The state after whole turns at the instants of `nows`, in order, where
    /// every turn that is due runs its sampling cycle to the end.
    pub open spec fn after_turns(self, nows: Seq<u64>) -> SchedulerModel
        decreases nows.len(),
    {
        if nows.len() == 0 {
            self
        } else {
            self.after_turns(nows.drop_last()).gate(nows.last()).settle()
        }
    }

    /// How many of those turns ran a sampling cycle.
    pub open spec fn cycles_in(self, nows: Seq<u64>) -> nat
        decreases nows.len(),
    {
        if nows.len() == 0 {
            0
        } else {
            self.cycles_in(nows.drop_last()) + if self.after_turns(nows.drop_last()).due(
                nows.last(),
            ) {
                1nat
            } else {
                0nat
            }
        }
    }
}

/// The deadline `count` periods after the deadline `first`.
pub open spec fn nth_deadline(first: u64, period: u64, count: nat) -> u64
    decreases count,
{
    if count == 0 {
        first
    } else {
        instant_after(nth_deadline(first, period, (count - 1) as nat), period)
    }
}

/// The scheduler of the node's loop.
#[derive(Clone, Copy, Debug)]
pub struct Scheduler {
    deadline: u64,
    period: u64,
    offset: Offset,
    phase: LoopPhase,
}

impl View for Scheduler {
    type V = SchedulerModel;

    closed spec fn view(&self) -> SchedulerModel {
        SchedulerModel {
            deadline: self.deadline,
            period: self.period,
            offset: self.offset@,
            phase: self.phase,
        }
    }
}

impl Scheduler {
    /// A scheduler started at instant `now` with sampling period `period`,
    /// both in timer ticks, that calibrates with `offset`.
    pub fn new(now: u64, period: u64, offset: Offset) -> (scheduler: Scheduler)
        ensures
            scheduler@ == SchedulerModel::initial(now, period, offset@),
    {
        Scheduler {
            deadline: instant_plus(now, period),
            period,
            offset,
            phase: LoopPhase::AwaitingDeadline,
        }
    }

    /// Instant from which the next sampling cycle is due, in timer ticks.
    pub fn deadline(&self) -> (deadline: u64)
        ensures
            deadline == self@.deadline,
    {
        self.deadline
    }

    /// Current state of the loop.
    pub fn phase(&self) -> (phase: LoopPhase)
        ensures
            phase == self@.phase,
    {
        self.phase
    }

    /// Begins a turn of the loop at instant `now` and says what the turn has
    /// to do. Before the deadline the scheduler stays as it is.
    pub fn begin_turn(&mut self, now: u64) -> (turn: Turn)
        ensures
            final(self)@ == old(self)@.gate(now),
            turn == old(self)@.turn(now),
    {
        let due = match self.phase {
            LoopPhase::Sampling => true,
            LoopPhase::AwaitingDeadline => instant_reached(now, self.deadline),
        };
        if due {
            self.phase = LoopPhase::Sampling;
            Turn::ServiceAndSample
        } else {
            Turn::Service
        }
    }

    /// Ends a sampling cycle with the outcome of its conversion and answers
    /// with the calibrated reading to transmit. A failed conversion yields no
    /// reading: the cycle is dropped and nothing is retried.
    pub fn end_sample(&mut self, outcome: Result<i32, AcquisitionError>) -> (reading: Option<i32>)
        ensures
            final(self)@ == old(self)@.settle(),
            reading == old(self)@.reading(outcome),
    {
        match self.phase {
            LoopPhase::AwaitingDeadline => None,
            LoopPhase::Sampling => {
                self.deadline = instant_plus(self.deadline, self.period);
                self.phase = LoopPhase::AwaitingDeadline;
                match outcome {
                    Ok(raw) => Some(apply(raw, self.offset)),
                    Err(_) => None,
                }
            },
        }
    }
}

/// While the timer is less than half its range away from the deadline and
/// the next deadline does not wrap, a waiting scheduler fires exactly when
/// `now >= deadline`, and the cycle it fires leaves the deadline one period
/// after the previous deadline, whatever `now` was and however the conversion
/// went.
pub proof fn lemma_gate_fires_at_deadline(state: SchedulerModel, now: u64)
    requires
        state.phase == LoopPhase::AwaitingDeadline,
        -0x8000_0000_0000_0000 <= now - state.deadline < 0x8000_0000_0000_0000,
        state.deadline + state.period <= u64::MAX,
    ensures
        state.turn(now) == Turn::ServiceAndSample <==> now >= state.deadline,
        now < state.deadline ==> state.gate(now) == state,
        now >= state.deadline ==> state.gate(now).settle() == (SchedulerModel {
            deadline: (state.deadline + state.period) as u64,
            ..state
        }),
{
    lemma_reached_is_order(now, state.deadline);
    lemma_instant_after_is_sum(state.deadline, state.period);
}

/// The schedule does not drift: whenever the turns of the loop are taken and
/// however late they fire, the deadline after them lies as many periods after
/// the first deadline as sampling cycles were run.
pub proof fn lemma_schedule_is_drift_free(state: SchedulerModel, nows: Seq<u64>)
    ensures
        state.after_turns(nows).deadline == nth_deadline(
            state.deadline,
            state.period,
            state.cycles_in(nows),
        ),
        state.after_turns(nows).period == state.period,
        state.after_turns(nows).offset == state.offset,
        nows.len() > 0 ==> state.after_turns(nows).phase == LoopPhase::AwaitingDeadline,
    decreases nows.len(),
{
    if nows.len() > 0 {
        lemma_schedule_is_drift_free(state, nows.drop_last());
    }
}

/// As long as the counter does not wrap, the deadline `count` periods after
/// `first` is `first + count * period`.
pub proof fn lemma_nth_deadline_is_multiple(first: u64, period: u64, count: nat)
    requires
        first + count * period <= u64::MAX,
    ensures
        nth_deadline(first, period, count) == first + count * period,
    decreases count,
{
    if count > 0 {
        assert(count * period == (count - 1) * period + period) by (nonlinear_arith);
        assert((count - 1) * period >= 0) by (nonlinear_arith)
            requires
                count >= 1,
                period >= 0,
        ;
        lemma_nth_deadline_is_multiple(first, period, (count - 1) as nat);
    } else {
        assert(count * period == 0) by (nonlinear_arith)
            requires
                count == 0,
        ;
    }
}

/// A turn before the deadline is idle: it asks for nothing but the transport
/// service and leaves the scheduler unchanged, as often as it is repeated.
pub proof fn lemma_idle_turn_changes_nothing(state: SchedulerModel, now: u64)
    requires
        state.phase == LoopPhase::AwaitingDeadline,
        !reached(now, state.deadline),
    ensures
        state.turn(now) == Turn::Service,
        state.gate(now) == state,
        state.gate(now).gate(now) == state,
{
}

/// A sampling cycle always ends in the waiting state, with the offset and
/// the period untouched.
pub proof fn lemma_cycle_returns_to_waiting(state: SchedulerModel, now: u64)
    ensures
        state.gate(now).settle().phase == LoopPhase::AwaitingDeadline,
        state.gate(now).settle().offset == state.offset,
        state.gate(now).settle().period == state.period,
{
}

} // verus!
