//! The zero offset: how it is learned at start-up and how it is applied.
//!
//! With no load on the cell the node attempts a bounded number of conversions
//! and takes the first one that succeeds as its offset. If none succeeds the
//! offset is zero: the node has no way to report a failure at that stage, so
//! it starts up uncalibrated rather than not at all.

use vstd::prelude::*;
use crate::error::AcquisitionError;

verus! {

/// A zero offset. It has no operation that changes it: an offset, once
/// learned, stays what it is.
#[derive(Clone, Copy, Debug, PartialEq, Eq)]
pub struct Offset {
    value: i32,
}

impl View for Offset {
    type V = int;

    closed spec fn view(&self) -> int {
        self.value as int
    }
}

impl Offset {
    /// The offset of an uncalibrated node.
    pub fn zero() -> (offset: Offset)
        ensures
            offset@ == 0,
    {
        Offset { value: 0 }
    }

    /// The offset with the given raw value.
    pub fn from_raw(raw: i32) -> (offset: Offset)
        ensures
            offset@ == raw,
    {
        Offset { value: raw }
    }

    /// The raw value that a reading with no load is expected to have.
    pub fn value(&self) -> (raw: i32)
        ensures
            raw == self@,
    {
        self.value
    }
}

/// The difference `raw - offset`, wrapped into the 32-bit signed range.
pub open spec fn calibrated(raw: int, offset: int) -> int {
    let difference = raw - offset;
    if difference > i32::MAX {
        difference - 0x1_0000_0000
    } else if difference < i32::MIN {
        difference + 0x1_0000_0000
    } else {
        difference
    }
}

/// The calibrated reading for a raw sample: the sample minus the offset.
///
/// The subtraction wraps. Samples and learned offsets are 24-bit values, for
/// which the difference always fits, so wrapping is out of reach in
/// operation; see [`lemma_calibrated_is_difference`].
pub fn apply(raw: i32, offset: Offset) -> (reading: i32)
    ensures
        reading == calibrated(raw as int, offset@),
        i32::MIN <= raw - offset@ <= i32::MAX ==> reading == raw - offset@,
{
    raw.wrapping_sub(offset.value)
}

/// For a sample and an offset in the 24-bit signed range the calibrated
/// reading is the exact difference.
pub proof fn lemma_calibrated_is_difference(raw: int, offset: int)
    requires
        -0x80_0000 <= raw < 0x80_0000,
        -0x80_0000 <= offset < 0x80_0000,
    ensures
        calibrated(raw, offset) == raw - offset,
{
}

/// The value of the first success among `outcomes`, if there is one.
pub open spec fn first_success(outcomes: Seq<Result<i32, AcquisitionError>>) -> Option<i32>
    decreases outcomes.len(),
{
    if outcomes.len() == 0 {
        None
    } else {
        match outcomes[0] {
            Ok(value) => Some(value),
            Err(_) => first_success(outcomes.skip(1)),
        }
    }
}

/// How many of `outcomes` come up to and including the first success: all of
/// them if none succeeds.
pub open spec fn attempts_until_success(outcomes: Seq<Result<i32, AcquisitionError>>) -> nat
    decreases outcomes.len(),
{
    if outcomes.len() == 0 {
        0
    } else {
        match outcomes[0] {
            Ok(_) => 1,
            Err(_) => 1 + attempts_until_success(outcomes.skip(1)),
        }
    }
}

/// The outcomes that a calibration of at most `limit` attempts gets to see.
pub open spec fn within_limit(
    outcomes: Seq<Result<i32, AcquisitionError>>,
    limit: nat,
) -> Seq<Result<i32, AcquisitionError>> {
    if outcomes.len() <= limit {
        outcomes
    } else {
        outcomes.take(limit as int)
    }
}

/// Mathematical state of a calibration.
pub struct CalibrationModel {
    /// Most attempts the calibration makes.
    pub limit: nat,
    /// Settling delay after a failed attempt, in processor cycles.
    pub settle_cycles: u32,
    /// Attempts made so far.
    pub attempts: nat,
    /// The first successful sample, once there is one.
    pub learned: Option<i32>,
}

impl CalibrationModel {
    /// State of a calibration that has made no attempt yet.
    pub open spec fn initial(limit: nat, settle_cycles: u32) -> CalibrationModel {
        CalibrationModel { limit, settle_cycles, attempts: 0, learned: None }
    }

    /// Whether the calibration asks for another conversion.
    pub open spec fn wants_attempt(self) -> bool {
        self.learned is None && self.attempts < self.limit
    }

    /// The offset the calibration stands at: the learned sample, or zero.
    pub open spec fn offset(self) -> int {
        match self.learned {
            Some(value) => value as int,
            None => 0,
        }
    }

    /// The state after the outcome of an attempt has been recorded. A
    /// calibration that asks for no attempt ignores the outcome.
    pub open spec fn record(self, outcome: Result<i32, AcquisitionError>) -> CalibrationModel {
        if !self.wants_attempt() {
            self
        } else {
            match outcome {
                Ok(value) => CalibrationModel {
                    attempts: self.attempts + 1,
                    learned: Some(value),
                    ..self
                },
                Err(_) => CalibrationModel { attempts: self.attempts + 1, ..self },
            }
        }
    }

    /// The settling delay owed after recording `outcome`: one after every
    /// failed attempt, none otherwise.
    pub open spec fn settle_after(self, outcome: Result<i32, AcquisitionError>) -> Option<u32> {
        if self.wants_attempt() && outcome is Err {
            Some(self.settle_cycles)
        } else {
            None
        }
    }

    /// The state after the outcomes of `outcomes` have been recorded in order.
    pub open spec fn run(self, outcomes: Seq<Result<i32, AcquisitionError>>) -> CalibrationModel
        decreases outcomes.len(),
    {
        if outcomes.len() == 0 {
            self
        } else {
            self.record(outcomes[0]).run(outcomes.skip(1))
        }
    }
}

/// A calibration in progress.
#[derive(Clone, Copy, Debug)]
pub struct Calibration {
    limit: u32,
    settle_cycles: u32,
    attempts: u32,
    learned: Option<i32>,
}

impl View for Calibration {
    type V = CalibrationModel;

    closed spec fn view(&self) -> CalibrationModel {
        CalibrationModel {
            limit: self.limit as nat,
            settle_cycles: self.settle_cycles,
            attempts: self.attempts as nat,
            learned: self.learned,
        }
    }
}

impl Calibration {
    /// A calibration that makes at most `limit` attempts and asks for a
    /// settling delay of `settle_cycles` after each failed one.
    pub fn new(limit: u32, settle_cycles: u32) -> (calibration: Calibration)
        ensures
            calibration@ == CalibrationModel::initial(limit as nat, settle_cycles),
    {
        Calibration { limit, settle_cycles, attempts: 0, learned: None }
    }

    /// Whether another conversion is to be attempted.
    pub fn wants_attempt(&self) -> (wanted: bool)
        ensures
            wanted == self@.wants_attempt(),
    {
        self.learned.is_none() && self.attempts < self.limit
    }

    /// Number of attempts recorded so far.
    pub fn attempts(&self) -> (count: u32)
        ensures
            count == self@.attempts,
    {
        self.attempts
    }

    /// The offset the calibration stands at: the first successful sample, or
    /// zero as long as there is none.
    pub fn offset(&self) -> (offset: Offset)
        ensures
            offset@ == self@.offset(),
    {
        match self.learned {
            Some(value) => Offset { value },
            None => Offset { value: 0 },
        }
    }

    /// Records the outcome of an attempt and answers with the settling delay
    /// to observe before going on, if one is owed. Once a sample has been
    /// learned or the attempts are used up, outcomes are ignored.
    pub fn record(&mut self, outcome: Result<i32, AcquisitionError>) -> (settle: Option<u32>)
        ensures
            final(self)@ == old(self)@.record(outcome),
            settle == old(self)@.settle_after(outcome),
    {
        if !self.wants_attempt() {
            return None;
        }
        self.attempts = self.attempts + 1;
        match outcome {
            Ok(value) => {
                self.learned = Some(value);
                None
            },
            Err(_) => Some(self.settle_cycles),
        }
    }
}

/// A calibration that asks for no attempt stays as it is, whatever is
/// recorded: a learned offset is never replaced.
pub proof fn lemma_settled_calibration_is_fixed(
    state: CalibrationModel,
    outcomes: Seq<Result<i32, AcquisitionError>>,
)
    requires
        !state.wants_attempt(),
    ensures
        state.run(outcomes) == state,
    decreases outcomes.len(),
{
    if outcomes.len() > 0 {
        lemma_settled_calibration_is_fixed(state, outcomes.skip(1));
    }
}

proof fn lemma_run_from(state: CalibrationModel, outcomes: Seq<Result<i32, AcquisitionError>>)
    requires
        state.learned is None,
        state.attempts <= state.limit,
    ensures
        ({
            let seen = within_limit(outcomes, (state.limit - state.attempts) as nat);
            let end = state.run(outcomes);
            &&& end.learned == first_success(seen)
            &&& end.attempts == state.attempts + attempts_until_success(seen)
            &&& end.limit == state.limit
            &&& end.settle_cycles == state.settle_cycles
        }),
    decreases outcomes.len(),
{
    let room = (state.limit - state.attempts) as nat;
    let seen = within_limit(outcomes, room);
    if outcomes.len() == 0 {
    } else if room == 0 {
        lemma_settled_calibration_is_fixed(state, outcomes);
        assert(seen.len() == 0);
    } else {
        let after = state.record(outcomes[0]);
        let rest = outcomes.skip(1);
        assert(seen[0] == outcomes[0]);
        assert(seen.skip(1) =~= within_limit(rest, (room - 1) as nat));
        match outcomes[0] {
            Ok(_) => {
                lemma_settled_calibration_is_fixed(after, rest);
            },
            Err(_) => {
                lemma_run_from(after, rest);
            },
        }
    }
}

/// A calibration learns the first success among the outcomes that its limit
/// lets it see and makes no attempt after it; without a success among them
/// it uses up its attempts and stands at offset zero.
pub proof fn lemma_calibration_learns_first_success(
    limit: nat,
    settle_cycles: u32,
    outcomes: Seq<Result<i32, AcquisitionError>>,
)
    ensures
        ({
            let seen = within_limit(outcomes, limit);
            let end = CalibrationModel::initial(limit, settle_cycles).run(outcomes);
            &&& end.learned == first_success(seen)
            &&& end.attempts == attempts_until_success(seen)
            &&& end.offset() == match first_success(seen) {
                Some(value) => value as int,
                None => 0,
            }
            &&& first_success(seen) is Some ==> !end.wants_attempt()
            &&& outcomes.len() >= limit ==> !end.wants_attempt()
        }),
{
    let start = CalibrationModel::initial(limit, settle_cycles);
    lemma_run_from(start, outcomes);
    lemma_attempts_bound(within_limit(outcomes, limit));
}

/// Without a success every outcome counts as an attempt; with one, the
/// attempts end at it.
pub proof fn lemma_attempts_bound(outcomes: Seq<Result<i32, AcquisitionError>>)
    ensures
        attempts_until_success(outcomes) <= outcomes.len(),
        first_success(outcomes) is None ==> attempts_until_success(outcomes) == outcomes.len(),
        first_success(outcomes) is Some ==> {
            let n = attempts_until_success(outcomes);
            &&& 1 <= n
            &&& outcomes[n - 1] == Ok::<i32, AcquisitionError>(first_success(outcomes)->0)
            &&& forall|i: int| 0 <= i < n - 1 ==> (#[trigger] outcomes[i]) is Err
        },
        first_success(outcomes) is None ==> forall|i: int|
            0 <= i < outcomes.len() ==> (#[trigger] outcomes[i]) is Err,
    decreases outcomes.len(),
{
    if outcomes.len() > 0 {
        let rest = outcomes.skip(1);
        lemma_attempts_bound(rest);
        match outcomes[0] {
            Ok(_) => {},
            Err(_) => {
                let n = attempts_until_success(outcomes);
                assert(forall|i: int| 0 <= i < rest.len() ==> rest[i] == outcomes[i + 1]);
                if first_success(outcomes) is Some {
                    assert forall|i: int| 0 <= i < n - 1 implies (#[trigger] outcomes[i]) is Err by {
                        if i > 0 {
                            assert(rest[i - 1] is Err);
                        }
                    }
                } else {
                    assert forall|i: int| 0 <= i < outcomes.len() implies (
                    #[trigger] outcomes[i]) is Err by {
                        if i > 0 {
                            assert(rest[i - 1] is Err);
                        }
                    }
                }
            },
        }
    }
}

/// Runs a whole calibration over the recorded outcomes of conversions, taken
/// in order: the offset is the first success among the first `limit`
/// outcomes, or zero if there is none; `attempts` tells how many outcomes
/// were used.
pub fn calibrate(outcomes: &[Result<i32, AcquisitionError>], limit: u32) -> (learned: (Offset, u32))
    ensures
        learned.0@ == match first_success(within_limit(outcomes@, limit as nat)) {
            Some(value) => value as int,
            None => 0,
        },
        learned.1 == attempts_until_success(within_limit(outcomes@, limit as nat)),
{
    let mut calibration = Calibration::new(limit, 0);
    let mut index: usize = 0;
    while index < outcomes.len() && calibration.wants_attempt()
        invariant
            index <= outcomes.len(),
            calibration@ == CalibrationModel::initial(limit as nat, 0).run(
                outcomes@.take(index as int),
            ),
        decreases outcomes.len() - index,
    {
        proof {
            lemma_run_snoc(
                CalibrationModel::initial(limit as nat, 0),
                outcomes@.take(index as int),
                outcomes@[index as int],
            );
            assert(outcomes@.take(index as int).push(outcomes@[index as int]) =~= outcomes@.take(
                index + 1,
            ));
        }
        let _ = calibration.record(outcomes[index]);
        index = index + 1;
    }
    proof {
        let start = CalibrationModel::initial(limit as nat, 0);
        let used = outcomes@.take(index as int);
        assert(outcomes@ =~= used + outcomes@.skip(index as int));
        lemma_run_concat(start, used, outcomes@.skip(index as int));
        if index < outcomes.len() {
            lemma_settled_calibration_is_fixed(start.run(used), outcomes@.skip(index as int));
        } else {
            assert(outcomes@.skip(index as int).len() == 0);
        }
        lemma_calibration_learns_first_success(limit as nat, 0, outcomes@);
    }
    (calibration.offset(), calibration.attempts())
}

/// Recording one more outcome after a run is the run over the longer sequence.
pub proof fn lemma_run_snoc(
    state: CalibrationModel,
    outcomes: Seq<Result<i32, AcquisitionError>>,
    last: Result<i32, AcquisitionError>,
)
    ensures
        state.run(outcomes.push(last)) == state.run(outcomes).record(last),
    decreases outcomes.len(),
{
    let longer = outcomes.push(last);
    assert(state.run(longer) == state.record(longer[0]).run(longer.skip(1)));
    if outcomes.len() == 0 {
        assert(longer.skip(1).len() == 0);
        assert(state.record(last).run(longer.skip(1)) == state.record(last));
    } else {
        lemma_run_snoc(state.record(outcomes[0]), outcomes.skip(1), last);
        assert(longer.skip(1) =~= outcomes.skip(1).push(last));
    }
}

/// Running over two sequences of outcomes in a row is running over their
/// concatenation.
pub proof fn lemma_run_concat(
    state: CalibrationModel,
    first: Seq<Result<i32, AcquisitionError>>,
    second: Seq<Result<i32, AcquisitionError>>,
)
    ensures
        state.run(first + second) == state.run(first).run(second),
    decreases first.len(),
{
    if first.len() == 0 {
        assert(first + second =~= second);
    } else {
        lemma_run_concat(state.record(first[0]), first.skip(1), second);
        assert((first + second).skip(1) =~= first.skip(1) + second);
    }
}

} // verus!
