//! The bit-serial protocol of one conversion, as a machine that the owner of
//! the two lines runs.
//!
//! The machine never touches a pin. It hands out one [`LineOp`] at a time: set
//! the clock line, hold it, and perhaps look at the data line. The caller
//! performs the operation and reports what happened in a [`LineReport`]; the
//! machine answers with the next operation or with the result of the
//! conversion. A conversion, once begun, has to be run to its end without
//! other work in between.

use vstd::prelude::*;
use crate::config::Timing;
use crate::error::AcquisitionError;
use crate::gain::GainChannel;
use crate::sample::{
    lemma_word_of_bits_bound, lemma_word_of_pushed_bit, shift_in, sign_extend, signed_of_word,
    word_of_bits, SAMPLE_BITS,
};
use vstd::arithmetic::power2::lemma2_to64;

verus! {

/// One operation on the line pair: drive the clock line to `clock_high`, keep
/// it there for at least `hold_micros` microseconds, then, if `sample` is set,
/// read the data line.
#[derive(Clone, Copy, Debug, PartialEq, Eq, Structural)]
pub struct LineOp {
    /// Level to drive the clock line to.
    pub clock_high: bool,
    /// Minimum time to hold that level, in microseconds.
    pub hold_micros: u32,
    /// Whether to read the data line at the end of the hold.
    pub sample: bool,
}

/// What the caller observed while carrying out a [`LineOp`].
#[derive(Clone, Copy, Debug, PartialEq, Eq, Structural)]
pub struct LineReport {
    /// Level of the data line at the end of the hold. Only looked at when the
    /// operation asked for a sample.
    pub data_high: bool,
    /// Time the clock line was actually held, in microseconds.
    pub held_micros: u32,
}

/// Answer of the machine to a report.
#[derive(Clone, Copy, Debug, PartialEq, Eq)]
pub enum Step {
    /// Carry out this operation next.
    Drive(LineOp),
    /// The conversion is over, with this result.
    Done(Result<i32, AcquisitionError>),
}

/// Where a conversion stands.
#[derive(Clone, Copy, Debug, PartialEq, Eq, Structural)]
pub enum Phase {
    /// Polling the data line for the converter's ready signal.
    AwaitReady,
    /// The clock is high for a data bit; the report carries the bit.
    BitHigh,
    /// The clock is low after a data bit.
    BitLow,
    /// The clock is high for a gain pulse.
    GainHigh,
    /// The clock is low after a gain pulse.
    GainLow,
    /// The clock is being returned to low after a timing violation.
    Abort,
    /// The conversion is over.
    Finished,
}

/// Mathematical state of a conversion.
pub struct ConversionModel {
    /// Timing the conversion was begun with.
    pub timing: Timing,
    /// Setting selected for the conversion that follows this one.
    pub gain: GainChannel,
    /// Current phase.
    pub phase: Phase,
    /// Time spent waiting for the ready signal, in microseconds.
    pub waited: nat,
    /// Data bits sampled so far, in the order they arrived.
    pub bits: Seq<bool>,
    /// Gain pulses completed or under way.
    pub pulses: nat,
    /// The failure that ended the conversion, if one did.
    pub fault: Option<AcquisitionError>,
}

/// The operation that looks for the ready signal.
pub open spec fn poll_op(timing: Timing) -> LineOp {
    LineOp { clock_high: false, hold_micros: timing.ready_poll_micros, sample: true }
}

/// The high half of a clock pulse.
pub open spec fn high_op(timing: Timing, sample: bool) -> LineOp {
    LineOp { clock_high: true, hold_micros: timing.clock_high_micros, sample }
}

/// The low half of a clock pulse.
pub open spec fn low_op(timing: Timing) -> LineOp {
    LineOp { clock_high: false, hold_micros: timing.clock_low_micros, sample: false }
}

/// Waiting time accounted for one poll: what the caller measured, and never
/// less than one microsecond.
pub open spec fn poll_cost(report: LineReport) -> nat {
    if report.held_micros == 0 {
        1
    } else {
        report.held_micros as nat
    }
}

impl ConversionModel {
    /// State of a conversion that has just begun.
    pub open spec fn initial(timing: Timing, gain: GainChannel) -> ConversionModel {
        ConversionModel {
            timing,
            gain,
            phase: Phase::AwaitReady,
            waited: 0,
            bits: Seq::empty(),
            pulses: 0,
            fault: None,
        }
    }

    /// What holds of every state a conversion can reach.
    pub open spec fn wf(self) -> bool {
        &&& self.bits.len() <= 24
        &&& self.pulses <= self.gain.pulses()
        &&& self.waited <= u32::MAX
        &&& match self.phase {
            Phase::AwaitReady => self.bits.len() == 0 && self.pulses == 0 && self.fault is None,
            Phase::BitHigh => self.bits.len() < 24 && self.pulses == 0 && self.fault is None,
            Phase::BitLow => 1 <= self.bits.len() && self.pulses == 0 && self.fault is None,
            Phase::GainHigh => self.bits.len() == 24 && self.pulses < self.gain.pulses()
                && self.fault is None,
            Phase::GainLow => self.bits.len() == 24 && 1 <= self.pulses && self.fault is None,
            Phase::Abort => self.fault == Some(AcquisitionError::TimingViolation),
            Phase::Finished => self.fault is Some || (self.bits.len() == 24 && self.pulses
                == self.gain.pulses()),
        }
    }

    /// Result of the conversion, once it is over: the failure if there was
    /// one, else the sampled bits read as a two's-complement word.
    pub open spec fn outcome(self) -> Result<i32, AcquisitionError> {
        match self.fault {
            Some(e) => Err(e),
            None => Ok(signed_of_word(word_of_bits(self.bits) as int) as i32),
        }
    }

    /// Whether a report with this hold time, given while the clock was high,
    /// breaks the converter's limit.
    pub open spec fn overheld(self, report: LineReport) -> bool {
        report.held_micros > self.timing.clock_high_limit_micros
    }

    /// The state that follows when `report` arrives.
    pub open spec fn next(self, report: LineReport) -> ConversionModel {
        match self.phase {
            Phase::AwaitReady => {
                if !report.data_high {
                    ConversionModel { phase: Phase::BitHigh, ..self }
                } else {
                    let total = self.waited + poll_cost(report);
                    let waited = if total > u32::MAX {
                        u32::MAX as nat
                    } else {
                        total
                    };
                    if waited >= self.timing.ready_timeout_micros {
                        ConversionModel {
                            phase: Phase::Finished,
                            waited,
                            fault: Some(AcquisitionError::NotReady),
                            ..self
                        }
                    } else {
                        ConversionModel { waited, ..self }
                    }
                }
            },
            Phase::BitHigh => {
                if self.overheld(report) {
                    ConversionModel {
                        phase: Phase::Abort,
                        fault: Some(AcquisitionError::TimingViolation),
                        ..self
                    }
                } else {
                    ConversionModel {
                        phase: Phase::BitLow,
                        bits: self.bits.push(report.data_high),
                        ..self
                    }
                }
            },
            Phase::BitLow => {
                if self.bits.len() < 24 {
                    ConversionModel { phase: Phase::BitHigh, ..self }
                } else {
                    ConversionModel { phase: Phase::GainHigh, ..self }
                }
            },
            Phase::GainHigh => {
                if self.overheld(report) {
                    ConversionModel {
                        phase: Phase::Abort,
                        fault: Some(AcquisitionError::TimingViolation),
                        ..self
                    }
                } else {
                    ConversionModel { phase: Phase::GainLow, pulses: self.pulses + 1, ..self }
                }
            },
            Phase::GainLow => {
                if self.pulses < self.gain.pulses() {
                    ConversionModel { phase: Phase::GainHigh, ..self }
                } else {
                    ConversionModel { phase: Phase::Finished, ..self }
                }
            },
            Phase::Abort => ConversionModel { phase: Phase::Finished, ..self },
            Phase::Finished => self,
        }
    }

    /// What the machine asks for on entering this state.
    pub open spec fn request(self) -> Step {
        match self.phase {
            Phase::AwaitReady => Step::Drive(poll_op(self.timing)),
            Phase::BitHigh => Step::Drive(high_op(self.timing, true)),
            Phase::BitLow => Step::Drive(low_op(self.timing)),
            Phase::GainHigh => Step::Drive(high_op(self.timing, false)),
            Phase::GainLow => Step::Drive(low_op(self.timing)),
            Phase::Abort => Step::Drive(low_op(self.timing)),
            Phase::Finished => Step::Done(self.outcome()),
        }
    }

    /// The state after the reports of `reports` have arrived in order.
    pub open spec fn run(self, reports: Seq<LineReport>) -> ConversionModel
        decreases reports.len(),
    {
        if reports.len() == 0 {
            self
        } else {
            self.run(reports.drop_last()).next(reports.last())
        }
    }

    /// An upper bound on the number of reports the machine still takes before
    /// the conversion is over.
    pub open spec fn remaining(self) -> nat {
        let p = self.gain.pulses();
        match self.phase {
            Phase::AwaitReady => {
                let left = self.timing.ready_timeout_micros - self.waited;
                (if left < 1 { 1nat } else { left as nat }) + 48 + 2 * p
            },
            Phase::BitHigh => (2 * (24 - self.bits.len()) + 2 * p) as nat,
            Phase::BitLow => (2 * (24 - self.bits.len()) + 1 + 2 * p) as nat,
            Phase::GainHigh => (2 * (p - self.pulses)) as nat,
            Phase::GainLow => (2 * (p - self.pulses) + 1) as nat,
            Phase::Abort => 1,
            Phase::Finished => 0,
        }
    }
}

/// Every step keeps the state well formed.
pub proof fn lemma_next_keeps_wf(state: ConversionModel, report: LineReport)
    requires
        state.wf(),
    ensures
        state.next(report).wf(),
{
}

/// Every step of a conversion that is not over brings its end closer, and a
/// conversion that is over stays as it is.
pub proof fn lemma_next_makes_progress(state: ConversionModel, report: LineReport)
    requires
        state.wf(),
    ensures
        state.phase != Phase::Finished ==> state.next(report).remaining() < state.remaining(),
        state.phase == Phase::Finished ==> state.next(report) == state,
        state.remaining() == 0 <==> state.phase == Phase::Finished,
{
}

/// A conversion is over after at most as many reports as its ready timeout
/// has microseconds, plus two for each of the 24 data bits and of the at most
/// three gain pulses, plus one.
pub proof fn lemma_conversion_is_bounded(timing: Timing, gain: GainChannel)
    ensures
        ConversionModel::initial(timing, gain).wf(),
        ConversionModel::initial(timing, gain).remaining() <= timing.ready_timeout_micros + 55,
{
}

/// Running a well-formed state over any reports keeps it well formed and
/// keeps its timing and gain setting, and once as many reports as
/// [`ConversionModel::remaining`] counts have arrived, the conversion is over.
pub proof fn lemma_run_finishes(state: ConversionModel, reports: Seq<LineReport>)
    requires
        state.wf(),
    ensures
        state.run(reports).wf(),
        state.run(reports).timing == state.timing,
        state.run(reports).gain == state.gain,
        state.run(reports).remaining() + reports.len() <= state.remaining()
            || state.run(reports).phase == Phase::Finished,
        reports.len() >= state.remaining() ==> state.run(reports).phase == Phase::Finished,
    decreases reports.len(),
{
    if reports.len() > 0 {
        let before = state.run(reports.drop_last());
        lemma_run_finishes(state, reports.drop_last());
        lemma_next_keeps_wf(before, reports.last());
        lemma_next_makes_progress(before, reports.last());
    } else {
        lemma_next_makes_progress(state, LineReport { data_high: false, held_micros: 0 });
    }
}

/// A conversion that is over without a failure has sampled 24 bits, and its
/// result is their two's-complement value, within the 24-bit signed range.
pub proof fn lemma_outcome_is_sampled_word(state: ConversionModel)
    requires
        state.wf(),
        state.phase == Phase::Finished,
    ensures
        match state.outcome() {
            Ok(value) => state.fault is None && state.bits.len() == 24 && value == signed_of_word(
                word_of_bits(state.bits) as int,
            ) && -0x80_0000 <= value < 0x80_0000,
            Err(e) => state.fault == Some(e),
        },
{
    if state.fault is None {
        lemma_word_of_bits_bound(state.bits);
        lemma2_to64();
    }
}

/// While a conversion waits for the ready signal, a low data line starts the
/// read-out at once, whatever time has gone by; a high one ends the conversion
/// with `NotReady` exactly when the time waited, this poll included, has
/// reached the ready timeout, and otherwise is followed by another poll.
pub proof fn lemma_ready_check(state: ConversionModel, report: LineReport)
    requires
        state.wf(),
        state.phase == Phase::AwaitReady,
    ensures
        !report.data_high ==> state.next(report) == (ConversionModel {
            phase: Phase::BitHigh,
            ..state
        }),
        report.data_high ==> (state.next(report).request() == Step::Done(
            Err(AcquisitionError::NotReady),
        ) <==> state.waited + poll_cost(report) >= state.timing.ready_timeout_micros),
        report.data_high ==> (state.next(report).request() == Step::Drive(poll_op(state.timing))
            <==> state.waited + poll_cost(report) < state.timing.ready_timeout_micros),
{
}

/// A clock pulse held high for longer than the limit ends the conversion:
/// the clock is driven low once more and the result is `TimingViolation`,
/// wherever in the read-out the pulse was.
pub proof fn lemma_overheld_pulse_aborts(
    state: ConversionModel,
    report: LineReport,
    after: LineReport,
)
    requires
        state.wf(),
        state.phase == Phase::BitHigh || state.phase == Phase::GainHigh,
        state.overheld(report),
    ensures
        state.next(report).request() == Step::Drive(low_op(state.timing)),
        state.next(report).next(after).request() == Step::Done(
            Err(AcquisitionError::TimingViolation),
        ),
{
}

/// The operation of a conversion's `index`-th pulse half, counted from the
/// ready signal: high and low in turn, the first 24 high halves with a sample.
pub open spec fn pulse_op(timing: Timing, index: int) -> LineOp {
    if index % 2 == 0 {
        high_op(timing, index < 48)
    } else {
        low_op(timing)
    }
}

/// The levels that the reports of the first 24 high halves carry.
pub open spec fn sampled_bits(reports: Seq<LineReport>) -> Seq<bool> {
    Seq::new(24, |i: int| reports[2 * i].data_high)
}

/// Whether no report of a high half exceeds the high-time limit of `timing`.
pub open spec fn clean_holds(timing: Timing, reports: Seq<LineReport>) -> bool {
    forall|i: int|
        0 <= i < reports.len() && i % 2 == 0 ==> (#[trigger] reports[i]).held_micros
            <= timing.clock_high_limit_micros
}

/// Running over two sequences of reports in a row is running over their
/// concatenation.
pub proof fn lemma_run_append(
    state: ConversionModel,
    first: Seq<LineReport>,
    second: Seq<LineReport>,
)
    ensures
        state.run(first + second) == state.run(first).run(second),
    decreases second.len(),
{
    if second.len() == 0 {
        assert(first + second =~= first);
    } else {
        lemma_run_append(state, first, second.drop_last());
        assert((first + second).drop_last() =~= first + second.drop_last());
    }
}

proof fn lemma_clean_prefix(state: ConversionModel, reports: Seq<LineReport>, n: int)
    requires
        state.wf(),
        state.phase == Phase::BitHigh,
        state.bits.len() == 0,
        reports.len() == 48 + 2 * state.gain.pulses(),
        clean_holds(state.timing, reports),
        0 <= n <= reports.len(),
    ensures
        ({
            let s = state.run(reports.take(n));
            &&& s.timing == state.timing
            &&& s.gain == state.gain
            &&& s.waited == state.waited
            &&& s.fault is None
            &&& s.bits == sampled_bits(reports).take(if n < 48 { (n + 1) / 2 } else { 24 })
            &&& s.pulses == if n <= 48 { 0int } else { (n - 47) / 2 }
            &&& s.phase == if n == reports.len() {
                Phase::Finished
            } else if n < 48 {
                if n % 2 == 0 { Phase::BitHigh } else { Phase::BitLow }
            } else {
                if n % 2 == 0 { Phase::GainHigh } else { Phase::GainLow }
            }
        }),
    decreases n,
{
    let prefix = reports.take(n);
    if n == 0 {
        assert(state.bits =~= sampled_bits(reports).take(0));
    } else {
        lemma_clean_prefix(state, reports, n - 1);
        assert(prefix.drop_last() =~= reports.take(n - 1));
        assert(prefix.last() == reports[n - 1]);
        let before = state.run(reports.take(n - 1));
        let report = reports[n - 1];
        assert(state.run(prefix) == before.next(report));
        if n <= 48 && n % 2 == 1 {
            let k = (n - 1) / 2;
            assert(!before.overheld(report));
            assert(sampled_bits(reports).take(k).push(report.data_high) =~= sampled_bits(
                reports,
            ).take(k + 1));
        } else if n > 48 && n % 2 == 1 {
            assert(!before.overheld(report));
        }
    }
}

/// From the ready signal on, a conversion whose clock pulses all keep within
/// the high-time limit takes exactly 24 sampling pulses and then the pulses
/// of its gain setting, and delivers the 24 sampled levels, first level most
/// significant, as a two's-complement number.
pub proof fn lemma_clean_conversion_decodes(state: ConversionModel, reports: Seq<LineReport>)
    requires
        state.wf(),
        state.phase == Phase::BitHigh,
        state.bits.len() == 0,
        reports.len() == 48 + 2 * state.gain.pulses(),
        clean_holds(state.timing, reports),
    ensures
        forall|n: int|
            0 <= n < reports.len() ==> (#[trigger] state.run(reports.take(n))).request()
                == Step::Drive(pulse_op(state.timing, n)),
        state.run(reports).request() == Step::Done(
            Ok(signed_of_word(word_of_bits(sampled_bits(reports)) as int) as i32),
        ),
{
    assert forall|n: int| 0 <= n < reports.len() implies (#[trigger] state.run(
        reports.take(n),
    )).request() == Step::Drive(pulse_op(state.timing, n)) by {
        lemma_clean_prefix(state, reports, n);
    }
    lemma_clean_prefix(state, reports, reports.len() as int);
    assert(reports.take(reports.len() as int) =~= reports);
    assert(sampled_bits(reports).take(24) =~= sampled_bits(reports));
}

/// A whole conversion: after any polls that leave it waiting, a poll that
/// finds the data line low, and the reports of pulses that all keep within
/// the high-time limit, the conversion delivers the 24 levels sampled on
/// those pulses, first level most significant, as a two's-complement number.
pub proof fn lemma_conversion_decodes(
    timing: Timing,
    gain: GainChannel,
    waits: Seq<LineReport>,
    ready: LineReport,
    pulses: Seq<LineReport>,
)
    requires
        ConversionModel::initial(timing, gain).run(waits).phase == Phase::AwaitReady,
        !ready.data_high,
        pulses.len() == 48 + 2 * gain.pulses(),
        clean_holds(timing, pulses),
    ensures
        ConversionModel::initial(timing, gain).run(waits.push(ready) + pulses).request()
            == Step::Done(Ok(signed_of_word(word_of_bits(sampled_bits(pulses)) as int) as i32)),
{
    let start = ConversionModel::initial(timing, gain);
    let waiting = start.run(waits);
    lemma_run_finishes(start, waits);
    assert(waits.push(ready).drop_last() =~= waits);
    let reading = start.run(waits.push(ready));
    assert(reading == waiting.next(ready));
    lemma_run_append(start, waits.push(ready), pulses);
    lemma_clean_conversion_decodes(reading, pulses);
}

/// A conversion in flight.
///
/// It is made by [`Driver::begin`] and fed with [`Conversion::advance`] until
/// that answers [`Step::Done`].
pub struct Conversion {
    timing: Timing,
    gain: GainChannel,
    phase: Phase,
    waited_micros: u32,
    bits_read: u8,
    word: u32,
    pulses_sent: u8,
    fault: Option<AcquisitionError>,
    bits: Ghost<Seq<bool>>,
}

impl View for Conversion {
    type V = ConversionModel;

    closed spec fn view(&self) -> ConversionModel {
        ConversionModel {
            timing: self.timing,
            gain: self.gain,
            phase: self.phase,
            waited: self.waited_micros as nat,
            bits: self.bits@,
            pulses: self.pulses_sent as nat,
            fault: self.fault,
        }
    }
}

impl Conversion {
    #[verifier::type_invariant]
    spec fn inv(self) -> bool {
        &&& self@.wf()
        &&& self.bits_read == self.bits@.len()
        &&& self.word == word_of_bits(self.bits@)
    }

    /// Whether the conversion is over.
    pub fn is_finished(&self) -> (over: bool)
        ensures
            over == (self@.phase == Phase::Finished),
            self@.wf(),
    {
        proof {
            use_type_invariant(self);
        }
        match self.phase {
            Phase::Finished => true,
            _ => false,
        }
    }

    /// Takes the report on the operation handed out last and answers with the
    /// next operation, or with the result once the conversion is over. After
    /// that the conversion no longer changes and repeats its result.
    pub fn advance(&mut self, report: LineReport) -> (step: Step)
        ensures
            final(self)@ == old(self)@.next(report),
            step == final(self)@.request(),
            final(self)@.wf(),
    {
        proof {
            use_type_invariant(&*self);
            lemma_next_keeps_wf(self@, report);
            lemma_word_of_bits_bound(self.bits@);
            lemma2_to64();
        }
        let mut phase = self.phase;
        let mut waited_micros = self.waited_micros;
        let mut bits_read = self.bits_read;
        let mut word = self.word;
        let mut pulses_sent = self.pulses_sent;
        let mut fault = self.fault;
        let mut bits = self.bits;
        match self.phase {
            Phase::AwaitReady => {
                if !report.data_high {
                    phase = Phase::BitHigh;
                } else {
                    let cost: u32 = if report.held_micros == 0 {
                        1
                    } else {
                        report.held_micros
                    };
                    waited_micros = waited_micros.saturating_add(cost);
                    if waited_micros >= self.timing.ready_timeout_micros {
                        fault = Some(AcquisitionError::NotReady);
                        phase = Phase::Finished;
                    }
                }
            },
            Phase::BitHigh => {
                if report.held_micros > self.timing.clock_high_limit_micros {
                    fault = Some(AcquisitionError::TimingViolation);
                    phase = Phase::Abort;
                } else {
                    proof {
                        lemma_word_of_pushed_bit(bits@, report.data_high);
                        lemma_word_of_bits_bound(bits@.push(report.data_high));
                    }
                    word = shift_in(word, report.data_high);
                    bits_read = bits_read + 1;
                    bits = Ghost(bits@.push(report.data_high));
                    phase = Phase::BitLow;
                }
            },
            Phase::BitLow => {
                if bits_read < SAMPLE_BITS {
                    phase = Phase::BitHigh;
                } else {
                    phase = Phase::GainHigh;
                }
            },
            Phase::GainHigh => {
                if report.held_micros > self.timing.clock_high_limit_micros {
                    fault = Some(AcquisitionError::TimingViolation);
                    phase = Phase::Abort;
                } else {
                    pulses_sent = pulses_sent + 1;
                    phase = Phase::GainLow;
                }
            },
            Phase::GainLow => {
                if pulses_sent < self.gain.extra_pulses() {
                    phase = Phase::GainHigh;
                } else {
                    phase = Phase::Finished;
                }
            },
            Phase::Abort => {
                phase = Phase::Finished;
            },
            Phase::Finished => {},
        }
        *self = Conversion {
            timing: self.timing,
            gain: self.gain,
            phase,
            waited_micros,
            bits_read,
            word,
            pulses_sent,
            fault,
            bits,
        };
        self.request()
    }

    /// What the conversion asks for in its current state.
    pub fn request(&self) -> (step: Step)
        ensures
            step == self@.request(),
    {
        proof {
            use_type_invariant(self);
            lemma_word_of_bits_bound(self.bits@);
            lemma2_to64();
        }
        match self.phase {
            Phase::AwaitReady => Step::Drive(
                LineOp {
                    clock_high: false,
                    hold_micros: self.timing.ready_poll_micros,
                    sample: true,
                },
            ),
            Phase::BitHigh => Step::Drive(
                LineOp { clock_high: true, hold_micros: self.timing.clock_high_micros, sample: true },
            ),
            Phase::GainHigh => Step::Drive(
                LineOp {
                    clock_high: true,
                    hold_micros: self.timing.clock_high_micros,
                    sample: false,
                },
            ),
            Phase::BitLow | Phase::GainLow | Phase::Abort => Step::Drive(
                LineOp {
                    clock_high: false,
                    hold_micros: self.timing.clock_low_micros,
                    sample: false,
                },
            ),
            Phase::Finished => match self.fault {
                Some(e) => Step::Done(Err(e)),
                None => Step::Done(Ok(sign_extend(self.word))),
            },
        }
    }
}

/// The acquisition driver: the timing of the interface and the gain setting
/// that conversions are begun with.
#[derive(Clone, Copy, Debug)]
pub struct Driver {
    timing: Timing,
    gain: GainChannel,
}

impl Driver {
    /// Timing that conversions are begun with.
    pub closed spec fn timing_spec(&self) -> Timing {
        self.timing
    }

    /// Gain setting that conversions are begun with.
    pub closed spec fn gain_spec(&self) -> GainChannel {
        self.gain
    }

    /// A driver with the given timing and gain setting.
    pub fn new(timing: Timing, gain: GainChannel) -> (driver: Driver)
        ensures
            driver.timing_spec() == timing,
            driver.gain_spec() == gain,
    {
        Driver { timing, gain }
    }

    /// Timing that conversions are begun with.
    #[verifier::when_used_as_spec(timing_spec)]
    pub fn timing(&self) -> (timing: Timing)
        ensures
            timing == self.timing_spec(),
    {
        self.timing
    }

    /// Gain setting that conversions are begun with.
    #[verifier::when_used_as_spec(gain_spec)]
    pub fn gain(&self) -> (gain: GainChannel)
        ensures
            gain == self.gain_spec(),
    {
        self.gain
    }

    /// Selects the gain setting for the conversions begun from now on. A
    /// conversion in flight keeps the setting it was begun with.
    pub fn set_gain(&mut self, gain: GainChannel)
        ensures
            final(self).gain_spec() == gain,
            final(self).timing_spec() == old(self).timing_spec(),
    {
        self.gain = gain;
    }

    /// Runs one conversion against the recorded reports of a line pair, taken
    /// in order, and answers with its result, or with `None` if the reports
    /// end before the conversion is over. Reports after its end are ignored.
    pub fn replay(&self, reports: &[LineReport]) -> (result: Option<
        Result<i32, AcquisitionError>,
    >)
        ensures
            result == ({
                let end = ConversionModel::initial(self.timing_spec(), self.gain_spec()).run(
                    reports@,
                );
                if end.phase == Phase::Finished {
                    Some(end.outcome())
                } else {
                    None
                }
            }),
    {
        let ghost start = ConversionModel::initial(self.timing_spec(), self.gain_spec());
        let (mut conversion, _) = self.begin();
        let mut index: usize = 0;
        assert(reports@.take(0).len() == 0);
        while index < reports.len()
            invariant
                index <= reports.len(),
                conversion@ == start.run(reports@.take(index as int)),
            decreases reports.len() - index,
        {
            proof {
                let longer = reports@.take(index + 1);
                assert(longer.drop_last() =~= reports@.take(index as int));
                assert(longer.last() == reports@[index as int]);
            }
            let _ = conversion.advance(reports[index]);
            index = index + 1;
        }
        assert(reports@.take(index as int) =~= reports@);
        match conversion.request() {
            Step::Done(outcome) => Some(outcome),
            Step::Drive(_) => None,
        }
    }

    /// Begins a conversion and hands out its first operation.
    pub fn begin(&self) -> (started: (Conversion, LineOp))
        ensures
            started.0@ == ConversionModel::initial(self.timing_spec(), self.gain_spec()),
            started.1 == poll_op(self.timing_spec()),
    {
        let conversion = Conversion {
            timing: self.timing,
            gain: self.gain,
            phase: Phase::AwaitReady,
            waited_micros: 0,
            bits_read: 0,
            word: 0,
            pulses_sent: 0,
            fault: None,
            bits: Ghost(Seq::empty()),
        };
        let first = LineOp {
            clock_high: false,
            hold_micros: self.timing.ready_poll_micros,
            sample: true,
        };
        (conversion, first)
    }
}

} // verus!
