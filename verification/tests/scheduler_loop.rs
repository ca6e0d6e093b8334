use loadcell::calibration::{calibrate, Offset};
use loadcell::clock::span_of_millis;
use loadcell::config::{CALIBRATION_ATTEMPTS, SAMPLE_PERIOD_MILLIS};
use loadcell::error::AcquisitionError;
use loadcell::report::format_reading;
use loadcell::scheduler::{LoopPhase, Scheduler, Turn};

const PERIOD: u64 = 100_000;

#[test]
fn the_first_cycle_is_due_one_period_after_the_start() {
    let scheduler = Scheduler::new(5_000, PERIOD, Offset::zero());
    assert_eq!(scheduler.deadline(), 105_000);
    assert_eq!(scheduler.phase(), LoopPhase::AwaitingDeadline);
}

#[test]
fn the_gate_fires_only_from_the_deadline_on() {
    let mut scheduler = Scheduler::new(0, PERIOD, Offset::zero());
    for now in [0, 1, 50_000, 99_999] {
        assert_eq!(scheduler.begin_turn(now), Turn::Service);
        assert_eq!(scheduler.phase(), LoopPhase::AwaitingDeadline);
    }
    assert_eq!(scheduler.begin_turn(100_000), Turn::ServiceAndSample);
    assert_eq!(scheduler.phase(), LoopPhase::Sampling);

    let mut late = Scheduler::new(0, PERIOD, Offset::zero());
    assert_eq!(late.begin_turn(100_001), Turn::ServiceAndSample);
}

#[test]
fn the_deadline_advances_from_the_previous_deadline() {
    let mut scheduler = Scheduler::new(0, PERIOD, Offset::zero());
    assert_eq!(scheduler.begin_turn(137_500), Turn::ServiceAndSample);
    assert_eq!(scheduler.end_sample(Ok(1)), Some(1));
    assert_eq!(scheduler.deadline(), 200_000);
    assert_eq!(scheduler.phase(), LoopPhase::AwaitingDeadline);

    assert_eq!(scheduler.begin_turn(199_999), Turn::Service);
    assert_eq!(scheduler.begin_turn(200_000), Turn::ServiceAndSample);
    assert_eq!(scheduler.end_sample(Ok(1)), Some(1));
    assert_eq!(scheduler.deadline(), 300_000);
}

#[test]
fn the_schedule_holds_under_a_clock_that_advances_unevenly() {
    let mut scheduler = Scheduler::new(0, PERIOD, Offset::zero());
    let mut now = 0u64;
    let mut fired_at = Vec::new();
    let steps = [7u64, 13, 29_000, 3, 70_999, 1, 1, 45_000, 120_000, 5, 5, 5, 80_000, 44_970, 1];
    let mut expected_deadline = PERIOD;
    for step in steps.iter().cycle().take(300) {
        now += step;
        let turn = scheduler.begin_turn(now);
        assert_eq!(turn == Turn::ServiceAndSample, now >= expected_deadline);
        if turn == Turn::ServiceAndSample {
            fired_at.push(now);
            let _ = scheduler.end_sample(Ok(0));
            expected_deadline += PERIOD;
        }
        assert_eq!(scheduler.deadline(), expected_deadline);
    }
    assert!(fired_at.len() > 10);
}

#[test]
fn a_late_loop_catches_up_one_cycle_per_turn() {
    let mut scheduler = Scheduler::new(0, PERIOD, Offset::zero());
    let now = 350_000;
    for expected in [200_000, 300_000, 400_000] {
        assert_eq!(scheduler.begin_turn(now), Turn::ServiceAndSample);
        let _ = scheduler.end_sample(Err(AcquisitionError::NotReady));
        assert_eq!(scheduler.deadline(), expected);
    }
    assert_eq!(scheduler.begin_turn(now), Turn::Service);
}

#[test]
fn an_idle_turn_leaves_the_scheduler_as_it_was() {
    let mut scheduler = Scheduler::new(0, PERIOD, Offset::from_raw(9));
    for _ in 0..1000 {
        assert_eq!(scheduler.begin_turn(42), Turn::Service);
        assert_eq!(scheduler.deadline(), PERIOD);
        assert_eq!(scheduler.phase(), LoopPhase::AwaitingDeadline);
    }
    assert_eq!(scheduler.begin_turn(PERIOD), Turn::ServiceAndSample);
    assert_eq!(scheduler.end_sample(Ok(10)), Some(1));
}

#[test]
fn a_failed_conversion_drops_the_cycle_and_still_advances_the_deadline() {
    for error in [AcquisitionError::NotReady, AcquisitionError::TimingViolation] {
        let mut scheduler = Scheduler::new(0, PERIOD, Offset::from_raw(2000));
        assert_eq!(scheduler.begin_turn(PERIOD), Turn::ServiceAndSample);
        assert_eq!(scheduler.end_sample(Err(error)), None);
        assert_eq!(scheduler.deadline(), 2 * PERIOD);
        assert_eq!(scheduler.phase(), LoopPhase::AwaitingDeadline);
        assert_eq!(scheduler.begin_turn(PERIOD + 1), Turn::Service);
    }
}

#[test]
fn an_owed_conversion_stays_owed_until_it_is_reported() {
    let mut scheduler = Scheduler::new(0, PERIOD, Offset::zero());
    assert_eq!(scheduler.begin_turn(PERIOD), Turn::ServiceAndSample);
    assert_eq!(scheduler.begin_turn(PERIOD + 5), Turn::ServiceAndSample);
    assert_eq!(scheduler.begin_turn(0), Turn::ServiceAndSample);
    assert_eq!(scheduler.deadline(), PERIOD);
    assert_eq!(scheduler.end_sample(Ok(3)), Some(3));
    assert_eq!(scheduler.deadline(), 2 * PERIOD);
}

#[test]
fn an_outcome_nobody_asked_for_is_ignored() {
    let mut scheduler = Scheduler::new(0, PERIOD, Offset::zero());
    assert_eq!(scheduler.end_sample(Ok(3)), None);
    assert_eq!(scheduler.deadline(), PERIOD);
    assert_eq!(scheduler.phase(), LoopPhase::AwaitingDeadline);
}

#[test]
fn deadlines_wrap_round_with_the_counter() {
    let start = u64::MAX - 10;
    let mut scheduler = Scheduler::new(start, 100, Offset::zero());
    assert_eq!(scheduler.deadline(), 89);
    assert_eq!(scheduler.begin_turn(u64::MAX), Turn::Service);
    assert_eq!(scheduler.begin_turn(88), Turn::Service);
    assert_eq!(scheduler.begin_turn(89), Turn::ServiceAndSample);
    let _ = scheduler.end_sample(Ok(0));
    assert_eq!(scheduler.deadline(), 189);
}

#[test]
fn an_instant_more_than_half_the_range_ahead_counts_as_behind() {
    let mut scheduler = Scheduler::new(0, 10, Offset::zero());
    assert_eq!(scheduler.begin_turn(10 + u64::MAX / 2), Turn::ServiceAndSample);
    let mut scheduler = Scheduler::new(0, 10, Offset::zero());
    assert_eq!(scheduler.begin_turn(10 + u64::MAX / 2 + 1), Turn::Service);
    let mut scheduler = Scheduler::new(0, u64::MAX, Offset::zero());
    assert_eq!(scheduler.deadline(), u64::MAX);
    assert_eq!(scheduler.begin_turn(0), Turn::ServiceAndSample);
}

#[test]
fn the_sample_period_is_a_tenth_of_a_second_in_ticks() {
    assert_eq!(span_of_millis(SAMPLE_PERIOD_MILLIS), Some(100_000));
}

#[test]
fn readings_are_calibrated_with_the_learned_offset_end_to_end() {
    let (offset, attempts) = calibrate(&[Ok(2000)], CALIBRATION_ATTEMPTS);
    assert_eq!(offset.value(), 2000);
    assert_eq!(attempts, 1);

    let period = span_of_millis(SAMPLE_PERIOD_MILLIS).unwrap();
    let mut scheduler = Scheduler::new(0, period, offset);
    let mut samples = [2000, 2005, 1998, 2010].into_iter();
    let mut readings = Vec::new();
    let mut lines = Vec::new();
    let mut services = 0;
    let mut now = 0u64;
    while readings.len() < 4 {
        now += 12_345;
        let turn = scheduler.begin_turn(now);
        services += 1;
        if turn == Turn::ServiceAndSample {
            let raw = samples.next().unwrap();
            if let Some(reading) = scheduler.end_sample(Ok(raw)) {
                readings.push(reading);
                lines.push(format_reading(reading));
            }
        }
    }
    assert_eq!(readings, vec![0, 5, -2, 10]);
    assert_eq!(lines, vec!["Force: 0\r", "Force: 5\r", "Force: -2\r", "Force: 10\r"]);
    assert!(services > readings.len());
    assert_eq!(scheduler.deadline(), 5 * period);
}

#[test]
fn a_failed_cycle_in_the_stream_sends_nothing() {
    let mut scheduler = Scheduler::new(0, PERIOD, Offset::from_raw(2000));
    let outcomes = [Ok(2005), Err(AcquisitionError::NotReady), Ok(1998)];
    let mut sent = Vec::new();
    let mut now = 0;
    for outcome in outcomes {
        now += PERIOD;
        assert_eq!(scheduler.begin_turn(now), Turn::ServiceAndSample);
        if let Some(reading) = scheduler.end_sample(outcome) {
            sent.push(reading);
        }
    }
    assert_eq!(sent, vec![5, -2]);
}
