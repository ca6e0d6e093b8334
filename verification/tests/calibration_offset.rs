use loadcell::calibration::{apply, calibrate, Calibration, Offset};
use loadcell::config::{CALIBRATION_ATTEMPTS, CALIBRATION_SETTLE_CYCLES};
use loadcell::error::AcquisitionError;

const FAIL: Result<i32, AcquisitionError> = Err(AcquisitionError::NotReady);

#[test]
fn calibration_takes_the_first_success_and_stops() {
    let outcomes = [FAIL, FAIL, Ok(1234), Ok(5678), FAIL, Ok(9)];
    let (offset, attempts) = calibrate(&outcomes, CALIBRATION_ATTEMPTS);
    assert_eq!(offset.value(), 1234);
    assert_eq!(attempts, 3);
}

#[test]
fn calibration_steps_ask_for_no_attempt_after_the_first_success() {
    let mut calibration = Calibration::new(CALIBRATION_ATTEMPTS, CALIBRATION_SETTLE_CYCLES);
    let mut remaining = vec![FAIL, FAIL, Ok(1234), Ok(5678)].into_iter();
    let mut settles = Vec::new();
    while calibration.wants_attempt() {
        let outcome = remaining.next().unwrap();
        if let Some(cycles) = calibration.record(outcome) {
            settles.push(cycles);
        }
    }
    assert_eq!(calibration.offset().value(), 1234);
    assert_eq!(calibration.attempts(), 3);
    assert_eq!(settles, vec![CALIBRATION_SETTLE_CYCLES, CALIBRATION_SETTLE_CYCLES]);
    assert_eq!(remaining.next(), Some(Ok(5678)));
}

#[test]
fn calibration_falls_back_to_zero_when_every_attempt_fails() {
    let outcomes = vec![FAIL; CALIBRATION_ATTEMPTS as usize];
    let (offset, attempts) = calibrate(&outcomes, CALIBRATION_ATTEMPTS);
    assert_eq!(offset, Offset::zero());
    assert_eq!(offset.value(), 0);
    assert_eq!(attempts, CALIBRATION_ATTEMPTS);
}

#[test]
fn calibration_steps_settle_after_every_failure_and_give_up_at_the_limit() {
    let mut calibration = Calibration::new(10, 1_000_000);
    let mut settles = 0;
    while calibration.wants_attempt() {
        let settle = calibration.record(Err(AcquisitionError::TimingViolation));
        assert_eq!(settle, Some(1_000_000));
        settles += 1;
    }
    assert_eq!(settles, 10);
    assert_eq!(calibration.attempts(), 10);
    assert_eq!(calibration.offset().value(), 0);
}

#[test]
fn calibration_does_not_look_past_its_limit() {
    let mut outcomes = vec![FAIL; 10];
    outcomes.push(Ok(4321));
    let (offset, attempts) = calibrate(&outcomes, 10);
    assert_eq!(offset.value(), 0);
    assert_eq!(attempts, 10);
    let (offset, attempts) = calibrate(&outcomes, 11);
    assert_eq!(offset.value(), 4321);
    assert_eq!(attempts, 11);
}

#[test]
fn calibration_succeeds_on_the_last_attempt() {
    let mut outcomes = vec![FAIL; 9];
    outcomes.push(Ok(-77));
    let (offset, attempts) = calibrate(&outcomes, 10);
    assert_eq!(offset.value(), -77);
    assert_eq!(attempts, 10);
}

#[test]
fn calibration_with_fewer_outcomes_than_attempts_uses_what_there_is() {
    let (offset, attempts) = calibrate(&[FAIL, FAIL], 10);
    assert_eq!(offset.value(), 0);
    assert_eq!(attempts, 2);
    let (offset, attempts) = calibrate(&[], 10);
    assert_eq!(offset.value(), 0);
    assert_eq!(attempts, 0);
}

#[test]
fn calibration_without_attempts_stands_at_zero() {
    let calibration = Calibration::new(0, 5);
    assert!(!calibration.wants_attempt());
    assert_eq!(calibration.offset().value(), 0);
    let (offset, attempts) = calibrate(&[Ok(55)], 0);
    assert_eq!(offset.value(), 0);
    assert_eq!(attempts, 0);
}

#[test]
fn a_learned_offset_is_never_replaced() {
    let mut calibration = Calibration::new(10, 5);
    assert_eq!(calibration.record(Ok(2000)), None);
    assert!(!calibration.wants_attempt());
    assert_eq!(calibration.record(Ok(3000)), None);
    assert_eq!(calibration.record(FAIL), None);
    assert_eq!(calibration.offset().value(), 2000);
    assert_eq!(calibration.attempts(), 1);
}

#[test]
fn an_exhausted_calibration_ignores_late_outcomes() {
    let mut calibration = Calibration::new(2, 5);
    assert_eq!(calibration.record(FAIL), Some(5));
    assert_eq!(calibration.record(FAIL), Some(5));
    assert!(!calibration.wants_attempt());
    assert_eq!(calibration.record(Ok(3000)), None);
    assert_eq!(calibration.offset().value(), 0);
    assert_eq!(calibration.attempts(), 2);
}

#[test]
fn a_first_success_may_be_zero_or_negative() {
    let (offset, attempts) = calibrate(&[Ok(0), Ok(9)], 10);
    assert_eq!((offset.value(), attempts), (0, 1));
    let (offset, attempts) = calibrate(&[FAIL, Ok(-8_388_608)], 10);
    assert_eq!((offset.value(), attempts), (-8_388_608, 2));
}

#[test]
fn applying_an_offset_subtracts_it() {
    assert_eq!(apply(2005, Offset::from_raw(2000)), 5);
    assert_eq!(apply(1998, Offset::from_raw(2000)), -2);
    assert_eq!(apply(2000, Offset::from_raw(2000)), 0);
    assert_eq!(apply(-5, Offset::from_raw(-7)), 2);
    assert_eq!(apply(123, Offset::zero()), 123);
}

#[test]
fn applying_an_offset_is_exact_over_the_whole_sample_range() {
    assert_eq!(apply(8_388_607, Offset::from_raw(-8_388_608)), 16_777_215);
    assert_eq!(apply(-8_388_608, Offset::from_raw(8_388_607)), -16_777_215);
}

#[test]
fn applying_an_offset_wraps_outside_the_32_bit_range() {
    assert_eq!(apply(i32::MIN, Offset::from_raw(1)), i32::MAX);
    assert_eq!(apply(i32::MAX, Offset::from_raw(-1)), i32::MIN);
    assert_eq!(apply(0, Offset::from_raw(i32::MIN)), i32::MIN);
}

#[test]
fn offsets_keep_their_raw_value() {
    assert_eq!(Offset::from_raw(-3).value(), -3);
    assert_eq!(Offset::zero(), Offset::from_raw(0));
}
