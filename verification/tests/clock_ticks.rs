use loadcell::clock::{span_of_millis, TICKS_PER_MILLI};

#[test]
fn a_millisecond_is_a_thousand_ticks() {
    assert_eq!(TICKS_PER_MILLI, 1000);
    assert_eq!(span_of_millis(0), Some(0));
    assert_eq!(span_of_millis(1), Some(1_000));
    assert_eq!(span_of_millis(100), Some(100_000));
    assert_eq!(span_of_millis(86_400_000), Some(86_400_000_000));
}

#[test]
fn the_longest_span_that_fits_is_converted() {
    let longest = u64::MAX / 1000;
    assert_eq!(span_of_millis(longest), Some(longest * 1000));
}

#[test]
fn a_span_that_does_not_fit_the_counter_is_refused() {
    assert_eq!(span_of_millis(u64::MAX / 1000 + 1), None);
    assert_eq!(span_of_millis(u64::MAX), None);
}

#[test]
fn spans_agree_with_the_timer_crate() {
    for millis in [0u64, 1, 7, 100, 999, 1_000_000] {
        let span: fugit::Duration<u64, 1, 1_000_000> = fugit::ExtU64::millis(millis);
        assert_eq!(span_of_millis(millis), Some(span.ticks()));
    }
}
