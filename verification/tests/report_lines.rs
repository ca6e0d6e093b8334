use loadcell::report::format_reading;

#[test]
fn a_reading_is_reported_on_one_line_ending_in_a_carriage_return() {
    assert_eq!(format_reading(5), "Force: 5\r");
    assert_eq!(format_reading(0), "Force: 0\r");
    assert_eq!(format_reading(10), "Force: 10\r");
    assert_eq!(format_reading(2005), "Force: 2005\r");
}

#[test]
fn negative_readings_carry_a_minus_sign() {
    assert_eq!(format_reading(-2), "Force: -2\r");
    assert_eq!(format_reading(-10), "Force: -10\r");
    assert_eq!(format_reading(-8_388_608), "Force: -8388608\r");
}

#[test]
fn readings_at_the_ends_of_the_range_are_written_in_full() {
    assert_eq!(format_reading(16_777_215), "Force: 16777215\r");
    assert_eq!(format_reading(-16_777_215), "Force: -16777215\r");
    assert_eq!(format_reading(i32::MAX), "Force: 2147483647\r");
    assert_eq!(format_reading(i32::MIN), "Force: -2147483648\r");
}

#[test]
fn lines_have_no_leading_zeros_and_no_newline() {
    for reading in [7, 100, 1000, -100, 909] {
        let line = format_reading(reading);
        assert_eq!(line, format!("Force: {}\r", reading));
        assert!(!line.contains('\n'));
        assert!(line.is_ascii());
    }
}
