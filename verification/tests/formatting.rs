// The output formatter: round-half-to-even at two decimals, trailing
// zeros dropped.  Inputs are micro-units: 1_000_000 per table unit.

use snooker::render::format_output;

#[test]
fn half_rounds_to_even_down() {
    // 2.005 scales to 200.5 hundredths: the tie goes to 200, an even
    // neighbour, so the text is the bare integer.
    assert_eq!(format_output(2_005_000), "2");
}

#[test]
fn half_rounds_to_even_up() {
    // 2.015 scales to 201.5: the tie goes up to 202.
    assert_eq!(format_output(2_015_000), "2.02");
}

#[test]
fn trailing_zero_in_hundredths_is_dropped() {
    assert_eq!(format_output(3_100_000), "3.1");
}

#[test]
fn integer_value_prints_without_point() {
    assert_eq!(format_output(3_000_000), "3");
}

#[test]
fn two_significant_decimals_are_kept() {
    assert_eq!(format_output(3_140_000), "3.14");
}

#[test]
fn zero_prints_as_zero() {
    assert_eq!(format_output(0), "0");
}

#[test]
fn negative_values_keep_the_sign() {
    assert_eq!(format_output(-3_100_000), "-3.1");
    assert_eq!(format_output(-3_140_000), "-3.14");
    assert_eq!(format_output(-3_000_000), "-3");
}

#[test]
fn negative_half_rounds_to_even() {
    // -2.005 scales to -200.5: the tie goes to the even -200.
    assert_eq!(format_output(-2_005_000), "-2");
}

#[test]
fn tiny_negative_tie_rounds_to_zero() {
    // -0.005 scales to -0.5: the tie goes to 0, with no sign printed.
    assert_eq!(format_output(-5_000), "0");
}

#[test]
fn carry_propagates_through_the_whole_part() {
    // 0.999999 rounds to 1.00 and prints as the bare integer.
    assert_eq!(format_output(999_999), "1");
}

#[test]
fn fraction_below_one_keeps_the_leading_zero() {
    assert_eq!(format_output(120_000), "0.12");
    assert_eq!(format_output(-120_000), "-0.12");
}
