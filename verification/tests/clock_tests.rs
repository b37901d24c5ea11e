use cloudwatch_output_redirector::clock::{current_time_in_millis, timestamp_from_millis};

#[test]
fn timestamp_from_millis_keeps_a_reading_that_fits() {
    assert_eq!(timestamp_from_millis(Some(0)), Some(0));
    assert_eq!(timestamp_from_millis(Some(1_700_000_000_123)), Some(1_700_000_000_123));
    assert_eq!(timestamp_from_millis(Some(i64::MAX as u128)), Some(i64::MAX));
}

#[test]
fn timestamp_from_millis_has_none_for_a_reading_too_late() {
    assert_eq!(timestamp_from_millis(Some(i64::MAX as u128 + 1)), None);
    assert_eq!(timestamp_from_millis(Some(u128::MAX)), None);
}

#[test]
fn timestamp_from_millis_has_none_without_a_reading() {
    assert_eq!(timestamp_from_millis(None), None);
}

#[test]
fn current_time_is_after_the_year_2020() {
    let now = current_time_in_millis();
    assert!(matches!(now, Some(millis) if millis > 1_577_836_800_000));
}

#[test]
fn current_time_does_not_run_backwards_by_much() {
    let first = current_time_in_millis().unwrap();
    let second = current_time_in_millis().unwrap();
    assert!(second + 60_000 > first);
}
