use markchain::clock::{epoch_millis_or_zero, epoch_secs_or_zero, secs_now};

#[test]
fn missing_clock_reading_gives_zero() {
    assert_eq!(epoch_secs_or_zero(None), 0);
    assert_eq!(epoch_millis_or_zero(None), 0);
}

#[test]
fn clock_readings_are_kept() {
    assert_eq!(epoch_secs_or_zero(Some(42)), 42);
    assert_eq!(epoch_millis_or_zero(Some((1_669_849_200, 0))), 1_669_849_200_000);
    assert_eq!(epoch_millis_or_zero(Some((1_669_849_200, 999))), 1_669_849_200_999);
}

#[test]
fn oversized_millisecond_reading_is_capped() {
    assert_eq!(epoch_millis_or_zero(Some((u64::MAX, 0))), u64::MAX);
    assert_eq!(epoch_millis_or_zero(Some((u64::MAX / 1000, 615))), u64::MAX);
    assert_eq!(epoch_millis_or_zero(Some((u64::MAX / 1000, 616))), u64::MAX);
    assert_eq!(epoch_millis_or_zero(Some((u64::MAX / 1000, 614))), u64::MAX - 1);
}

#[test]
fn the_clock_reads_after_2022() {
    assert!(secs_now() > 1_669_849_200);
}
