use data::common::helpers::{elapsed, now, since};

#[test]
fn elapsed_counts_the_distance_to_a_past_timestamp() {
    assert_eq!(elapsed(1_000, 400), 600);
    assert_eq!(elapsed(u64::MAX, 0), u64::MAX);
    assert_eq!(elapsed(1, 0), 1);
}

#[test]
fn elapsed_is_zero_at_the_timestamp() {
    assert_eq!(elapsed(400, 400), 0);
    assert_eq!(elapsed(0, 0), 0);
}

#[test]
fn elapsed_is_zero_for_a_future_timestamp() {
    assert_eq!(elapsed(400, 1_000), 0);
    assert_eq!(elapsed(0, u64::MAX), 0);
}

#[test]
fn elapsed_never_decreases_as_the_clock_advances() {
    let timestamp = 500;
    let mut previous = 0;
    for reading in [0u64, 499, 500, 501, 700, 10_000] {
        let millis = elapsed(reading, timestamp);
        assert!(millis >= previous);
        previous = millis;
    }
    assert_eq!(previous, 9_500);
}

#[test]
fn since_is_zero_for_the_far_future() {
    assert_eq!(since(u64::MAX), 0);
}

#[test]
fn since_the_epoch_is_the_clock_reading() {
    let before = now();
    let millis = since(0);
    let after = now();
    assert!(millis > 0);
    if before <= after {
        assert!(before <= millis && millis <= after);
    }
}

#[test]
fn since_now_is_small() {
    let stamp = now();
    let millis = since(stamp);
    let later = now();
    if stamp <= later {
        assert!(millis <= later - stamp);
    }
}
