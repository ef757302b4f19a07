use battleship::clock::within_window;
use battleship::clock::GAME_WINDOW_SECONDS;

const SECOND: u64 = 1_000_000_000;

#[test]
fn window_lasts_a_day() {
    assert_eq!(GAME_WINDOW_SECONDS, 24 * 60 * 60);
}

#[test]
fn window_is_open_until_the_last_second_of_the_day() {
    assert!(within_window(0, 0));
    assert!(within_window(0, 86_399 * SECOND));
    assert!(within_window(0, 86_399 * SECOND + 999_999_999));
    assert!(!within_window(0, 86_400 * SECOND));
    assert!(!within_window(0, u64::MAX));
}

#[test]
fn window_counts_whole_seconds_on_both_sides() {
    // Created late in second 1: the window still ends with second 86 400.
    let created = SECOND + 999_999_999;
    assert!(within_window(created, 86_400 * SECOND + 999_999_999));
    assert!(!within_window(created, 86_401 * SECOND));
    // A time of 86 400 nanoseconds is still second 0.
    assert!(within_window(0, 86_400));
    assert!(within_window(5 * SECOND, 4 * SECOND));
}

#[test]
fn window_of_the_latest_creation_does_not_wrap() {
    assert!(within_window(u64::MAX, u64::MAX));
    assert!(within_window(u64::MAX, 0));
}
