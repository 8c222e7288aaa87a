use cli_daw::control::{next_poll, playback_wait_ms, OPEN_POLL_MS, TIMED_POLL_MS};

#[test]
fn polling_stops_on_flag_or_limit() {
    assert_eq!(next_poll(true, 0, None), None);
    assert_eq!(next_poll(false, 0, None), Some(OPEN_POLL_MS));
    assert_eq!(next_poll(false, 999, Some(1000)), Some(TIMED_POLL_MS));
    assert_eq!(next_poll(false, 1000, Some(1000)), None);
    assert_eq!(OPEN_POLL_MS, 200);
    assert_eq!(TIMED_POLL_MS, 50);
}

#[test]
fn playback_wait_rounds_up() {
    assert_eq!(playback_wait_ms(96000, 2, 48000), 1200);
    assert_eq!(playback_wait_ms(1, 1, 48000), 201);
    assert_eq!(playback_wait_ms(0, 2, 44100), 200);
    assert_eq!(playback_wait_ms(u64::MAX, 1, 1), u64::MAX);
}
