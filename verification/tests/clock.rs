use epaper_watch::clock::{time_of_day_text, uptime_text, MICROS_PER_SEC};

#[test]
fn tick_rate_is_one_megahertz() {
    assert_eq!(embassy_time::TICK_HZ, 1_000_000);
    assert_eq!(MICROS_PER_SEC, 1_000_000);
}

#[test]
fn time_of_day_at_midnight() {
    assert_eq!(time_of_day_text(0).as_str(), "00:00");
}

#[test]
fn time_of_day_pads_and_wraps() {
    // 13:05:59.999999
    let t = (13 * 3600 + 5 * 60 + 59) * 1_000_000 + 999_999;
    assert_eq!(time_of_day_text(t).as_str(), "13:05");
    // One day and 9 hours later the clock shows 09:00.
    let t = (24 * 3600 + 9 * 3600) * 1_000_000;
    assert_eq!(time_of_day_text(t).as_str(), "09:00");
    assert_eq!(time_of_day_text(86_399_999_999).as_str(), "23:59");
}

#[test]
fn time_of_day_at_end_of_range() {
    // u64::MAX microseconds is 18446744073709 seconds: 213503982 days, 8:01:49.
    assert_eq!(time_of_day_text(u64::MAX).as_str(), "08:01");
}

#[test]
fn uptime_text_has_seconds() {
    assert_eq!(uptime_text(0).as_str(), "00:00:00");
    assert_eq!(uptime_text(3661).as_str(), "01:01:01");
    assert_eq!(uptime_text(86_399).as_str(), "23:59:59");
    assert_eq!(uptime_text(86_400 + 59).as_str(), "00:00:59");
}

#[test]
fn clock_texts_read_back() {
    for secs in [0u64, 59, 60, 3599, 3600, 45_296, 86_399, 1_000_000_007] {
        let t = uptime_text(secs);
        let b = t.as_str().as_bytes();
        assert_eq!(b.len(), 8);
        let field = |i: usize| ((b[i] - b'0') * 10 + (b[i + 1] - b'0')) as u64;
        assert_eq!(field(0), secs / 3600 % 24);
        assert_eq!(field(3), secs / 60 % 60);
        assert_eq!(field(6), secs % 60);
        assert_eq!(&t.as_str()[..5], time_of_day_text(secs * 1_000_000).as_str());
    }
}
