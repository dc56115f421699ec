use wificomp::utils::{format_duration, format_timer, signal_bar_width, signal_level, truncate, SignalLevel};

#[test]
fn test_format_duration() {
    assert_eq!(format_duration(0), "00:00");
    assert_eq!(format_duration(65), "01:05");
    assert_eq!(format_duration(300), "05:00");
}

#[test]
fn test_signal_bar_width() {
    assert_eq!(signal_bar_width(-30, 28), 28);
    assert_eq!(signal_bar_width(-100, 28), 0);
    assert_eq!(signal_bar_width(-65, 28), 14);
}

#[test]
fn test_truncate() {
    assert_eq!(truncate("hello", 10), "hello");
    assert_eq!(truncate("hello world", 8), "hello...");
}

#[test]
fn format_duration_long_and_timer() {
    assert_eq!(format_duration(6000), "100:00");
    assert_eq!(format_timer(65, Some(300)), "03:55/05:00");
    assert_eq!(format_timer(400, Some(300)), "00:00/05:00");
    assert_eq!(format_timer(61, None), "01:01");
}

#[test]
fn signal_bar_width_is_monotonic() {
    for w in [0u16, 1, 7, 28, 100] {
        let mut prev = 0;
        for d in -120..0 {
            let x = signal_bar_width(d, w);
            assert!(x >= prev);
            assert!(x <= w);
            prev = x;
        }
        assert_eq!(signal_bar_width(-30, w), w);
        assert_eq!(signal_bar_width(-100, w), 0);
    }
}

#[test]
fn truncate_short_limits_and_multibyte() {
    assert_eq!(truncate("hello", 2), "he");
    assert_eq!(truncate("hello", 0), "");
    assert_eq!(truncate("héllo world", 8), "héll...");
}

#[test]
fn signal_levels() {
    assert_eq!(signal_level(-50), SignalLevel::Excellent);
    assert_eq!(signal_level(-55), SignalLevel::Good);
    assert_eq!(signal_level(-70), SignalLevel::Fair);
    assert_eq!(signal_level(-80), SignalLevel::Weak);
    assert_eq!(signal_level(-81), SignalLevel::Poor);
}
