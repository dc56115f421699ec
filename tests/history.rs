use wificomp::history::{bucketize, history_of, windowed, HistoryState};
use wificomp::models::{AccessPoint, Adapter, ScanResult, Session};
use wificomp::time::Timestamp;

fn t(secs: i64) -> Timestamp {
    Timestamp { secs, nanos: 0 }
}

#[test]
fn window_filters_by_minutes() {
    let data = vec![(t(0), -50), (t(400), -60), (t(700), -70)];
    let now = t(1000);
    assert_eq!(windowed(&data, 5, now), vec![(t(700), -70)]);
    assert_eq!(windowed(&data, 10, now), vec![(t(400), -60), (t(700), -70)]);
    assert_eq!(windowed(&data, 0, now), data);
}

#[test]
fn zero_span_makes_one_bucket() {
    let data = vec![(t(100), -50), (t(100), -60), (t(100), -70)];
    assert_eq!(bucketize(&data, t(100), 20, false), vec![(0, -70)]);
    assert_eq!(bucketize(&data, t(100), 20, true), vec![(0, -60)]);
}

#[test]
fn single_sample_does_not_fail() {
    let data = vec![(t(100), -42)];
    assert_eq!(bucketize(&data, t(100), 10, true), vec![(0, -42)]);
    assert_eq!(bucketize(&data, t(160), 10, false), vec![(0, -42)]);
    assert_eq!(bucketize(&vec![], t(160), 10, false), vec![]);
    assert_eq!(bucketize(&data, t(160), 0, false), vec![]);
}

#[test]
fn buckets_spread_over_columns() {
    let data = vec![(t(0), -50), (t(5), -52), (t(50), -60), (t(100), -70)];
    assert_eq!(bucketize(&data, t(100), 11, false), vec![(0, -52), (5, -60), (10, -70)]);
    assert_eq!(bucketize(&data, t(100), 11, true), vec![(0, -51), (5, -60), (10, -70)]);
}

fn session() -> Session {
    let ap = |b: &str, s: i32| AccessPoint { bssid: b.to_string(), ssid: "n".to_string(), signal_dbm: s, channel: 1, frequency_mhz: 2412 };
    Session {
        version: "1.0".to_string(),
        adapter: Adapter { interface: "wlan0".to_string(), driver: "d".to_string(), chipset: "c".to_string(), label: None },
        started_at: t(0),
        duration_target_secs: None,
        scans: vec![
            ScanResult { timestamp: t(10), access_points: vec![ap("A", -50), ap("B", -60)] },
            ScanResult { timestamp: t(20), access_points: vec![ap("A", -55)] },
        ],
    }
}

#[test]
fn history_of_selected_ap() {
    let s = session();
    assert_eq!(history_of(&s, &"A".to_string()), vec![(t(10), -50), (t(20), -55)]);
    let mut h = HistoryState::default();
    assert!(h.get_ap_data().is_empty());
    h.session = Some(s);
    assert_eq!(h.get_ap_data(), vec![(t(10), -50), (t(20), -55)]);
    h.select_next_ap();
    assert_eq!(h.get_selected_ap(), Some(("B".to_string(), "n".to_string())));
    assert_eq!(h.get_ap_data(), vec![(t(10), -60)]);
    h.select_next_ap();
    assert_eq!(h.selected_ap_idx, 1);
    h.select_prev_ap();
    assert_eq!(h.selected_ap_idx, 0);
}

#[test]
fn time_window_cycle() {
    let mut h = HistoryState::default();
    assert_eq!(h.time_window_mins, 5);
    h.cycle_time_window();
    assert_eq!(h.time_window_mins, 10);
    h.cycle_time_window();
    assert_eq!(h.time_window_mins, 30);
    h.cycle_time_window();
    assert_eq!(h.time_window_mins, 0);
    h.cycle_time_window();
    assert_eq!(h.time_window_mins, 5);
    h.toggle_average();
    assert!(h.show_average);
}
