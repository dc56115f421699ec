use wificomp::app::{App, Popup, ScanPoll, Screen};
use wificomp::config::{default_auto_scan_interval, default_time_window, default_timer, default_true, Config};
use wificomp::models::{AccessPoint, Adapter, ScanResult, Session};
use wificomp::time::Timestamp;

fn adapter() -> Adapter {
    Adapter { interface: "wlan0".to_string(), driver: "d".to_string(), chipset: "Chip".to_string(), label: None }
}

fn app() -> App {
    let mut a = App::new(Config::default());
    a.init(Ok(vec![adapter()]), 0);
    a
}

#[test]
fn second_scan_request_is_a_no_op() {
    let mut a = app();
    assert_eq!(a.perform_scan(), Some("wlan0".to_string()));
    assert!(a.live.scanning);
    assert_eq!(a.perform_scan(), None);
    assert!(a.live.scanning);
    assert_eq!(a.tick(100, ScanPoll::Pending), None);
    assert!(a.live.scanning);
}

#[test]
fn tick_applies_results_and_auto_scans() {
    let mut a = app();
    assert_eq!(a.tick(0, ScanPoll::NoWorker), Some("wlan0".to_string()));
    let scan = ScanResult {
        timestamp: Timestamp { secs: 5, nanos: 0 },
        access_points: vec![AccessPoint { bssid: "A".to_string(), ssid: "x".to_string(), signal_dbm: -40, channel: 1, frequency_mhz: 2412 }],
    };
    assert_eq!(a.tick(2, ScanPoll::Delivered(scan)), None);
    assert!(!a.live.scanning);
    assert!(a.session_modified);
    assert_eq!(a.current_session.as_ref().unwrap().scans.len(), 1);
    assert_eq!(a.live.access_points.len(), 1);
    assert_eq!(a.live.elapsed_secs, 2);
    assert_eq!(a.tick(6, ScanPoll::NoWorker), None);
    assert_eq!(a.tick(7, ScanPoll::NoWorker), Some("wlan0".to_string()));
    a.live.auto_scan = false;
    assert_eq!(a.tick(8, ScanPoll::Failed("Device busy".to_string())), None);
    assert_eq!(a.live.last_scan_error.as_deref(), Some("Device busy"));
    assert_eq!(a.perform_scan(), Some("wlan0".to_string()));
    assert_eq!(a.tick(9, ScanPoll::Crashed), None);
    assert_eq!(a.live.last_scan_error.as_deref(), Some("Scan thread crashed"));
}

#[test]
fn quit_needs_confirmation_with_unsaved_data() {
    let mut a = app();
    assert!(a.request_quit());
    a.perform_scan();
    assert!(!a.request_quit());
    assert_eq!(a.popup, Popup::ConfirmQuit { selected: 0 });
}

#[test]
fn rename_and_timer() {
    let mut a = app();
    a.apply_rename("Desk".to_string());
    assert_eq!(a.live.adapter.as_ref().unwrap().label.as_deref(), Some("Desk"));
    assert_eq!(a.current_session.as_ref().unwrap().adapter.label.as_deref(), Some("Desk"));
    a.apply_rename(String::new());
    assert!(a.live.adapter.as_ref().unwrap().label.is_none());
    a.apply_timer("10".to_string());
    assert_eq!(a.live.timer_target_secs, Some(600));
    assert_eq!(a.current_session.as_ref().unwrap().duration_target_secs, Some(600));
    a.apply_timer("abc".to_string());
    assert_eq!(a.live.timer_target_secs, Some(600));
    a.apply_timer("0".to_string());
    assert_eq!(a.live.timer_target_secs, None);
    assert_eq!(a.popup, Popup::Closed);
    a.show_timer_popup();
    assert_eq!(a.popup, Popup::TimerSetup { input: String::new(), cursor: 0 });
}

#[test]
fn init_failure_and_screens() {
    let mut a = App::new(Config::default());
    a.init(Err("no iw".to_string()), 0);
    assert_eq!(a.popup, Popup::Error { message: "Failed to detect adapters: no iw".to_string() });
    let mut b = app();
    b.switch_screen(Screen::History);
    assert_eq!(b.screen, Screen::History);
    assert!(b.history.session.is_some());
    assert_eq!(b.popup, Popup::Closed);
}

#[test]
fn exclusions() {
    let mut a = app();
    a.exclude_permanent("A", "x");
    assert!(a.is_permanently_excluded("A"));
    assert!(!a.is_permanently_excluded("B"));
    assert_eq!(a.live.session_excluded_bssids, vec!["A".to_string()]);
    a.exclude_session("A");
    assert_eq!(a.live.session_excluded_bssids.len(), 1);
}

#[test]
fn config_defaults() {
    assert_eq!(default_auto_scan_interval(), 5);
    assert_eq!(default_timer(), 300);
    assert!(default_true());
    assert_eq!(default_time_window(), 5);
    let a = app();
    let c = a.config_snapshot();
    assert_eq!(c.default_timer_secs, 300);
    assert_eq!(c.history_time_window_mins, 5);
}

#[test]
fn loading_routes_session_and_warns() {
    let mut a = app();
    a.switch_screen(Screen::Compare);
    let empty = Session {
        version: "1.0".to_string(),
        adapter: adapter(),
        started_at: Timestamp { secs: 0, nanos: 0 },
        duration_target_secs: None,
        scans: vec![],
    };
    a.load_session("/x.json".to_string(), empty);
    assert_eq!(a.compare.sessions.len(), 1);
    assert_eq!(a.compare.selected_session_idx, 0);
    assert_eq!(
        a.popup,
        Popup::SessionWarning { message: "Session loaded with warnings:\nSession has no scan data".to_string(), path: "/x.json".to_string() }
    );
}

#[test]
fn finished_scans_leave_flight() {
    let mut a = app();
    a.live.auto_scan = false;
    assert!(a.perform_scan().is_some());
    let scan = ScanResult { timestamp: Timestamp { secs: 1, nanos: 0 }, access_points: vec![] };
    assert_eq!(a.tick(1, ScanPoll::Delivered(scan)), None);
    assert!(!a.live.scanning);
    assert!(a.live.last_scan_error.is_none());
    assert!(a.perform_scan().is_some());
    assert_eq!(a.tick(2, ScanPoll::Failed("x".to_string())), None);
    assert!(!a.live.scanning);
    assert_eq!(a.current_session.as_ref().unwrap().scans.len(), 1);
    assert!(a.perform_scan().is_some());
    assert_eq!(a.tick(3, ScanPoll::Crashed), None);
    assert!(!a.live.scanning);
}

#[test]
fn delivery_does_not_restart_before_interval() {
    let mut a = app();
    assert_eq!(a.tick(10, ScanPoll::NoWorker), Some("wlan0".to_string()));
    assert_eq!(a.live.elapsed_secs, 10);
    let scan = ScanResult { timestamp: Timestamp { secs: 1, nanos: 0 }, access_points: vec![] };
    assert_eq!(a.tick(11, ScanPoll::Delivered(scan)), None);
    assert!(!a.live.scanning);
    assert_eq!(a.tick(15, ScanPoll::NoWorker), None);
    assert_eq!(a.tick(16, ScanPoll::NoWorker), Some("wlan0".to_string()));
}
