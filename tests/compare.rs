use wificomp::compare::CompareState;
use wificomp::models::{AccessPoint, Adapter, CompareMetric, MatchBy, ScanResult, Session};
use wificomp::time::Timestamp;

fn ap(bssid: &str, ssid: &str, signal: i32) -> AccessPoint {
    AccessPoint { bssid: bssid.to_string(), ssid: ssid.to_string(), signal_dbm: signal, channel: 1, frequency_mhz: 2412 }
}

fn session(iface: &str, label: Option<&str>, scans: Vec<Vec<AccessPoint>>) -> Session {
    Session {
        version: "1.0".to_string(),
        adapter: Adapter {
            interface: iface.to_string(),
            driver: "d".to_string(),
            chipset: "c".to_string(),
            label: label.map(|s| s.to_string()),
        },
        started_at: Timestamp { secs: 0, nanos: 0 },
        duration_target_secs: None,
        scans: scans.into_iter().map(|a| ScanResult { timestamp: Timestamp { secs: 1, nanos: 0 }, access_points: a }).collect(),
    }
}

fn state() -> CompareState {
    let mut c = CompareState::default();
    c.add_session(session("wlan0", Some("Laptop"), vec![vec![ap("A", "home", -50), ap("B", "cafe", -70)], vec![ap("A", "home", -61)]]));
    c.add_session(session("wlan1", None, vec![vec![ap("A", "home", -45), ap("C", "home", -80)]]));
    c
}

#[test]
fn absent_identity_gives_none_not_zero() {
    let c = state();
    let row = c.comparison_row(&"B".to_string(), &"cafe".to_string());
    assert_eq!(row, vec![("Laptop".to_string(), Some(-70)), ("wlan1".to_string(), None)]);
}

#[test]
fn comparison_metrics() {
    let mut c = state();
    let a = ("A".to_string(), "home".to_string());
    assert_eq!(c.comparison_row(&a.0, &a.1), vec![("Laptop".to_string(), Some(-55)), ("wlan1".to_string(), Some(-45))]);
    c.cycle_metric();
    assert_eq!(c.metric, CompareMetric::Min);
    assert_eq!(c.comparison_row(&a.0, &a.1)[0].1, Some(-61));
    c.cycle_metric();
    assert_eq!(c.comparison_row(&a.0, &a.1)[0].1, Some(-50));
    c.cycle_metric();
    c.cycle_match();
    assert_eq!(c.match_by, MatchBy::Ssid);
    assert_eq!(c.comparison_row(&a.0, &a.1)[1].1, Some(-62));
}

#[test]
fn identities_by_rule() {
    let mut c = state();
    assert_eq!(c.all_aps().len(), 3);
    c.match_by = MatchBy::Ssid;
    let ids = c.all_aps();
    assert_eq!(ids, vec![("A".to_string(), "home".to_string()), ("B".to_string(), "cafe".to_string())]);
    c.match_by = MatchBy::Both;
    assert_eq!(c.all_aps().len(), 3);
}

#[test]
fn selected_identity_and_data() {
    let mut c = state();
    assert_eq!(c.get_selected_ap(), Some(("A".to_string(), "home".to_string())));
    c.select_next_ap();
    c.select_next_ap();
    c.select_next_ap();
    assert_eq!(c.selected_ap_idx, 2);
    assert_eq!(c.get_comparison_data(), vec![("Laptop".to_string(), None), ("wlan1".to_string(), Some(-80))]);
    c.select_prev_ap();
    assert_eq!(c.selected_ap_idx, 1);
}

#[test]
fn best_adapter_tally() {
    let c = state();
    assert_eq!(c.best_adapter(), Some("wlan1 (2/3 APs)".to_string()));
    let mut d = CompareState::default();
    assert_eq!(d.best_adapter(), None);
    d.add_session(session("wlan0", None, vec![vec![ap("A", "x", -50)]]));
    d.add_session(session("wlan1", None, vec![vec![ap("B", "y", -50)]]));
    assert_eq!(d.best_adapter(), Some("wlan0 (1/2 APs)".to_string()));
    assert_eq!(d.best_adapter_stats(), Some(("wlan0".to_string(), 1, 2)));
}

#[test]
fn session_cursor() {
    let mut c = state();
    c.select_next_session();
    c.select_next_session();
    assert_eq!(c.selected_session_idx, 1);
    c.ensure_session_visible(1);
    assert_eq!(c.session_list_offset, 1);
    c.remove_selected_session();
    assert_eq!(c.sessions.len(), 1);
    assert_eq!(c.selected_session_idx, 0);
    c.select_prev_session();
    assert_eq!(c.selected_session_idx, 0);
}

#[test]
fn weakest_possible_reading_still_wins() {
    let mut c = CompareState::default();
    c.add_session(session("wlan0", None, vec![vec![ap("A", "x", i32::MIN)]]));
    assert_eq!(c.best_adapter(), Some("wlan0 (1/1 APs)".to_string()));
}
