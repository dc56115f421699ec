use wificomp::export::{comparison_csv, escape_csv, session_csv};
use wificomp::models::{AccessPoint, Adapter, Band, CompareMetric, ScanResult, Session};
use wificomp::store::{listed_adapter_dirs, newest_first, session_filename_at, session_listing, validate_session, AdapterDirInfo, SessionInfo};
use wificomp::time::Timestamp;

fn ap(bssid: &str, ssid: &str, signal: i32, freq: u32) -> AccessPoint {
    AccessPoint { bssid: bssid.to_string(), ssid: ssid.to_string(), signal_dbm: signal, channel: 6, frequency_mhz: freq }
}

fn adapter(label: Option<&str>, chipset: &str) -> Adapter {
    Adapter {
        interface: "wlan0".to_string(),
        driver: "iwlwifi".to_string(),
        chipset: chipset.to_string(),
        label: label.map(|l| l.to_string()),
    }
}

fn session(scans: Vec<Vec<AccessPoint>>) -> Session {
    Session {
        version: "1.0".to_string(),
        adapter: adapter(None, "Intel WiFi"),
        started_at: Timestamp { secs: 1_700_000_000, nanos: 0 },
        duration_target_secs: None,
        scans: scans
            .into_iter()
            .enumerate()
            .map(|(i, aps)| ScanResult { timestamp: Timestamp { secs: 1_700_000_000 + i as i64 * 5, nanos: 0 }, access_points: aps })
            .collect(),
    }
}

#[test]
fn validate_empty_session_is_invalid() {
    let v = validate_session(&session(vec![]));
    assert!(!v.is_valid);
    assert!(!v.has_scans);
    assert_eq!(v.scan_count, 0);
    assert_eq!(v.warnings, vec!["Session has no scan data".to_string()]);
}

#[test]
fn validate_all_scans_empty_is_invalid() {
    let v = validate_session(&session(vec![vec![], vec![]]));
    assert!(!v.is_valid);
    assert!(v.has_scans);
    assert_eq!(v.ap_count, 0);
    assert_eq!(v.warnings, vec!["All scans are empty (no APs detected)".to_string()]);
}

#[test]
fn validate_session_with_readings_is_valid() {
    let mut s = session(vec![vec![], vec![ap("A", "x", -50, 2412), ap("B", "y", -60, 2412)], vec![ap("A", "x", -55, 2412)]]);
    s.adapter.interface = String::new();
    let v = validate_session(&s);
    assert!(v.is_valid);
    assert_eq!(v.scan_count, 3);
    assert_eq!(v.ap_count, 2);
    assert_eq!(v.warnings, vec!["Session has no adapter interface".to_string()]);
}

#[test]
fn unique_aps_and_stats() {
    let s = session(vec![vec![ap("A", "x", -50, 2412), ap("B", "y", -61, 2412)], vec![ap("A", "x", -55, 2412), ap("A", "z", -41, 2412)]]);
    let u = s.unique_aps();
    assert_eq!(u, vec![("A".to_string(), "x".to_string()), ("B".to_string(), "y".to_string()), ("A".to_string(), "z".to_string())]);
    let st = s.ap_stats("A").unwrap();
    assert_eq!(st.count, 3);
    assert_eq!(st.min, -55);
    assert_eq!(st.max, -41);
    assert_eq!(st.avg, -49);
    assert_eq!(st.get(CompareMetric::Max), -41);
    assert!(s.ap_stats("C").is_none());
    let st = session(vec![vec![ap("A", "x", -50, 2412), ap("A", "x", -51, 2412)]]).ap_stats("A").unwrap();
    assert_eq!(st.avg, -51);
}

#[test]
fn adapter_names() {
    let a = adapter(Some("Desk"), "Intel WiFi");
    assert_eq!(a.display_name(), "Desk");
    assert_eq!(a.display_name_full(), "\"Desk\" (wlan0)");
    let b = adapter(None, "unknown");
    assert_eq!(b.display_name(), "wlan0");
    let c = adapter(None, "Intel WiFi 6/AX");
    assert_eq!(c.display_name_full(), "Intel WiFi 6/AX (wlan0)");
    assert_eq!(c.safe_name(), "Intel_WiFi_6_AX");
}

#[test]
fn band_and_percent() {
    assert_eq!(Band::from_frequency(2412), Band::TwoPointFourGHz);
    assert_eq!(Band::from_frequency(5899), Band::FiveGHz);
    assert_eq!(Band::from_frequency(5955), Band::SixGHz);
    assert_eq!(ap("A", "x", -30, 2412).signal_percent(), 100);
    assert_eq!(ap("A", "x", -65, 2412).signal_percent(), 50);
    assert_eq!(ap("A", "x", -120, 2412).signal_percent(), 0);
}

#[test]
fn csv_escaping() {
    assert_eq!(escape_csv("plain"), "plain");
    assert_eq!(escape_csv("a,b"), "\"a,b\"");
    assert_eq!(escape_csv("say \"hi\""), "\"say \"\"hi\"\"\"");
    assert_eq!(escape_csv("two\nlines"), "\"two\nlines\"");
}

#[test]
fn session_csv_rows() {
    let s = session(vec![vec![ap("A", "my,net", -50, 5180)]]);
    let csv = session_csv(&s);
    assert_eq!(
        csv,
        "timestamp,bssid,ssid,signal_dbm,channel,frequency_mhz,band\n2023-11-14 22:13:20,A,\"my,net\",-50,6,5180,5G\n"
    );
}

#[test]
fn comparison_csv_rows() {
    let s1 = session(vec![vec![ap("A", "x", -50, 2412)], vec![ap("A", "x", -60, 2412)]]);
    let mut s2 = session(vec![vec![ap("B", "y", -50, 2412)]]);
    s2.adapter.label = Some("USB".to_string());
    let csv = comparison_csv(&vec![s1, s2], "A");
    assert_eq!(
        csv,
        "adapter,interface,label,avg_signal,min_signal,max_signal,scan_count\nIntel WiFi,wlan0,,-55,-60,-50,2\nIntel WiFi,wlan0,USB,N/A,N/A,N/A,0\n"
    );
}

#[test]
fn listing_entries() {
    let s = session(vec![vec![ap("A", "x", -50, 2412)]]);
    let info = SessionInfo::from_session("/tmp/x.json".to_string(), s);
    assert_eq!(info.started_at, "11-14 22:13");
    assert_eq!(info.display_string(), "11-14 22:13 - 1 scans");
    assert_eq!(info.display_string_full(), "Intel WiFi (11-14 22:13) - 1 scans");
    let d = AdapterDirInfo { path: "/tmp".to_string(), name: "Intel".to_string(), session_count: 3 };
    assert_eq!(d.display_string(), "\u{1F4C1} Intel (3 sessions)");
    assert_eq!(session_filename_at(Timestamp { secs: 1_700_000_000, nanos: 123_000_000 }), "20231114_221320_123.json");
}

#[test]
fn adapter_dirs_listed_by_folded_name() {
    let d = |n: &str, c: usize| AdapterDirInfo { path: format!("/s/{}", n), name: n.to_string(), session_count: c };
    let listed = listed_adapter_dirs(vec![d("beta", 1), d("Empty", 0), d("Gamma", 2), d("alpha", 3)]);
    let names: Vec<&str> = listed.iter().map(|a| a.name.as_str()).collect();
    assert_eq!(names, vec!["alpha", "beta", "Gamma"]);
}

#[test]
fn session_files_newest_first_and_unreadable_skipped() {
    let entries = vec![("a".to_string(), Some(5u128)), ("b".to_string(), None), ("c".to_string(), Some(9)), ("d".to_string(), Some(5))];
    assert_eq!(newest_first(&entries), vec!["c".to_string(), "a".to_string(), "d".to_string(), "b".to_string()]);
    let loaded = vec![("x.json".to_string(), None), ("y.json".to_string(), Some(session(vec![vec![ap("A", "x", -50, 2412)]])))];
    let infos = session_listing(&loaded);
    assert_eq!(infos.len(), 1);
    assert_eq!(infos[0].path, "y.json");
    assert_eq!(infos[0].scan_count, 1);
}
