use wificomp::listing::filtered_sorted;
use wificomp::models::{AccessPoint, FrequencyFilter, SortBy};
use wificomp::store::{AdapterDirInfo, SessionInfo};
use wificomp::ui::{ApListState, ComparisonBar, Dialog, FilePicker, FilePickerState, InputPopup, LiveScreen, LiveState, SignalBar};

fn ap(bssid: &str, freq: u32) -> AccessPoint {
    AccessPoint { bssid: bssid.to_string(), ssid: "s".to_string(), signal_dbm: -50, channel: 1, frequency_mhz: freq }
}

#[test]
fn live_selection_skips_hidden() {
    let mut l = LiveState::default();
    l.access_points = vec![ap("A", 2412), ap("B", 5180), ap("C", 2437)];
    l.exclude_session("A");
    assert_eq!(l.get_selected_ap().unwrap().bssid, "B");
    l.cycle_filter();
    assert_eq!(l.frequency_filter, FrequencyFilter::TwoPointFourGHz);
    assert_eq!(l.get_selected_ap().unwrap().bssid, "C");
    l.ap_list_state.selected = 1;
    assert!(l.get_selected_ap().is_none());
    l.cycle_sort();
    assert_eq!(l.sort_by, SortBy::Ssid);
    l.toggle_auto_scan();
    assert!(!l.auto_scan);
    l.toggle_channel();
    l.toggle_band();
    l.toggle_highlight();
    assert!(!l.show_channel && !l.show_band && !l.highlight_best);
    l.elapsed_secs = 350;
    assert_eq!(l.timer_remaining(), Some(0));
    assert!(l.timer_expired());
    let _ = LiveScreen::new(&l);
}

#[test]
fn list_cursor() {
    let mut s = ApListState::default();
    s.select_next(3);
    s.select_next(3);
    s.select_next(3);
    assert_eq!(s.selected, 2);
    s.ensure_visible(2);
    assert_eq!(s.offset, 1);
    s.select_prev();
    s.select_prev();
    s.ensure_visible(2);
    assert_eq!(s.offset, 0);
}

#[test]
fn file_picker_levels() {
    let mut f = FilePickerState::default();
    let dirs = vec![AdapterDirInfo { path: "/d/Intel".to_string(), name: "Intel".to_string(), session_count: 2 }];
    f.set_adapters(dirs.clone());
    assert!(f.is_at_adapters());
    assert_eq!(f.files().len(), 1);
    let d = f.get_selected_adapter().unwrap().clone();
    let info = SessionInfo {
        path: "/d/Intel/a.json".to_string(),
        adapter_name: "Intel".to_string(),
        interface: "wlan0".to_string(),
        chipset: "Intel".to_string(),
        label: None,
        started_at: "01-02 03:04".to_string(),
        scan_count: 4,
    };
    f.enter_adapter(&d, vec![info]);
    assert!(f.is_at_sessions());
    assert_eq!(f.current_dir_name(), Some("Intel"));
    assert_eq!(f.items, vec!["01-02 03:04 - 4 scans".to_string()]);
    assert_eq!(f.get_selected_session().unwrap().scan_count, 4);
    assert!(f.get_selected_adapter().is_none());
    f.select_next();
    f.select_prev();
    assert_eq!(f.selected, 0);
    f.go_back(dirs);
    assert!(f.is_at_adapters());
    assert_eq!(f.current_dir_name(), None);
    let p = FilePicker::new("Open", &f);
    assert_eq!(p.title, "Open");
}

#[test]
fn widgets_builders() {
    let opts = ["Yes", "No"];
    let d = Dialog::new("Quit", "Sure?", &opts).selected(1);
    assert_eq!(d.selected, 1);
    let i = InputPopup::new("Rename", "Name:", "abc");
    assert_eq!(i.cursor_pos, 3);
    assert_eq!(i.cursor_pos(1).cursor_pos, 1);
    let b = SignalBar::new(-40).show_value(false).highlighted(true);
    assert!(!b.show_value && b.highlighted);
    let c = ComparisonBar::new(vec![("a very long adapter name indeed".to_string(), Some(-40)), ("x".to_string(), None)]);
    assert_eq!(c.max_name_width, 20);
    assert_eq!(ComparisonBar::new(vec![]).max_name_width, 10);
    assert_eq!(ComparisonBar::new(vec![("abc".to_string(), None)]).max_name_width, 3);
    assert_eq!(ComparisonBar::new(vec![("\u{e9}".to_string(), Some(-50))]).max_name_width, 2);
}

fn named(bssid: &str, ssid: &str, signal: i32, channel: u32, freq: u32) -> AccessPoint {
    AccessPoint { bssid: bssid.to_string(), ssid: ssid.to_string(), signal_dbm: signal, channel, frequency_mhz: freq }
}

#[test]
fn list_order_by_each_key() {
    let items = vec![
        named("1", "beta", -60, 11, 2462),
        named("2", "Alpha", -40, 36, 5180),
        named("3", "alpha", -60, 1, 2412),
        named("4", "gamma", -50, 6, 2437),
    ];
    let none: Vec<String> = vec![];
    assert_eq!(filtered_sorted(&items, FrequencyFilter::All, &none, SortBy::Signal), vec![1, 3, 0, 2]);
    assert_eq!(filtered_sorted(&items, FrequencyFilter::All, &none, SortBy::Ssid), vec![1, 2, 0, 3]);
    assert_eq!(filtered_sorted(&items, FrequencyFilter::All, &none, SortBy::Channel), vec![2, 3, 0, 1]);
    let hidden = vec!["4".to_string()];
    assert_eq!(filtered_sorted(&items, FrequencyFilter::TwoPointFourGHz, &hidden, SortBy::Signal), vec![0, 2]);
    assert_eq!(filtered_sorted(&items, FrequencyFilter::SixGHz, &none, SortBy::Signal), Vec::<usize>::new());
}

#[test]
fn ssid_order_ignores_case() {
    let items = vec![named("1", "beta", -60, 1, 2412), named("2", "Gamma", -60, 1, 2412), named("3", "Alpha", -60, 1, 2412)];
    let none: Vec<String> = vec![];
    assert_eq!(filtered_sorted(&items, FrequencyFilter::All, &none, SortBy::Ssid), vec![2, 0, 1]);
}
