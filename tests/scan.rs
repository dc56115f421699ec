use wificomp::scan::{freq_to_channel, parse_scan_output, scan_failure_message, AccessPointBuilder};

#[test]
fn test_parse_scan_output() {
    let output = "BSS aa:bb:cc:dd:ee:ff(on wlan0)
\tlast seen: 1234.567s [boottime]
\tTSF: 1234567890 usec (0d, 00:20:34)
\tfreq: 5180.0
\tbeacon interval: 100 TUs
\tcapability: ESS Privacy ShortSlotTime RadioMeasure (0x1411)
\tsignal: -45.00 dBm
\tlast seen: 0 ms ago
\tSSID: MyNetwork
\tSupported rates: 6.0* 9.0 12.0* 18.0 24.0* 36.0 48.0 54.0
\tDS Parameter set: channel 36
BSS 11:22:33:44:55:66(on wlan0)
\tfreq: 2437.0
\tsignal: -67.00 dBm
\tSSID: OtherNetwork
\tDS Parameter set: channel 6
";
    let aps = parse_scan_output(output);
    assert_eq!(aps.len(), 2);
    assert_eq!(aps[0].bssid, "AA:BB:CC:DD:EE:FF");
    assert_eq!(aps[0].ssid, "MyNetwork");
    assert_eq!(aps[0].signal_dbm, -45);
    assert_eq!(aps[0].channel, 36);
    assert_eq!(aps[0].frequency_mhz, 5180);

    assert_eq!(aps[1].bssid, "11:22:33:44:55:66");
    assert_eq!(aps[1].ssid, "OtherNetwork");
    assert_eq!(aps[1].signal_dbm, -67);
    assert_eq!(aps[1].channel, 6);
}

#[test]
fn test_freq_to_channel() {
    assert_eq!(freq_to_channel(2412), 1);
    assert_eq!(freq_to_channel(2437), 6);
    assert_eq!(freq_to_channel(5180), 36);
    assert_eq!(freq_to_channel(5745), 149);
}

#[test]
fn freq_to_channel_fallback_formulas() {
    assert_eq!(freq_to_channel(2484), 14);
    assert_eq!(freq_to_channel(2447), 8);
    assert_eq!(freq_to_channel(2417 + 3), 2);
    assert_eq!(freq_to_channel(5170), 34);
    assert_eq!(freq_to_channel(5955), 1);
    assert_eq!(freq_to_channel(6035), 17);
    assert_eq!(freq_to_channel(100), 0);
}

#[test]
fn parse_drops_incomplete_blocks_and_derives_channel() {
    let output = "BSS 00:11:22:33:44:55
\tSSID: NoSignal
\tfreq: 2412
BSS de:ad:be:ef:00:01(on wlan0) -- associated
\tsignal: -70.5 dBm
\tfreq: 2462.0
\tunknown line: whatever
BSS 02:02:02:02:02:02
\tsignal: -50 dBm
\tfreq: 5200
\t* primary channel: 40
";
    let aps = parse_scan_output(output);
    assert_eq!(aps.len(), 2);
    assert_eq!(aps[0].bssid, "DE:AD:BE:EF:00:01");
    assert_eq!(aps[0].ssid, "");
    assert_eq!(aps[0].signal_dbm, -71);
    assert_eq!(aps[0].frequency_mhz, 2462);
    assert_eq!(aps[0].channel, 11);
    assert_eq!(aps[1].channel, 40);
    assert_eq!(aps[1].signal_dbm, -50);
}

#[test]
fn parse_one_reading_per_complete_block_in_order() {
    let mut text = String::new();
    for i in 0..5 {
        text.push_str(&format!("BSS 0{}:aa:aa:aa:aa:aa\n\tfreq: 2437\n\tsignal: -{}.4 dBm\n", i, 40 + i));
    }
    let aps = parse_scan_output(&text);
    assert_eq!(aps.len(), 5);
    for (i, ap) in aps.iter().enumerate() {
        assert_eq!(ap.bssid, format!("0{}:AA:AA:AA:AA:AA", i));
        assert_eq!(ap.signal_dbm, -40 - i as i32);
        assert_eq!(ap.channel, 6);
    }
}

#[test]
fn parse_empty_and_garbage() {
    assert_eq!(parse_scan_output("").len(), 0);
    assert_eq!(parse_scan_output("signal: -40 dBm\nfreq: 2412\n").len(), 0);
    let aps = parse_scan_output("BSS x\n\tfreq: abc\n\tsignal: -40 dBm\n");
    assert_eq!(aps.len(), 0);
}

#[test]
fn builder_needs_signal_and_frequency() {
    let b = AccessPointBuilder::new("AB".to_string());
    assert!(b.build().is_none());
    let mut b = AccessPointBuilder::new("AB".to_string());
    b.signal_dbm = Some(-60);
    b.frequency_mhz = Some(5745);
    let ap = b.build().unwrap();
    assert_eq!(ap.channel, 149);
    assert_eq!(ap.ssid, "");
}

#[test]
fn scan_failures_are_classified() {
    assert_eq!(
        scan_failure_message("command failed: Operation not permitted (-1)"),
        "Permission denied. Run with sudo or set CAP_NET_ADMIN capability."
    );
    assert_eq!(scan_failure_message("command failed: Device or resource busy (-16)"), "Device busy. Another scan may be in progress.");
    assert_eq!(scan_failure_message("boom"), "Scan failed: boom");
}
