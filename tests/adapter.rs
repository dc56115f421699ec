use wificomp::adapter::{adapter_info, chipset_for_driver, chipset_from_udevadm, driver_from_uevent, parse_iw_dev};

#[test]
fn test_parse_iw_dev() {
    let output = "phy#0
\tInterface wlan0
\t\tifindex 3
\t\twdev 0x1
\t\taddr aa:bb:cc:dd:ee:ff
\t\ttype managed
\t\tchannel 36 (5180 MHz), width: 80 MHz, center1: 5210 MHz
\t\ttxpower 22.00 dBm
";
    let adapters = parse_iw_dev(output).unwrap();
    assert_eq!(adapters.len(), 1);
    assert_eq!(adapters[0].interface, "wlan0");
}

#[test]
fn parse_iw_dev_needs_type_line() {
    let output = "phy#0\n\tInterface wlan0\n\t\tifindex 3\nphy#1\n\tInterface wlan1\n\t\ttype monitor\n";
    let adapters = parse_iw_dev(output).unwrap();
    assert_eq!(adapters.len(), 1);
    assert_eq!(adapters[0].interface, "wlan1");
    assert_eq!(adapters[0].driver, "unknown");
    assert_eq!(adapters[0].chipset, "Unknown Adapter");
    assert!(adapters[0].label.is_none());
}

#[test]
fn chipset_from_driver_names() {
    assert_eq!(chipset_for_driver("iwlwifi"), "Intel WiFi");
    assert_eq!(chipset_for_driver("ath10k_pci"), "Atheros WiFi");
    assert_eq!(chipset_for_driver("rtw89_pci"), "Realtek WiFi");
    assert_eq!(chipset_for_driver("brcmfmac"), "Broadcom WiFi");
    assert_eq!(chipset_for_driver("mt7921e"), "MediaTek WiFi");
    assert_eq!(chipset_for_driver("foo"), "foo adapter");
}

#[test]
fn driver_and_model_lookups() {
    assert_eq!(driver_from_uevent(Some("DEVTYPE=wlan\nDRIVER=iwlwifi\nPCI_ID=1\n")), "iwlwifi");
    assert_eq!(driver_from_uevent(Some("DEVTYPE=wlan\n")), "unknown");
    assert_eq!(driver_from_uevent(None), "unknown");
    let udev = "E: ID_MODEL=Foo\nE: ID_MODEL_FROM_DATABASE=Wireless 8265 / 8275\n";
    assert_eq!(chipset_from_udevadm(udev).as_deref(), Some("Wireless 8265 / 8275"));
    assert_eq!(chipset_from_udevadm("E: ID_MODEL=Foo\n").as_deref(), Some("Foo"));
    assert_eq!(chipset_from_udevadm("E: X=1\n"), None);
    let (d, c) = adapter_info(Some("DRIVER=ath9k\n"), None);
    assert_eq!(d, "ath9k");
    assert_eq!(c, "Atheros WiFi");
    let (_, c) = adapter_info(Some("DRIVER=ath9k\n"), Some("E: ID_MODEL=Card\n"));
    assert_eq!(c, "Card");
}
