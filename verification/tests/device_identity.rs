use lianli_devices::serial::{device_identity, parse_sysfs_u8, parse_u8_bytes, positional_serial, sysfs_serial, SysfsDevice};

fn dev(bus: &str, devnum: &str, serial: Option<&str>) -> SysfsDevice {
    SysfsDevice {
        busnum: Some(bus.to_string()),
        devnum: Some(devnum.to_string()),
        serial: serial.map(|s| s.to_string()),
    }
}

#[test]
fn u8_parsing_follows_from_str() {
    for text in ["0", "7", "255", "+5", "007", "256", "", "+", "-", "-1", "1a", "++1", " 1", "1000"] {
        assert_eq!(parse_u8_bytes(text.as_bytes()), text.parse::<u8>().ok(), "{text:?}");
    }
}

#[test]
fn sysfs_numbers_are_trimmed() {
    assert_eq!(parse_sysfs_u8("1\n"), Some(1));
    assert_eq!(parse_sysfs_u8("  12 \n"), Some(12));
    assert_eq!(parse_sysfs_u8("x\n"), None);
}

#[test]
fn sysfs_serial_matches_bus_and_address() {
    let entries = vec![
        dev("2\n", "3\n", Some("other\n")),
        dev("1\n", "3\n", Some("wrong-dev\n")),
        dev("1\n", "12\n", Some("660b8008768a8302w\n")),
    ];
    assert_eq!(sysfs_serial(&entries, 1, 12), Some("660b8008768a8302w".to_string()));
    assert_eq!(sysfs_serial(&entries, 3, 3), None);
}

#[test]
fn blank_serial_keeps_searching_missing_serial_stops() {
    let entries = vec![dev("1\n", "12\n", Some("  \n")), dev("1\n", "12\n", Some("abc\n"))];
    assert_eq!(sysfs_serial(&entries, 1, 12), Some("abc".to_string()));
    let entries = vec![dev("1\n", "12\n", None), dev("1\n", "12\n", Some("abc\n"))];
    assert_eq!(sysfs_serial(&entries, 1, 12), None);
    let unreadable = SysfsDevice { busnum: None, devnum: Some("12".to_string()), serial: Some("zzz".to_string()) };
    assert_eq!(sysfs_serial(&vec![unreadable, dev("1", "12", Some("abc"))], 1, 12), Some("abc".to_string()));
}

#[test]
fn positional_serial_names_bus_and_address() {
    assert_eq!(positional_serial(1, 12), "bus1-addr12");
    assert_eq!(positional_serial(0, 255), "bus0-addr255");
    assert_eq!(positional_serial(100, 9), "bus100-addr9");
}

#[test]
fn sysfs_trim_matches_std_white_space() {
    for text in ["\u{3000}7\u{85}", "\u{a0}\t9\r\n", "\u{2009}42\u{202f}", "\u{200b}1"] {
        assert_eq!(parse_sysfs_u8(text), text.trim().parse::<u8>().ok(), "{text:?}");
    }
    assert_eq!(parse_sysfs_u8("\u{2009}42\u{202f}"), Some(42));
    assert_eq!(parse_sysfs_u8("\u{200b}1"), None);
}

#[test]
fn identity_prefers_cached_then_live_then_position() {
    assert_eq!(device_identity(Some("k".to_string()), Some("l".to_string()), 1, 2), "k");
    assert_eq!(device_identity(None, Some("l".to_string()), 1, 2), "l");
    assert_eq!(device_identity(None, None, 1, 2), "bus1-addr2");
}
