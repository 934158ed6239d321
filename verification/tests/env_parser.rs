use ssh_stamp::hal::Parity;
use ssh_stamp::handle::env_parser::{
    env_sanitize, parse_mac_address, parse_pubkey, parse_uart_baud, parse_uart_data_bits,
    parse_uart_parity, parse_uart_stop_bits, parse_wifi_ap_ssid, parse_wifi_band, parse_wifi_psk,
    parse_wifi_station_ssid,
};

#[test]
fn sanitizing() {
    assert!(env_sanitize("abc"));
    assert!(env_sanitize("!~"));
    assert!(!env_sanitize(""));
    assert!(!env_sanitize("a b"));
    assert!(!env_sanitize("a\n"));
    assert!(!env_sanitize("\u{7f}"));
    assert!(!env_sanitize("h\u{e9}"));
}

#[test]
fn public_key_line() {
    assert_eq!(parse_pubkey("  ssh-ed25519 AAAA me \n"), Some("ssh-ed25519 AAAA me"));
    assert_eq!(parse_pubkey("\u{3000}k\u{a0}"), Some("k"));
    assert_eq!(parse_pubkey("   "), None);
    assert_eq!(parse_pubkey(""), None);
    assert_eq!(parse_pubkey("a\tb"), None);
    assert_eq!(parse_pubkey("k\u{e9}y"), None);
    let line = "a".repeat(256);
    assert_eq!(parse_pubkey(&line), Some(line.as_str()));
    assert_eq!(parse_pubkey(&"a".repeat(257)), None);
}

#[test]
fn access_point_name() {
    assert_eq!(parse_wifi_ap_ssid("my-net").unwrap().as_str(), "my-net");
    assert_eq!(parse_wifi_ap_ssid(&"a".repeat(32)).unwrap().len(), 32);
    assert!(parse_wifi_ap_ssid(&"a".repeat(33)).is_none());
    assert!(parse_wifi_ap_ssid("").is_none());
    assert!(parse_wifi_ap_ssid("my net").is_none());
}

#[test]
fn station_name() {
    assert_eq!(parse_wifi_station_ssid("").unwrap().as_str(), "");
    assert_eq!(parse_wifi_station_ssid("up").unwrap().as_str(), "up");
    assert!(parse_wifi_station_ssid(" ").is_none());
    assert!(parse_wifi_station_ssid(&"a".repeat(33)).is_none());
}

#[test]
fn passphrase() {
    assert!(parse_wifi_psk("1234567").is_none());
    assert_eq!(parse_wifi_psk("12345678").unwrap().as_str(), "12345678");
    assert_eq!(parse_wifi_psk(&"p".repeat(63)).unwrap().len(), 63);
    assert!(parse_wifi_psk(&"p".repeat(64)).is_none());
    assert!(parse_wifi_psk("with a space").is_none());
}

#[test]
fn mac_address() {
    assert_eq!(
        parse_mac_address("12:34:56:78:9a:BC"),
        Some([0x12, 0x34, 0x56, 0x78, 0x9a, 0xbc])
    );
    assert_eq!(parse_mac_address("12:34:56:78:9a:B"), None);
    assert_eq!(parse_mac_address("12:34:56:78:9a:BCD"), None);
    assert_eq!(parse_mac_address("12-34-56-78-9a-BC"), None);
    assert_eq!(parse_mac_address("12:34:56:78:9a:GC"), None);
    assert_eq!(parse_mac_address("+1:34:56:78:9a:BC"), None);
    assert_eq!(parse_mac_address("12:34:56:78:9a:\u{e9}"), None);
    assert_eq!(parse_mac_address(""), None);
    // Parts that are no octet are passed over, and so are leading zeros.
    assert_eq!(
        parse_mac_address("0aa:b:cc:dd:ee:ff"),
        Some([0xaa, 0x0b, 0xcc, 0xdd, 0xee, 0xff])
    );
    assert_eq!(parse_mac_address("1:2:3:4:5:0000006"), Some([1, 2, 3, 4, 5, 6]));
    assert_eq!(parse_mac_address("::1:2:3:4:5:00006"), Some([1, 2, 3, 4, 5, 6]));
    assert_eq!(parse_mac_address("1ff:1:2:3:4:5:006"), Some([1, 2, 3, 4, 5, 6]));
    // Too many octets, and too few.
    assert_eq!(parse_mac_address("1:2:3:4:5:6:7:8:9"), None);
    assert_eq!(parse_mac_address("100:34:56:78:9a:B"), None);
    assert_eq!(parse_mac_address("12:34:56:78:9a0BC"), None);
    assert_eq!(parse_mac_address("12:34:56:78:9a:B:"), Some([0x12, 0x34, 0x56, 0x78, 0x9a, 0xb]));
}

#[test]
fn mac_address_that_is_written_out() {
    for mac in [[0u8; 6], [0xff; 6], [0, 9, 10, 15, 16, 0xa0]] {
        let t = format!(
            "{:02X}:{:02X}:{:02X}:{:02X}:{:02X}:{:02X}",
            mac[0], mac[1], mac[2], mac[3], mac[4], mac[5]
        );
        assert_eq!(parse_mac_address(&t), Some(mac));
        assert_eq!(parse_mac_address(&t.to_lowercase()), Some(mac));
    }
}

#[test]
fn band() {
    assert_eq!(parse_wifi_band("2.4g"), Some(0));
    assert_eq!(parse_wifi_band("2.4G"), Some(0));
    assert_eq!(parse_wifi_band("5G"), Some(1));
    assert_eq!(parse_wifi_band("Auto"), Some(2));
    assert_eq!(parse_wifi_band("6g"), None);
    assert_eq!(parse_wifi_band(""), None);
}

#[test]
fn baud() {
    assert_eq!(parse_uart_baud("115200"), Some(115200));
    assert_eq!(parse_uart_baud(" +9600\n"), Some(9600));
    assert_eq!(parse_uart_baud("300"), Some(300));
    assert_eq!(parse_uart_baud("299"), None);
    assert_eq!(parse_uart_baud("5000000"), Some(5_000_000));
    assert_eq!(parse_uart_baud("5000001"), None);
    assert_eq!(parse_uart_baud("0000000000009600"), Some(9600));
    assert_eq!(parse_uart_baud("4294967296"), None);
    assert_eq!(parse_uart_baud("4294976896"), None);
    assert_eq!(parse_uart_baud("99999999999999999999"), None);
    assert_eq!(parse_uart_baud("-9600"), None);
    assert_eq!(parse_uart_baud("9600 8"), None);
    assert_eq!(parse_uart_baud("9600x"), None);
    assert_eq!(parse_uart_baud("+"), None);
    assert_eq!(parse_uart_baud(""), None);
    assert_eq!(parse_uart_baud("\u{663}00"), None);
}

#[test]
fn data_bits() {
    for (value, bits) in [("5", 5), ("6", 6), ("7", 7), (" 8 ", 8)] {
        assert_eq!(parse_uart_data_bits(value), Some(bits));
    }
    assert_eq!(parse_uart_data_bits("4"), None);
    assert_eq!(parse_uart_data_bits("9"), None);
    assert_eq!(parse_uart_data_bits("264"), None);
    assert_eq!(parse_uart_data_bits("eight"), None);
}

#[test]
fn parity() {
    assert_eq!(parse_uart_parity("none"), Some(Parity::NoParity));
    assert_eq!(parse_uart_parity(" even "), Some(Parity::Even));
    assert_eq!(parse_uart_parity("odd\n"), Some(Parity::Odd));
    assert_eq!(parse_uart_parity("mark"), None);
    assert_eq!(parse_uart_parity(""), None);
}

#[test]
fn stop_bits() {
    assert_eq!(parse_uart_stop_bits("1"), Some(1));
    assert_eq!(parse_uart_stop_bits("2"), Some(2));
    assert_eq!(parse_uart_stop_bits("0"), None);
    assert_eq!(parse_uart_stop_bits("3"), None);
    assert_eq!(parse_uart_stop_bits("257"), None);
}
