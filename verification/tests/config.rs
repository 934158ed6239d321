use ssh_stamp::config::{
    local_mac, random_mac, Ed25519PubKey, SSHStampConfig, SignKey, StaticConfigV4, StaticConfigV6,
    UartPins,
};
use ssh_stamp::errors::StampError;
use ssh_stamp::hal::{Parity, UartParams};
use ssh_stamp::outside::OpensshKey;
use ssh_stamp::wire::{Sink, Source, WireError};

const KEY_LINE: &str =
    "ssh-ed25519 AAAAC3NzaC1lZDI1NTE5AAAAIAABAgMEBQYHCAkKCwwNDg8QERITFBUWFxgZGhscHR4f";
const RSA_LINE: &str = "ssh-rsa AAAAB3NzaC1yc2EAAAADAQABAAAAQQDBBwcHBwcHBwcHBwcHBwcHBwcHBwcHBwcHBwcHBwcHBwcHBwcHBwcHBwcHBwcHBwcHBwcHBwcHBwcHBwcHBwcB";

fn ssid(t: &str) -> heapless::String<32> {
    heapless::String::try_from(t).unwrap()
}

fn psk(t: &str) -> heapless::String<63> {
    heapless::String::try_from(t).unwrap()
}

fn sample() -> SSHStampConfig {
    SSHStampConfig::with_generated(
        SignKey::Ed25519([7; 32]),
        ssid("net"),
        psk("password"),
        [1, 2, 3, 4, 5, 6],
        UartPins { rx: 10, tx: 11 },
    )
}

fn full() -> SSHStampConfig {
    let mut c = sample();
    c.pubkeys = [
        Some(Ed25519PubKey { key: [1; 32] }),
        None,
        Some(Ed25519PubKey { key: [3; 32] }),
    ];
    c.wifi_ap_band = 2;
    c.wifi_sta_ssid = ssid("upstream net");
    c.wifi_sta_pw = psk("another password");
    c.ipv4_static = StaticConfigV4::new(0xc0a8_0001, 24, Some(0xc0a8_00fe), Vec::new());
    c.uart_params = UartParams {
        baud: 9600,
        data_bits: 7,
        parity: Parity::Odd,
        stop_bits: 2,
    };
    c.first_login = false;
    c
}

fn encoded(c: &SSHStampConfig, ipv6: bool) -> Vec<u8> {
    let mut s = Sink::new();
    c.enc(ipv6, &mut s).unwrap();
    s.bytes()
}

fn text(t: &str) -> Vec<u8> {
    let mut v = (t.len() as u32).to_be_bytes().to_vec();
    v.extend_from_slice(t.as_bytes());
    v
}

#[test]
fn encoding_is_field_by_field() {
    let mut expected = vec![7; 32];
    expected.extend_from_slice(&[0, 0, 0]);
    expected.extend(text("net"));
    expected.extend(text("password"));
    expected.push(0);
    expected.extend(text(""));
    expected.extend(text(""));
    expected.extend_from_slice(&[1, 2, 3, 4, 5, 6]);
    expected.push(0);
    expected.extend_from_slice(&[10, 11]);
    expected.extend_from_slice(&115200u32.to_be_bytes());
    expected.extend_from_slice(&[8, 0, 1, 1]);
    assert_eq!(encoded(&sample(), false), expected);
    assert_eq!(expected.len(), 80);
}

#[test]
fn encoding_of_keys_and_addresses() {
    let e = encoded(&full(), false);
    assert_eq!(e[32..37], [1, 0, 0, 0, 32]);
    assert_eq!(e[37..69], [1; 32]);
    assert_eq!(e[69], 0);
    assert_eq!(e[70..75], [1, 0, 0, 0, 32]);
    let n = e.len();
    assert_eq!(e[n - 1], 0);
    assert_eq!(e[n - 10..n - 1], [10, 11, 0, 0, 0x25, 0x80, 7, 2, 2]);
    assert_eq!(
        e[n - 21..n - 10],
        [1, 0xc0, 0xa8, 0, 1, 24, 1, 0xc0, 0xa8, 0, 0xfe]
    );
}

#[test]
fn configuration_comes_back() {
    for c in [sample(), full()] {
        let mut e = encoded(&c, false);
        e.extend_from_slice(&[9, 9]);
        let mut s = Source::new(&e);
        let d = SSHStampConfig::dec(&mut s, false).unwrap();
        assert!(d == c);
        assert_eq!(s.remaining(), 2);
    }
}

#[test]
fn ipv6_address_comes_back() {
    let mut c = full();
    c.ipv6_static = StaticConfigV6::new([0x20; 16], 64, Some([0x21; 16]), vec![[1; 16]]);
    let e = encoded(&c, true);
    let d = SSHStampConfig::dec(&mut Source::new(&e), true).unwrap();
    assert!(d != c);
    c.ipv6_static = StaticConfigV6::new([0x20; 16], 64, Some([0x21; 16]), Vec::new());
    assert!(d == c);
}

#[test]
fn ipv6_address_is_left_out_without_ipv6() {
    let mut c = sample();
    c.ipv6_static = StaticConfigV6::new([0x20; 16], 64, None, Vec::new());
    let e = encoded(&c, false);
    assert_eq!(e.len(), 80);
    let d = SSHStampConfig::dec(&mut Source::new(&e), false).unwrap();
    assert!(d.ipv6_static.is_none());
}

#[test]
fn agent_key_has_no_encoding() {
    let mut c = sample();
    c.hostkey = SignKey::AgentEd25519([7; 32]);
    let mut s = Sink::new();
    s.push(&[5]);
    assert_eq!(c.enc(false, &mut s), Err(WireError::UnknownVariant));
    assert_eq!(s.bytes(), vec![5]);
}

fn dec_error(e: &[u8], ipv6: bool) -> WireError {
    match SSHStampConfig::dec(&mut Source::new(e), ipv6) {
        Ok(_) => panic!("decoded"),
        Err(e) => e,
    }
}

#[test]
fn decoding_errors() {
    let good = encoded(&full(), false);
    for n in 0..good.len() {
        assert_eq!(dec_error(&good[..n], false), WireError::RanOut);
    }

    // A key of another length.
    let mut e = good.clone();
    e[36] = 31;
    assert_eq!(dec_error(&e, false), WireError::SSHProto);

    // A prefix that is too long.
    let n = good.len();
    let mut e = good.clone();
    e[n - 16] = 33;
    assert_eq!(dec_error(&e, false), WireError::PacketWrong);
    e[n - 16] = 32;
    assert!(SSHStampConfig::dec(&mut Source::new(&e), false).is_ok());

    // Something that is not printable in a text.
    let sample = encoded(&sample(), false);
    let mut e = sample.clone();
    e[39] = 0x7f;
    assert_eq!(dec_error(&e, false), WireError::BadName);
    e[39] = 0xc3;
    assert_eq!(dec_error(&e, false), WireError::BadName);
    e[39] = b' ';
    assert!(SSHStampConfig::dec(&mut Source::new(&e), false).is_ok());
}

#[test]
fn text_that_is_too_long_is_refused() {
    let mut e = vec![7; 32];
    e.extend_from_slice(&[0, 0, 0]);
    e.extend(text(&"a".repeat(33)));
    assert_eq!(dec_error(&e, false), WireError::BadString);

    let mut e = vec![7; 32];
    e.extend_from_slice(&[0, 0, 0]);
    e.extend(text(&"a".repeat(32)));
    e.extend(text(&"b".repeat(64)));
    assert_eq!(dec_error(&e, false), WireError::BadString);
}

#[test]
fn ipv6_prefix_that_is_too_long_is_refused() {
    let mut c = sample();
    c.ipv6_static = StaticConfigV6::new([0x20; 16], 128, None, Vec::new());
    let mut e = encoded(&c, true);
    assert!(SSHStampConfig::dec(&mut Source::new(&e), true).is_ok_and(|d| d == c));
    let at = e.windows(16).position(|w| w == [0x20; 16]).unwrap() + 16;
    assert_eq!(e[at], 128);
    e[at] = 129;
    assert_eq!(dec_error(&e, true), WireError::PacketWrong);
}

#[test]
fn static_addresses_hold_what_they_are_made_of() {
    let v4 = StaticConfigV4::new(0xc0a8_0001, 32, Some(0xc0a8_00fe), vec![0x0808_0808]).unwrap();
    assert_eq!(v4.address(), 0xc0a8_0001);
    assert_eq!(v4.prefix_len(), 32);
    assert_eq!(v4.gateway(), Some(0xc0a8_00fe));
    assert_eq!(*v4.dns_servers(), vec![0x0808_0808]);
    assert!(StaticConfigV4::new(0xc0a8_0001, 33, None, Vec::new()).is_none());

    let v6 = StaticConfigV6::new([0x20; 16], 128, None, vec![[1; 16]]).unwrap();
    assert_eq!(*v6.address(), [0x20; 16]);
    assert_eq!(v6.prefix_len(), 128);
    assert_eq!(v6.gateway(), None);
    assert_eq!(*v6.dns_servers(), vec![[1; 16]]);
    assert!(StaticConfigV6::new([0x20; 16], 129, None, Vec::new()).is_none());
}

#[test]
fn unknown_parity_is_read_as_none() {
    let mut e = encoded(&sample(), false);
    let n = e.len();
    e[n - 3] = 9;
    let d = SSHStampConfig::dec(&mut Source::new(&e), false).unwrap();
    assert_eq!(d.uart_params.parity, Parity::NoParity);
}

#[test]
fn any_byte_but_zero_is_true() {
    let mut e = encoded(&sample(), false);
    let n = e.len();
    e[n - 1] = 0x80;
    let d = SSHStampConfig::dec(&mut Source::new(&e), false).unwrap();
    assert!(d.first_login);
    e[n - 1] = 0;
    let d = SSHStampConfig::dec(&mut Source::new(&e), false).unwrap();
    assert!(!d.first_login);
}

#[test]
fn new_configuration() {
    let c = SSHStampConfig::new([9, 8, 7, 6, 5, 4], UartPins { rx: 1, tx: 2 }).unwrap();
    assert!(matches!(c.hostkey, SignKey::Ed25519(_)));
    assert!(c.hostkey != SignKey::Ed25519([0; 32]));
    assert_eq!(c.pubkeys, [None, None, None]);
    assert_eq!(c.wifi_ap_ssid.len(), 16);
    assert!(c.wifi_ap_ssid.chars().all(|c| c.is_ascii_alphanumeric()));
    assert_eq!(c.wifi_ap_pw.len(), 24);
    assert!(c.wifi_ap_pw.chars().all(|c| c.is_ascii_alphanumeric()));
    assert_eq!(c.wifi_ap_band, 0);
    assert!(c.wifi_sta_ssid.is_empty());
    assert!(c.wifi_sta_pw.is_empty());
    assert_eq!(c.mac, [9, 8, 7, 6, 5, 4]);
    assert!(c.ipv4_static.is_none());
    assert!(c.ipv6_static.is_none());
    assert_eq!(c.uart_pins, UartPins { rx: 1, tx: 2 });
    assert_eq!(
        c.uart_params,
        UartParams {
            baud: 115200,
            data_bits: 8,
            parity: Parity::NoParity,
            stop_bits: 1
        }
    );
    assert!(c.first_login);

    let d = SSHStampConfig::new([9, 8, 7, 6, 5, 4], UartPins { rx: 1, tx: 2 }).unwrap();
    assert!(c.hostkey != d.hostkey);
    assert!(c.wifi_ap_pw != d.wifi_ap_pw);
}

#[test]
fn generated_host_key() {
    let a = SSHStampConfig::generate_hostkey().ok().unwrap();
    let b = SSHStampConfig::generate_hostkey().ok().unwrap();
    assert!(matches!(a, SignKey::Ed25519(_)));
    assert!(a != b);
}

#[test]
fn text_that_is_not_printable_does_not_come_back() {
    for t in ["h\u{e9}", "a\u{7f}", "\n"] {
        let mut c = sample();
        c.wifi_ap_ssid = ssid(t);
        assert_eq!(dec_error(&encoded(&c, false), false), WireError::BadName);
    }
}

#[test]
fn generated_texts_by_byte() {
    let mut rnd = [0u8; 16];
    rnd[1] = 25;
    rnd[2] = 26;
    rnd[3] = 51;
    rnd[4] = 52;
    rnd[5] = 61;
    rnd[6] = 62;
    rnd[7] = 255;
    let s = SSHStampConfig::wifi_ssid_from(&rnd);
    assert_eq!(s.as_str(), "AZaz09AHAAAAAAAA");

    let p = SSHStampConfig::wifi_password_from(&[63; 24]);
    assert_eq!(p.as_str(), "B".repeat(24));
}

#[test]
fn mac_address_resolution() {
    let mut c = sample();
    assert!(!c.is_mac_random());
    assert_eq!(c.resolve_mac(), Ok([1, 2, 3, 4, 5, 6]));
    c.mac = [0xff, 0xff, 0xff, 0xff, 0xff, 0xfe];
    assert!(!c.is_mac_random());
    c.mac = [0xff; 6];
    assert!(c.is_mac_random());
    let mac = c.resolve_mac().unwrap();
    assert_eq!(mac[0] & 3, 2);
    assert_ne!(mac, [0xff; 6]);
    assert_ne!(random_mac().unwrap(), [2, 0, 0, 0, 0, 0]);
}

#[test]
fn local_mac_sets_two_bits() {
    assert_eq!(local_mac([0xff; 6]), [0xfe, 0xff, 0xff, 0xff, 0xff, 0xff]);
    assert_eq!(local_mac([0x01, 2, 3, 4, 5, 6]), [0x02, 2, 3, 4, 5, 6]);
}

#[test]
fn openssh_key_is_added() {
    let mut c = sample();
    let mut key = [0u8; 32];
    for i in 0..32 {
        key[i] = i as u8;
    }
    assert_eq!(c.add_pubkey(&format!("  {KEY_LINE} someone@host\n")), Ok(()));
    assert_eq!(c.pubkeys, [Some(Ed25519PubKey { key }), None, None]);
}

#[test]
fn keys_fill_slots_and_then_replace_the_first() {
    let mut c = sample();
    for n in 1..=3u8 {
        assert_eq!(c.add_key(OpensshKey::Ed25519([n; 32])), Ok(()));
    }
    assert_eq!(
        c.pubkeys.map(|k| k.unwrap().key[0]),
        [1, 2, 3],
    );
    assert_eq!(c.add_key(OpensshKey::Ed25519([4; 32])), Ok(()));
    assert_eq!(c.pubkeys.map(|k| k.unwrap().key[0]), [4, 2, 3]);
    c.pubkeys[1] = None;
    assert_eq!(c.add_key(OpensshKey::Ed25519([5; 32])), Ok(()));
    assert_eq!(c.pubkeys.map(|k| k.unwrap().key[0]), [4, 5, 3]);
}

#[test]
fn other_keys_are_refused() {
    let mut c = sample();
    assert_eq!(c.add_pubkey(RSA_LINE), Err(StampError::BadKey));
    assert_eq!(c.add_key(OpensshKey::Other), Err(StampError::BadKey));
    assert_eq!(c.add_pubkey("ssh-ed25519 AAAA"), Err(StampError::KeyFormat));
    assert_eq!(c.add_pubkey(""), Err(StampError::KeyFormat));
    assert_eq!(c.pubkeys, [None, None, None]);
}

#[test]
fn error_messages() {
    assert_eq!(StampError::Rng.message(), "RNG failed");
    assert_eq!(StampError::BadHash.message(), "bad config hash");
    assert_eq!(
        StampError::TooLarge.message(),
        "encoded config too large for flash area"
    );
}

#[test]
fn largest_configuration() {
    let mut c = full();
    c.pubkeys = [Some(Ed25519PubKey { key: [1; 32] }); 3];
    c.wifi_ap_ssid = ssid(&"a".repeat(32));
    c.wifi_ap_pw = psk(&"b".repeat(63));
    c.wifi_sta_ssid = ssid(&"c".repeat(32));
    c.wifi_sta_pw = psk(&"d".repeat(63));
    c.ipv6_static = StaticConfigV6::new([0x20; 16], 64, Some([0x21; 16]), Vec::new());
    let e = encoded(&c, true);
    assert_eq!(e.len(), ssh_stamp::codec::MAX_CONFIG_SIZE);
    let d = SSHStampConfig::dec(&mut Source::new(&e), true).unwrap();
    assert!(d == c);

    let mut buf = vec![0; ssh_stamp::store::FlashConfig::BUF_SIZE];
    let w = ssh_stamp::store::save(&mut buf, &c, 16, true).unwrap();
    assert_eq!(w.len, 448);
    assert!(ssh_stamp::store::load(true, &buf, true).is_ok_and(|d| d == c));
}

#[test]
fn name_servers_leave_no_trace() {
    let mut c = full();
    let e = encoded(&c, false);
    c.ipv4_static =
        StaticConfigV4::new(0xc0a8_0001, 24, Some(0xc0a8_00fe), vec![0x0808_0808]);
    assert!(c != full());
    assert_eq!(encoded(&c, false), e);
}

#[test]
fn what_was_read_is_written_the_same() {
    let e = encoded(&full(), false);
    let d = SSHStampConfig::dec(&mut Source::new(&e), false).unwrap();
    assert_eq!(encoded(&d, false), e);
}
