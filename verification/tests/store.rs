use ssh_stamp::codec;
use ssh_stamp::config::{Ed25519PubKey, SSHStampConfig, SignKey, UartPins};
use ssh_stamp::errors::StampError;
use ssh_stamp::store::{
    config_hash, create, decode_record, judge, load, load_checked, load_or_create, migrate,
    rename_access_point, save, save_with_hash, FlashConfig, FlashWrite, LoadOutcome, CONFIG_AREA_SIZE,
    CONFIG_HASH_SIZE, CONFIG_OFFSET, CONFIG_VERSION_SIZE,
};
use ssh_stamp::wire::WireError;

const PINS: UartPins = UartPins { rx: 10, tx: 11 };

fn sample() -> SSHStampConfig {
    SSHStampConfig::with_generated(
        SignKey::Ed25519([7; 32]),
        heapless::String::try_from("net").unwrap(),
        heapless::String::try_from("password").unwrap(),
        [1, 2, 3, 4, 5, 6],
        PINS,
    )
}

const HASH: [u8; 32] = [
    4, 8, 132, 250, 113, 226, 160, 14, 225, 20, 138, 26, 49, 121, 209, 131, 128, 163, 184, 102,
    126, 91, 12, 83, 75, 212, 141, 206, 165, 97, 145, 75,
];

const HASH_IPV6: [u8; 32] = [
    59, 252, 131, 133, 165, 165, 183, 254, 246, 84, 213, 252, 228, 104, 240, 31, 179, 104, 230,
    186, 84, 108, 87, 217, 176, 156, 178, 170, 184, 227, 69, 241,
];

fn erased(size: usize) -> Vec<u8> {
    vec![0xff; size]
}

/// The flash area after a write.
fn flash(buf: &[u8], w: FlashWrite) -> Vec<u8> {
    assert_eq!(w.offset, 0x9000);
    let mut area = erased((w.erase_to - w.erase_from) as usize);
    area[..w.len].copy_from_slice(&buf[..w.len]);
    area
}

#[test]
fn constants() {
    assert_eq!(CONFIG_VERSION_SIZE, 4);
    assert_eq!(CONFIG_HASH_SIZE, 32);
    assert_eq!(CONFIG_AREA_SIZE, 4096);
    assert_eq!(CONFIG_OFFSET, 0x9000);
    assert_eq!(SSHStampConfig::CURRENT_VERSION, 12);
    assert!(1 + codec::MAX_CONFIG_SIZE + CONFIG_HASH_SIZE <= FlashConfig::BUF_SIZE);
}

#[test]
fn hash_of_the_encoding() {
    assert_eq!(config_hash(&sample(), false), Ok(HASH));
    assert_eq!(config_hash(&sample(), true), Ok(HASH_IPV6));
    let mut c = sample();
    c.hostkey = SignKey::AgentEd25519([7; 32]);
    assert_eq!(
        config_hash(&c, false),
        Err(StampError::Wire(WireError::UnknownVariant))
    );
}

#[test]
fn record_in_the_buffer() {
    let mut buf = vec![0xaa; 460];
    let w = save(&mut buf, &sample(), 4, false).unwrap();
    // 1 + 80 + 32 bytes, rounded up.
    assert_eq!(
        w,
        FlashWrite {
            erase_from: 0x9000,
            erase_to: 0xa000,
            offset: 0x9000,
            len: 116
        }
    );
    assert_eq!(buf[0], 12);
    assert_eq!(buf[1..33], [7; 32]);
    assert_eq!(buf[81..113], HASH);
    assert!(buf[113..].iter().all(|b| *b == 0xaa));
}

#[test]
fn saved_configuration_is_loaded() {
    let mut c = sample();
    c.pubkeys[2] = Some(Ed25519PubKey { key: [9; 32] });
    c.first_login = false;
    for ipv6 in [false, true] {
        let mut buf = vec![0; 460];
        let w = save(&mut buf, &c, 16, ipv6).unwrap();
        let area = flash(&buf, w);
        assert!(load(true, &area[..460], ipv6).is_ok_and(|d| d == c));
    }
}

#[test]
fn write_granularity() {
    for (size, len) in [(1, 113), (2, 114), (4, 116), (16, 128), (113, 113), (256, 256)] {
        let mut buf = vec![0; 460];
        assert_eq!(save(&mut buf, &sample(), size, false).map(|w| w.len), Ok(len));
    }
    for size in [0, 461, 4096, usize::MAX] {
        let mut buf = vec![0; 460];
        assert_eq!(
            save(&mut buf, &sample(), size, false),
            Err(StampError::TooLarge)
        );
    }
    let mut buf = vec![0; 10000];
    assert_eq!(
        save(&mut buf, &sample(), 4096, false).map(|w| w.len),
        Ok(4096)
    );
    assert_eq!(
        save(&mut buf, &sample(), 4097, false),
        Err(StampError::TooLarge)
    );
}

#[test]
fn buffer_that_is_too_small() {
    // What fits is there: all but the digest, the digest and the text before it, and so on.
    for (room, front) in [(112, 81), (80, 80), (44, 43), (40, 40), (39, 36), (32, 1), (0, 0)] {
        let mut full = vec![0; 113];
        save(&mut full, &sample(), 1, false).unwrap();
        let mut buf = vec![0xaa; room];
        assert_eq!(
            save(&mut buf, &sample(), 4, false),
            Err(StampError::Wire(WireError::NoRoom))
        );
        assert_eq!(buf[..front], full[..front]);
        assert!(buf[front..].iter().all(|b| *b == 0xaa));
    }
    let mut buf = vec![0xaa; 113];
    assert_eq!(
        save(&mut buf, &sample(), 4, false),
        Err(StampError::TooLarge)
    );
    assert_eq!(buf[0], 12);
    assert_eq!(save(&mut buf, &sample(), 1, false).map(|w| w.len), Ok(113));
}

#[test]
fn blank_flash_holds_nothing() {
    for n in [0, 1, 40, 460, 4096] {
        assert!(matches!(
            load_checked(true, &erased(n), false),
            LoadOutcome::Absent
        ));
        assert!(load(true, &erased(n), true).is_err_and(|e| e == StampError::Undecodable));
    }
    assert!(matches!(
        load_checked(true, &[0; 460], false),
        LoadOutcome::Invalid(StampError::WrongVersion)
    ));
}

#[test]
fn invalid_records_are_told_apart() {
    let mut buf = vec![0; 460];
    save(&mut buf, &sample(), 4, false).unwrap();

    assert!(matches!(
        load_checked(false, &buf, false),
        LoadOutcome::Invalid(StampError::FlashRead)
    ));
    assert!(load(false, &buf, false).is_err_and(|e| e == StampError::FlashRead));

    let mut other = buf.clone();
    other[0] = 11;
    assert!(load(true, &other, false).is_err_and(|e| e == StampError::WrongVersion));

    let mut other = buf.clone();
    other[5] ^= 1;
    assert!(load(true, &other, false).is_err_and(|e| e == StampError::BadHash));

    let mut other = buf.clone();
    other[112] ^= 1;
    assert!(load(true, &other, false).is_err_and(|e| e == StampError::BadHash));
}

#[test]
fn verdict_on_a_record() {
    let record = |version: u8| FlashConfig {
        version,
        config: sample(),
        hash: HASH,
    };
    assert!(matches!(judge(record(12), Ok(HASH)), LoadOutcome::Loaded(c) if c == sample()));
    assert!(matches!(
        judge(record(12), Ok(HASH_IPV6)),
        LoadOutcome::Invalid(StampError::BadHash)
    ));
    assert!(matches!(
        judge(record(12), Err(StampError::Rng)),
        LoadOutcome::Invalid(StampError::Rng)
    ));
    assert!(matches!(
        judge(record(13), Ok(HASH)),
        LoadOutcome::Invalid(StampError::WrongVersion)
    ));
}

#[test]
fn record_is_decoded_with_anything_after_it() {
    let mut buf = vec![0; 460];
    save(&mut buf, &sample(), 4, false).unwrap();
    let f = decode_record(&buf, false).ok().unwrap();
    assert_eq!(f.version, 12);
    assert!(f.config == sample());
    assert_eq!(f.hash, HASH);
    assert!(decode_record(&buf[..112], false).is_err_and(|e| e == WireError::RanOut));
}

#[test]
fn first_boot_creates_a_configuration() {
    let mut buf = erased(460);
    let (c, w) = load_or_create(true, &mut buf, [1; 6], PINS, 4, false).ok().unwrap();
    assert!(c.first_login);
    assert_eq!(c.mac, [1; 6]);
    let area = flash(&buf, w.unwrap());

    // The next boot finds it, and writes nothing.
    let mut buf = area[..460].to_vec();
    let (d, w) = load_or_create(true, &mut buf, [2; 6], PINS, 4, false).ok().unwrap();
    assert!(c == d);
    assert!(w.is_none());
    assert_eq!(buf, area[..460]);
}

#[test]
fn invalid_configuration_is_not_overwritten() {
    let mut buf = vec![0; 460];
    save(&mut buf, &sample(), 4, false).unwrap();
    buf[0] = 11;
    let before = buf.clone();
    let r = load_or_create(true, &mut buf, [1; 6], PINS, 4, false);
    assert!(r.is_err_and(|e| e == StampError::WrongVersion));
    assert_eq!(buf, before);
    let r = load_or_create(false, &mut buf, [1; 6], PINS, 4, false);
    assert!(r.is_err_and(|e| e == StampError::FlashRead));
    assert_eq!(buf, before);
}

#[test]
fn creation_fails_in_a_small_buffer() {
    let mut buf = erased(100);
    let r = create(&mut buf, [1; 6], PINS, 4, false);
    assert!(r.is_err_and(|e| e == StampError::Wire(WireError::NoRoom)));
    let mut buf = erased(460);
    let (c, w) = create(&mut buf, [1; 6], PINS, 4, true).ok().unwrap();
    assert!(load(true, &buf[..w.len], true).is_ok_and(|d| d == c));
}

fn old_default(pw: &str) -> SSHStampConfig {
    let mut c = sample();
    c.wifi_ap_ssid = heapless::String::try_from("ssh-stamp").unwrap();
    c.wifi_ap_pw = heapless::String::try_from(pw).unwrap();
    c.pubkeys[0] = Some(Ed25519PubKey { key: [9; 32] });
    c.first_login = false;
    c
}

#[test]
fn default_name_is_replaced_once() {
    let mut buf = vec![0; 460];
    save(&mut buf, &old_default("secret pw"), 4, false).unwrap();
    let (c, w) = load_or_create(true, &mut buf, [0; 6], PINS, 4, false).ok().unwrap();
    assert_eq!(c.wifi_ap_ssid.len(), 16);
    assert_eq!(c.wifi_ap_pw.as_str(), "secret pw");
    assert_eq!(c.pubkeys[0], Some(Ed25519PubKey { key: [9; 32] }));
    assert!(!c.first_login);
    let area = flash(&buf, w.unwrap());
    let mut buf = area[..460].to_vec();
    let (d, w) = load_or_create(true, &mut buf, [0; 6], PINS, 4, false).ok().unwrap();
    assert!(c == d);
    assert!(w.is_none());
}

#[test]
fn missing_passphrase_is_generated_on_migration() {
    let c = migrate(old_default("")).ok().unwrap();
    assert_eq!(c.wifi_ap_pw.len(), 24);
    let c = migrate(old_default("x")).ok().unwrap();
    assert_eq!(c.wifi_ap_pw.as_str(), "x");
    let c = rename_access_point(
        old_default("x"),
        heapless::String::try_from("name").unwrap(),
        Some(heapless::String::try_from("pass").unwrap()),
    );
    assert_eq!(c.wifi_ap_ssid.as_str(), "name");
    assert_eq!(c.wifi_ap_pw.as_str(), "pass");
}

#[test]
fn record_with_a_given_digest() {
    let mut buf = vec![0; 120];
    let w = save_with_hash(&mut buf, &sample(), &[5; 32], 1, false);
    assert_eq!(w.map(|w| w.len), Ok(113));
    assert_eq!(buf[81..113], [5; 32]);
    assert!(load(true, &buf, false).is_err_and(|e| e == StampError::BadHash));
}
