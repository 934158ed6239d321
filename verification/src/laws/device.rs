//! What holds of a configuration: its addresses, its generated credentials and its keys.

use vstd::prelude::*;

use crate::config;
use crate::config::{
    ConfigModel, SSHStampConfig, SignKey, StaticConfigV4, StaticConfigV6, UartPins,
};
use crate::errors::StampError;
use crate::hal::Parity;
use crate::handle::variables;
use crate::outside;
use crate::outside::OpensshKey;

verus! {

// ---------------------------------------------------------------------------
// MAC address
// ---------------------------------------------------------------------------

/// Whether an address is that of one device and assigned locally, by the two low bits of its
/// first byte.
pub open spec fn is_local(mac: Seq<u8>) -> bool {
    mac.len() == 6 && mac[0] % 4 == 2
}

/// Whether an address is six bytes of ones, which stands for a random one.
pub open spec fn is_all_ones(mac: Seq<u8>) -> bool {
    mac.len() == 6 && forall|i: int| 0 <= i < 6 ==> #[trigger] mac[i] == 0xff
}

/// Bytes are turned into a local address by the two low bits of the first one, and nothing else.
pub proof fn lemma_local_mac(bytes: [u8; 6], mac: [u8; 6])
    requires
        call_ensures(config::local_mac, (bytes,), mac),
    ensures
        is_local(mac@),
        mac@[0] / 4 == bytes@[0] / 4,
        forall|i: int| 1 <= i < 6 ==> #[trigger] mac@[i] == bytes@[i],
{
}

/// A random address is a local one; only the random numbers can fail.
pub proof fn lemma_random_mac(r: Result<[u8; 6], StampError>)
    requires
        call_ensures(config::random_mac, (), r),
    ensures
        r matches Ok(mac) ==> is_local(mac@),
        r matches Err(e) ==> e == StampError::Rng,
{
}

/// A random address is asked for by six bytes of ones and by nothing else.
pub proof fn lemma_is_mac_random(c: &SSHStampConfig, r: bool)
    requires
        call_ensures(SSHStampConfig::is_mac_random, (c,), r),
    ensures
        r <==> is_all_ones(c@.mac),
{
    if is_all_ones(c@.mac) {
        assert(c@.mac == seq![0xffu8, 0xff, 0xff, 0xff, 0xff, 0xff]);
    }
}

/// The address to use is the stored one, whatever it is, unless a random one is asked for: then it
/// is a local one.
pub proof fn lemma_resolve_mac(c: &SSHStampConfig, r: Result<[u8; 6], StampError>)
    requires
        call_ensures(SSHStampConfig::resolve_mac, (c,), r),
    ensures
        !is_all_ones(c@.mac) ==> (r matches Ok(mac) && mac@ == c@.mac),
        is_all_ones(c@.mac) ==> (r matches Ok(mac) ==> is_local(mac@) && !is_all_ones(mac@)),
        r matches Err(e) ==> e == StampError::Rng && is_all_ones(c@.mac),
{
    if is_all_ones(c@.mac) {
        assert(c@.mac == seq![0xffu8, 0xff, 0xff, 0xff, 0xff, 0xff]);
    }
}

// ---------------------------------------------------------------------------
// Generated credentials
// ---------------------------------------------------------------------------

/// Whether a character is the one for a number below 62: `A` to `Z`, `a` to `z`, `0` to `9`.
pub open spec fn is_char_for(c: char, n: int) -> bool {
    if n < 26 {
        c as int == 'A' as int + n
    } else if n < 52 {
        c as int == 'a' as int + n - 26
    } else {
        c as int == '0' as int + n - 52
    }
}

/// Whether a text is letters and digits.
pub open spec fn is_alphanumeric(t: Seq<char>) -> bool {
    forall|i: int|
        0 <= i < t.len() ==> 'A' <= #[trigger] t[i] <= 'Z' || 'a' <= t[i] <= 'z' || '0' <= t[i]
            <= '9'
}

proof fn lemma_wifi_text(bytes: Seq<u8>)
    ensures
        config::wifi_text(bytes).len() == bytes.len(),
        forall|i: int|
            0 <= i < bytes.len() ==> is_char_for(
                #[trigger] config::wifi_text(bytes)[i],
                bytes[i] as int % 62,
            ),
{
    assert forall|i: int| 0 <= i < bytes.len() implies is_char_for(
        #[trigger] config::wifi_text(bytes)[i],
        bytes[i] as int % 62,
    ) by {
        lemma_alphabet(bytes[i] as int % 62);
    }
}

proof fn lemma_alphabet(n: int)
    requires
        0 <= n < 62,
    ensures
        is_char_for(crate::settings::WIFI_PASSWORD_CHARS@[n], n),
{
}

/// Generated texts have a character for each byte, which is that of the byte's remainder by 62.
pub proof fn lemma_texts_from(
    a: &[u8; 16],
    ssid: heapless::String<32>,
    b: &[u8; 24],
    pw: heapless::String<63>,
)
    requires
        call_ensures(SSHStampConfig::wifi_ssid_from, (a,), ssid),
        call_ensures(SSHStampConfig::wifi_password_from, (b,), pw),
    ensures
        outside::ssid_text(ssid).len() == 16,
        forall|i: int|
            0 <= i < 16 ==> is_char_for(
                #[trigger] outside::ssid_text(ssid)[i],
                a@[i] as int % 62,
            ),
        outside::psk_text(pw).len() == 24,
        forall|i: int|
            0 <= i < 24 ==> is_char_for(#[trigger] outside::psk_text(pw)[i], b@[i] as int % 62),
{
    lemma_wifi_text(a@);
    lemma_wifi_text(b@);
}

/// What is alphanumeric is letters and digits.
pub proof fn lemma_alphanumeric(t: Seq<char>)
    ensures
        config::alphanumeric(t) <==> is_alphanumeric(t),
{
    if config::alphanumeric(t) {
        assert forall|i: int| 0 <= i < t.len() implies 'A' <= #[trigger] t[i] <= 'Z' || 'a' <= t[i]
            <= 'z' || '0' <= t[i] <= '9' by {}
    }
}

/// A generated name has 16 letters and digits, a generated passphrase 24; only the random numbers
/// can fail.
pub proof fn lemma_generated(
    ssid: Result<heapless::String<32>, StampError>,
    pw: Result<heapless::String<63>, StampError>,
    key: Result<SignKey, StampError>,
)
    requires
        call_ensures(SSHStampConfig::generate_wifi_ssid, (), ssid),
        call_ensures(SSHStampConfig::generate_wifi_password, (), pw),
        call_ensures(SSHStampConfig::generate_hostkey, (), key),
    ensures
        ssid matches Ok(s) ==> outside::ssid_text(s).len() == 16 && is_alphanumeric(
            outside::ssid_text(s),
        ),
        ssid matches Err(e) ==> e == StampError::Rng,
        pw matches Ok(s) ==> outside::psk_text(s).len() == 24 && is_alphanumeric(
            outside::psk_text(s),
        ),
        pw matches Err(e) ==> e == StampError::Rng,
        key matches Ok(k) ==> k is Ed25519,
        key matches Err(e) ==> e == StampError::Rng,
{
    if let Ok(s) = ssid {
        lemma_alphanumeric(outside::ssid_text(s));
    }
    if let Ok(s) = pw {
        lemma_alphanumeric(outside::psk_text(s));
    }
}

// ---------------------------------------------------------------------------
// A new configuration
// ---------------------------------------------------------------------------

/// What a device starts with: no key and so the first login, no network to join, the 2.4GHz band,
/// no static address, and a line of 115200 baud with eight data bits, no parity and one stop bit.
pub open spec fn has_defaults(c: ConfigModel) -> bool {
    &&& c.first_login
    &&& c.pubkeys.len() == 3 && forall|i: int| 0 <= i < 3 ==> #[trigger] c.pubkeys[i] is None
    &&& c.wifi_ap_band == 0
    &&& c.wifi_sta_ssid.len() == 0 && c.wifi_sta_pw.len() == 0
    &&& c.ipv4_static is None && c.ipv6_static is None
    &&& c.uart_params.baud == 115200 && c.uart_params.data_bits == 8
    &&& c.uart_params.parity == Parity::NoParity && c.uart_params.stop_bits == 1
}

/// A first configuration has the defaults besides what it was given.
pub proof fn lemma_with_generated(
    hostkey: SignKey,
    ssid: heapless::String<32>,
    pw: heapless::String<63>,
    mac: [u8; 6],
    pins: UartPins,
    c: SSHStampConfig,
)
    requires
        call_ensures(SSHStampConfig::with_generated, (hostkey, ssid, pw, mac, pins), c),
    ensures
        has_defaults(c@),
        c@.hostkey == hostkey@,
        c@.wifi_ap_ssid == outside::ssid_text(ssid),
        c@.wifi_ap_pw == outside::psk_text(pw),
        c@.mac == mac@,
        c@.uart_pins == pins,
{
}

/// A new configuration has the defaults, the address and pins of the device, and its own host
/// key, name and passphrase; only the random numbers can fail.
pub proof fn lemma_new(mac: [u8; 6], pins: UartPins, r: Result<SSHStampConfig, StampError>)
    requires
        call_ensures(SSHStampConfig::new, (mac, pins), r),
    ensures
        r matches Ok(c) ==> is_first(c@, mac@, pins),
        r matches Err(e) ==> e == StampError::Rng,
{
    if let Ok(c) = r {
        lemma_is_first(c@, mac@, pins);
    }
}

/// What a first start comes up with.
pub open spec fn is_first(c: ConfigModel, mac: Seq<u8>, pins: UartPins) -> bool {
    &&& has_defaults(c)
    &&& c.hostkey is Ed25519
    &&& c.wifi_ap_ssid.len() == 16 && is_alphanumeric(c.wifi_ap_ssid)
    &&& c.wifi_ap_pw.len() == 24 && is_alphanumeric(c.wifi_ap_pw)
    &&& c.mac == mac
    &&& c.uart_pins == pins
}

/// A fresh configuration is exactly what a first start comes up with.
pub proof fn lemma_is_first(c: ConfigModel, mac: Seq<u8>, pins: UartPins)
    ensures
        config::is_fresh(c, mac, pins) <==> is_first(c, mac, pins),
{
    lemma_alphanumeric(c.wifi_ap_ssid);
    lemma_alphanumeric(c.wifi_ap_pw);
    let f = config::fresh(c.hostkey, c.wifi_ap_ssid, c.wifi_ap_pw, mac, pins);
    if is_first(c, mac, pins) {
        assert(c.pubkeys == f.pubkeys);
        assert(c.wifi_sta_ssid == f.wifi_sta_ssid);
        assert(c.wifi_sta_pw == f.wifi_sta_pw);
        assert(c == f);
    }
}

// ---------------------------------------------------------------------------
// Keys and static addresses
// ---------------------------------------------------------------------------

/// An Ed25519 key is added in the first empty slot, or over the first one if none is empty; a key
/// of another kind is refused. Nothing else changes.
pub proof fn lemma_add_key(c: &mut SSHStampConfig, key: OpensshKey, r: Result<(), StampError>)
    requires
        call_ensures(SSHStampConfig::add_key, (c, key), r),
    ensures
        r is Ok <==> key is Ed25519,
        r matches Err(e) ==> e == StampError::BadKey && final(c)@ == old(c)@,
        key matches OpensshKey::Ed25519(k) ==> variables::has_key_added(
            old(c)@.pubkeys,
            final(c)@.pubkeys,
            k@,
        ) && final(c)@ == (ConfigModel { pubkeys: final(c)@.pubkeys, ..old(c)@ }),
{
    assert(old(c)@.pubkeys.len() == 3);
    if let OpensshKey::Ed25519(k) = key {
        variables::lemma_with_key(old(c)@.pubkeys, k@);
    }
}

/// A line is added as the key that it holds, white space around it aside. One that is no key line
/// and one of another kind each have their error, and change nothing.
pub proof fn lemma_add_pubkey(c: &mut SSHStampConfig, line: &str, r: Result<(), StampError>)
    requires
        call_ensures(SSHStampConfig::add_pubkey, (c, line), r),
    ensures
        ({
            let key = outside::openssh_key(outside::trimmed(line@));
            &&& r is Ok <==> (key matches Some(Some(_)))
            &&& r is Err ==> final(c)@ == old(c)@
            &&& key is None ==> r == Err::<(), StampError>(StampError::KeyFormat)
            &&& key == Some(None::<[u8; 32]>) ==> r == Err::<(), StampError>(StampError::BadKey)
            &&& key matches Some(Some(k)) ==> variables::has_key_added(
                old(c)@.pubkeys,
                final(c)@.pubkeys,
                k@,
            ) && final(c)@ == (ConfigModel { pubkeys: final(c)@.pubkeys, ..old(c)@ })
        }),
{
    assert(old(c)@.pubkeys.len() == 3);
    if let Some(Some(k)) = outside::openssh_key(outside::trimmed(line@)) {
        variables::lemma_with_key(old(c)@.pubkeys, k@);
    }
}

/// A static IPv4 address is made exactly with a prefix of up to 32 bits, and holds what it is made
/// of.
pub proof fn lemma_static_v4(
    address: u32,
    prefix_len: u8,
    gateway: Option<u32>,
    dns_servers: Vec<u32>,
    r: Option<StaticConfigV4>,
)
    requires
        call_ensures(StaticConfigV4::new, (address, prefix_len, gateway, dns_servers), r),
    ensures
        r is Some <==> prefix_len <= 32,
        r matches Some(c) ==> {
            &&& c@.address == address
            &&& c@.prefix_len == prefix_len
            &&& c@.gateway == gateway
            &&& c@.dns_servers == dns_servers@
        },
{
}

/// A static IPv6 address is made exactly with a prefix of up to 128 bits, and holds what it is
/// made of.
pub proof fn lemma_static_v6(
    address: [u8; 16],
    prefix_len: u8,
    gateway: Option<[u8; 16]>,
    dns_servers: Vec<[u8; 16]>,
    r: Option<StaticConfigV6>,
)
    requires
        call_ensures(StaticConfigV6::new, (address, prefix_len, gateway, dns_servers), r),
    ensures
        r is Some <==> prefix_len <= 128,
        r matches Some(c) ==> {
            &&& c@.address == address@
            &&& c@.prefix_len == prefix_len
            &&& gateway is Some <==> c@.gateway is Some
            &&& gateway matches Some(g) ==> c@.gateway == Some(g@)
            &&& c@.dns_servers.len() == dns_servers@.len()
            &&& forall|i: int|
                0 <= i < dns_servers@.len() ==> #[trigger] c@.dns_servers[i] == dns_servers@[i]@
        },
{
}

/// Static addresses give what they hold.
pub proof fn lemma_static_parts(
    c: &StaticConfigV4,
    address: u32,
    prefix_len: u8,
    gateway: Option<u32>,
    c6: &StaticConfigV6,
    address6: &[u8; 16],
    prefix_len6: u8,
    gateway6: Option<[u8; 16]>,
    dns: &Vec<u32>,
    dns6: &Vec<[u8; 16]>,
)
    requires
        call_ensures(StaticConfigV4::dns_servers, (c,), dns),
        call_ensures(StaticConfigV6::dns_servers, (c6,), dns6),
        call_ensures(StaticConfigV4::address, (c,), address),
        call_ensures(StaticConfigV4::prefix_len, (c,), prefix_len),
        call_ensures(StaticConfigV4::gateway, (c,), gateway),
        call_ensures(StaticConfigV6::address, (c6,), address6),
        call_ensures(StaticConfigV6::prefix_len, (c6,), prefix_len6),
        call_ensures(StaticConfigV6::gateway, (c6,), gateway6),
    ensures
        address == c@.address,
        prefix_len == c@.prefix_len && prefix_len <= 32,
        gateway == c@.gateway,
        address6@ == c6@.address,
        prefix_len6 == c6@.prefix_len && prefix_len6 <= 128,
        gateway6 is Some <==> c6@.gateway is Some,
        gateway6 matches Some(g) ==> c6@.gateway == Some(g@),
        dns@ == c@.dns_servers,
        dns6@.len() == c6@.dns_servers.len(),
        forall|i: int| 0 <= i < dns6@.len() ==> #[trigger] dns6@[i]@ == c6@.dns_servers[i],
{
    assert forall|i: int| 0 <= i < dns6@.len() implies #[trigger] dns6@[i]@
        == c6@.dns_servers[i] by {
        assert(dns6@.map_values(|d: [u8; 16]| d@)[i] == dns6@[i]@);
    }
}

} // verus!
