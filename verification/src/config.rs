//! The device configuration.
//!
//! [`SSHStampConfig`] holds all persistent device state: host key, client keys,
//! WiFi credentials, MAC address, static addresses, UART pins and line
//! parameters, and the first-login flag. Its encoding is what the flash record
//! holds; see [`crate::codec`] and [`crate::store`].

use vstd::prelude::*;
use vstd::utf8::*;

use crate::errors::StampError;
use crate::hal;
use crate::hal::UartParams;
use crate::outside;
use crate::outside::OpensshKey;
use crate::settings::{KEY_SLOTS, WIFI_PASSWORD_CHARS};
use crate::wire;

verus! {

/// The key that the device identifies itself with. It holds the private half,
/// so it cannot be printed.
#[derive(Clone, Copy, PartialEq, Eq)]
pub enum SignKey {
    /// The secret seed of a key held by the device.
    Ed25519([u8; 32]),
    /// The public half of a key held by an agent.
    AgentEd25519([u8; 32]),
}

/// A client's public key.
#[derive(Clone, Copy, Debug, PartialEq, Eq)]
pub struct Ed25519PubKey {
    pub key: [u8; 32],
}

/// UART pin assignment, which depends on the board.
#[derive(Clone, Copy, Debug, PartialEq, Eq, Structural)]
pub struct UartPins {
    pub rx: u8,
    pub tx: u8,
}

/// A static IPv4 configuration.
#[derive(Debug, PartialEq, Eq)]
pub struct StaticConfigV4 {
    address: u32,
    /// At most 32.
    prefix_len: u8,
    gateway: Option<u32>,
    /// Not persistent.
    dns_servers: Vec<u32>,
}

/// A static IPv6 configuration.
#[derive(Debug, PartialEq, Eq)]
pub struct StaticConfigV6 {
    address: [u8; 16],
    /// At most 128.
    prefix_len: u8,
    gateway: Option<[u8; 16]>,
    /// Not persistent.
    dns_servers: Vec<[u8; 16]>,
}

/// All persistent device state. It holds the private host key and passphrases,
/// so it cannot be printed.
#[derive(PartialEq)]
pub struct SSHStampConfig {
    pub hostkey: SignKey,
    /// Keys that clients may authenticate with.
    pub pubkeys: [Option<Ed25519PubKey>; KEY_SLOTS],
    /// WiFi access point.
    pub wifi_ap_ssid: heapless::String<32>,
    pub wifi_ap_pw: heapless::String<63>,
    /// Band of the access point. Ignored on chips without 5GHz.
    pub wifi_ap_band: u8,
    /// WiFi station.
    pub wifi_sta_ssid: heapless::String<32>,
    pub wifi_sta_pw: heapless::String<63>,
    /// MAC address; all ones stand for a random one on each boot.
    pub mac: [u8; 6],
    /// Absent for DHCP.
    pub ipv4_static: Option<StaticConfigV4>,
    /// Held by firmware with IPv6 only.
    pub ipv6_static: Option<StaticConfigV6>,
    pub uart_pins: UartPins,
    pub uart_params: UartParams,
    /// True until a client key is provisioned.
    pub first_login: bool,
}

// ---------------------------------------------------------------------------
// Models
// ---------------------------------------------------------------------------

/// What a [`SignKey`] holds.
#[verifier::ext_equal]
pub enum SignKeyModel {
    Ed25519(Seq<u8>),
    AgentEd25519(Seq<u8>),
}

impl View for SignKey {
    type V = SignKeyModel;

    open spec fn view(&self) -> SignKeyModel {
        match self {
            SignKey::Ed25519(k) => SignKeyModel::Ed25519(k@),
            SignKey::AgentEd25519(k) => SignKeyModel::AgentEd25519(k@),
        }
    }
}

/// What a [`StaticConfigV4`] holds.
#[verifier::ext_equal]
pub struct StaticV4Model {
    pub address: u32,
    pub prefix_len: u8,
    pub gateway: Option<u32>,
    pub dns_servers: Seq<u32>,
}

impl View for StaticConfigV4 {
    type V = StaticV4Model;

    closed spec fn view(&self) -> StaticV4Model {
        StaticV4Model {
            address: self.address,
            prefix_len: self.prefix_len,
            gateway: self.gateway,
            dns_servers: self.dns_servers@,
        }
    }
}

/// What a [`StaticConfigV6`] holds.
#[verifier::ext_equal]
pub struct StaticV6Model {
    pub address: Seq<u8>,
    pub prefix_len: u8,
    pub gateway: Option<Seq<u8>>,
    pub dns_servers: Seq<Seq<u8>>,
}

/// An IPv6 address that may be absent, as a model holds it.
pub open spec fn octets_model(v: Option<[u8; 16]>) -> Option<Seq<u8>> {
    match v {
        Some(a) => Some(a@),
        None => None,
    }
}

impl View for StaticConfigV6 {
    type V = StaticV6Model;

    closed spec fn view(&self) -> StaticV6Model {
        StaticV6Model {
            address: self.address@,
            prefix_len: self.prefix_len,
            gateway: octets_model(self.gateway),
            dns_servers: self.dns_servers@.map_values(|d: [u8; 16]| d@),
        }
    }
}

impl StaticConfigV4 {
    #[verifier::type_invariant]
    spec fn wf(self) -> bool {
        self.prefix_len <= 32
    }

    /// A configuration with the given parts, unless the prefix is too long.
    pub fn new(address: u32, prefix_len: u8, gateway: Option<u32>, dns_servers: Vec<u32>) -> (r:
        Option<Self>)
        ensures
            match r {
                Some(c) => prefix_len <= 32 && c@ == (StaticV4Model {
                    address,
                    prefix_len,
                    gateway,
                    dns_servers: dns_servers@,
                }),
                None => prefix_len > 32,
            },
    {
        if prefix_len <= 32 {
            Some(StaticConfigV4 { address, prefix_len, gateway, dns_servers })
        } else {
            None
        }
    }

    pub fn address(&self) -> (r: u32)
        ensures
            r == self@.address,
    {
        self.address
    }

    pub fn prefix_len(&self) -> (r: u8)
        ensures
            r == self@.prefix_len,
            r <= 32,
    {
        proof {
            use_type_invariant(self);
        }
        self.prefix_len
    }

    pub fn gateway(&self) -> (r: Option<u32>)
        ensures
            r == self@.gateway,
    {
        self.gateway
    }

    pub fn dns_servers(&self) -> (r: &Vec<u32>)
        ensures
            r@ == self@.dns_servers,
    {
        &self.dns_servers
    }
}

impl StaticConfigV6 {
    #[verifier::type_invariant]
    spec fn wf(self) -> bool {
        self.prefix_len <= 128
    }

    /// A configuration with the given parts, unless the prefix is too long.
    pub fn new(
        address: [u8; 16],
        prefix_len: u8,
        gateway: Option<[u8; 16]>,
        dns_servers: Vec<[u8; 16]>,
    ) -> (r: Option<Self>)
        ensures
            match r {
                Some(c) => prefix_len <= 128 && c@ == (StaticV6Model {
                    address: address@,
                    prefix_len,
                    gateway: octets_model(gateway),
                    dns_servers: dns_servers@.map_values(|d: [u8; 16]| d@),
                }),
                None => prefix_len > 128,
            },
    {
        if prefix_len <= 128 {
            Some(StaticConfigV6 { address, prefix_len, gateway, dns_servers })
        } else {
            None
        }
    }

    pub fn address(&self) -> (r: &[u8; 16])
        ensures
            r@ == self@.address,
    {
        &self.address
    }

    pub fn prefix_len(&self) -> (r: u8)
        ensures
            r == self@.prefix_len,
            r <= 128,
    {
        proof {
            use_type_invariant(self);
        }
        self.prefix_len
    }

    pub fn gateway(&self) -> (r: Option<[u8; 16]>)
        ensures
            octets_model(r) == self@.gateway,
    {
        self.gateway
    }

    pub fn dns_servers(&self) -> (r: &Vec<[u8; 16]>)
        ensures
            r@.map_values(|d: [u8; 16]| d@) == self@.dns_servers,
    {
        &self.dns_servers
    }
}

/// The bytes of the key in a slot.
pub open spec fn slot_model(slot: Option<Ed25519PubKey>) -> Option<Seq<u8>> {
    match slot {
        Some(k) => Some(k.key@),
        None => None,
    }
}

/// The bytes of the keys in all slots.
pub open spec fn slots_model(slots: Seq<Option<Ed25519PubKey>>) -> Seq<Option<Seq<u8>>> {
    slots.map_values(|s: Option<Ed25519PubKey>| slot_model(s))
}

/// What an [`SSHStampConfig`] holds.
#[verifier::ext_equal]
pub struct ConfigModel {
    pub hostkey: SignKeyModel,
    pub pubkeys: Seq<Option<Seq<u8>>>,
    pub wifi_ap_ssid: Seq<char>,
    pub wifi_ap_pw: Seq<char>,
    pub wifi_ap_band: u8,
    pub wifi_sta_ssid: Seq<char>,
    pub wifi_sta_pw: Seq<char>,
    pub mac: Seq<u8>,
    pub ipv4_static: Option<StaticV4Model>,
    pub ipv6_static: Option<StaticV6Model>,
    pub uart_pins: UartPins,
    pub uart_params: UartParams,
    pub first_login: bool,
}

impl View for SSHStampConfig {
    type V = ConfigModel;

    open spec fn view(&self) -> ConfigModel {
        ConfigModel {
            hostkey: self.hostkey@,
            pubkeys: slots_model(self.pubkeys@),
            wifi_ap_ssid: outside::ssid_text(self.wifi_ap_ssid),
            wifi_ap_pw: outside::psk_text(self.wifi_ap_pw),
            wifi_ap_band: self.wifi_ap_band,
            wifi_sta_ssid: outside::ssid_text(self.wifi_sta_ssid),
            wifi_sta_pw: outside::psk_text(self.wifi_sta_pw),
            mac: self.mac@,
            ipv4_static: match self.ipv4_static {
                Some(c) => Some(c@),
                None => None,
            },
            ipv6_static: match self.ipv6_static {
                Some(c) => Some(c@),
                None => None,
            },
            uart_pins: self.uart_pins,
            uart_params: self.uart_params,
            first_login: self.first_login,
        }
    }
}

// ---------------------------------------------------------------------------
// MAC address
// ---------------------------------------------------------------------------

/// The MAC address that stands for a random one.
pub open spec fn mac_random_sentinel() -> Seq<u8> {
    seq![0xff, 0xff, 0xff, 0xff, 0xff, 0xff]
}

/// Six bytes as a unicast, locally administered address: the two low bits of the
/// first byte are set to one and zero.
pub open spec fn local_mac_of(bytes: Seq<u8>) -> Seq<u8> {
    bytes.update(0, (bytes[0] / 4 * 4 + 2) as u8)
}

/// Whether an address is unicast and locally administered.
pub open spec fn is_local_mac(mac: Seq<u8>) -> bool {
    mac.len() == 6 && mac[0] % 4 == 2
}

/// Turns six bytes into a unicast, locally administered address.
pub fn local_mac(bytes: [u8; 6]) -> (mac: [u8; 6])
    ensures
        mac@ == local_mac_of(bytes@),
        is_local_mac(mac@),
{
    let mut mac: [u8; 6] = bytes;
    let first: u8 = mac[0];
    assert((first & 0xfc) | 0x02 == first / 4 * 4 + 2) by (bit_vector);
    assert(((first & 0xfc) | 0x02) % 4 == 2) by (bit_vector);
    mac[0] = (first & 0xfc) | 0x02;
    mac
}

/// A random unicast, locally administered address.
pub fn random_mac() -> (r: Result<[u8; 6], StampError>)
    ensures
        match r {
            Ok(mac) => is_local_mac(mac@),
            Err(e) => e == StampError::Rng,
        },
{
    let mut bytes: [u8; 6] = [0u8; 6];
    match outside::random_fill(&mut bytes) {
        Ok(_) => Ok(local_mac(bytes)),
        Err(_) => Err(StampError::Rng),
    }
}

/// A random address is never taken for the request of one.
pub proof fn lemma_random_mac_is_not_sentinel(mac: Seq<u8>)
    requires
        is_local_mac(mac),
    ensures
        mac != mac_random_sentinel(),
{
}

impl SSHStampConfig {
    /// Whether the MAC address is to be a random one on each boot.
    pub fn is_mac_random(&self) -> (r: bool)
        ensures
            r == (self@.mac == mac_random_sentinel()),
    {
        let mut i: usize = 0;
        while i < 6
            invariant
                i <= 6,
                forall|j: int| 0 <= j < i ==> self.mac@[j] == 0xff,
            decreases 6 - i,
        {
            if self.mac[i] != 0xff {
                return false;
            }
            i = i + 1;
        }
        assert(self.mac@ == mac_random_sentinel());
        true
    }

    /// The MAC address to use: the stored one, or a random one if that is asked for.
    pub fn resolve_mac(&self) -> (r: Result<[u8; 6], StampError>)
        ensures
            if self@.mac == mac_random_sentinel() {
                match r {
                    Ok(mac) => is_local_mac(mac@),
                    Err(e) => e == StampError::Rng,
                }
            } else {
                r matches Ok(mac) && mac@ == self@.mac
            },
    {
        if self.is_mac_random() {
            random_mac()
        } else {
            Ok(self.mac)
        }
    }
}

// ---------------------------------------------------------------------------
// Generated credentials
// ---------------------------------------------------------------------------

/// The text that random bytes are turned into: each byte picks a character.
pub open spec fn wifi_text(bytes: Seq<u8>) -> Seq<char> {
    Seq::new(bytes.len(), |i: int| WIFI_PASSWORD_CHARS@[bytes[i] as int % 62])
}

/// Whether a text is made of ASCII letters and digits.
pub open spec fn alphanumeric(t: Seq<char>) -> bool {
    forall|i: int|
        0 <= i < t.len() ==> {
            let c = #[trigger] t[i];
            'A' <= c <= 'Z' || 'a' <= c <= 'z' || '0' <= c <= '9'
        }
}

/// A generated text is as long as its random bytes and made of letters and digits.
pub proof fn lemma_wifi_text(bytes: Seq<u8>)
    ensures
        wifi_text(bytes).len() == bytes.len(),
        alphanumeric(wifi_text(bytes)),
{
}

/// A text of letters and digits can be stored, and takes a byte for each character.
pub proof fn lemma_alphanumeric(t: Seq<char>)
    requires
        alphanumeric(t),
    ensures
        wire::printable(t),
        encode_utf8(t).len() == t.len(),
{
    is_ascii_chars_encode_utf8(t);
}

impl SSHStampConfig {
    /// The SSID that 16 bytes are turned into.
    pub fn wifi_ssid_from(rnd: &[u8; 16]) -> (ssid: heapless::String<32>)
        ensures
            outside::ssid_text(ssid) == wifi_text(rnd@),
    {
        let mut ssid = outside::ssid_new();
        let mut i: usize = 0;
        while i < 16
            invariant
                i <= 16,
                outside::ssid_text(ssid) == wifi_text(rnd@.take(i as int)),
            decreases 16 - i,
        {
            let c = WIFI_PASSWORD_CHARS[rnd[i] as usize % 62];
            proof {
                let next = rnd@.take(i + 1);
                assert(wifi_text(rnd@.take(i as int)).push(c) == wifi_text(next));
                lemma_wifi_text(next);
                lemma_alphanumeric(wifi_text(next));
            }
            let _ = outside::ssid_push(&mut ssid, c);
            i = i + 1;
        }
        assert(rnd@.take(16) == rnd@);
        ssid
    }

    /// The passphrase that 24 bytes are turned into.
    pub fn wifi_password_from(rnd: &[u8; 24]) -> (pw: heapless::String<63>)
        ensures
            outside::psk_text(pw) == wifi_text(rnd@),
    {
        let mut pw = outside::psk_new();
        let mut i: usize = 0;
        while i < 24
            invariant
                i <= 24,
                outside::psk_text(pw) == wifi_text(rnd@.take(i as int)),
            decreases 24 - i,
        {
            let c = WIFI_PASSWORD_CHARS[rnd[i] as usize % 62];
            proof {
                let next = rnd@.take(i + 1);
                assert(wifi_text(rnd@.take(i as int)).push(c) == wifi_text(next));
                lemma_wifi_text(next);
                lemma_alphanumeric(wifi_text(next));
            }
            let _ = outside::psk_push(&mut pw, c);
            i = i + 1;
        }
        assert(rnd@.take(24) == rnd@);
        pw
    }

    /// A random SSID of 16 letters and digits.
    pub fn generate_wifi_ssid() -> (r: Result<heapless::String<32>, StampError>)
        ensures
            match r {
                Ok(s) => outside::ssid_text(s).len() == 16 && alphanumeric(outside::ssid_text(s)),
                Err(e) => e == StampError::Rng,
            },
    {
        let mut rnd: [u8; 16] = [0u8; 16];
        match outside::random_fill(&mut rnd) {
            Ok(_) => Ok(Self::wifi_ssid_from(&rnd)),
            Err(_) => Err(StampError::Rng),
        }
    }

    /// A random passphrase of 24 letters and digits.
    pub fn generate_wifi_password() -> (r: Result<heapless::String<63>, StampError>)
        ensures
            match r {
                Ok(s) => outside::psk_text(s).len() == 24 && alphanumeric(outside::psk_text(s)),
                Err(e) => e == StampError::Rng,
            },
    {
        let mut rnd: [u8; 24] = [0u8; 24];
        match outside::random_fill(&mut rnd) {
            Ok(_) => Ok(Self::wifi_password_from(&rnd)),
            Err(_) => Err(StampError::Rng),
        }
    }
}

// ---------------------------------------------------------------------------
// A new configuration
// ---------------------------------------------------------------------------

/// The configuration of a device that starts for the first time.
pub open spec fn fresh(
    hostkey: SignKeyModel,
    ssid: Seq<char>,
    pw: Seq<char>,
    mac: Seq<u8>,
    pins: UartPins,
) -> ConfigModel {
    ConfigModel {
        hostkey,
        pubkeys: Seq::new(KEY_SLOTS as nat, |i: int| None),
        wifi_ap_ssid: ssid,
        wifi_ap_pw: pw,
        wifi_ap_band: hal::BandMode::Band2_4G.code(),
        wifi_sta_ssid: Seq::empty(),
        wifi_sta_pw: Seq::empty(),
        mac,
        ipv4_static: None,
        ipv6_static: None,
        uart_pins: pins,
        uart_params: UartParams {
            baud: 115200,
            data_bits: 8,
            parity: hal::Parity::NoParity,
            stop_bits: 1,
        },
        first_login: true,
    }
}

/// Whether a configuration is one that a first start can come up with.
pub open spec fn is_fresh(c: ConfigModel, mac: Seq<u8>, pins: UartPins) -> bool {
    &&& c.hostkey is Ed25519
    &&& c.wifi_ap_ssid.len() == 16 && alphanumeric(c.wifi_ap_ssid)
    &&& c.wifi_ap_pw.len() == 24 && alphanumeric(c.wifi_ap_pw)
    &&& c == fresh(c.hostkey, c.wifi_ap_ssid, c.wifi_ap_pw, mac, pins)
}

impl SSHStampConfig {
    /// The version of the stored format.
    pub const CURRENT_VERSION: u8 = 12;

    /// A first configuration made of what was generated for it.
    pub fn with_generated(
        hostkey: SignKey,
        wifi_ap_ssid: heapless::String<32>,
        wifi_ap_pw: heapless::String<63>,
        default_mac: [u8; 6],
        uart_pins: UartPins,
    ) -> (c: SSHStampConfig)
        ensures
            c@ == fresh(
                hostkey@,
                outside::ssid_text(wifi_ap_ssid),
                outside::psk_text(wifi_ap_pw),
                default_mac@,
                uart_pins,
            ),
    {
        let c = SSHStampConfig {
            hostkey,
            pubkeys: [None, None, None],
            wifi_ap_ssid,
            wifi_ap_pw,
            wifi_ap_band: hal::BandMode::Band2_4G.to_u8(),
            wifi_sta_ssid: outside::ssid_new(),
            wifi_sta_pw: outside::psk_new(),
            mac: default_mac,
            ipv4_static: None,
            ipv6_static: None,
            uart_pins,
            uart_params: UartParams::default(),
            first_login: true,
        };
        assert(c@.pubkeys == Seq::new(KEY_SLOTS as nat, |i: int| None::<Seq<u8>>));
        c
    }

    /// A new host key: an Ed25519 key is its seed, which is 32 random bytes.
    pub fn generate_hostkey() -> (r: Result<SignKey, StampError>)
        ensures
            match r {
                Ok(k) => k is Ed25519,
                Err(e) => e == StampError::Rng,
            },
    {
        let mut seed: [u8; 32] = [0u8; 32];
        match outside::random_fill(&mut seed) {
            Ok(_) => Ok(SignKey::Ed25519(seed)),
            Err(_) => Err(StampError::Rng),
        }
    }

    /// Creates a configuration with a new host key, SSID and passphrase.
    ///
    /// `default_mac` is the address of the device, `uart_pins` its pin assignment.
    /// Fails only where the random numbers do.
    pub fn new(default_mac: [u8; 6], uart_pins: UartPins) -> (r: Result<
        SSHStampConfig,
        StampError,
    >)
        ensures
            match r {
                Ok(c) => is_fresh(c@, default_mac@, uart_pins),
                Err(e) => e == StampError::Rng,
            },
    {
        let hostkey = Self::generate_hostkey()?;
        let ssid = Self::generate_wifi_ssid()?;
        let pw = Self::generate_wifi_password()?;
        Ok(Self::with_generated(hostkey, ssid, pw, default_mac, uart_pins))
    }
}

// ---------------------------------------------------------------------------
// Client keys
// ---------------------------------------------------------------------------

/// The slot for a new key: the first empty one from `from` on, or else the first
/// of all.
pub open spec fn slot_for(slots: Seq<Option<Seq<u8>>>, from: int) -> int
    decreases slots.len() - from,
{
    if from >= slots.len() {
        0
    } else if slots[from] is None {
        from
    } else {
        slot_for(slots, from + 1)
    }
}

/// The slots after a key was added.
pub open spec fn with_key(slots: Seq<Option<Seq<u8>>>, key: Seq<u8>) -> Seq<Option<Seq<u8>>> {
    slots.update(slot_for(slots, 0), Some(key))
}

impl SSHStampConfig {
    /// Adds a key that was read, if it is an Ed25519 key: in the first empty slot,
    /// or over the first one if none is empty.
    pub fn add_key(&mut self, key: OpensshKey) -> (r: Result<(), StampError>)
        ensures
            match key {
                OpensshKey::Ed25519(k) => r is Ok && final(self)@ == (ConfigModel {
                    pubkeys: with_key(old(self)@.pubkeys, k@),
                    ..old(self)@
                }),
                OpensshKey::Other => r == Err::<(), StampError>(StampError::BadKey) && *final(self)
                    == *old(self),
            },
    {
        let newk = match key {
            OpensshKey::Ed25519(k) => Ed25519PubKey { key: k },
            OpensshKey::Other => {
                return Err(StampError::BadKey);
            },
        };
        let ghost slots = self@.pubkeys;
        let mut i: usize = 0;
        while i < KEY_SLOTS
            invariant
                i <= KEY_SLOTS,
                slots == slots_model(self.pubkeys@),
                slot_for(slots, 0) == slot_for(slots, i as int),
                *self == *old(self),
                slots == old(self)@.pubkeys,
                key == OpensshKey::Ed25519(newk.key),
            decreases KEY_SLOTS - i,
        {
            if self.pubkeys[i].is_none() {
                self.pubkeys[i] = Some(newk);
                assert(self@.pubkeys == with_key(slots, newk.key@));
                return Ok(());
            }
            i = i + 1;
        }
        self.pubkeys[0] = Some(newk);
        assert(self@.pubkeys == with_key(slots, newk.key@));
        Ok(())
    }

    /// Adds the Ed25519 key of a line in the OpenSSH format.
    pub fn add_pubkey(&mut self, key_str: &str) -> (r: Result<(), StampError>)
        ensures
            match outside::openssh_key(outside::trimmed(key_str@)) {
                None => r == Err::<(), StampError>(StampError::KeyFormat) && *final(self) == *old(
                    self,
                ),
                Some(None) => r == Err::<(), StampError>(StampError::BadKey) && *final(self)
                    == *old(self),
                Some(Some(k)) => r is Ok && final(self)@ == (ConfigModel {
                    pubkeys: with_key(old(self)@.pubkeys, k@),
                    ..old(self)@
                }),
            },
    {
        match outside::parse_openssh(key_str.trim()) {
            Ok(key) => self.add_key(key),
            Err(_) => Err(StampError::KeyFormat),
        }
    }
}

/// A key that was added is in one of the slots, and no other key came in.
pub proof fn lemma_added_key_is_held(slots: Seq<Option<Seq<u8>>>, key: Seq<u8>)
    requires
        slots.len() > 0,
    ensures
        with_key(slots, key).len() == slots.len(),
        with_key(slots, key).contains(Some(key)),
        forall|i: int|
            0 <= i < slots.len() ==> #[trigger] with_key(slots, key)[i] == slots[i] || with_key(
                slots,
                key,
            )[i] == Some(key),
{
    lemma_slot_for(slots, 0);
    assert(with_key(slots, key)[slot_for(slots, 0)] == Some(key));
}

/// While a slot is empty, adding a key takes no other key away.
pub proof fn lemma_added_key_replaces_none(
    slots: Seq<Option<Seq<u8>>>,
    key: Seq<u8>,
    other: Seq<u8>,
)
    requires
        slots.contains(None),
        slots.contains(Some(other)),
    ensures
        with_key(slots, key).contains(Some(other)),
{
    lemma_slot_for(slots, 0);
    let i = choose|i: int| 0 <= i < slots.len() && slots[i] == Some(other);
    assert(with_key(slots, key)[i] == Some(other));
}

proof fn lemma_slot_for(slots: Seq<Option<Seq<u8>>>, from: int)
    requires
        0 <= from <= slots.len(),
    ensures
        slots.len() > 0 ==> 0 <= slot_for(slots, from) < slots.len(),
        (exists|i: int| from <= i < slots.len() && slots[i] is None) ==> slots[slot_for(
            slots,
            from,
        )] is None,
    decreases slots.len() - from,
{
    if from < slots.len() && slots[from] is Some {
        lemma_slot_for(slots, from + 1);
    }
}

} // verus!
