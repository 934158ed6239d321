//! Encoding of a configuration, and what is read back of it.

use vstd::prelude::*;

use crate::config;
use crate::config::{
    Ed25519PubKey, SSHStampConfig, SignKey, StaticConfigV4, StaticConfigV6, UartPins,
};
use crate::hal::{Parity, UartParams};
use crate::outside;
use crate::settings::KEY_SLOTS;
use crate::wire;
use crate::wire::{Sink, Source, WireError};

verus! {

// ---------------------------------------------------------------------------
// Encoding
// ---------------------------------------------------------------------------

/// The encoding of a host key: the seed. A key held by an agent has none.
pub open spec fn signkey_bytes(k: config::SignKeyModel) -> Result<Seq<u8>, WireError> {
    match k {
        config::SignKeyModel::Ed25519(seed) => Ok(seed),
        config::SignKeyModel::AgentEd25519(_) => Err(WireError::UnknownVariant),
    }
}

/// The encoding of an optional value: whether it is there, and its own encoding.
pub open spec fn option_bytes(v: Option<Seq<u8>>) -> Seq<u8> {
    match v {
        Some(b) => wire::bool_bytes(true) + b,
        None => wire::bool_bytes(false),
    }
}

pub open spec fn slot_bytes(slot: Option<Seq<u8>>) -> Seq<u8> {
    match slot {
        Some(k) => option_bytes(Some(wire::blob_bytes(k))),
        None => option_bytes(None),
    }
}

pub open spec fn slots_bytes(slots: Seq<Option<Seq<u8>>>) -> Seq<u8>
    decreases slots.len(),
{
    if slots.len() == 0 {
        Seq::empty()
    } else {
        slot_bytes(slots[0]) + slots_bytes(slots.skip(1))
    }
}

pub open spec fn wifi_bytes(c: config::ConfigModel) -> Seq<u8> {
    wire::text_bytes(c.wifi_ap_ssid) + (wire::text_bytes(c.wifi_ap_pw) + (seq![c.wifi_ap_band] + (
    wire::text_bytes(c.wifi_sta_ssid) + (wire::text_bytes(c.wifi_sta_pw) + c.mac))))
}

pub open spec fn ipv4_bytes(v: Option<config::StaticV4Model>) -> Seq<u8> {
    match v {
        Some(c) => wire::bool_bytes(true) + (wire::be_bytes(c.address) + (seq![c.prefix_len]
            + option_bytes(
            match c.gateway {
                Some(g) => Some(wire::be_bytes(g)),
                None => None,
            },
        ))),
        None => wire::bool_bytes(false),
    }
}

pub open spec fn ipv6_bytes(v: Option<config::StaticV6Model>) -> Seq<u8> {
    match v {
        Some(c) => wire::bool_bytes(true) + (c.address + (seq![c.prefix_len] + option_bytes(
            c.gateway,
        ))),
        None => wire::bool_bytes(false),
    }
}

pub open spec fn uart_bytes(pins: UartPins, params: UartParams) -> Seq<u8> {
    seq![pins.rx] + (seq![pins.tx] + (wire::be_bytes(params.baud) + (seq![params.data_bits] + (
    seq![params.parity.code()] + seq![params.stop_bits]))))
}

/// The bytes of the static IPv6 address, where the firmware keeps one.
pub open spec fn ipv6_part(c: config::ConfigModel, ipv6: bool) -> Seq<u8> {
    if ipv6 {
        ipv6_bytes(c.ipv6_static)
    } else {
        Seq::empty()
    }
}

/// Everything after the host key.
pub open spec fn body_bytes(c: config::ConfigModel, ipv6: bool) -> Seq<u8> {
    slots_bytes(c.pubkeys) + (wifi_bytes(c) + (ipv4_bytes(c.ipv4_static) + (ipv6_part(c, ipv6) + (
    uart_bytes(c.uart_pins, c.uart_params) + wire::bool_bytes(c.first_login)))))
}

/// The encoding of a configuration, in firmware with or without IPv6.
pub open spec fn config_bytes(c: config::ConfigModel, ipv6: bool) -> Result<Seq<u8>, WireError> {
    match signkey_bytes(c.hostkey) {
        Ok(k) => Ok(k + body_bytes(c, ipv6)),
        Err(e) => Err(e),
    }
}

// ---------------------------------------------------------------------------
// Encoding, piece by piece
// ---------------------------------------------------------------------------

/// The pieces of an optional value: whether it is there, and its own pieces.
pub open spec fn option_pieces(v: Option<Seq<Seq<u8>>>) -> Seq<Seq<u8>> {
    match v {
        Some(p) => seq![wire::bool_bytes(true)] + p,
        None => seq![wire::bool_bytes(false)],
    }
}

pub open spec fn slot_pieces(slot: Option<Seq<u8>>) -> Seq<Seq<u8>> {
    match slot {
        Some(k) => option_pieces(Some(wire::blob_pieces(k))),
        None => option_pieces(None),
    }
}

pub open spec fn slots_pieces(slots: Seq<Option<Seq<u8>>>) -> Seq<Seq<u8>>
    decreases slots.len(),
{
    if slots.len() == 0 {
        Seq::empty()
    } else {
        slot_pieces(slots[0]) + slots_pieces(slots.skip(1))
    }
}

pub open spec fn wifi_pieces(c: config::ConfigModel) -> Seq<Seq<u8>> {
    wire::text_pieces(c.wifi_ap_ssid) + (wire::text_pieces(c.wifi_ap_pw) + (
    seq![seq![c.wifi_ap_band]] + (wire::text_pieces(c.wifi_sta_ssid) + (wire::text_pieces(
        c.wifi_sta_pw,
    ) + seq![c.mac]))))
}

pub open spec fn ipv4_pieces(v: Option<config::StaticV4Model>) -> Seq<Seq<u8>> {
    match v {
        Some(c) => seq![wire::bool_bytes(true), wire::be_bytes(c.address), seq![c.prefix_len]]
            + option_pieces(
            match c.gateway {
                Some(g) => Some(seq![wire::be_bytes(g)]),
                None => None,
            },
        ),
        None => seq![wire::bool_bytes(false)],
    }
}

pub open spec fn ipv6_pieces(v: Option<config::StaticV6Model>) -> Seq<Seq<u8>> {
    match v {
        Some(c) => seq![wire::bool_bytes(true), c.address, seq![c.prefix_len]] + option_pieces(
            match c.gateway {
                Some(g) => Some(seq![g]),
                None => None,
            },
        ),
        None => seq![wire::bool_bytes(false)],
    }
}

pub open spec fn uart_pieces(pins: UartPins, params: UartParams) -> Seq<Seq<u8>> {
    seq![
        seq![pins.rx],
        seq![pins.tx],
        wire::be_bytes(params.baud),
        seq![params.data_bits],
        seq![params.parity.code()],
        seq![params.stop_bits],
    ]
}

/// The pieces of the static IPv6 address, where the firmware keeps one.
pub open spec fn ipv6_part_pieces(c: config::ConfigModel, ipv6: bool) -> Seq<Seq<u8>> {
    if ipv6 {
        ipv6_pieces(c.ipv6_static)
    } else {
        Seq::empty()
    }
}

/// The pieces of everything after the host key.
pub open spec fn body_pieces(c: config::ConfigModel, ipv6: bool) -> Seq<Seq<u8>> {
    slots_pieces(c.pubkeys) + (wifi_pieces(c) + (ipv4_pieces(c.ipv4_static) + (ipv6_part_pieces(
        c,
        ipv6,
    ) + (uart_pieces(c.uart_pins, c.uart_params) + seq![wire::bool_bytes(c.first_login)]))))
}

/// The pieces that the encoding of a configuration is pushed in: one for each number, array and
/// length, and one for the bytes of a text.
pub open spec fn config_pieces(c: config::ConfigModel, ipv6: bool) -> Result<
    Seq<Seq<u8>>,
    WireError,
> {
    match signkey_bytes(c.hostkey) {
        Ok(k) => Ok(seq![k] + body_pieces(c, ipv6)),
        Err(e) => Err(e),
    }
}

pub fn enc_signkey(k: &SignKey, s: &mut Sink) -> (r: Result<(), WireError>)
    ensures
        match signkey_bytes(k@) {
            Ok(b) => r is Ok && final(s)@ == old(s)@ + seq![b],
            Err(e) => r == Err::<(), WireError>(e) && final(s)@ == old(s)@,
        },
{
    match k {
        SignKey::Ed25519(seed) => {
            wire::enc_bytes(seed, s);
            Ok(())
        },
        SignKey::AgentEd25519(_) => Err(WireError::UnknownVariant),
    }
}

/// Encodes an optional value whose own encoding is at hand.
pub fn enc_option(v: Option<&Sink>, s: &mut Sink)
    ensures
        final(s)@ == old(s)@ + option_pieces(
            match v {
                Some(p) => Some(p@),
                None => None,
            },
        ),
{
    let ghost before = s@;
    match v {
        Some(p) => {
            wire::enc_bool(true, s);
            s.push_all(p);
            assert(s@ == before + (seq![wire::bool_bytes(true)] + p@));
        },
        None => {
            wire::enc_bool(false, s);
        },
    }
}

fn enc_slot(slot: &Option<Ed25519PubKey>, s: &mut Sink)
    ensures
        final(s)@ == old(s)@ + slot_pieces(config::slot_model(*slot)),
{
    match slot {
        Some(k) => {
            let mut blob = Sink::new();
            wire::enc_u32(32, &mut blob);
            wire::enc_bytes(&k.key, &mut blob);
            assert(blob@ == wire::blob_pieces(k.key@));
            enc_option(Some(&blob), s);
        },
        None => {
            enc_option(None, s);
        },
    }
}

fn enc_slots(slots: &[Option<Ed25519PubKey>; KEY_SLOTS], s: &mut Sink)
    ensures
        final(s)@ == old(s)@ + slots_pieces(config::slots_model(slots@)),
{
    let ghost all = config::slots_model(slots@);
    let ghost before = s@;
    let mut i: usize = 0;
    assert(all.skip(0) == all);
    assert(s@ + slots_pieces(all.skip(0)) == before + slots_pieces(all));
    while i < KEY_SLOTS
        invariant
            i <= KEY_SLOTS,
            all == config::slots_model(slots@),
            s@ + slots_pieces(all.skip(i as int)) == before + slots_pieces(all),
        decreases KEY_SLOTS - i,
    {
        let ghost at_i = s@;
        enc_slot(&slots[i], s);
        proof {
            assert(all.skip(i as int)[0] == config::slot_model(slots@[i as int]));
            assert(all.skip(i as int).skip(1) == all.skip(i + 1));
            lemma_grouped(at_i, slot_pieces(all[i as int]), slots_pieces(all.skip(i + 1)));
        }
        i = i + 1;
    }
    assert(all.skip(KEY_SLOTS as int).len() == 0);
    assert(s@ == s@ + slots_pieces(all.skip(KEY_SLOTS as int)));
}

pub fn enc_ipv4_config(v: &Option<StaticConfigV4>, s: &mut Sink)
    ensures
        final(s)@ == old(s)@ + ipv4_pieces(
            match v {
                Some(c) => Some(c@),
                None => None,
            },
        ),
{
    let ghost before = s@;
    match v {
        Some(c) => {
            wire::enc_bool(true, s);
            wire::enc_u32(c.address(), s);
            wire::enc_u8(c.prefix_len(), s);
            let ghost front = seq![
                wire::bool_bytes(true),
                wire::be_bytes(c@.address),
                seq![c@.prefix_len],
            ];
            assert(s@ == before + front);
            match c.gateway() {
                Some(g) => {
                    let mut gateway = Sink::new();
                    wire::enc_u32(g, &mut gateway);
                    assert(gateway@ == seq![wire::be_bytes(g)]);
                    enc_option(Some(&gateway), s);
                    proof {
                        lemma_grouped(before, front, option_pieces(Some(gateway@)));
                    }
                },
                None => {
                    enc_option(None, s);
                    proof {
                        lemma_grouped(before, front, option_pieces(None));
                    }
                },
            }
        },
        None => {
            wire::enc_bool(false, s);
        },
    }
}

pub fn enc_ipv6_config(v: &Option<StaticConfigV6>, s: &mut Sink)
    ensures
        final(s)@ == old(s)@ + ipv6_pieces(
            match v {
                Some(c) => Some(c@),
                None => None,
            },
        ),
{
    let ghost before = s@;
    match v {
        Some(c) => {
            wire::enc_bool(true, s);
            wire::enc_bytes(c.address(), s);
            wire::enc_u8(c.prefix_len(), s);
            let ghost front = seq![wire::bool_bytes(true), c@.address, seq![c@.prefix_len]];
            assert(s@ == before + front);
            match c.gateway() {
                Some(g) => {
                    let mut gateway = Sink::new();
                    wire::enc_bytes(&g, &mut gateway);
                    assert(gateway@ == seq![g@]);
                    enc_option(Some(&gateway), s);
                    proof {
                        lemma_grouped(before, front, option_pieces(Some(gateway@)));
                    }
                },
                None => {
                    enc_option(None, s);
                    proof {
                        lemma_grouped(before, front, option_pieces(None));
                    }
                },
            }
        },
        None => {
            wire::enc_bool(false, s);
        },
    }
}

fn enc_wifi(c: &SSHStampConfig, s: &mut Sink)
    ensures
        final(s)@ == old(s)@ + wifi_pieces(c@),
{
    let ghost start = s@;
    wire::enc_str(outside::ssid_str(&c.wifi_ap_ssid), s);
    wire::enc_str(outside::psk_str(&c.wifi_ap_pw), s);
    wire::enc_u8(c.wifi_ap_band, s);
    wire::enc_str(outside::ssid_str(&c.wifi_sta_ssid), s);
    wire::enc_str(outside::psk_str(&c.wifi_sta_pw), s);
    wire::enc_bytes(&c.mac, s);
    proof {
        lemma_nested(
            start,
            wire::text_pieces(c@.wifi_ap_ssid),
            wire::text_pieces(c@.wifi_ap_pw),
            seq![seq![c.wifi_ap_band]],
            wire::text_pieces(c@.wifi_sta_ssid),
            wire::text_pieces(c@.wifi_sta_pw),
            seq![c.mac@],
        );
    }
}

fn enc_uart(c: &SSHStampConfig, s: &mut Sink)
    ensures
        final(s)@ == old(s)@ + uart_pieces(c.uart_pins, c.uart_params),
{
    let ghost start = s@;
    wire::enc_u8(c.uart_pins.rx, s);
    wire::enc_u8(c.uart_pins.tx, s);
    wire::enc_u32(c.uart_params.baud, s);
    wire::enc_u8(c.uart_params.data_bits, s);
    wire::enc_u8(c.uart_params.parity.to_u8(), s);
    wire::enc_u8(c.uart_params.stop_bits, s);
    assert(s@ == start + uart_pieces(c.uart_pins, c.uart_params));
}

/// Pieces appended one by one are what they are when taken together first.
proof fn lemma_nested<A>(
    start: Seq<A>,
    a: Seq<A>,
    b: Seq<A>,
    c: Seq<A>,
    d: Seq<A>,
    e: Seq<A>,
    f: Seq<A>,
)
    ensures
        start + a + b + c + d + e + f == start + (a + (b + (c + (d + (e + f))))),
{
}

impl SSHStampConfig {
    /// Pushes the encoding of the configuration to `s`.
    pub fn enc(&self, ipv6: bool, s: &mut Sink) -> (r: Result<(), WireError>)
        ensures
            match config_pieces(self@, ipv6) {
                Ok(p) => r is Ok && final(s)@ == old(s)@ + p,
                Err(e) => r == Err::<(), WireError>(e) && final(s)@ == old(s)@,
            },
    {
        let ghost start = s@;
        enc_signkey(&self.hostkey, s)?;
        let ghost after_key = s@;
        enc_slots(&self.pubkeys, s);
        enc_wifi(self, s);
        enc_ipv4_config(&self.ipv4_static, s);
        let ghost v6 = ipv6_part_pieces(self@, ipv6);
        let ghost before_v6 = s@;
        if ipv6 {
            enc_ipv6_config(&self.ipv6_static, s);
        }
        assert(s@ == before_v6 + v6);
        enc_uart(self, s);
        wire::enc_bool(self.first_login, s);
        proof {
            let k = seq![signkey_bytes(self@.hostkey)->Ok_0];
            lemma_nested(
                after_key,
                slots_pieces(self@.pubkeys),
                wifi_pieces(self@),
                ipv4_pieces(self@.ipv4_static),
                v6,
                uart_pieces(self.uart_pins, self.uart_params),
                seq![wire::bool_bytes(self.first_login)],
            );
            lemma_grouped(start, k, body_pieces(self@, ipv6));
        }
        Ok(())
    }
}

// ---------------------------------------------------------------------------
// The pieces put together
// ---------------------------------------------------------------------------

proof fn lemma_joined_option(v: Option<Seq<Seq<u8>>>)
    ensures
        wire::joined(option_pieces(v)) == option_bytes(
            match v {
                Some(p) => Some(wire::joined(p)),
                None => None,
            },
        ),
{
    match v {
        Some(p) => {
            wire::lemma_joined(seq![wire::bool_bytes(true)], p);
            wire::lemma_joined_one(wire::bool_bytes(true));
        },
        None => {
            wire::lemma_joined_one(wire::bool_bytes(false));
        },
    }
}

proof fn lemma_joined_slots(slots: Seq<Option<Seq<u8>>>)
    ensures
        wire::joined(slots_pieces(slots)) == slots_bytes(slots),
    decreases slots.len(),
{
    if slots.len() > 0 {
        match slots[0] {
            Some(k) => {
                lemma_joined_option(Some(wire::blob_pieces(k)));
                wire::lemma_joined_blob(k);
            },
            None => {
                lemma_joined_option(None);
            },
        }
        lemma_joined_slots(slots.skip(1));
        wire::lemma_joined(slot_pieces(slots[0]), slots_pieces(slots.skip(1)));
    }
}

proof fn lemma_joined_wifi(c: config::ConfigModel)
    ensures
        wire::joined(wifi_pieces(c)) == wifi_bytes(c),
{
    let t1 = wire::text_pieces(c.wifi_ap_ssid);
    let t2 = wire::text_pieces(c.wifi_ap_pw);
    let b = seq![seq![c.wifi_ap_band]];
    let t3 = wire::text_pieces(c.wifi_sta_ssid);
    let t4 = wire::text_pieces(c.wifi_sta_pw);
    let m = seq![c.mac];
    wire::lemma_joined(t1, t2 + (b + (t3 + (t4 + m))));
    wire::lemma_joined(t2, b + (t3 + (t4 + m)));
    wire::lemma_joined(b, t3 + (t4 + m));
    wire::lemma_joined(t3, t4 + m);
    wire::lemma_joined(t4, m);
    wire::lemma_joined_blob(vstd::utf8::encode_utf8(c.wifi_ap_ssid));
    wire::lemma_joined_blob(vstd::utf8::encode_utf8(c.wifi_ap_pw));
    wire::lemma_joined_blob(vstd::utf8::encode_utf8(c.wifi_sta_ssid));
    wire::lemma_joined_blob(vstd::utf8::encode_utf8(c.wifi_sta_pw));
    wire::lemma_joined_one(seq![c.wifi_ap_band]);
    wire::lemma_joined_one(c.mac);
}

proof fn lemma_joined_three(a: Seq<u8>, b: Seq<u8>, c: Seq<u8>, rest: Seq<Seq<u8>>)
    ensures
        wire::joined(seq![a, b, c] + rest) == a + (b + (c + wire::joined(rest))),
{
    assert(seq![a, b, c] + rest == seq![a] + (seq![b] + (seq![c] + rest)));
    wire::lemma_joined(seq![a], seq![b] + (seq![c] + rest));
    wire::lemma_joined(seq![b], seq![c] + rest);
    wire::lemma_joined(seq![c], rest);
    wire::lemma_joined_one(a);
    wire::lemma_joined_one(b);
    wire::lemma_joined_one(c);
}

/// The pieces of a static IPv4 address put together are its encoding.
pub proof fn lemma_joined_ipv4(v: Option<config::StaticV4Model>)
    ensures
        wire::joined(ipv4_pieces(v)) == ipv4_bytes(v),
{
    match v {
        Some(c) => {
            let g = match c.gateway {
                Some(g) => Some(seq![wire::be_bytes(g)]),
                None => None,
            };
            lemma_joined_three(
                wire::bool_bytes(true),
                wire::be_bytes(c.address),
                seq![c.prefix_len],
                option_pieces(g),
            );
            lemma_joined_option(g);
            if let Some(n) = c.gateway {
                wire::lemma_joined_one(wire::be_bytes(n));
            }
        },
        None => {
            wire::lemma_joined_one(wire::bool_bytes(false));
        },
    }
}

/// The pieces of a static IPv6 address put together are its encoding.
pub proof fn lemma_joined_ipv6(v: Option<config::StaticV6Model>)
    ensures
        wire::joined(ipv6_pieces(v)) == ipv6_bytes(v),
{
    match v {
        Some(c) => {
            let g = match c.gateway {
                Some(g) => Some(seq![g]),
                None => None,
            };
            lemma_joined_three(
                wire::bool_bytes(true),
                c.address,
                seq![c.prefix_len],
                option_pieces(g),
            );
            lemma_joined_option(g);
            if let Some(o) = c.gateway {
                wire::lemma_joined_one(o);
            }
        },
        None => {
            wire::lemma_joined_one(wire::bool_bytes(false));
        },
    }
}

proof fn lemma_joined_uart(pins: UartPins, params: UartParams)
    ensures
        wire::joined(uart_pieces(pins, params)) == uart_bytes(pins, params),
{
    let data = seq![params.data_bits];
    let parity = seq![params.parity.code()];
    let stop = seq![params.stop_bits];
    let rest = seq![data, parity, stop];
    assert(uart_pieces(pins, params) == seq![
        seq![pins.rx],
        seq![pins.tx],
        wire::be_bytes(params.baud),
    ] + rest);
    lemma_joined_three(seq![pins.rx], seq![pins.tx], wire::be_bytes(params.baud), rest);
    assert(rest == seq![data, parity, stop] + Seq::<Seq<u8>>::empty());
    lemma_joined_three(data, parity, stop, Seq::empty());
    assert(stop + Seq::<u8>::empty() == stop);
}

/// The pieces of a configuration put together are its encoding.
pub proof fn lemma_joined_config(c: config::ConfigModel, ipv6: bool)
    ensures
        config_bytes(c, ipv6) == match config_pieces(c, ipv6) {
            Ok(p) => Ok(wire::joined(p)),
            Err(e) => Err(e),
        },
{
    if let Ok(k) = signkey_bytes(c.hostkey) {
        let s = slots_pieces(c.pubkeys);
        let w = wifi_pieces(c);
        let v4 = ipv4_pieces(c.ipv4_static);
        let v6 = ipv6_part_pieces(c, ipv6);
        let u = uart_pieces(c.uart_pins, c.uart_params);
        let l = seq![wire::bool_bytes(c.first_login)];
        wire::lemma_joined(seq![k], body_pieces(c, ipv6));
        wire::lemma_joined(s, w + (v4 + (v6 + (u + l))));
        wire::lemma_joined(w, v4 + (v6 + (u + l)));
        wire::lemma_joined(v4, v6 + (u + l));
        wire::lemma_joined(v6, u + l);
        wire::lemma_joined(u, l);
        wire::lemma_joined_one(k);
        lemma_joined_slots(c.pubkeys);
        lemma_joined_wifi(c);
        lemma_joined_ipv4(c.ipv4_static);
        lemma_joined_ipv6(c.ipv6_static);
        lemma_joined_uart(c.uart_pins, c.uart_params);
        wire::lemma_joined_one(wire::bool_bytes(c.first_login));
        assert(wire::joined(v6) == ipv6_part(c, ipv6));
    }
}

// ---------------------------------------------------------------------------
// Decoding
// ---------------------------------------------------------------------------

pub open spec fn read_signkey(b: Seq<u8>) -> Result<(config::SignKeyModel, Seq<u8>), WireError> {
    match wire::dec_bytes(b, 32) {
        Ok((seed, rest)) => Ok((config::SignKeyModel::Ed25519(seed), rest)),
        Err(e) => Err(e),
    }
}

pub open spec fn read_slot(b: Seq<u8>) -> Result<(Option<Seq<u8>>, Seq<u8>), WireError> {
    match wire::dec_bool(b) {
        Err(e) => Err(e),
        Ok((false, rest)) => Ok((None, rest)),
        Ok((true, rest)) => match wire::dec_blob(rest, 32) {
            Err(e) => Err(e),
            Ok((key, rest)) => Ok((Some(key), rest)),
        },
    }
}

/// `n` key slots, one after the other.
pub open spec fn read_slots(b: Seq<u8>, n: nat) -> Result<
    (Seq<Option<Seq<u8>>>, Seq<u8>),
    WireError,
>
    decreases n,
{
    if n == 0 {
        Ok((Seq::empty(), b))
    } else {
        match read_slot(b) {
            Err(e) => Err(e),
            Ok((slot, rest)) => match read_slots(rest, (n - 1) as nat) {
                Err(e) => Err(e),
                Ok((slots, rest)) => Ok((seq![slot] + slots, rest)),
            },
        }
    }
}

/// A text for a field that holds `room` characters.
pub open spec fn read_text(b: Seq<u8>, room: nat) -> Result<(Seq<char>, Seq<u8>), WireError> {
    match wire::dec_str(b) {
        Err(e) => Err(e),
        Ok((t, rest)) => if t.len() <= room {
            Ok((t, rest))
        } else {
            Err(WireError::BadString)
        },
    }
}

/// The part of a configuration that concerns the radio, with the MAC address.
#[verifier::ext_equal]
pub struct WifiModel {
    pub ap_ssid: Seq<char>,
    pub ap_pw: Seq<char>,
    pub ap_band: u8,
    pub sta_ssid: Seq<char>,
    pub sta_pw: Seq<char>,
    pub mac: Seq<u8>,
}

pub open spec fn read_wifi(b: Seq<u8>) -> Result<(WifiModel, Seq<u8>), WireError> {
    match read_text(b, 32) {
        Err(e) => Err(e),
        Ok((ap_ssid, b)) => match read_text(b, 63) {
            Err(e) => Err(e),
            Ok((ap_pw, b)) => match wire::dec_u8(b) {
                Err(e) => Err(e),
                Ok((ap_band, b)) => match read_text(b, 32) {
                    Err(e) => Err(e),
                    Ok((sta_ssid, b)) => match read_text(b, 63) {
                        Err(e) => Err(e),
                        Ok((sta_pw, b)) => match wire::dec_bytes(b, 6) {
                            Err(e) => Err(e),
                            Ok((mac, b)) => Ok(
                                (WifiModel { ap_ssid, ap_pw, ap_band, sta_ssid, sta_pw, mac }, b),
                            ),
                        },
                    },
                },
            },
        },
    }
}

pub open spec fn read_option_u32(b: Seq<u8>) -> Result<(Option<u32>, Seq<u8>), WireError> {
    match wire::dec_bool(b) {
        Err(e) => Err(e),
        Ok((false, rest)) => Ok((None, rest)),
        Ok((true, rest)) => match wire::dec_u32(rest) {
            Err(e) => Err(e),
            Ok((v, rest)) => Ok((Some(v), rest)),
        },
    }
}

pub open spec fn read_option_octets(b: Seq<u8>) -> Result<(Option<Seq<u8>>, Seq<u8>), WireError> {
    match wire::dec_bool(b) {
        Err(e) => Err(e),
        Ok((false, rest)) => Ok((None, rest)),
        Ok((true, rest)) => match wire::dec_bytes(rest, 16) {
            Err(e) => Err(e),
            Ok((v, rest)) => Ok((Some(v), rest)),
        },
    }
}

pub open spec fn read_ipv4(b: Seq<u8>) -> Result<
    (Option<config::StaticV4Model>, Seq<u8>),
    WireError,
> {
    match wire::dec_bool(b) {
        Err(e) => Err(e),
        Ok((false, b)) => Ok((None, b)),
        Ok((true, b)) => match wire::dec_u32(b) {
            Err(e) => Err(e),
            Ok((address, b)) => match wire::dec_u8(b) {
                Err(e) => Err(e),
                Ok((prefix_len, b)) => if prefix_len > 32 {
                    Err(WireError::PacketWrong)
                } else {
                    match read_option_u32(b) {
                        Err(e) => Err(e),
                        Ok((gateway, b)) => Ok(
                            (
                                Some(
                                    config::StaticV4Model {
                                        address,
                                        prefix_len,
                                        gateway,
                                        dns_servers: Seq::empty(),
                                    },
                                ),
                                b,
                            ),
                        ),
                    }
                },
            },
        },
    }
}

pub open spec fn read_ipv6(b: Seq<u8>) -> Result<
    (Option<config::StaticV6Model>, Seq<u8>),
    WireError,
> {
    match wire::dec_bool(b) {
        Err(e) => Err(e),
        Ok((false, b)) => Ok((None, b)),
        Ok((true, b)) => match wire::dec_bytes(b, 16) {
            Err(e) => Err(e),
            Ok((address, b)) => match wire::dec_u8(b) {
                Err(e) => Err(e),
                Ok((prefix_len, b)) => if prefix_len > 128 {
                    Err(WireError::PacketWrong)
                } else {
                    match read_option_octets(b) {
                        Err(e) => Err(e),
                        Ok((gateway, b)) => Ok(
                            (
                                Some(
                                    config::StaticV6Model {
                                        address,
                                        prefix_len,
                                        gateway,
                                        dns_servers: Seq::empty(),
                                    },
                                ),
                                b,
                            ),
                        ),
                    }
                },
            },
        },
    }
}

pub open spec fn read_uart(b: Seq<u8>) -> Result<((UartPins, UartParams), Seq<u8>), WireError> {
    match wire::dec_u8(b) {
        Err(e) => Err(e),
        Ok((rx, b)) => match wire::dec_u8(b) {
            Err(e) => Err(e),
            Ok((tx, b)) => match wire::dec_u32(b) {
                Err(e) => Err(e),
                Ok((baud, b)) => match wire::dec_u8(b) {
                    Err(e) => Err(e),
                    Ok((data_bits, b)) => match wire::dec_u8(b) {
                        Err(e) => Err(e),
                        Ok((parity, b)) => match wire::dec_u8(b) {
                            Err(e) => Err(e),
                            Ok((stop_bits, b)) => Ok(
                                (
                                    (
                                        UartPins { rx, tx },
                                        UartParams {
                                            baud,
                                            data_bits,
                                            parity: Parity::of_code(parity),
                                            stop_bits,
                                        },
                                    ),
                                    b,
                                ),
                            ),
                        },
                    },
                },
            },
        },
    }
}

/// The static addresses; the second one is there in firmware with IPv6 only.
pub open spec fn read_net(b: Seq<u8>, ipv6: bool) -> Result<
    ((Option<config::StaticV4Model>, Option<config::StaticV6Model>), Seq<u8>),
    WireError,
> {
    match read_ipv4(b) {
        Err(e) => Err(e),
        Ok((v4, b)) => if ipv6 {
            match read_ipv6(b) {
                Err(e) => Err(e),
                Ok((v6, b)) => Ok(((v4, v6), b)),
            }
        } else {
            Ok(((v4, None), b))
        },
    }
}

/// Everything after the radio settings.
pub open spec fn read_tail(b: Seq<u8>, ipv6: bool) -> Result<
    (
        (Option<config::StaticV4Model>, Option<config::StaticV6Model>, UartPins, UartParams, bool),
        Seq<u8>,
    ),
    WireError,
> {
    match read_net(b, ipv6) {
        Err(e) => Err(e),
        Ok(((v4, v6), b)) => match read_uart(b) {
            Err(e) => Err(e),
            Ok(((pins, params), b)) => match wire::dec_bool(b) {
                Err(e) => Err(e),
                Ok((first_login, b)) => Ok(((v4, v6, pins, params, first_login), b)),
            },
        },
    }
}

/// The configuration at the front of `b`, and the bytes after it.
pub open spec fn read_config(b: Seq<u8>, ipv6: bool) -> Result<
    (config::ConfigModel, Seq<u8>),
    WireError,
> {
    match read_signkey(b) {
        Err(e) => Err(e),
        Ok((hostkey, b)) => match read_slots(b, KEY_SLOTS as nat) {
            Err(e) => Err(e),
            Ok((pubkeys, b)) => match read_wifi(b) {
                Err(e) => Err(e),
                Ok((wifi, b)) => match read_tail(b, ipv6) {
                    Err(e) => Err(e),
                    Ok(((v4, v6, pins, params, first_login), b)) => Ok(
                        (
                            config::ConfigModel {
                                hostkey,
                                pubkeys,
                                wifi_ap_ssid: wifi.ap_ssid,
                                wifi_ap_pw: wifi.ap_pw,
                                wifi_ap_band: wifi.ap_band,
                                wifi_sta_ssid: wifi.sta_ssid,
                                wifi_sta_pw: wifi.sta_pw,
                                mac: wifi.mac,
                                ipv4_static: v4,
                                ipv6_static: v6,
                                uart_pins: pins,
                                uart_params: params,
                                first_login,
                            },
                            b,
                        ),
                    ),
                },
            },
        },
    }
}

pub fn dec_signkey(s: &mut Source) -> (r: Result<SignKey, WireError>)
    ensures
        match read_signkey(old(s).rest()) {
            Ok((k, rest)) => r matches Ok(v) && v@ == k && final(s).rest() == rest,
            Err(e) => r == Err::<SignKey, WireError>(e),
        },
{
    let seed: [u8; 32] = s.dec_array()?;
    Ok(SignKey::Ed25519(seed))
}

fn dec_slot(s: &mut Source) -> (r: Result<Option<Ed25519PubKey>, WireError>)
    ensures
        match read_slot(old(s).rest()) {
            Ok((k, rest)) => r matches Ok(v) && config::slot_model(v) == k && final(s).rest()
                == rest,
            Err(e) => r == Err::<Option<Ed25519PubKey>, WireError>(e),
        },
{
    if !s.dec_bool()? {
        return Ok(None);
    }
    let len: u32 = s.dec_u32()?;
    let key: [u8; 32] = s.dec_array()?;
    if len != 32 {
        return Err(WireError::SSHProto);
    }
    Ok(Some(Ed25519PubKey { key }))
}

fn dec_slots(s: &mut Source) -> (r: Result<[Option<Ed25519PubKey>; KEY_SLOTS], WireError>)
    ensures
        match read_slots(old(s).rest(), KEY_SLOTS as nat) {
            Ok((k, rest)) => r matches Ok(v) && config::slots_model(v@) == k && final(s).rest()
                == rest,
            Err(e) => r == Err::<[Option<Ed25519PubKey>; KEY_SLOTS], WireError>(e),
        },
{
    let ghost all = read_slots(s.rest(), KEY_SLOTS as nat);
    let mut slots: [Option<Ed25519PubKey>; KEY_SLOTS] = [None, None, None];
    let mut i: usize = 0;
    assert(config::slots_model(slots@).take(0) == Seq::<Option<Seq<u8>>>::empty());
    assert(read_slots(s.rest(), KEY_SLOTS as nat) matches Ok((ks, rest)) ==> Seq::<
        Option<Seq<u8>>,
    >::empty() + ks == ks);
    while i < KEY_SLOTS
        invariant
            i <= KEY_SLOTS,
            match read_slots(s.rest(), (KEY_SLOTS - i) as nat) {
                Ok((ks, rest)) => all == Ok::<_, WireError>(
                    (config::slots_model(slots@).take(i as int) + ks, rest),
                ),
                Err(e) => all == Err::<(Seq<Option<Seq<u8>>>, Seq<u8>), _>(e),
            },
            all == read_slots(old(s).rest(), KEY_SLOTS as nat),
        decreases KEY_SLOTS - i,
    {
        let ghost done = config::slots_model(slots@).take(i as int);
        let slot = dec_slot(s)?;
        slots[i] = slot;
        assert(config::slots_model(slots@).take(i + 1) == done + seq![config::slot_model(slot)]);
        assert(read_slots(s.rest(), (KEY_SLOTS - i - 1) as nat) matches Ok((ks, rest)) ==> done
            + seq![config::slot_model(slot)] + ks == done + (seq![config::slot_model(slot)] + ks));
        i = i + 1;
    }
    assert(config::slots_model(slots@).take(KEY_SLOTS as int) + Seq::<Option<Seq<u8>>>::empty()
        == config::slots_model(slots@));
    Ok(slots)
}

fn dec_ssid(s: &mut Source) -> (r: Result<heapless::String<32>, WireError>)
    ensures
        match read_text(old(s).rest(), 32) {
            Ok((t, rest)) => r matches Ok(v) && outside::ssid_text(v) == t && final(s).rest()
                == rest,
            Err(e) => r == Err::<heapless::String<32>, WireError>(e),
        },
{
    let ghost before = s.rest();
    let t = s.dec_str()?;
    proof {
        wire::lemma_text_read(before);
    }
    match outside::ssid_from(t) {
        Some(v) => Ok(v),
        None => Err(WireError::BadString),
    }
}

fn dec_psk(s: &mut Source) -> (r: Result<heapless::String<63>, WireError>)
    ensures
        match read_text(old(s).rest(), 63) {
            Ok((t, rest)) => r matches Ok(v) && outside::psk_text(v) == t && final(s).rest()
                == rest,
            Err(e) => r == Err::<heapless::String<63>, WireError>(e),
        },
{
    let ghost before = s.rest();
    let t = s.dec_str()?;
    proof {
        wire::lemma_text_read(before);
    }
    match outside::psk_from(t) {
        Some(v) => Ok(v),
        None => Err(WireError::BadString),
    }
}

pub fn dec_option_u32(s: &mut Source) -> (r: Result<Option<u32>, WireError>)
    ensures
        match read_option_u32(old(s).rest()) {
            Ok((v, rest)) => r == Ok::<Option<u32>, WireError>(v) && final(s).rest() == rest,
            Err(e) => r == Err::<Option<u32>, WireError>(e),
        },
{
    if s.dec_bool()? {
        Ok(Some(s.dec_u32()?))
    } else {
        Ok(None)
    }
}

pub fn dec_option_octets(s: &mut Source) -> (r: Result<Option<[u8; 16]>, WireError>)
    ensures
        match read_option_octets(old(s).rest()) {
            Ok((v, rest)) => r matches Ok(o) && v == (match o {
                Some(a) => Some(a@),
                None => None,
            }) && final(s).rest() == rest,
            Err(e) => r == Err::<Option<[u8; 16]>, WireError>(e),
        },
{
    if s.dec_bool()? {
        let octets: [u8; 16] = s.dec_array()?;
        Ok(Some(octets))
    } else {
        Ok(None)
    }
}

pub fn dec_ipv4_config(s: &mut Source) -> (r: Result<Option<StaticConfigV4>, WireError>)
    ensures
        match read_ipv4(old(s).rest()) {
            Ok((v, rest)) => r matches Ok(o) && v == (match o {
                Some(c) => Some(c@),
                None => None,
            }) && final(s).rest() == rest,
            Err(e) => r == Err::<Option<StaticConfigV4>, WireError>(e),
        },
{
    if !s.dec_bool()? {
        return Ok(None);
    }
    let address: u32 = s.dec_u32()?;
    let prefix_len: u8 = s.dec_u8()?;
    if prefix_len > 32 {
        return Err(WireError::PacketWrong);
    }
    let gateway = dec_option_u32(s)?;
    Ok(StaticConfigV4::new(address, prefix_len, gateway, Vec::new()))
}

pub fn dec_ipv6_config(s: &mut Source) -> (r: Result<Option<StaticConfigV6>, WireError>)
    ensures
        match read_ipv6(old(s).rest()) {
            Ok((v, rest)) => r matches Ok(o) && v == (match o {
                Some(c) => Some(c@),
                None => None,
            }) && final(s).rest() == rest,
            Err(e) => r == Err::<Option<StaticConfigV6>, WireError>(e),
        },
{
    if !s.dec_bool()? {
        return Ok(None);
    }
    let address: [u8; 16] = s.dec_array()?;
    let prefix_len: u8 = s.dec_u8()?;
    if prefix_len > 128 {
        return Err(WireError::PacketWrong);
    }
    let gateway = dec_option_octets(s)?;
    let dns_servers: Vec<[u8; 16]> = Vec::new();
    assert(dns_servers@.map_values(|d: [u8; 16]| d@) == Seq::<Seq<u8>>::empty());
    Ok(StaticConfigV6::new(address, prefix_len, gateway, dns_servers))
}

fn dec_uart(s: &mut Source) -> (r: Result<(UartPins, UartParams), WireError>)
    ensures
        match read_uart(old(s).rest()) {
            Ok((v, rest)) => r == Ok::<(UartPins, UartParams), WireError>(v) && final(s).rest()
                == rest,
            Err(e) => r == Err::<(UartPins, UartParams), WireError>(e),
        },
{
    let rx: u8 = s.dec_u8()?;
    let tx: u8 = s.dec_u8()?;
    let baud: u32 = s.dec_u32()?;
    let data_bits: u8 = s.dec_u8()?;
    let parity: u8 = s.dec_u8()?;
    let stop_bits: u8 = s.dec_u8()?;
    Ok(
        (
            UartPins { rx, tx },
            UartParams { baud, data_bits, parity: Parity::from_u8(parity), stop_bits },
        ),
    )
}

impl SSHStampConfig {
    /// Takes a configuration off the front of `s`.
    pub fn dec(s: &mut Source, ipv6: bool) -> (r: Result<SSHStampConfig, WireError>)
        ensures
            match read_config(old(s).rest(), ipv6) {
                Ok((m, rest)) => r matches Ok(c) && c@ == m && final(s).rest() == rest,
                Err(e) => r == Err::<SSHStampConfig, WireError>(e),
            },
    {
        let hostkey = dec_signkey(s)?;
        let pubkeys = dec_slots(s)?;

        let wifi_ap_ssid = dec_ssid(s)?;
        let wifi_ap_pw = dec_psk(s)?;
        let wifi_ap_band: u8 = s.dec_u8()?;
        let wifi_sta_ssid = dec_ssid(s)?;
        let wifi_sta_pw = dec_psk(s)?;
        let mac: [u8; 6] = s.dec_array()?;

        let ipv4_static = dec_ipv4_config(s)?;
        let ipv6_static = if ipv6 {
            dec_ipv6_config(s)?
        } else {
            None
        };

        let (uart_pins, uart_params) = dec_uart(s)?;
        let first_login = s.dec_bool()?;

        Ok(
            SSHStampConfig {
                hostkey,
                pubkeys,
                wifi_ap_ssid,
                wifi_ap_pw,
                wifi_ap_band,
                wifi_sta_ssid,
                wifi_sta_pw,
                mac,
                ipv4_static,
                ipv6_static,
                uart_pins,
                uart_params,
                first_login,
            },
        )
    }
}

// ---------------------------------------------------------------------------
// What is read back
// ---------------------------------------------------------------------------

/// Whether a configuration survives being written and read: what the fields'
/// types do not say by themselves.
pub open spec fn storable(c: config::ConfigModel, ipv6: bool) -> bool {
    &&& c.hostkey matches config::SignKeyModel::Ed25519(k) && k.len() == 32
    &&& c.pubkeys.len() == KEY_SLOTS
    &&& forall|i: int|
        0 <= i < c.pubkeys.len() ==> (#[trigger] c.pubkeys[i] matches Some(k) ==> k.len() == 32)
    &&& wire::printable(c.wifi_ap_ssid) && c.wifi_ap_ssid.len() <= 32
    &&& wire::printable(c.wifi_ap_pw) && c.wifi_ap_pw.len() <= 63
    &&& wire::printable(c.wifi_sta_ssid) && c.wifi_sta_ssid.len() <= 32
    &&& wire::printable(c.wifi_sta_pw) && c.wifi_sta_pw.len() <= 63
    &&& c.mac.len() == 6
    &&& c.ipv4_static matches Some(v) ==> v.prefix_len <= 32
    &&& c.ipv6_static matches Some(v) ==> ipv6 && v.prefix_len <= 128 && v.address.len() == 16 && (
    v.gateway matches Some(g) ==> g.len() == 16)
}

/// A configuration as it comes back: the name servers are not kept.
pub open spec fn stored(c: config::ConfigModel) -> config::ConfigModel {
    config::ConfigModel {
        ipv4_static: match c.ipv4_static {
            Some(v) => Some(config::StaticV4Model { dns_servers: Seq::empty(), ..v }),
            None => None,
        },
        ipv6_static: match c.ipv6_static {
            Some(v) => Some(config::StaticV6Model { dns_servers: Seq::empty(), ..v }),
            None => None,
        },
        ..c
    }
}

/// Three pieces appended from the left are what they are from the right.
pub proof fn lemma_grouped<A>(a: Seq<A>, b: Seq<A>, c: Seq<A>)
    ensures
        (a + b) + c == a + (b + c),
        (a + b).len() == a.len() + b.len(),
{
}

proof fn lemma_read_slot(slot: Option<Seq<u8>>, rest: Seq<u8>)
    requires
        slot matches Some(k) ==> k.len() == 32,
    ensures
        read_slot(slot_bytes(slot) + rest) == Ok::<_, WireError>((slot, rest)),
{
    match slot {
        Some(k) => {
            wire::lemma_dec_bool(true, wire::blob_bytes(k) + rest);
            wire::lemma_dec_blob(k, rest);
            assert(slot_bytes(slot) + rest == wire::bool_bytes(true) + (wire::blob_bytes(k)
                + rest));
        },
        None => {
            wire::lemma_dec_bool(false, rest);
        },
    }
}

/// A slot that is read before others is the first of them.
pub proof fn lemma_read_one_more(
    b: Seq<u8>,
    slot: Option<Seq<u8>>,
    after: Seq<u8>,
    slots: Seq<Option<Seq<u8>>>,
    rest: Seq<u8>,
)
    requires
        read_slot(b) == Ok::<_, WireError>((slot, after)),
        read_slots(after, slots.len()) == Ok::<_, WireError>((slots, rest)),
    ensures
        read_slots(b, slots.len() + 1) == Ok::<_, WireError>((seq![slot] + slots, rest)),
{
}

proof fn lemma_read_slots(slots: Seq<Option<Seq<u8>>>, rest: Seq<u8>)
    requires
        forall|i: int|
            0 <= i < slots.len() ==> (#[trigger] slots[i] matches Some(k) ==> k.len() == 32),
    ensures
        read_slots(slots_bytes(slots) + rest, slots.len()) == Ok::<_, WireError>((slots, rest)),
    decreases slots.len(),
{
    if slots.len() == 0 {
        assert(slots_bytes(slots) + rest == rest);
        assert(slots == Seq::<Option<Seq<u8>>>::empty());
    } else {
        let more = slots.skip(1);
        lemma_read_slots(more, rest);
        lemma_read_slot(slots[0], slots_bytes(more) + rest);
        lemma_grouped(slot_bytes(slots[0]), slots_bytes(more), rest);
        lemma_read_one_more(slots_bytes(slots) + rest, slots[0], slots_bytes(more) + rest, more, rest);
        assert(seq![slots[0]] + more == slots);
    }
}

proof fn lemma_read_text(t: Seq<char>, room: nat, rest: Seq<u8>)
    requires
        wire::printable(t),
        t.len() <= room <= u32::MAX,
    ensures
        read_text(wire::text_bytes(t) + rest, room) == Ok::<_, WireError>((t, rest)),
        wire::text_bytes(t).len() == 4 + t.len(),
{
    wire::lemma_dec_str(t, rest);
}

pub open spec fn wifi_part(c: config::ConfigModel) -> WifiModel {
    WifiModel {
        ap_ssid: c.wifi_ap_ssid,
        ap_pw: c.wifi_ap_pw,
        ap_band: c.wifi_ap_band,
        sta_ssid: c.wifi_sta_ssid,
        sta_pw: c.wifi_sta_pw,
        mac: c.mac,
    }
}

/// The radio settings are read back, and nothing after them is touched.
pub proof fn lemma_read_wifi(c: config::ConfigModel, rest: Seq<u8>)
    requires
        wire::printable(c.wifi_ap_ssid) && c.wifi_ap_ssid.len() <= 32,
        wire::printable(c.wifi_ap_pw) && c.wifi_ap_pw.len() <= 63,
        wire::printable(c.wifi_sta_ssid) && c.wifi_sta_ssid.len() <= 32,
        wire::printable(c.wifi_sta_pw) && c.wifi_sta_pw.len() <= 63,
        c.mac.len() == 6,
    ensures
        read_wifi(wifi_bytes(c) + rest) == Ok::<_, WireError>((wifi_part(c), rest)),
        wifi_bytes(c).len() <= 213,
{
    let (t1, t2, b, t3, t4) = (
        wire::text_bytes(c.wifi_ap_ssid),
        wire::text_bytes(c.wifi_ap_pw),
        seq![c.wifi_ap_band],
        wire::text_bytes(c.wifi_sta_ssid),
        wire::text_bytes(c.wifi_sta_pw),
    );
    let w4 = t4 + c.mac;
    let w3 = t3 + w4;
    let w2 = b + w3;
    let w1 = t2 + w2;
    lemma_grouped(t1, w1, rest);
    lemma_grouped(t2, w2, rest);
    lemma_grouped(b, w3, rest);
    lemma_grouped(t3, w4, rest);
    lemma_grouped(t4, c.mac, rest);
    lemma_read_text(c.wifi_ap_ssid, 32, w1 + rest);
    lemma_read_text(c.wifi_ap_pw, 63, w2 + rest);
    wire::lemma_dec_u8(c.wifi_ap_band, w3 + rest);
    lemma_read_text(c.wifi_sta_ssid, 32, w4 + rest);
    lemma_read_text(c.wifi_sta_pw, 63, c.mac + rest);
    wire::lemma_dec_bytes(c.mac, rest);
}

proof fn lemma_read_option_u32(v: Option<u32>, rest: Seq<u8>)
    ensures
        ({
            let b = option_bytes(
                match v {
                    Some(n) => Some(wire::be_bytes(n)),
                    None => None,
                },
            );
            read_option_u32(b + rest) == Ok::<_, WireError>((v, rest)) && b.len() <= 5
        }),
{
    match v {
        Some(n) => {
            lemma_grouped(wire::bool_bytes(true), wire::be_bytes(n), rest);
            wire::lemma_dec_bool(true, wire::be_bytes(n) + rest);
            wire::lemma_dec_u32(n, rest);
        },
        None => {
            wire::lemma_dec_bool(false, rest);
        },
    }
}

proof fn lemma_read_option_octets(v: Option<Seq<u8>>, rest: Seq<u8>)
    requires
        v matches Some(o) ==> o.len() == 16,
    ensures
        read_option_octets(option_bytes(v) + rest) == Ok::<_, WireError>((v, rest)),
        option_bytes(v).len() <= 17,
{
    match v {
        Some(o) => {
            lemma_grouped(wire::bool_bytes(true), o, rest);
            wire::lemma_dec_bool(true, o + rest);
            wire::lemma_dec_bytes(o, rest);
        },
        None => {
            wire::lemma_dec_bool(false, rest);
        },
    }
}

proof fn lemma_read_ipv4(v: Option<config::StaticV4Model>, rest: Seq<u8>)
    requires
        v matches Some(c) ==> c.prefix_len <= 32,
    ensures
        read_ipv4(ipv4_bytes(v) + rest) == Ok::<_, WireError>(
            (
                match v {
                    Some(c) => Some(config::StaticV4Model { dns_servers: Seq::empty(), ..c }),
                    None => None,
                },
                rest,
            ),
        ),
        ipv4_bytes(v).len() <= 11,
{
    match v {
        Some(c) => {
            let t = wire::bool_bytes(true);
            let a = wire::be_bytes(c.address);
            let p = seq![c.prefix_len];
            let g = option_bytes(
                match c.gateway {
                    Some(n) => Some(wire::be_bytes(n)),
                    None => None,
                },
            );
            lemma_grouped(t, a + (p + g), rest);
            lemma_grouped(a, p + g, rest);
            lemma_grouped(p, g, rest);
            wire::lemma_dec_bool(true, (a + (p + g)) + rest);
            wire::lemma_dec_u32(c.address, (p + g) + rest);
            wire::lemma_dec_u8(c.prefix_len, g + rest);
            lemma_read_option_u32(c.gateway, rest);
        },
        None => {
            wire::lemma_dec_bool(false, rest);
        },
    }
}

proof fn lemma_read_ipv6(v: Option<config::StaticV6Model>, rest: Seq<u8>)
    requires
        v matches Some(c) ==> c.prefix_len <= 128 && c.address.len() == 16 && (
        c.gateway matches Some(g) ==> g.len() == 16),
    ensures
        read_ipv6(ipv6_bytes(v) + rest) == Ok::<_, WireError>(
            (
                match v {
                    Some(c) => Some(config::StaticV6Model { dns_servers: Seq::empty(), ..c }),
                    None => None,
                },
                rest,
            ),
        ),
        ipv6_bytes(v).len() <= 35,
{
    match v {
        Some(c) => {
            let t = wire::bool_bytes(true);
            let p = seq![c.prefix_len];
            let g = option_bytes(c.gateway);
            lemma_grouped(t, c.address + (p + g), rest);
            lemma_grouped(c.address, p + g, rest);
            lemma_grouped(p, g, rest);
            wire::lemma_dec_bool(true, (c.address + (p + g)) + rest);
            wire::lemma_dec_bytes(c.address, (p + g) + rest);
            wire::lemma_dec_u8(c.prefix_len, g + rest);
            lemma_read_option_octets(c.gateway, rest);
        },
        None => {
            wire::lemma_dec_bool(false, rest);
        },
    }
}

proof fn lemma_read_uart(pins: UartPins, params: UartParams, rest: Seq<u8>)
    ensures
        read_uart(uart_bytes(pins, params) + rest) == Ok::<_, WireError>(((pins, params), rest)),
        uart_bytes(pins, params).len() == 9,
{
    let rx = seq![pins.rx];
    let tx = seq![pins.tx];
    let baud = wire::be_bytes(params.baud);
    let data = seq![params.data_bits];
    let parity = seq![params.parity.code()];
    let stop = seq![params.stop_bits];
    let u4 = parity + stop;
    let u3 = data + u4;
    let u2 = baud + u3;
    let u1 = tx + u2;
    lemma_grouped(rx, u1, rest);
    lemma_grouped(tx, u2, rest);
    lemma_grouped(baud, u3, rest);
    lemma_grouped(data, u4, rest);
    lemma_grouped(parity, stop, rest);
    wire::lemma_dec_u8(pins.rx, u1 + rest);
    wire::lemma_dec_u8(pins.tx, u2 + rest);
    wire::lemma_dec_u32(params.baud, u3 + rest);
    wire::lemma_dec_u8(params.data_bits, u4 + rest);
    wire::lemma_dec_u8(params.parity.code(), stop + rest);
    wire::lemma_dec_u8(params.stop_bits, rest);
}

proof fn lemma_read_tail(c: config::ConfigModel, ipv6: bool, rest: Seq<u8>)
    requires
        storable(c, ipv6),
    ensures
        read_tail(
            (ipv4_bytes(c.ipv4_static) + (ipv6_part(c, ipv6) + (uart_bytes(
                c.uart_pins,
                c.uart_params,
            ) + wire::bool_bytes(c.first_login)))) + rest,
            ipv6,
        ) == Ok::<_, WireError>(
            (
                (
                    stored(c).ipv4_static,
                    stored(c).ipv6_static,
                    c.uart_pins,
                    c.uart_params,
                    c.first_login,
                ),
                rest,
            ),
        ),
{
    let v4 = ipv4_bytes(c.ipv4_static);
    let v6 = ipv6_part(c, ipv6);
    let u = uart_bytes(c.uart_pins, c.uart_params);
    let l = wire::bool_bytes(c.first_login);
    lemma_grouped(v4, v6 + (u + l), rest);
    lemma_grouped(v6, u + l, rest);
    lemma_grouped(u, l, rest);
    lemma_read_ipv4(c.ipv4_static, (v6 + (u + l)) + rest);
    if ipv6 {
        lemma_read_ipv6(c.ipv6_static, (u + l) + rest);
    } else {
        assert(v6 + ((u + l) + rest) == (u + l) + rest);
    }
    lemma_read_uart(c.uart_pins, c.uart_params, l + rest);
    wire::lemma_dec_bool(c.first_login, rest);
}

/// A configuration that is written and read comes back, but for the name
/// servers, and nothing after it is touched.
#[verifier::rlimit(30)]
pub proof fn lemma_round_trip(c: config::ConfigModel, ipv6: bool, rest: Seq<u8>)
    requires
        storable(c, ipv6),
    ensures
        config_bytes(c, ipv6) matches Ok(b) && read_config(b + rest, ipv6) == Ok::<_, WireError>(
            (stored(c), rest),
        ),
{
    let k = c.hostkey->Ed25519_0;
    let s = slots_bytes(c.pubkeys);
    let w = wifi_bytes(c);
    let t = ipv4_bytes(c.ipv4_static) + (ipv6_part(c, ipv6) + (uart_bytes(
        c.uart_pins,
        c.uart_params,
    ) + wire::bool_bytes(c.first_login)));
    lemma_grouped(k, s + (w + t), rest);
    lemma_grouped(s, w + t, rest);
    lemma_grouped(w, t, rest);
    wire::lemma_dec_bytes(k, (s + (w + t)) + rest);
    lemma_read_slots(c.pubkeys, (w + t) + rest);
    lemma_read_wifi(c, t + rest);
    lemma_read_tail(c, ipv6, rest);
}

proof fn lemma_slots_size(slots: Seq<Option<Seq<u8>>>)
    requires
        forall|i: int|
            0 <= i < slots.len() ==> (#[trigger] slots[i] matches Some(k) ==> k.len() == 32),
    ensures
        slots_bytes(slots).len() <= 37 * slots.len(),
    decreases slots.len(),
{
    if slots.len() > 0 {
        lemma_slots_size(slots.skip(1));
        assert(slot_bytes(slots[0]).len() <= 37);
    }
}

/// The most that an encoded configuration takes.
pub const MAX_CONFIG_SIZE: usize = 412;

/// An encoded configuration takes at most [`MAX_CONFIG_SIZE`] bytes.
pub proof fn lemma_config_size(c: config::ConfigModel, ipv6: bool)
    requires
        storable(c, ipv6),
    ensures
        config_bytes(c, ipv6) matches Ok(b) && b.len() <= MAX_CONFIG_SIZE,
{
    let e = Seq::<u8>::empty();
    lemma_slots_size(c.pubkeys);
    lemma_read_wifi(c, e);
    lemma_read_ipv4(c.ipv4_static, e);
    if ipv6 {
        lemma_read_ipv6(c.ipv6_static, e);
    }
    lemma_read_uart(c.uart_pins, c.uart_params, e);
    assert(ipv6_part(c, ipv6).len() <= 35);
    assert(wire::bool_bytes(c.first_login).len() == 1);
}

proof fn lemma_slots_read(b: Seq<u8>, n: nat)
    ensures
        read_slots(b, n) matches Ok((slots, _)) ==> slots.len() == n && forall|i: int|
            0 <= i < n ==> (#[trigger] slots[i] matches Some(k) ==> k.len() == 32),
    decreases n,
{
    if n > 0 {
        if let Ok((slot, rest)) = read_slot(b) {
            lemma_slots_read(rest, (n - 1) as nat);
            if let Ok((slots, _)) = read_slots(rest, (n - 1) as nat) {
                let all = seq![slot] + slots;
                assert forall|i: int| 0 <= i < n implies (#[trigger] all[i] matches Some(k)
                    ==> k.len() == 32) by {
                    if i > 0 {
                        assert(all[i] == slots[i - 1]);
                    }
                }
            }
        }
    }
}

proof fn lemma_wifi_read(b: Seq<u8>)
    ensures
        read_wifi(b) matches Ok((w, _)) ==> {
            &&& wire::printable(w.ap_ssid) && w.ap_ssid.len() <= 32
            &&& wire::printable(w.ap_pw) && w.ap_pw.len() <= 63
            &&& wire::printable(w.sta_ssid) && w.sta_ssid.len() <= 32
            &&& wire::printable(w.sta_pw) && w.sta_pw.len() <= 63
            &&& w.mac.len() == 6
        },
{
    wire::lemma_text_read(b);
    if let Ok((_, b)) = read_text(b, 32) {
        wire::lemma_text_read(b);
        if let Ok((_, b)) = read_text(b, 63) {
            if let Ok((_, b)) = wire::dec_u8(b) {
                wire::lemma_text_read(b);
                if let Ok((_, b)) = read_text(b, 32) {
                    wire::lemma_text_read(b);
                }
            }
        }
    }
}

/// Whatever bytes a configuration is read from, it can be stored again, and
/// comes back as it is.
pub proof fn lemma_read_is_storable(b: Seq<u8>, ipv6: bool)
    ensures
        read_config(b, ipv6) matches Ok((c, _)) ==> storable(c, ipv6) && stored(c) == c,
{
    if let Ok((_, b)) = read_signkey(b) {
        lemma_slots_read(b, KEY_SLOTS as nat);
        if let Ok((_, b)) = read_slots(b, KEY_SLOTS as nat) {
            lemma_wifi_read(b);
        }
    }
}

/// The name servers leave no trace in the encoding.
pub proof fn lemma_stored_encoding(c: config::ConfigModel, ipv6: bool)
    ensures
        config_bytes(stored(c), ipv6) == config_bytes(c, ipv6),
{
}

/// A new configuration can be stored, and comes back as it is.
pub proof fn lemma_fresh_is_storable(c: SSHStampConfig, mac: [u8; 6], pins: UartPins, ipv6: bool)
    requires
        config::is_fresh(c@, mac@, pins),
    ensures
        storable(c@, ipv6),
        stored(c@) == c@,
{
    config::lemma_alphanumeric(c@.wifi_ap_ssid);
    config::lemma_alphanumeric(c@.wifi_ap_pw);
}

/// A configuration comes back, but for the name servers, exactly if it can be stored: no other
/// one is read as it was written.
pub proof fn lemma_comes_back_if_storable(c: config::ConfigModel, ipv6: bool, rest: Seq<u8>)
    ensures
        storable(c, ipv6) <==> (config_bytes(c, ipv6) matches Ok(b) && read_config(b + rest, ipv6)
            == Ok::<_, WireError>((stored(c), rest))),
{
    if storable(c, ipv6) {
        lemma_round_trip(c, ipv6, rest);
    } else if let Ok(b) = config_bytes(c, ipv6) {
        lemma_read_is_storable(b + rest, ipv6);
    }
}

} // verus!
