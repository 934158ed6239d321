//! How a configuration is laid out in bytes, and what is read back.

use vstd::prelude::*;
use vstd::utf8::*;

use crate::codec;
use crate::config;
use crate::config::{ConfigModel, SSHStampConfig, SignKeyModel, StaticConfigV4, StaticConfigV6};
use crate::hal::Parity;
use crate::wire;
use crate::wire::{Sink, Source, WireError};

verus! {

// ---------------------------------------------------------------------------
// The layout
// ---------------------------------------------------------------------------

/// The four bytes of a number, most significant first.
pub open spec fn number(n: u32) -> Seq<u8> {
    seq![
        (n / 0x100_0000) as u8,
        (n / 0x1_0000 % 0x100) as u8,
        (n / 0x100 % 0x100) as u8,
        (n % 0x100) as u8,
    ]
}

/// The number of bytes, and these.
pub open spec fn sized(b: Seq<u8>) -> Seq<u8> {
    number(b.len() as u32) + b
}

/// The byte for a value that is there or not.
pub open spec fn flag(there: bool) -> u8 {
    if there {
        1
    } else {
        0
    }
}

/// A key slot.
pub open spec fn slot(k: Option<Seq<u8>>) -> Seq<u8> {
    match k {
        Some(key) => seq![1u8] + sized(key),
        None => seq![0u8],
    }
}

/// A static IPv4 address: the address, its prefix and its gateway. The name servers are left out.
pub open spec fn static_v4(v: Option<config::StaticV4Model>) -> Seq<u8> {
    match v {
        Some(a) => seq![1u8] + (number(a.address) + (seq![a.prefix_len] + (match a.gateway {
            Some(g) => seq![1u8] + number(g),
            None => seq![0u8],
        }))),
        None => seq![0u8],
    }
}

/// A static IPv6 address, in the same way.
pub open spec fn static_v6(v: Option<config::StaticV6Model>) -> Seq<u8> {
    match v {
        Some(a) => seq![1u8] + (a.address + (seq![a.prefix_len] + (match a.gateway {
            Some(g) => seq![1u8] + g,
            None => seq![0u8],
        }))),
        None => seq![0u8],
    }
}

/// The number for a parity.
pub open spec fn parity_number(p: Parity) -> u8 {
    if p == Parity::NoParity {
        0
    } else if p == Parity::Even {
        1
    } else {
        2
    }
}

/// The line: its pins and its parameters.
pub open spec fn line(c: ConfigModel) -> Seq<u8> {
    seq![c.uart_pins.rx, c.uart_pins.tx] + (number(c.uart_params.baud) + seq![
        c.uart_params.data_bits,
        parity_number(c.uart_params.parity),
        c.uart_params.stop_bits,
    ])
}

/// A configuration after its host key, with three key slots.
pub open spec fn body(c: ConfigModel, ipv6: bool) -> Seq<u8> {
    (slot(c.pubkeys[0]) + (slot(c.pubkeys[1]) + slot(c.pubkeys[2]))) + ((sized(
        encode_utf8(c.wifi_ap_ssid),
    ) + (sized(encode_utf8(c.wifi_ap_pw)) + (seq![c.wifi_ap_band] + (sized(
        encode_utf8(c.wifi_sta_ssid),
    ) + (sized(encode_utf8(c.wifi_sta_pw)) + c.mac))))) + (static_v4(c.ipv4_static) + ((if ipv6 {
        static_v6(c.ipv6_static)
    } else {
        Seq::empty()
    }) + (line(c) + seq![flag(c.first_login)]))))
}

/// A configuration whose host key has this seed.
pub open spec fn encoded(seed: Seq<u8>, c: ConfigModel, ipv6: bool) -> Seq<u8> {
    seed + body(c, ipv6)
}

proof fn lemma_slots(slots: Seq<Option<Seq<u8>>>)
    requires
        slots.len() == 3,
    ensures
        codec::slots_bytes(slots) == slot(slots[0]) + (slot(slots[1]) + slot(slots[2])),
{
    let s1 = slots.skip(1);
    let s2 = s1.skip(1);
    let s3 = s2.skip(1);
    assert(s1[0] == slots[1] && s2[0] == slots[2]);
    assert(codec::slots_bytes(s3) == Seq::<u8>::empty());
    assert(codec::slots_bytes(s2) == slot(slots[2]));
    assert(codec::slots_bytes(s1) == slot(slots[1]) + slot(slots[2]));
}

proof fn lemma_line(c: ConfigModel)
    ensures
        codec::uart_bytes(c.uart_pins, c.uart_params) == line(c),
{
}

/// The encoding is laid out so.
pub proof fn lemma_layout(c: ConfigModel, ipv6: bool)
    requires
        c.pubkeys.len() == 3,
    ensures
        codec::config_bytes(c, ipv6) == match c.hostkey {
            SignKeyModel::Ed25519(seed) => Ok(encoded(seed, c, ipv6)),
            SignKeyModel::AgentEd25519(_) => Err(WireError::UnknownVariant),
        },
{
    lemma_slots(c.pubkeys);
    lemma_line(c);
    assert(codec::ipv4_bytes(c.ipv4_static) == static_v4(c.ipv4_static));
    assert(codec::ipv6_bytes(c.ipv6_static) == static_v6(c.ipv6_static));
}

/// A configuration is encoded behind what was there, laid out field by field. One whose host key
/// is held by an agent has no encoding, and leaves what was there.
pub proof fn lemma_enc(c: &SSHStampConfig, ipv6: bool, s: &mut Sink, r: Result<(), WireError>)
    requires
        call_ensures(SSHStampConfig::enc, (c, ipv6, s), r),
    ensures
        c@.hostkey matches SignKeyModel::Ed25519(seed) ==> r is Ok && wire::joined(final(s)@)
            == wire::joined(old(s)@) + encoded(seed, c@, ipv6),
        c@.hostkey is AgentEd25519 ==> r == Err::<(), WireError>(WireError::UnknownVariant)
            && final(s)@ == old(s)@,
{
    assert(c@.pubkeys.len() == 3);
    lemma_layout(c@, ipv6);
    codec::lemma_joined_config(c@, ipv6);
    if let Ok(p) = codec::config_pieces(c@, ipv6) {
        wire::lemma_joined(old(s)@, p);
    }
}

/// A host key is encoded as its seed; one that an agent holds has no encoding.
pub proof fn lemma_enc_signkey(k: &config::SignKey, s: &mut Sink, r: Result<(), WireError>)
    requires
        call_ensures(codec::enc_signkey, (k, s), r),
    ensures
        k@ matches SignKeyModel::Ed25519(seed) ==> r is Ok && final(s)@ == old(s)@.push(seed),
        k@ is AgentEd25519 ==> r == Err::<(), WireError>(WireError::UnknownVariant) && final(s)@
            == old(s)@,
{
}

/// An optional value is a flag of one and the value, or a flag of zero.
pub proof fn lemma_enc_option(v: Option<&Sink>, s: &mut Sink)
    requires
        call_ensures(codec::enc_option, (v, s), ()),
    ensures
        v matches Some(p) ==> final(s)@ == old(s)@.push(seq![1u8]) + p@,
        v is None ==> final(s)@ == old(s)@.push(seq![0u8]),
{
    if let Some(p) = v {
        assert(old(s)@ + (seq![seq![1u8]] + p@) == old(s)@.push(seq![1u8]) + p@);
    }
}

/// Static addresses are laid out so by themselves.
pub proof fn lemma_enc_static(
    v4: &Option<StaticConfigV4>,
    s: &mut Sink,
    v6: &Option<StaticConfigV6>,
    s2: &mut Sink,
)
    requires
        call_ensures(codec::enc_ipv4_config, (v4, s), ()),
        call_ensures(codec::enc_ipv6_config, (v6, s2), ()),
    ensures
        wire::joined(final(s)@) == wire::joined(old(s)@) + static_v4(
            match v4 {
                Some(c) => Some(c@),
                None => None,
            },
        ),
        wire::joined(final(s2)@) == wire::joined(old(s2)@) + static_v6(
            match v6 {
                Some(c) => Some(c@),
                None => None,
            },
        ),
{
    let m4 = match v4 {
        Some(c) => Some(c@),
        None => None,
    };
    let m6 = match v6 {
        Some(c) => Some(c@),
        None => None,
    };
    codec::lemma_joined_ipv4(m4);
    codec::lemma_joined_ipv6(m6);
    wire::lemma_joined(old(s)@, codec::ipv4_pieces(m4));
    wire::lemma_joined(old(s2)@, codec::ipv6_pieces(m6));
}

// ---------------------------------------------------------------------------
// What comes back
// ---------------------------------------------------------------------------

/// Whether a text is printable ASCII, a space among it, of at most so many characters.
pub open spec fn fits(t: Seq<char>, room: nat) -> bool {
    t.len() <= room && forall|i: int| 0 <= i < t.len() ==> ' ' <= #[trigger] t[i] <= '~'
}

/// What can be kept in flash: an Ed25519 host key, three slots, names and passphrases that print
/// and fit, prefixes in their range, and a static IPv6 address only in firmware with IPv6.
pub open spec fn keepable(c: ConfigModel, ipv6: bool) -> bool {
    &&& c.hostkey matches SignKeyModel::Ed25519(seed) && seed.len() == 32
    &&& c.pubkeys.len() == 3
    &&& c.pubkeys[0] matches Some(k) ==> k.len() == 32
    &&& c.pubkeys[1] matches Some(k) ==> k.len() == 32
    &&& c.pubkeys[2] matches Some(k) ==> k.len() == 32
    &&& fits(c.wifi_ap_ssid, 32) && fits(c.wifi_ap_pw, 63)
    &&& fits(c.wifi_sta_ssid, 32) && fits(c.wifi_sta_pw, 63)
    &&& c.mac.len() == 6
    &&& c.ipv4_static matches Some(v) ==> v.prefix_len <= 32
    &&& c.ipv6_static matches Some(v) ==> {
        &&& ipv6
        &&& v.prefix_len <= 128
        &&& v.address.len() == 16
        &&& v.gateway matches Some(g) ==> g.len() == 16
    }
}

/// Whether a configuration is another one without name servers.
pub open spec fn is_kept(from: ConfigModel, to: ConfigModel) -> bool {
    &&& to.hostkey == from.hostkey
    &&& to.pubkeys == from.pubkeys
    &&& to.wifi_ap_ssid == from.wifi_ap_ssid
    &&& to.wifi_ap_pw == from.wifi_ap_pw
    &&& to.wifi_ap_band == from.wifi_ap_band
    &&& to.wifi_sta_ssid == from.wifi_sta_ssid
    &&& to.wifi_sta_pw == from.wifi_sta_pw
    &&& to.mac == from.mac
    &&& to.ipv4_static is Some <==> from.ipv4_static is Some
    &&& from.ipv4_static matches Some(v) ==> (to.ipv4_static matches Some(w) && w.address
        == v.address && w.prefix_len == v.prefix_len && w.gateway == v.gateway
        && w.dns_servers.len() == 0)
    &&& to.ipv6_static is Some <==> from.ipv6_static is Some
    &&& from.ipv6_static matches Some(v) ==> (to.ipv6_static matches Some(w) && w.address
        == v.address && w.prefix_len == v.prefix_len && w.gateway == v.gateway
        && w.dns_servers.len() == 0)
    &&& to.uart_pins == from.uart_pins
    &&& to.uart_params == from.uart_params
    &&& to.first_login == from.first_login
}

/// What can be stored is exactly what can be kept.
pub proof fn lemma_keepable(c: ConfigModel, ipv6: bool)
    ensures
        codec::storable(c, ipv6) <==> keepable(c, ipv6),
{
    let s = codec::storable(c, ipv6);
    if keepable(c, ipv6) {
        assert forall|i: int| 0 <= i < c.pubkeys.len() implies (#[trigger] c.pubkeys[i] matches Some(
            k,
        ) ==> k.len() == 32) by {
            assert(i == 0 || i == 1 || i == 2);
        }
    }
    if s {
        assert(c.pubkeys[0] matches Some(k) ==> k.len() == 32);
        assert(c.pubkeys[1] matches Some(k) ==> k.len() == 32);
        assert(c.pubkeys[2] matches Some(k) ==> k.len() == 32);
    }
}

/// What is stored is the configuration without its name servers.
pub proof fn lemma_stored(c: ConfigModel)
    ensures
        is_kept(c, codec::stored(c)),
{
}

/// What was laid out comes back, but for the name servers, whatever follows it.
pub proof fn lemma_dec<'a>(
    c: ConfigModel,
    tail: Seq<u8>,
    ipv6: bool,
    s: &mut Source<'a>,
    r: Result<SSHStampConfig, WireError>,
)
    requires
        call_ensures(SSHStampConfig::dec, (s, ipv6), r),
        keepable(c, ipv6),
        old(s).rest() == encoded(c.hostkey->Ed25519_0, c, ipv6) + tail,
    ensures
        r matches Ok(d) && is_kept(c, d@),
        final(s).rest() == tail,
{
    lemma_keepable(c, ipv6);
    lemma_layout(c, ipv6);
    lemma_stored(c);
    codec::lemma_round_trip(c, ipv6, tail);
}

/// What is read is never more than could be kept, and has no name servers.
pub proof fn lemma_dec_is_keepable<'a>(
    ipv6: bool,
    s: &mut Source<'a>,
    r: Result<SSHStampConfig, WireError>,
)
    requires
        call_ensures(SSHStampConfig::dec, (s, ipv6), r),
    ensures
        r matches Ok(d) ==> keepable(d@, ipv6) && is_kept(d@, d@),
{
    codec::lemma_read_is_storable(old(s).rest(), ipv6);
    if let Ok(d) = r {
        lemma_keepable(d@, ipv6);
        lemma_stored(d@);
    }
}

// ---------------------------------------------------------------------------
// Parts
// ---------------------------------------------------------------------------

/// An optional number is there exactly if its flag is not zero, and is the four bytes after it.
pub proof fn lemma_dec_option_u32<'a>(s: &mut Source<'a>, r: Result<Option<u32>, WireError>)
    requires
        call_ensures(codec::dec_option_u32, (s,), r),
    ensures
        ({
            let b = old(s).rest();
            &&& r is Ok <==> b.len() >= 1 && (b[0] == 0 || b.len() >= 5)
            &&& r matches Err(e) ==> e == WireError::RanOut
            &&& b.len() >= 1 && b[0] == 0 ==> r == Ok::<Option<u32>, WireError>(None)
                && final(s).rest() == b.skip(1)
            &&& b.len() >= 5 && b[0] != 0 ==> r == Ok::<Option<u32>, WireError>(
                Some((b[1] * 0x100_0000 + b[2] * 0x1_0000 + b[3] * 0x100 + b[4]) as u32),
            ) && final(s).rest() == b.skip(5)
        }),
{
    let b = old(s).rest();
    if b.len() >= 5 {
        let v = b.skip(1).take(4);
        assert(v[0] == b[1] && v[1] == b[2] && v[2] == b[3] && v[3] == b[4]);
        assert(b.skip(1).skip(4) == b.skip(5));
    }
}

/// An optional IPv6 address is there exactly if its flag is not zero, and is the 16 bytes after it.
pub proof fn lemma_dec_option_octets<'a>(
    s: &mut Source<'a>,
    r: Result<Option<[u8; 16]>, WireError>,
)
    requires
        call_ensures(codec::dec_option_octets, (s,), r),
    ensures
        ({
            let b = old(s).rest();
            &&& r is Ok <==> b.len() >= 1 && (b[0] == 0 || b.len() >= 17)
            &&& r matches Err(e) ==> e == WireError::RanOut
            &&& b.len() >= 1 && b[0] == 0 ==> (r matches Ok(None)) && final(s).rest() == b.skip(1)
            &&& b.len() >= 17 && b[0] != 0 ==> (r matches Ok(Some(a)) && a@ == b.subrange(1, 17))
                && final(s).rest() == b.skip(17)
        }),
{
    let b = old(s).rest();
    if b.len() >= 17 {
        assert(b.skip(1).take(16) == b.subrange(1, 17));
        assert(b.skip(1).skip(16) == b.skip(17));
    }
}

/// A host key is the seed of 32 bytes.
pub proof fn lemma_dec_signkey<'a>(s: &mut Source<'a>, r: Result<config::SignKey, WireError>)
    requires
        call_ensures(codec::dec_signkey, (s,), r),
    ensures
        r is Ok <==> old(s).rest().len() >= 32,
        r matches Ok(k) ==> k@ == SignKeyModel::Ed25519(old(s).rest().take(32)) && final(s).rest()
            == old(s).rest().skip(32),
        r matches Err(e) ==> e == WireError::RanOut,
{
}

/// A static IPv4 address is there exactly if its flag is not zero; its prefix takes up to 32 bits,
/// and a longer one is refused.
pub proof fn lemma_dec_ipv4<'a>(s: &mut Source<'a>, r: Result<Option<StaticConfigV4>, WireError>)
    requires
        call_ensures(codec::dec_ipv4_config, (s,), r),
    ensures
        ({
            let b = old(s).rest();
            &&& b.len() == 0 || b[0] != 0 && (b.len() < 6 || b[5] <= 32 && (b.len() < 7 || b[6] != 0
                && b.len() < 11)) ==> r == Err::<Option<StaticConfigV4>, WireError>(
                WireError::RanOut,
            )
            &&& b.len() >= 1 && b[0] == 0 ==> (r matches Ok(None)) && final(s).rest() == b.skip(1)
            &&& b.len() >= 6 && b[0] != 0 && b[5] > 32 ==> r == Err::<
                Option<StaticConfigV4>,
                WireError,
            >(WireError::PacketWrong)
            &&& b.len() >= 7 && b[0] != 0 && b[5] <= 32 && b[6] == 0 ==> {
                &&& r matches Ok(Some(c)) && {
                    &&& c@.address == b[1] * 0x100_0000 + b[2] * 0x1_0000 + b[3] * 0x100 + b[4]
                    &&& c@.prefix_len == b[5]
                    &&& c@.gateway is None
                    &&& c@.dns_servers.len() == 0
                }
                &&& final(s).rest() == b.skip(7)
            }
            &&& b.len() >= 11 && b[0] != 0 && b[5] <= 32 && b[6] != 0 ==> {
                &&& r matches Ok(Some(c)) && {
                    &&& c@.address == b[1] * 0x100_0000 + b[2] * 0x1_0000 + b[3] * 0x100 + b[4]
                    &&& c@.prefix_len == b[5]
                    &&& c@.gateway == Some(
                        (b[7] * 0x100_0000 + b[8] * 0x1_0000 + b[9] * 0x100 + b[10]) as u32,
                    )
                    &&& c@.dns_servers.len() == 0
                }
                &&& final(s).rest() == b.skip(11)
            }
        }),
{
    let b = old(s).rest();
    if b.len() >= 6 {
        let v = b.skip(1).take(4);
        assert(v[0] == b[1] && v[1] == b[2] && v[2] == b[3] && v[3] == b[4]);
        assert(v[0] * 0x100_0000 + v[1] * 0x1_0000 + v[2] * 0x100 + v[3] <= u32::MAX);
        assert(b.skip(1).skip(4)[0] == b[5]);
        assert(b.skip(1).skip(4).skip(1) == b.skip(6));
        let g = b.skip(6);
        if g.len() >= 1 {
            assert(g[0] == b[6]);
            assert(g.skip(1) == b.skip(7));
        }
        if g.len() >= 5 {
            let w = g.skip(1).take(4);
            assert(w[0] == b[7] && w[1] == b[8] && w[2] == b[9] && w[3] == b[10]);
            assert(g.skip(1).skip(4) == b.skip(11));
        }
    }
}

/// A static IPv6 address is there exactly if its flag is not zero; its prefix takes up to 128
/// bits, and a longer one is refused.
pub proof fn lemma_dec_ipv6<'a>(s: &mut Source<'a>, r: Result<Option<StaticConfigV6>, WireError>)
    requires
        call_ensures(codec::dec_ipv6_config, (s,), r),
    ensures
        ({
            let b = old(s).rest();
            &&& b.len() == 0 || b[0] != 0 && (b.len() < 18 || b[17] <= 128 && (b.len() < 19 || b[18]
                != 0 && b.len() < 35)) ==> r == Err::<Option<StaticConfigV6>, WireError>(
                WireError::RanOut,
            )
            &&& b.len() >= 1 && b[0] == 0 ==> (r matches Ok(None)) && final(s).rest() == b.skip(1)
            &&& b.len() >= 18 && b[0] != 0 && b[17] > 128 ==> r == Err::<
                Option<StaticConfigV6>,
                WireError,
            >(WireError::PacketWrong)
            &&& b.len() >= 19 && b[0] != 0 && b[17] <= 128 && b[18] == 0 ==> {
                &&& r matches Ok(Some(c)) && {
                    &&& c@.address == b.subrange(1, 17)
                    &&& c@.prefix_len == b[17]
                    &&& c@.gateway is None
                    &&& c@.dns_servers.len() == 0
                }
                &&& final(s).rest() == b.skip(19)
            }
            &&& b.len() >= 35 && b[0] != 0 && b[17] <= 128 && b[18] != 0 ==> {
                &&& r matches Ok(Some(c)) && {
                    &&& c@.address == b.subrange(1, 17)
                    &&& c@.prefix_len == b[17]
                    &&& c@.gateway == Some(b.subrange(19, 35))
                    &&& c@.dns_servers.len() == 0
                }
                &&& final(s).rest() == b.skip(35)
            }
        }),
{
    let b = old(s).rest();
    if b.len() >= 18 {
        assert(b.skip(1).take(16) == b.subrange(1, 17));
        assert(b.skip(1).skip(16)[0] == b[17]);
        assert(b.skip(1).skip(16).skip(1) == b.skip(18));
        let g = b.skip(18);
        if g.len() >= 1 {
            assert(g[0] == b[18]);
            assert(g.skip(1) == b.skip(19));
        }
        if g.len() >= 17 {
            assert(g.skip(1).take(16) == b.subrange(19, 35));
            assert(g.skip(1).skip(16) == b.skip(35));
        }
    }
}

} // verus!
