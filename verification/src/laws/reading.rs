//! Which bytes are read as a configuration: those of its layout, where a value is there if its
//! flag is any byte but zero, and a parity is none if its number is unknown.

use vstd::prelude::*;
use vstd::utf8::*;

use crate::codec;
use crate::config;
use crate::config::{ConfigModel, SSHStampConfig};
use crate::hal::Parity;
use crate::laws::layout;
use crate::laws::layout::number;
use crate::outside;
use crate::wire;
use crate::wire::{Source, WireError};

verus! {

// ---------------------------------------------------------------------------
// The layout, with the flags that a reader accepts
// ---------------------------------------------------------------------------

/// The bytes of an encoding that can be one of several: the flags, and the number of the parity.
pub struct Marks {
    pub slots: (u8, u8, u8),
    pub v4: u8,
    pub v4_gateway: u8,
    pub v6: u8,
    pub v6_gateway: u8,
    pub parity: u8,
    pub first_login: u8,
}

/// Whether a flag is right: any byte but zero for a value that is there.
pub open spec fn says(f: u8, there: bool) -> bool {
    f != 0 <==> there
}

/// Whether the number of a parity is right: 1 and 2 are even and odd, any other is none.
pub open spec fn says_parity(n: u8, p: Parity) -> bool {
    &&& n == 1 <==> p == Parity::Even
    &&& n == 2 <==> p == Parity::Odd
}

/// Whether these marks say what is in a configuration.
pub open spec fn marks(m: Marks, c: ConfigModel, ipv6: bool) -> bool {
    &&& says(m.slots.0, c.pubkeys[0] is Some)
    &&& says(m.slots.1, c.pubkeys[1] is Some)
    &&& says(m.slots.2, c.pubkeys[2] is Some)
    &&& says(m.v4, c.ipv4_static is Some)
    &&& c.ipv4_static matches Some(v) ==> says(m.v4_gateway, v.gateway is Some)
    &&& ipv6 ==> says(m.v6, c.ipv6_static is Some)
    &&& c.ipv6_static matches Some(v) ==> says(m.v6_gateway, v.gateway is Some)
    &&& says_parity(m.parity, c.uart_params.parity)
    &&& says(m.first_login, c.first_login)
}

/// A key slot after a flag.
pub open spec fn slot(f: u8, k: Option<Seq<u8>>) -> Seq<u8> {
    match k {
        Some(key) => seq![f] + layout::sized(key),
        None => seq![f],
    }
}

/// An IPv4 gateway after a flag.
pub open spec fn gateway_v4(f: u8, g: Option<u32>) -> Seq<u8> {
    match g {
        Some(a) => seq![f] + number(a),
        None => seq![f],
    }
}

/// An IPv6 gateway after a flag.
pub open spec fn gateway_v6(f: u8, g: Option<Seq<u8>>) -> Seq<u8> {
    match g {
        Some(a) => seq![f] + a,
        None => seq![f],
    }
}

/// A static IPv4 address after a flag.
pub open spec fn static_v4(f: u8, g: u8, v: Option<config::StaticV4Model>) -> Seq<u8> {
    match v {
        Some(a) => seq![f] + (number(a.address) + (seq![a.prefix_len] + gateway_v4(g, a.gateway))),
        None => seq![f],
    }
}

/// A static IPv6 address after a flag.
pub open spec fn static_v6(f: u8, g: u8, v: Option<config::StaticV6Model>) -> Seq<u8> {
    match v {
        Some(a) => seq![f] + (a.address + (seq![a.prefix_len] + gateway_v6(g, a.gateway))),
        None => seq![f],
    }
}

/// The line, with a number for its parity.
pub open spec fn line(n: u8, c: ConfigModel) -> Seq<u8> {
    seq![c.uart_pins.rx] + (seq![c.uart_pins.tx] + (number(c.uart_params.baud) + (seq![
        c.uart_params.data_bits,
    ] + (seq![n] + seq![c.uart_params.stop_bits]))))
}

/// The three key slots.
pub open spec fn slots(m: Marks, c: ConfigModel) -> Seq<u8> {
    slot(m.slots.0, c.pubkeys[0]) + (slot(m.slots.1, c.pubkeys[1]) + slot(
        m.slots.2,
        c.pubkeys[2],
    ))
}

/// Names, passphrases, band and MAC address.
pub open spec fn radio(c: ConfigModel) -> Seq<u8> {
    layout::sized(encode_utf8(c.wifi_ap_ssid)) + (layout::sized(encode_utf8(c.wifi_ap_pw)) + (
    seq![c.wifi_ap_band] + (layout::sized(encode_utf8(c.wifi_sta_ssid)) + (layout::sized(
        encode_utf8(c.wifi_sta_pw),
    ) + c.mac))))
}

/// Static addresses.
pub open spec fn net(m: Marks, c: ConfigModel, ipv6: bool) -> Seq<u8> {
    static_v4(m.v4, m.v4_gateway, c.ipv4_static) + (if ipv6 {
        static_v6(m.v6, m.v6_gateway, c.ipv6_static)
    } else {
        Seq::empty()
    })
}

/// A whole configuration.
pub open spec fn laid(m: Marks, c: ConfigModel, ipv6: bool) -> Seq<u8> {
    c.hostkey->Ed25519_0 + (slots(m, c) + (radio(c) + (net(m, c, ipv6) + (line(m.parity, c) + seq![
        m.first_login,
    ]))))
}

// ---------------------------------------------------------------------------
// From the layout to what is read
// ---------------------------------------------------------------------------

proof fn lemma_number(n: u32)
    ensures
        number(n) == wire::be_bytes(n),
{
}

proof fn lemma_flag(f: u8, rest: Seq<u8>)
    ensures
        wire::dec_bool(seq![f] + rest) == Ok::<_, WireError>((f != 0, rest)),
{
    assert((seq![f] + rest).skip(1) == rest);
}

proof fn lemma_slot_read(f: u8, k: Option<Seq<u8>>, rest: Seq<u8>)
    requires
        says(f, k is Some),
        k matches Some(key) ==> key.len() == 32,
    ensures
        codec::read_slot(slot(f, k) + rest) == Ok::<_, WireError>((k, rest)),
{
    match k {
        Some(key) => {
            lemma_number(32);
            codec::lemma_grouped(seq![f], layout::sized(key), rest);
            lemma_flag(f, layout::sized(key) + rest);
            wire::lemma_dec_blob(key, rest);
        },
        None => {
            lemma_flag(f, rest);
        },
    }
}

proof fn lemma_slots_read(m: Marks, c: ConfigModel, ipv6: bool, rest: Seq<u8>)
    requires
        marks(m, c, ipv6),
        layout::keepable(c, ipv6),
    ensures
        codec::read_slots(slots(m, c) + rest, 3) == Ok::<_, WireError>((c.pubkeys, rest)),
{
    let (s0, s1, s2) = (
        slot(m.slots.0, c.pubkeys[0]),
        slot(m.slots.1, c.pubkeys[1]),
        slot(m.slots.2, c.pubkeys[2]),
    );
    codec::lemma_grouped(s0, s1 + s2, rest);
    codec::lemma_grouped(s1, s2, rest);
    lemma_slot_read(m.slots.0, c.pubkeys[0], s1 + (s2 + rest));
    lemma_slot_read(m.slots.1, c.pubkeys[1], s2 + rest);
    lemma_slot_read(m.slots.2, c.pubkeys[2], rest);
    let e = Seq::<Option<Seq<u8>>>::empty();
    assert(codec::read_slots(rest, 0) == Ok::<_, WireError>((e, rest)));
    let k2 = seq![c.pubkeys[2]] + e;
    let k1 = seq![c.pubkeys[1]] + k2;
    codec::lemma_read_one_more(s2 + rest, c.pubkeys[2], rest, e, rest);
    codec::lemma_read_one_more(s1 + (s2 + rest), c.pubkeys[1], s2 + rest, k2, rest);
    codec::lemma_read_one_more(
        s0 + (s1 + (s2 + rest)),
        c.pubkeys[0],
        s1 + (s2 + rest),
        k1,
        rest,
    );
    assert(c.pubkeys == seq![c.pubkeys[0]] + k1);
}

proof fn lemma_radio_read(c: ConfigModel, ipv6: bool, rest: Seq<u8>)
    requires
        layout::keepable(c, ipv6),
    ensures
        codec::read_wifi(radio(c) + rest) == Ok::<_, WireError>((codec::wifi_part(c), rest)),
{
    layout::lemma_keepable(c, ipv6);
    assert(radio(c) == codec::wifi_bytes(c)) by {
        assert(layout::sized(encode_utf8(c.wifi_ap_ssid)) == wire::text_bytes(c.wifi_ap_ssid));
        assert(layout::sized(encode_utf8(c.wifi_ap_pw)) == wire::text_bytes(c.wifi_ap_pw));
        assert(layout::sized(encode_utf8(c.wifi_sta_ssid)) == wire::text_bytes(c.wifi_sta_ssid));
        assert(layout::sized(encode_utf8(c.wifi_sta_pw)) == wire::text_bytes(c.wifi_sta_pw));
    }
    codec::lemma_read_wifi(c, rest);
}

proof fn lemma_v4_read(f: u8, g: u8, v: Option<config::StaticV4Model>, rest: Seq<u8>)
    requires
        says(f, v is Some),
        v matches Some(a) ==> says(g, a.gateway is Some) && a.prefix_len <= 32,
    ensures
        codec::read_ipv4(static_v4(f, g, v) + rest) == Ok::<_, WireError>(
            (
                match v {
                    Some(a) => Some(config::StaticV4Model { dns_servers: Seq::empty(), ..a }),
                    None => None,
                },
                rest,
            ),
        ),
{
    match v {
        Some(a) => {
            let w = gateway_v4(g, a.gateway);
            lemma_number(a.address);
            codec::lemma_grouped(seq![f], number(a.address) + (seq![a.prefix_len] + w), rest);
            codec::lemma_grouped(number(a.address), seq![a.prefix_len] + w, rest);
            codec::lemma_grouped(seq![a.prefix_len], w, rest);
            lemma_flag(f, number(a.address) + (seq![a.prefix_len] + (w + rest)));
            wire::lemma_dec_u32(a.address, seq![a.prefix_len] + (w + rest));
            wire::lemma_dec_u8(a.prefix_len, w + rest);
            match a.gateway {
                Some(n) => {
                    lemma_number(n);
                    codec::lemma_grouped(seq![g], number(n), rest);
                    lemma_flag(g, number(n) + rest);
                    wire::lemma_dec_u32(n, rest);
                },
                None => {
                    lemma_flag(g, rest);
                },
            }
        },
        None => {
            lemma_flag(f, rest);
        },
    }
}

proof fn lemma_v6_read(f: u8, g: u8, v: Option<config::StaticV6Model>, rest: Seq<u8>)
    requires
        says(f, v is Some),
        v matches Some(a) ==> says(g, a.gateway is Some) && a.prefix_len <= 128 && a.address.len()
            == 16 && (a.gateway matches Some(w) ==> w.len() == 16),
    ensures
        codec::read_ipv6(static_v6(f, g, v) + rest) == Ok::<_, WireError>(
            (
                match v {
                    Some(a) => Some(config::StaticV6Model { dns_servers: Seq::empty(), ..a }),
                    None => None,
                },
                rest,
            ),
        ),
{
    match v {
        Some(a) => {
            let w = gateway_v6(g, a.gateway);
            codec::lemma_grouped(seq![f], a.address + (seq![a.prefix_len] + w), rest);
            codec::lemma_grouped(a.address, seq![a.prefix_len] + w, rest);
            codec::lemma_grouped(seq![a.prefix_len], w, rest);
            lemma_flag(f, a.address + (seq![a.prefix_len] + (w + rest)));
            wire::lemma_dec_bytes(a.address, seq![a.prefix_len] + (w + rest));
            wire::lemma_dec_u8(a.prefix_len, w + rest);
            match a.gateway {
                Some(n) => {
                    codec::lemma_grouped(seq![g], n, rest);
                    lemma_flag(g, n + rest);
                    wire::lemma_dec_bytes(n, rest);
                },
                None => {
                    lemma_flag(g, rest);
                },
            }
        },
        None => {
            lemma_flag(f, rest);
        },
    }
}

proof fn lemma_line_read(n: u8, c: ConfigModel, rest: Seq<u8>)
    requires
        says_parity(n, c.uart_params.parity),
    ensures
        codec::read_uart(line(n, c) + rest) == Ok::<_, WireError>(
            ((c.uart_pins, c.uart_params), rest),
        ),
{
    let p = c.uart_params;
    let u5 = seq![p.stop_bits];
    let u4 = seq![n] + u5;
    let u3 = seq![p.data_bits] + u4;
    let u2 = number(p.baud) + u3;
    let u1 = seq![c.uart_pins.tx] + u2;
    lemma_number(p.baud);
    codec::lemma_grouped(seq![c.uart_pins.rx], u1, rest);
    codec::lemma_grouped(seq![c.uart_pins.tx], u2, rest);
    codec::lemma_grouped(number(p.baud), u3, rest);
    codec::lemma_grouped(seq![p.data_bits], u4, rest);
    codec::lemma_grouped(seq![n], u5, rest);
    wire::lemma_dec_u8(c.uart_pins.rx, u1 + rest);
    wire::lemma_dec_u8(c.uart_pins.tx, u2 + rest);
    wire::lemma_dec_u32(p.baud, u3 + rest);
    wire::lemma_dec_u8(p.data_bits, u4 + rest);
    wire::lemma_dec_u8(n, u5 + rest);
    wire::lemma_dec_u8(p.stop_bits, rest);
}

proof fn lemma_net_read(m: Marks, c: ConfigModel, ipv6: bool, rest: Seq<u8>)
    requires
        marks(m, c, ipv6),
        layout::keepable(c, ipv6),
    ensures
        codec::read_net(net(m, c, ipv6) + rest, ipv6) == Ok::<_, WireError>(
            ((codec::stored(c).ipv4_static, codec::stored(c).ipv6_static), rest),
        ),
{
    let v4 = static_v4(m.v4, m.v4_gateway, c.ipv4_static);
    if ipv6 {
        let v6 = static_v6(m.v6, m.v6_gateway, c.ipv6_static);
        codec::lemma_grouped(v4, v6, rest);
        lemma_v4_read(m.v4, m.v4_gateway, c.ipv4_static, v6 + rest);
        lemma_v6_read(m.v6, m.v6_gateway, c.ipv6_static, rest);
    } else {
        assert(v4 + Seq::<u8>::empty() == v4);
        lemma_v4_read(m.v4, m.v4_gateway, c.ipv4_static, rest);
    }
}

proof fn lemma_steps(
    c: ConfigModel,
    ipv6: bool,
    b: Seq<u8>,
    b1: Seq<u8>,
    b2: Seq<u8>,
    b3: Seq<u8>,
    b4: Seq<u8>,
    b5: Seq<u8>,
    rest: Seq<u8>,
)
    requires
        c.hostkey is Ed25519,
        wire::dec_bytes(b, 32) == Ok::<_, WireError>((c.hostkey->Ed25519_0, b1)),
        codec::read_slots(b1, 3) == Ok::<_, WireError>((c.pubkeys, b2)),
        codec::read_wifi(b2) == Ok::<_, WireError>((codec::wifi_part(c), b3)),
        codec::read_net(b3, ipv6) == Ok::<_, WireError>(
            ((codec::stored(c).ipv4_static, codec::stored(c).ipv6_static), b4),
        ),
        codec::read_uart(b4) == Ok::<_, WireError>(((c.uart_pins, c.uart_params), b5)),
        wire::dec_bool(b5) == Ok::<_, WireError>((c.first_login, rest)),
    ensures
        codec::read_config(b, ipv6) == Ok::<_, WireError>((codec::stored(c), rest)),
{
}

/// The bytes of a configuration are read, and nothing after them is touched.
pub proof fn lemma_laid_read(m: Marks, c: ConfigModel, ipv6: bool, rest: Seq<u8>)
    requires
        marks(m, c, ipv6),
        layout::keepable(c, ipv6),
    ensures
        codec::read_config(laid(m, c, ipv6) + rest, ipv6) == Ok::<_, WireError>(
            (codec::stored(c), rest),
        ),
{
    let k = c.hostkey->Ed25519_0;
    let l1 = seq![m.first_login];
    let l2 = line(m.parity, c) + l1;
    let l3 = net(m, c, ipv6) + l2;
    let l4 = radio(c) + l3;
    let l5 = slots(m, c) + l4;
    codec::lemma_grouped(k, l5, rest);
    codec::lemma_grouped(slots(m, c), l4, rest);
    codec::lemma_grouped(radio(c), l3, rest);
    codec::lemma_grouped(net(m, c, ipv6), l2, rest);
    codec::lemma_grouped(line(m.parity, c), l1, rest);
    wire::lemma_dec_bytes(k, l5 + rest);
    lemma_slots_read(m, c, ipv6, l4 + rest);
    lemma_radio_read(c, ipv6, l3 + rest);
    lemma_net_read(m, c, ipv6, l2 + rest);
    lemma_line_read(m.parity, c, l1 + rest);
    lemma_flag(m.first_login, rest);
    lemma_steps(
        c,
        ipv6,
        laid(m, c, ipv6) + rest,
        l5 + rest,
        l4 + rest,
        l3 + rest,
        l2 + rest,
        l1 + rest,
        rest,
    );
}

// ---------------------------------------------------------------------------
// From what is read to the layout
// ---------------------------------------------------------------------------

proof fn lemma_four(b: Seq<u8>)
    requires
        b.len() == 4,
    ensures
        number(wire::be_value(b)) == b,
{
    let (w, x, y, z) = (b[0], b[1], b[2], b[3]);
    let v = w * 0x100_0000 + x * 0x1_0000 + y * 0x100 + z;
    let n = v as u32;
    assert(n / 0x100_0000 == w && n / 0x1_0000 % 0x100 == x && n / 0x100 % 0x100 == y && n % 0x100
        == z) by (bit_vector)
        requires
            n == w * 0x100_0000 + x * 0x1_0000 + y * 0x100 + z,
    ;
}

proof fn lemma_u8_was(b: Seq<u8>)
    ensures
        wire::dec_u8(b) matches Ok((v, rest)) ==> b == seq![v] + rest,
        wire::dec_bool(b) matches Ok((v, rest)) ==> b == seq![b[0]] + rest && says(b[0], v),
{
}

proof fn lemma_u32_was(b: Seq<u8>)
    ensures
        wire::dec_u32(b) matches Ok((v, rest)) ==> b == number(v) + rest,
{
    if b.len() >= 4 {
        lemma_four(b.take(4));
        assert(b == b.take(4) + b.skip(4));
    }
}

proof fn lemma_bytes_was(b: Seq<u8>, n: nat)
    ensures
        wire::dec_bytes(b, n) matches Ok((v, rest)) ==> b == v + rest && v.len() == n,
{
}

proof fn lemma_slot_was(b: Seq<u8>)
    ensures
        codec::read_slot(b) matches Ok((k, rest)) ==> b == slot(b[0], k) + rest && says(
            b[0],
            k is Some,
        ),
{
    lemma_u8_was(b);
    if let Ok((there, b1)) = wire::dec_bool(b) {
        if there {
            lemma_u32_was(b1);
            if let Ok((len, b2)) = wire::dec_u32(b1) {
                lemma_bytes_was(b2, 32);
                if let Ok((key, rest)) = wire::dec_bytes(b2, 32) {
                    if len == 32 {
                        codec::lemma_grouped(number(32), key, rest);
                        codec::lemma_grouped(seq![b[0]], layout::sized(key), rest);
                    }
                }
            }
        }
    }
}

proof fn lemma_slots_was(b: Seq<u8>) -> (f: (u8, u8, u8))
    ensures
        codec::read_slots(b, 3) matches Ok((k, rest)) ==> {
            &&& k.len() == 3
            &&& b == (slot(f.0, k[0]) + (slot(f.1, k[1]) + slot(f.2, k[2]))) + rest
            &&& says(f.0, k[0] is Some) && says(f.1, k[1] is Some) && says(f.2, k[2] is Some)
        },
{
    let mut f = (0u8, 0u8, 0u8);
    lemma_slot_was(b);
    if let Ok((k0, b1)) = codec::read_slot(b) {
        lemma_slot_was(b1);
        if let Ok((k1, b2)) = codec::read_slot(b1) {
            lemma_slot_was(b2);
            if let Ok((k2, b3)) = codec::read_slot(b2) {
                f = (b[0], b1[0], b2[0]);
                let (s0, s1, s2) = (slot(f.0, k0), slot(f.1, k1), slot(f.2, k2));
                codec::lemma_grouped(s0, s1 + s2, b3);
                codec::lemma_grouped(s1, s2, b3);
                let e = Seq::<Option<Seq<u8>>>::empty();
                assert(codec::read_slots(b3, 0) == Ok::<_, WireError>((e, b3)));
                assert(codec::read_slots(b2, 1) == Ok::<_, WireError>((seq![k2] + e, b3)));
                assert(codec::read_slots(b1, 2) == Ok::<_, WireError>(
                    (seq![k1] + (seq![k2] + e), b3),
                ));
                assert(codec::read_slots(b, 3) == Ok::<_, WireError>(
                    (seq![k0] + (seq![k1] + (seq![k2] + e)), b3),
                ));
            } else {
                assert(codec::read_slots(b2, 1) is Err);
                assert(codec::read_slots(b1, 2) is Err);
            }
        } else {
            assert(codec::read_slots(b1, 2) is Err);
        }
    }
    f
}

proof fn lemma_text_was(b: Seq<u8>, room: nat)
    ensures
        codec::read_text(b, room) matches Ok((t, rest)) ==> b == layout::sized(encode_utf8(t))
            + rest,
{
    lemma_u32_was(b);
    if let Ok((len, b1)) = wire::dec_u32(b) {
        lemma_bytes_was(b1, len as nat);
        if let Ok((v, rest)) = wire::dec_bytes(b1, len as nat) {
            if outside::is_printable(v) {
                let t = outside::ascii_chars(v);
                assert forall|i: int| 0 <= i < t.len() implies '\0' <= #[trigger] t[i]
                    <= '\u{7f}' by {
                    assert(0x20 <= v[i] <= 0x7e);
                }
                is_ascii_chars_encode_utf8(t);
                assert(encode_utf8(t) == v) by {
                    assert forall|i: int| 0 <= i < v.len() implies encode_utf8(t)[i] == v[i] by {
                        assert(0x20 <= v[i] <= 0x7e);
                        assert(t[i] as u8 == encode_utf8(t)[i]);
                    }
                }
                codec::lemma_grouped(number(len), v, rest);
            }
        }
    }
}

proof fn lemma_radio_was(b: Seq<u8>, c: ConfigModel)
    ensures
        codec::read_wifi(b) matches Ok((w, rest)) ==> w == codec::wifi_part(c) ==> b == radio(c)
            + rest,
{
    lemma_text_was(b, 32);
    if let Ok((t1, b1)) = codec::read_text(b, 32) {
        lemma_text_was(b1, 63);
        if let Ok((t2, b2)) = codec::read_text(b1, 63) {
            lemma_u8_was(b2);
            if let Ok((n, b3)) = wire::dec_u8(b2) {
                lemma_text_was(b3, 32);
                if let Ok((t3, b4)) = codec::read_text(b3, 32) {
                    lemma_text_was(b4, 63);
                    if let Ok((t4, b5)) = codec::read_text(b4, 63) {
                        lemma_bytes_was(b5, 6);
                        if let Ok((mac, rest)) = wire::dec_bytes(b5, 6) {
                            let (x1, x2, x3, x4) = (
                                layout::sized(encode_utf8(t1)),
                                layout::sized(encode_utf8(t2)),
                                layout::sized(encode_utf8(t3)),
                                layout::sized(encode_utf8(t4)),
                            );
                            codec::lemma_grouped(x4, mac, rest);
                            codec::lemma_grouped(x3, x4 + mac, rest);
                            codec::lemma_grouped(seq![n], x3 + (x4 + mac), rest);
                            codec::lemma_grouped(x2, seq![n] + (x3 + (x4 + mac)), rest);
                            codec::lemma_grouped(x1, x2 + (seq![n] + (x3 + (x4 + mac))), rest);
                        }
                    }
                }
            }
        }
    }
}

proof fn lemma_v4_was(b: Seq<u8>) -> (f: (u8, u8))
    ensures
        codec::read_ipv4(b) matches Ok((v, rest)) ==> {
            &&& b == static_v4(f.0, f.1, v) + rest
            &&& says(f.0, v is Some)
            &&& v matches Some(a) ==> says(f.1, a.gateway is Some)
        },
{
    let mut f = (0u8, 0u8);
    lemma_u8_was(b);
    if let Ok((there, b1)) = wire::dec_bool(b) {
        f = (b[0], 0u8);
        if there {
            lemma_u32_was(b1);
            if let Ok((address, b2)) = wire::dec_u32(b1) {
                lemma_u8_was(b2);
                if let Ok((p, b3)) = wire::dec_u8(b2) {
                    lemma_u8_was(b3);
                    f = (b[0], b3[0]);
                    if let Ok((g, b4)) = wire::dec_bool(b3) {
                        lemma_u32_was(b4);
                        if let Ok((gateway, rest)) = codec::read_option_u32(b3) {
                            let w = gateway_v4(b3[0], gateway);
                            if g {
                                codec::lemma_grouped(seq![b3[0]], number(gateway->0), rest);
                            }
                            assert(b3 == w + rest);
                            codec::lemma_grouped(seq![p], w, rest);
                            codec::lemma_grouped(number(address), seq![p] + w, rest);
                            codec::lemma_grouped(
                                seq![b[0]],
                                number(address) + (seq![p] + w),
                                rest,
                            );
                        }
                    }
                }
            }
        }
    }
    f
}

proof fn lemma_v6_was(b: Seq<u8>) -> (f: (u8, u8))
    ensures
        codec::read_ipv6(b) matches Ok((v, rest)) ==> {
            &&& b == static_v6(f.0, f.1, v) + rest
            &&& says(f.0, v is Some)
            &&& v matches Some(a) ==> says(f.1, a.gateway is Some)
        },
{
    let mut f = (0u8, 0u8);
    lemma_u8_was(b);
    if let Ok((there, b1)) = wire::dec_bool(b) {
        f = (b[0], 0u8);
        if there {
            lemma_bytes_was(b1, 16);
            if let Ok((address, b2)) = wire::dec_bytes(b1, 16) {
                lemma_u8_was(b2);
                if let Ok((p, b3)) = wire::dec_u8(b2) {
                    lemma_u8_was(b3);
                    f = (b[0], b3[0]);
                    if let Ok((g, b4)) = wire::dec_bool(b3) {
                        lemma_bytes_was(b4, 16);
                        if let Ok((gateway, rest)) = codec::read_option_octets(b3) {
                            let w = gateway_v6(b3[0], gateway);
                            if g {
                                codec::lemma_grouped(seq![b3[0]], gateway->0, rest);
                            }
                            assert(b3 == w + rest);
                            codec::lemma_grouped(seq![p], w, rest);
                            codec::lemma_grouped(address, seq![p] + w, rest);
                            codec::lemma_grouped(seq![b[0]], address + (seq![p] + w), rest);
                        }
                    }
                }
            }
        }
    }
    f
}

proof fn lemma_line_was(b: Seq<u8>, c: ConfigModel) -> (n: u8)
    ensures
        codec::read_uart(b) matches Ok((v, rest)) ==> v == (c.uart_pins, c.uart_params) ==> b
            == line(n, c) + rest && says_parity(n, c.uart_params.parity),
{
    let mut n = 0u8;
    lemma_u8_was(b);
    if let Ok((rx, b1)) = wire::dec_u8(b) {
        lemma_u8_was(b1);
        if let Ok((tx, b2)) = wire::dec_u8(b1) {
            lemma_u32_was(b2);
            if let Ok((baud, b3)) = wire::dec_u32(b2) {
                lemma_u8_was(b3);
                if let Ok((data, b4)) = wire::dec_u8(b3) {
                    lemma_u8_was(b4);
                    if let Ok((parity, b5)) = wire::dec_u8(b4) {
                        n = parity;
                        lemma_u8_was(b5);
                        if let Ok((stop, rest)) = wire::dec_u8(b5) {
                            let u5 = seq![stop];
                            let u4 = seq![parity] + u5;
                            let u3 = seq![data] + u4;
                            let u2 = number(baud) + u3;
                            codec::lemma_grouped(seq![parity], u5, rest);
                            codec::lemma_grouped(seq![data], u4, rest);
                            codec::lemma_grouped(number(baud), u3, rest);
                            codec::lemma_grouped(seq![tx], u2, rest);
                            codec::lemma_grouped(seq![rx], seq![tx] + u2, rest);
                        }
                    }
                }
            }
        }
    }
    n
}

proof fn lemma_net_was(b: Seq<u8>, ipv6: bool) -> (f: (u8, u8, u8, u8))
    ensures
        codec::read_net(b, ipv6) matches Ok(((v4, v6), rest)) ==> {
            &&& b == (static_v4(f.0, f.1, v4) + (if ipv6 {
                static_v6(f.2, f.3, v6)
            } else {
                Seq::empty()
            })) + rest
            &&& says(f.0, v4 is Some)
            &&& v4 matches Some(a) ==> says(f.1, a.gateway is Some)
            &&& ipv6 ==> says(f.2, v6 is Some)
            &&& v6 matches Some(a) ==> ipv6 && says(f.3, a.gateway is Some)
        },
{
    let f4 = lemma_v4_was(b);
    let mut f = (f4.0, f4.1, 0u8, 0u8);
    if let Ok((v4, b1)) = codec::read_ipv4(b) {
        let x = static_v4(f4.0, f4.1, v4);
        if ipv6 {
            let f6 = lemma_v6_was(b1);
            f = (f4.0, f4.1, f6.0, f6.1);
            if let Ok((v6, rest)) = codec::read_ipv6(b1) {
                codec::lemma_grouped(x, static_v6(f6.0, f6.1, v6), rest);
            }
        } else {
            assert(x + Seq::<u8>::empty() == x);
        }
    }
    f
}

/// What is read was laid out so.
pub proof fn lemma_laid_was(b: Seq<u8>, ipv6: bool) -> (m: Marks)
    ensures
        codec::read_config(b, ipv6) matches Ok((c, rest)) ==> b == laid(m, c, ipv6) + rest
            && marks(m, c, ipv6),
{
    let mut m = Marks {
        slots: (0, 0, 0),
        v4: 0,
        v4_gateway: 0,
        v6: 0,
        v6_gateway: 0,
        parity: 0,
        first_login: 0,
    };
    if let Ok((c, rest)) = codec::read_config(b, ipv6) {
        lemma_bytes_was(b, 32);
        let (k, b1) = wire::dec_bytes(b, 32)->Ok_0;
        let f = lemma_slots_was(b1);
        let (ks, b2) = codec::read_slots(b1, 3)->Ok_0;
        lemma_radio_was(b2, c);
        let (w, b3) = codec::read_wifi(b2)->Ok_0;
        assert(w == codec::wifi_part(c));
        let g = lemma_net_was(b3, ipv6);
        let (v, b4) = codec::read_net(b3, ipv6)->Ok_0;
        let n = lemma_line_was(b4, c);
        let (u, b5) = codec::read_uart(b4)->Ok_0;
        lemma_u8_was(b5);
        m = Marks {
            slots: f,
            v4: g.0,
            v4_gateway: g.1,
            v6: g.2,
            v6_gateway: g.3,
            parity: n,
            first_login: b5[0],
        };
        let l1 = seq![b5[0]];
        let l2 = line(n, c) + l1;
        let l3 = net(m, c, ipv6) + l2;
        let l4 = radio(c) + l3;
        codec::lemma_grouped(line(n, c), l1, rest);
        codec::lemma_grouped(net(m, c, ipv6), l2, rest);
        codec::lemma_grouped(radio(c), l3, rest);
        codec::lemma_grouped(slots(m, c), l4, rest);
        codec::lemma_grouped(k, slots(m, c) + l4, rest);
    }
    m
}

// ---------------------------------------------------------------------------
// The laws
// ---------------------------------------------------------------------------

/// The bytes of a configuration that can be kept are read, with any flags that say what is there:
/// it comes back without its name servers, and what follows it is left.
pub proof fn lemma_laid_is_read<'a>(
    m: Marks,
    c: ConfigModel,
    tail: Seq<u8>,
    ipv6: bool,
    s: &mut Source<'a>,
    r: Result<SSHStampConfig, WireError>,
)
    requires
        call_ensures(SSHStampConfig::dec, (s, ipv6), r),
        layout::keepable(c, ipv6),
        marks(m, c, ipv6),
        old(s).rest() == laid(m, c, ipv6) + tail,
    ensures
        r matches Ok(d) && layout::is_kept(c, d@),
        final(s).rest() == tail,
{
    lemma_laid_read(m, c, ipv6, tail);
    layout::lemma_stored(c);
}

/// No other bytes are read as a configuration.
pub proof fn lemma_read_is_laid<'a>(
    ipv6: bool,
    s: &mut Source<'a>,
    r: Result<SSHStampConfig, WireError>,
)
    requires
        call_ensures(SSHStampConfig::dec, (s, ipv6), r),
    ensures
        r matches Ok(d) ==> exists|m: Marks|
            marks(m, d@, ipv6) && old(s).rest() == #[trigger] laid(m, d@, ipv6) + final(s).rest(),
{
    let m = lemma_laid_was(old(s).rest(), ipv6);
    if let Ok(d) = r {
        assert(old(s).rest() == laid(m, d@, ipv6) + final(s).rest());
    }
}

// ---------------------------------------------------------------------------
// Errors
// ---------------------------------------------------------------------------

/// A key slot that is cut off runs out; a key of another length contradicts its length.
pub proof fn lemma_slot_errors(b: Seq<u8>)
    ensures
        ({
            let n = b[1] * 0x100_0000 + b[2] * 0x1_0000 + b[3] * 0x100 + b[4];
            let cut = b.len() == 0 || b[0] != 0 && b.len() < 37;
            let r = codec::read_slot(b);
            &&& cut ==> r == Err::<(Option<Seq<u8>>, Seq<u8>), WireError>(WireError::RanOut)
            &&& !cut && b[0] != 0 && n != 32 ==> r == Err::<(Option<Seq<u8>>, Seq<u8>), WireError>(
                WireError::SSHProto,
            )
            &&& !cut && (b[0] == 0 || n == 32) ==> r is Ok
        }),
{
    if b.len() >= 5 {
        let v = b.skip(1).take(4);
        assert(v[0] == b[1] && v[1] == b[2] && v[2] == b[3] && v[3] == b[4]);
        assert(v[0] * 0x100_0000 + v[1] * 0x1_0000 + v[2] * 0x100 + v[3] <= u32::MAX);
    }
}

/// A text that is cut off runs out, one that does not print is a bad name, and one that prints but
/// is too long for its field is a bad string.
pub proof fn lemma_text_errors(b: Seq<u8>, room: nat)
    ensures
        ({
            let n = b[0] * 0x100_0000 + b[1] * 0x1_0000 + b[2] * 0x100 + b[3];
            let there = b.len() >= 4 && b.len() >= 4 + n;
            let prints = forall|i: int| 4 <= i < 4 + n ==> 0x20 <= #[trigger] b[i] <= 0x7e;
            let r = codec::read_text(b, room);
            &&& r is Ok <==> there && prints && n <= room
            &&& !there ==> r == Err::<(Seq<char>, Seq<u8>), WireError>(WireError::RanOut)
            &&& there && !prints ==> r == Err::<(Seq<char>, Seq<u8>), WireError>(
                WireError::BadName,
            )
            &&& there && prints && n > room ==> r == Err::<(Seq<char>, Seq<u8>), WireError>(
                WireError::BadString,
            )
        }),
{
    if b.len() >= 4 {
        let v = b.take(4);
        assert(v[0] == b[0] && v[1] == b[1] && v[2] == b[2] && v[3] == b[3]);
        let n = b[0] * 0x100_0000 + b[1] * 0x1_0000 + b[2] * 0x100 + b[3];
        assert(n <= u32::MAX);
        let b1 = b.skip(4);
        if b1.len() >= n {
            let t = b1.take(n);
            if forall|i: int| 4 <= i < 4 + n ==> 0x20 <= #[trigger] b[i] <= 0x7e {
                assert forall|i: int| 0 <= i < n implies 0x20 <= #[trigger] t[i] <= 0x7e by {
                    assert(t[i] == b[4 + i]);
                }
            }
            if outside::is_printable(t) {
                assert forall|i: int| 4 <= i < 4 + n implies 0x20 <= #[trigger] b[i] <= 0x7e by {
                    assert(t[i - 4] == b[4 + (i - 4)]);
                }
            }
        }
    }
}

/// The first part that cannot be read is what counts: the host key, the slots, the radio settings,
/// the static addresses, the line, and the flag of the first login, in this order.
pub proof fn lemma_first_error<'a>(
    ipv6: bool,
    s: &mut Source<'a>,
    r: Result<SSHStampConfig, WireError>,
)
    requires
        call_ensures(SSHStampConfig::dec, (s, ipv6), r),
    ensures
        ({
            let b = old(s).rest();
            &&& b.len() < 32 ==> r == Err::<SSHStampConfig, WireError>(WireError::RanOut)
            &&& b.len() >= 32 ==> match codec::read_slots(b.skip(32), 3) {
                Err(e) => r == Err::<SSHStampConfig, WireError>(e),
                Ok((_, b)) => match codec::read_wifi(b) {
                    Err(e) => r == Err::<SSHStampConfig, WireError>(e),
                    Ok((_, b)) => match codec::read_net(b, ipv6) {
                        Err(e) => r == Err::<SSHStampConfig, WireError>(e),
                        Ok((_, b)) => if b.len() < 10 {
                            r == Err::<SSHStampConfig, WireError>(WireError::RanOut)
                        } else {
                            r is Ok
                        },
                    },
                },
            }
        }),
{
    let b = old(s).rest();
    if b.len() >= 32 {
        if let Ok((_, b)) = codec::read_slots(b.skip(32), 3) {
            if let Ok((_, b)) = codec::read_wifi(b) {
                if let Ok((_, b)) = codec::read_net(b, ipv6) {
                    lemma_line_errors(b);
                }
            }
        }
    }
}

proof fn lemma_line_errors(b: Seq<u8>)
    ensures
        b.len() < 9 ==> (codec::read_uart(b) matches Err(e) && e == WireError::RanOut),
        b.len() >= 9 ==> (codec::read_uart(b) matches Ok((_, rest)) && rest.len() == b.len() - 9),
{
}

/// Slots are read one after the other, and the first that cannot be is what counts.
pub proof fn lemma_slots_in_order(b: Seq<u8>, n: nat)
    ensures
        codec::read_slot(b) matches Err(e) ==> (codec::read_slots(b, n + 1) matches Err(f) && f
            == e),
        codec::read_slot(b) matches Ok((_, rest)) ==> (codec::read_slots(rest, n) matches Err(e)
            ==> (codec::read_slots(b, n + 1) matches Err(f) && f == e)),
{
}

/// The radio settings are read one after the other: a name of up to 32 characters, a passphrase of
/// up to 63, the band, the same again, and six bytes of address. The first part that cannot be
/// read is what counts.
pub proof fn lemma_radio_in_order(b: Seq<u8>)
    ensures
        ({
            let r = codec::read_wifi(b);
            match codec::read_text(b, 32) {
                Err(e) => r == Err::<(codec::WifiModel, Seq<u8>), WireError>(e),
                Ok((_, b)) => match codec::read_text(b, 63) {
                    Err(e) => r == Err::<(codec::WifiModel, Seq<u8>), WireError>(e),
                    Ok((_, b)) => if b.len() == 0 {
                        r == Err::<(codec::WifiModel, Seq<u8>), WireError>(WireError::RanOut)
                    } else {
                        match codec::read_text(b.skip(1), 32) {
                            Err(e) => r == Err::<(codec::WifiModel, Seq<u8>), WireError>(e),
                            Ok((_, b)) => match codec::read_text(b, 63) {
                                Err(e) => r == Err::<(codec::WifiModel, Seq<u8>), WireError>(e),
                                Ok((_, b)) => if b.len() < 6 {
                                    r == Err::<(codec::WifiModel, Seq<u8>), WireError>(
                                        WireError::RanOut,
                                    )
                                } else {
                                    r is Ok
                                },
                            },
                        }
                    },
                },
            }
        }),
{
}

/// The IPv4 address is read first, and the IPv6 address after it in firmware with IPv6 only.
pub proof fn lemma_net_in_order(b: Seq<u8>)
    ensures
        codec::read_ipv4(b) matches Err(e) ==> (codec::read_net(b, true) matches Err(f) && f == e)
            && (codec::read_net(b, false) matches Err(f) && f == e),
        codec::read_ipv4(b) matches Ok((v4, rest)) ==> {
            &&& codec::read_net(b, false) matches Ok(((w4, w6), last)) && w4 == v4 && w6 is None
                && last == rest
            &&& codec::read_ipv6(rest) matches Err(e) ==> (codec::read_net(b, true) matches Err(f)
                && f == e)
        },
{
}

} // verus!
