//! Values of environment variables that a client sends.

use vstd::prelude::*;
use vstd::string::*;
use vstd::utf8::*;

use crate::hal::{BandMode, Parity};
use crate::outside;
use crate::text;
use crate::text::{ascii_bytes, parse_decimal};

verus! {

/// The longest public key line that is accepted.
pub const PUBKEY_MAX_LEN: usize = 256;

/// The slowest line rate that is accepted.
pub const UART_BAUD_MIN: u32 = 300;

/// The fastest line rate that is accepted, which is what the hardware tops out at.
pub const UART_BAUD_MAX: u32 = 5_000_000;

/// Whether a character is visible ASCII, that is not a space.
pub open spec fn is_graphic(c: char) -> bool {
    '!' <= c <= '~'
}

/// Whether a text is one or more visible ASCII characters.
pub open spec fn sanitary(t: Seq<char>) -> bool {
    t.len() > 0 && forall|i: int| 0 <= i < t.len() ==> is_graphic(#[trigger] t[i])
}

/// A sanitary text takes a byte for each character.
proof fn lemma_sanitary(t: Seq<char>)
    requires
        sanitary(t),
    ensures
        encode_utf8(t).len() == t.len(),
        crate::wire::printable(t),
{
    is_ascii_chars_encode_utf8(t);
}

/// Whether `s` is one or more visible ASCII characters.
pub fn env_sanitize(s: &str) -> (r: bool)
    ensures
        r == sanitary(s@),
{
    let b = match ascii_bytes(s) {
        Some(b) => b,
        None => {
            assert(!sanitary(s@)) by {
                if sanitary(s@) {
                    assert(is_ascii_chars(s@));
                }
            }
            return false;
        },
    };
    let mut i: usize = 0;
    while i < b.len()
        invariant
            i <= b@.len(),
            b@.len() == s@.len(),
            forall|j: int| 0 <= j < s@.len() ==> #[trigger] s@[j] == b@[j] as char,
            forall|j: int| 0 <= j < i ==> is_graphic(#[trigger] s@[j]),
        decreases b@.len() - i,
    {
        assert(s@[i as int] == b@[i as int] as char);
        if b[i] < 0x21 || b[i] > 0x7e {
            assert(!is_graphic(s@[i as int]));
            return false;
        }
        i = i + 1;
    }
    b.len() > 0
}

/// Whether a text can be the line of a public key.
pub open spec fn is_key_line(t: Seq<char>) -> bool {
    &&& 0 < t.len() <= PUBKEY_MAX_LEN
    &&& forall|i: int| 0 <= i < t.len() ==> is_graphic(#[trigger] t[i]) || t[i] == ' '
}

/// The line of a public key, `<type> <base64> [comment]`, without the white space
/// around it.
pub fn parse_pubkey(value: &str) -> (r: Option<&str>)
    ensures
        r is Some <==> is_key_line(outside::trimmed(value@)),
        r matches Some(t) ==> t@ == outside::trimmed(value@),
{
    let trimmed = value.trim();
    let b = match ascii_bytes(trimmed) {
        Some(b) => b,
        None => {
            assert(!is_key_line(trimmed@)) by {
                if is_key_line(trimmed@) {
                    assert(is_ascii_chars(trimmed@));
                }
            }
            return None;
        },
    };
    if b.len() == 0 || b.len() > PUBKEY_MAX_LEN {
        return None;
    }
    let mut i: usize = 0;
    while i < b.len()
        invariant
            i <= b@.len(),
            b@.len() == trimmed@.len(),
            trimmed@ == outside::trimmed(value@),
            forall|j: int| 0 <= j < trimmed@.len() ==> #[trigger] trimmed@[j] == b@[j] as char,
            forall|j: int|
                0 <= j < i ==> is_graphic(#[trigger] trimmed@[j]) || trimmed@[j] == ' ',
        decreases b@.len() - i,
    {
        assert(trimmed@[i as int] == b@[i as int] as char);
        if b[i] < 0x20 || b[i] > 0x7e {
            assert(!is_graphic(trimmed@[i as int]) && trimmed@[i as int] != ' ');
            return None;
        }
        i = i + 1;
    }
    Some(trimmed)
}

/// The SSID of the access point: visible ASCII, at most 32 characters.
pub fn parse_wifi_ap_ssid(value: &str) -> (r: Option<heapless::String<32>>)
    ensures
        r is Some <==> sanitary(value@) && value@.len() <= 32,
        r matches Some(s) ==> outside::ssid_text(s) == value@,
{
    if !env_sanitize(value) {
        return None;
    }
    proof {
        lemma_sanitary(value@);
    }
    outside::ssid_from(value)
}

/// The SSID of the network to join: visible ASCII, at most 32 characters, or nothing
/// at all.
pub fn parse_wifi_station_ssid(value: &str) -> (r: Option<heapless::String<32>>)
    ensures
        r is Some <==> (value@.len() == 0 || sanitary(value@)) && value@.len() <= 32,
        r matches Some(s) ==> outside::ssid_text(s) == value@,
{
    if !value.is_empty() && !env_sanitize(value) {
        return None;
    }
    proof {
        if value@.len() > 0 {
            lemma_sanitary(value@);
        }
        is_ascii_chars_encode_utf8(value@);
    }
    outside::ssid_from(value)
}

/// A passphrase: visible ASCII, 8 to 63 characters.
pub fn parse_wifi_psk(value: &str) -> (r: Option<heapless::String<63>>)
    ensures
        r is Some <==> sanitary(value@) && 8 <= value@.len() <= 63,
        r matches Some(s) ==> outside::psk_text(s) == value@,
{
    if !env_sanitize(value) {
        return None;
    }
    proof {
        lemma_sanitary(value@);
    }
    let n: usize = value.as_bytes().len();
    if n < 8 || n > 63 {
        return None;
    }
    outside::psk_from(value)
}

/// The number of a radio band: `2.4g` is 0, `5g` is 1, `auto` is 2, in upper or lower
/// case.
pub fn parse_wifi_band(value: &str) -> (r: Option<u8>)
    ensures
        r == (match BandMode::named(value@) {
            Some(band) => Some(band.code()),
            None => None,
        }),
{
    match BandMode::from_str(value) {
        Some(band) => Some(band.to_u8()),
        None => None,
    }
}

/// The number that a value stands for, white space around it aside.
pub open spec fn number(value: Seq<char>) -> Option<nat> {
    text::decimal(outside::trimmed(value))
}

/// A line rate of 300 to 5000000 baud.
pub fn parse_uart_baud(value: &str) -> (r: Option<u32>)
    ensures
        r == (match number(value@) {
            Some(n) => if UART_BAUD_MIN <= n <= UART_BAUD_MAX {
                Some(n as u32)
            } else {
                None
            },
            None => None,
        }),
{
    match parse_decimal(value.trim()) {
        Some(n) if UART_BAUD_MIN <= n && n <= UART_BAUD_MAX => Some(n),
        _ => None,
    }
}

/// The data bits of a frame, 5 to 8.
pub fn parse_uart_data_bits(value: &str) -> (r: Option<u8>)
    ensures
        r == (match number(value@) {
            Some(n) => if 5 <= n <= 8 {
                Some(n as u8)
            } else {
                None
            },
            None => None,
        }),
{
    match parse_decimal(value.trim()) {
        Some(n) if 5 <= n && n <= 8 => Some(n as u8),
        _ => None,
    }
}

/// The parity of a frame: `none`, `even` or `odd`.
pub fn parse_uart_parity(value: &str) -> (r: Option<Parity>)
    ensures
        r == Parity::named(outside::trimmed(value@)),
{
    Parity::from_str(value.trim())
}

/// The stop bits of a frame, 1 or 2.
pub fn parse_uart_stop_bits(value: &str) -> (r: Option<u8>)
    ensures
        r == (match number(value@) {
            Some(n) => if n == 1 || n == 2 {
                Some(n as u8)
            } else {
                None
            },
            None => None,
        }),
{
    match parse_decimal(value.trim()) {
        Some(n) if n == 1 || n == 2 => Some(n as u8),
        _ => None,
    }
}

// ---------------------------------------------------------------------------
// MAC address
// ---------------------------------------------------------------------------

pub open spec fn is_hex(c: char) -> bool {
    '0' <= c <= '9' || 'a' <= c <= 'f' || 'A' <= c <= 'F'
}

/// The value of a hexadecimal digit.
pub open spec fn hex_digit(c: char) -> nat
    recommends
        is_hex(c),
{
    if c <= '9' {
        (c as nat - '0' as nat) as nat
    } else if c <= 'F' {
        (c as nat - 'A' as nat + 10) as nat
    } else {
        (c as nat - 'a' as nat + 10) as nat
    }
}

/// The number that hexadecimal digits stand for.
pub open spec fn hex_number(t: Seq<char>) -> nat
    decreases t.len(),
{
    if t.len() == 0 {
        0
    } else {
        16 * hex_number(t.drop_last()) + hex_digit(t.last())
    }
}

/// The octet that a part of an address stands for, if there is something in it and it
/// fits.
pub open spec fn octet(part: Seq<char>) -> Seq<u8> {
    if part.len() > 0 && hex_number(part) <= 255 {
        seq![hex_number(part) as u8]
    } else {
        Seq::empty()
    }
}

/// Where the part that `from` is in ends: at the next colon, or at the end.
pub open spec fn part_end(t: Seq<char>, from: int) -> int
    decreases t.len() - from,
{
    if from >= t.len() || t[from] == ':' {
        from
    } else {
        part_end(t, from + 1)
    }
}

/// The octets of the parts from `from` on, colons being between the parts.
pub open spec fn octets(t: Seq<char>, from: int) -> Seq<u8>
    decreases t.len() - from,
{
    let end = part_end(t, from);
    let first = octet(t.subrange(from, end));
    if from <= end < t.len() {
        first + octets(t, end + 1)
    } else {
        first
    }
}

/// The address that a text of 17 hexadecimal digits and colons stands for, if it has six
/// octets.
pub open spec fn mac_address(t: Seq<char>) -> Option<Seq<u8>> {
    if t.len() == 17 && (forall|i: int| 0 <= i < t.len() ==> is_hex(#[trigger] t[i]) || t[i] == ':')
        && octets(t, 0).len() == 6 {
        Some(octets(t, 0))
    } else {
        None
    }
}

fn hex_of(c: u8) -> (r: Option<u32>)
    ensures
        match r {
            Some(d) => is_hex(c as char) && d == hex_digit(c as char) && d < 16,
            None => !is_hex(c as char),
        },
{
    if 0x30 <= c && c <= 0x39 {
        Some((c - 0x30) as u32)
    } else if 0x41 <= c && c <= 0x46 {
        Some((c - 0x41 + 10) as u32)
    } else if 0x61 <= c && c <= 0x66 {
        Some((c - 0x61 + 10) as u32)
    } else {
        None
    }
}

/// A number that is too large for an octet, or the number itself.
spec fn capped(n: nat) -> nat {
    if n > 255 {
        256
    } else {
        n
    }
}

/// Adds the octet of a part, whose number is known up to what fits an octet. Says whether
/// there was room for it.
fn push_octet(
    found: &mut heapless::Vec<u8, 6>,
    value: u32,
    nonempty: bool,
    Ghost(part): Ghost<Seq<char>>,
) -> (r: bool)
    requires
        value == capped(hex_number(part)),
        nonempty == (part.len() > 0),
    ensures
        r ==> outside::octets_held(*final(found)) == outside::octets_held(*old(found)) + octet(
            part,
        ),
        !r ==> outside::octets_held(*old(found)).len() + octet(part).len() > 6,
{
    let ghost before = outside::octets_held(*found);
    if nonempty && value <= 255 {
        assert(before.push(value as u8) == before + octet(part));
        outside::octets_push(found, value as u8).is_ok()
    } else {
        assert(before == before + octet(part));
        true
    }
}

/// The octets of a text of hexadecimal digits and colons; nothing if there is anything
/// else in it, or more than six octets.
fn parse_octets(b: &[u8], Ghost(t): Ghost<Seq<char>>) -> (r: Option<heapless::Vec<u8, 6>>)
    requires
        b@.len() == t.len(),
        forall|i: int| 0 <= i < t.len() ==> #[trigger] t[i] == b@[i] as char,
    ensures
        r is None ==> octets(t, 0).len() > 6 || !(forall|i: int|
            0 <= i < t.len() ==> is_hex(#[trigger] t[i]) || t[i] == ':'),
        r matches Some(v) ==> outside::octets_held(v) == octets(t, 0) && forall|i: int|
            0 <= i < t.len() ==> is_hex(#[trigger] t[i]) || t[i] == ':',
{
    let mut found = outside::octets_new();
    let mut value: u32 = 0;
    let mut start: usize = 0;
    let mut i: usize = 0;
    assert(t.subrange(0, 0) == Seq::<char>::empty());
    while i < b.len()
        invariant
            start <= i <= b@.len(),
            b@.len() == t.len(),
            forall|j: int| 0 <= j < t.len() ==> #[trigger] t[j] == b@[j] as char,
            forall|j: int| 0 <= j < i ==> is_hex(#[trigger] t[j]) || t[j] == ':',
            value == capped(hex_number(t.subrange(start as int, i as int))),
            part_end(t, start as int) == part_end(t, i as int),
            outside::octets_held(found) + octets(t, start as int) == octets(t, 0),
        decreases b@.len() - i,
    {
        let c: u8 = b[i];
        assert(t[i as int] == c as char);
        let ghost part = t.subrange(start as int, i as int);
        if c == 0x3a {
            let ghost before = outside::octets_held(found);
            assert(octets(t, start as int) == octet(part) + octets(t, i + 1));
            if !push_octet(&mut found, value, i > start, Ghost(part)) {
                return None;
            }
            assert(before + (octet(part) + octets(t, i + 1)) == outside::octets_held(found)
                + octets(t, i + 1));
            start = i + 1;
            value = 0;
            assert(t.subrange(start as int, start as int) == Seq::<char>::empty());
        } else {
            match hex_of(c) {
                Some(d) => {
                    assert(t.subrange(start as int, i + 1).drop_last() == part);
                    assert(t.subrange(start as int, i + 1).last() == t[i as int]);
                    value = value * 16 + d;
                    if value > 255 {
                        value = 256;
                    }
                },
                None => {
                    assert(!is_hex(t[i as int]) && t[i as int] != ':');
                    return None;
                },
            }
        }
        i = i + 1;
    }
    let ghost part = t.subrange(start as int, i as int);
    assert(octets(t, start as int) == octet(part));
    if !push_octet(&mut found, value, i > start, Ghost(part)) {
        return None;
    }
    Some(found)
}

/// A MAC address in `XX:XX:XX:XX:XX:XX` format.
///
/// Nothing if the value is not 17 characters long, has something other than hexadecimal
/// digits and colons in it, or does not give six octets. A part between colons that is
/// empty or above 255 gives none, and leading zeros count for nothing.
pub fn parse_mac_address(value: &str) -> (r: Option<[u8; 6]>)
    ensures
        mac_address(value@) == (match r {
            Some(mac) => Some(mac@),
            None => None,
        }),
{
    let b = match ascii_bytes(value) {
        Some(b) => b,
        None => {
            assert(mac_address(value@) is None) by {
                if mac_address(value@) is Some {
                    assert(is_ascii_chars(value@));
                }
            }
            return None;
        },
    };
    if b.len() != 17 {
        return None;
    }
    match parse_octets(b, Ghost(value@)) {
        Some(found) => {
            let v = outside::octets_slice(&found);
            if v.len() != 6 {
                return None;
            }
            let mac: [u8; 6] = [v[0], v[1], v[2], v[3], v[4], v[5]];
            assert(mac@ == v@);
            Some(mac)
        },
        None => None,
    }
}

/// Whether a character is the digit of a number below 16, in upper or lower case.
pub open spec fn is_digit_of(c: char, n: int) -> bool {
    if n < 10 {
        c == ('0' as int + n) as char
    } else {
        c == ('A' as int + n - 10) as char || c == ('a' as int + n - 10) as char
    }
}

/// Whether a text is an address written out in `XX:XX:XX:XX:XX:XX` format, with digits in
/// upper or lower case.
pub open spec fn is_mac_text(t: Seq<char>, mac: Seq<u8>) -> bool {
    &&& t.len() == 17
    &&& forall|i: int|
        0 <= i < 17 ==> if i % 3 == 0 {
            is_digit_of(#[trigger] t[i], mac[i / 3] as int / 16)
        } else if i % 3 == 1 {
            is_digit_of(t[i], mac[i / 3] as int % 16)
        } else {
            t[i] == ':'
        }
}

proof fn lemma_mac_parts(t: Seq<char>, mac: Seq<u8>, k: int)
    requires
        mac.len() == 6,
        is_mac_text(t, mac),
        0 <= k < 6,
    ensures
        octets(t, 3 * k) == mac.skip(k),
    decreases 6 - k,
{
    let from = 3 * k;
    let part = t.subrange(from, from + 2);
    assert(is_digit_of(t[from], mac[from / 3] as int / 16));
    assert(is_digit_of(t[from + 1], mac[(from + 1) / 3] as int % 16));
    assert(t[from] != ':');
    assert(t[from + 1] != ':');
    reveal_with_fuel(part_end, 3);
    assert(part_end(t, from) == from + 2);
    assert(part.drop_last().drop_last() == Seq::<char>::empty());
    reveal_with_fuel(hex_number, 3);
    assert(hex_number(part) == mac[k]);
    assert(octet(part) == seq![mac[k]]);
    if k < 5 {
        lemma_mac_parts(t, mac, k + 1);
        assert(seq![mac[k]] + mac.skip(k + 1) == mac.skip(k));
    } else {
        assert(seq![mac[k]] == mac.skip(k));
    }
}

/// An address that is written out is read back.
pub proof fn lemma_mac_text(t: Seq<char>, mac: Seq<u8>)
    requires
        mac.len() == 6,
        is_mac_text(t, mac),
    ensures
        mac_address(t) == Some(mac),
{
    assert forall|i: int| 0 <= i < t.len() implies is_hex(#[trigger] t[i]) || t[i] == ':' by {
        if i % 3 == 0 {
            assert(is_digit_of(t[i], mac[i / 3] as int / 16));
        } else if i % 3 == 1 {
            assert(is_digit_of(t[i], mac[i / 3] as int % 16));
        }
    }
    lemma_mac_parts(t, mac, 0);
    assert(mac.skip(0) == mac);
}

} // verus!
