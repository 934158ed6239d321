//! What the values of environment variables stand for: which texts each reader accepts, and what
//! it makes of them.

use vstd::prelude::*;

use crate::hal::Parity;
use crate::handle::answers;
use crate::handle::env_parser;
use crate::outside;
use crate::text;

verus! {

// ---------------------------------------------------------------------------
// White space around a value
// ---------------------------------------------------------------------------

/// Whether a text is nothing but white space.
pub open spec fn is_blank(t: Seq<char>) -> bool {
    forall|i: int| 0 <= i < t.len() ==> outside::is_white_space(#[trigger] t[i])
}

/// Whether a text is not empty and has no white space at its ends.
pub open spec fn is_core(t: Seq<char>) -> bool {
    t.len() > 0 && !outside::is_white_space(t[0]) && !outside::is_white_space(t.last())
}

proof fn lemma_front_trimmed(front: Seq<char>, t: Seq<char>)
    requires
        is_blank(front),
        t.len() > 0 ==> !outside::is_white_space(t[0]),
    ensures
        outside::trimmed_front(front + t) == t,
    decreases front.len(),
{
    let all = front + t;
    if front.len() == 0 {
        assert(all == t);
    } else {
        let less = front.drop_first();
        assert(all[0] == front[0]);
        assert(all.drop_first() == less + t);
        assert forall|i: int| 0 <= i < less.len() implies outside::is_white_space(
            #[trigger] less[i],
        ) by {
            assert(less[i] == front[i + 1]);
        }
        lemma_front_trimmed(less, t);
    }
}

proof fn lemma_back_trimmed(t: Seq<char>, back: Seq<char>)
    requires
        is_blank(back),
        t.len() > 0 ==> !outside::is_white_space(t.last()),
    ensures
        outside::trimmed_back(t + back) == t,
    decreases back.len(),
{
    let all = t + back;
    if back.len() == 0 {
        assert(all == t);
    } else {
        let less = back.drop_last();
        assert(all.last() == back.last());
        assert(all.drop_last() == t + less);
        assert forall|i: int| 0 <= i < less.len() implies outside::is_white_space(
            #[trigger] less[i],
        ) by {
            assert(less[i] == back[i]);
        }
        lemma_back_trimmed(t, less);
    }
}

/// Trimming takes off the white space around a text and nothing of the text.
pub proof fn lemma_trimmed(front: Seq<char>, core: Seq<char>, back: Seq<char>)
    requires
        is_blank(front),
        is_core(core),
        is_blank(back),
    ensures
        outside::trimmed(front + core + back) == core,
{
    assert(front + core + back == front + (core + back));
    lemma_front_trimmed(front, core + back);
    lemma_back_trimmed(core, back);
}

/// A text without white space at its ends stays as it is.
pub proof fn lemma_core_stays(core: Seq<char>)
    requires
        is_core(core),
    ensures
        outside::trimmed(core) == core,
{
}

// ---------------------------------------------------------------------------
// Texts
// ---------------------------------------------------------------------------

/// Whether each character of a text is visible ASCII: `!` to `~`.
pub open spec fn visible(t: Seq<char>) -> bool {
    forall|i: int| 0 <= i < t.len() ==> '!' <= #[trigger] t[i] <= '~'
}

/// Whether each character of a text is ASCII that prints: a space to `~`.
pub open spec fn prints(t: Seq<char>) -> bool {
    forall|i: int| 0 <= i < t.len() ==> ' ' <= #[trigger] t[i] <= '~'
}

/// What is clean is every text of one or more characters `!` to `~`, and nothing else.
pub proof fn lemma_env_sanitize(s: &str, r: bool)
    requires
        call_ensures(env_parser::env_sanitize, (s,), r),
    ensures
        r <==> s@.len() > 0 && visible(s@),
{
    lemma_sanitary(s@);
}

/// A text is clean exactly if it is one or more visible characters.
pub proof fn lemma_sanitary(t: Seq<char>)
    ensures
        env_parser::sanitary(t) <==> t.len() > 0 && visible(t),
{
    if env_parser::sanitary(t) {
        assert forall|i: int| 0 <= i < t.len() implies '!' <= #[trigger] t[i] <= '~' by {
            assert(env_parser::is_graphic(t[i]));
        }
    }
    if visible(t) {
        assert forall|i: int| 0 <= i < t.len() implies env_parser::is_graphic(#[trigger] t[i]) by {
            assert('!' <= t[i] <= '~');
        }
    }
}

/// A text is a key line exactly if it is 1 to 256 characters that print.
pub proof fn lemma_key_line(t: Seq<char>)
    ensures
        env_parser::is_key_line(t) <==> 1 <= t.len() <= 256 && prints(t),
{
    if env_parser::is_key_line(t) {
        assert forall|i: int| 0 <= i < t.len() implies ' ' <= #[trigger] t[i] <= '~' by {
            assert(env_parser::is_graphic(t[i]) || t[i] == ' ');
        }
    }
    if prints(t) {
        assert forall|i: int| 0 <= i < t.len() implies env_parser::is_graphic(#[trigger] t[i])
            || t[i] == ' ' by {
            assert(' ' <= t[i] <= '~');
        }
    }
}

/// A key line is every text of 1 to 256 characters from the space to `~`, white space around it
/// aside, and nothing else; it is given without that white space and otherwise unchanged.
pub proof fn lemma_parse_pubkey(value: &str, r: Option<&str>)
    requires
        call_ensures(env_parser::parse_pubkey, (value,), r),
    ensures
        r is Some <==> 1 <= outside::trimmed(value@).len() <= 256 && prints(
            outside::trimmed(value@),
        ),
        r matches Some(t) ==> t@ == outside::trimmed(value@),
{
    lemma_key_line(outside::trimmed(value@));
}

/// Every line of at most 256 characters that print, with no white space at its ends, is taken as
/// it is, whatever white space it comes in.
pub proof fn lemma_key_line_is_taken(
    front: Seq<char>,
    line: Seq<char>,
    back: Seq<char>,
    value: &str,
    r: Option<&str>,
)
    requires
        call_ensures(env_parser::parse_pubkey, (value,), r),
        value@ == front + line + back,
        is_blank(front),
        is_blank(back),
        is_core(line),
        line.len() <= 256,
        forall|i: int| 0 <= i < line.len() ==> ' ' <= #[trigger] line[i] <= '~',
    ensures
        r matches Some(t) && t@ == line,
{
    lemma_trimmed(front, line, back);
    lemma_parse_pubkey(value, r);
}

/// The name of an access point is every text of 1 to 32 visible characters, as it is.
pub proof fn lemma_parse_wifi_ap_ssid(value: &str, r: Option<heapless::String<32>>)
    requires
        call_ensures(env_parser::parse_wifi_ap_ssid, (value,), r),
    ensures
        r is Some <==> 1 <= value@.len() <= 32 && visible(value@),
        r matches Some(s) ==> outside::ssid_text(s) == value@,
{
    lemma_sanitary(value@);
}

/// The name of the network to join is every text of up to 32 visible characters, as it is.
pub proof fn lemma_parse_wifi_station_ssid(value: &str, r: Option<heapless::String<32>>)
    requires
        call_ensures(env_parser::parse_wifi_station_ssid, (value,), r),
    ensures
        r is Some <==> value@.len() <= 32 && visible(value@),
        r matches Some(s) ==> outside::ssid_text(s) == value@,
{
    lemma_sanitary(value@);
}

/// A passphrase is every text of 8 to 63 visible characters, as it is.
pub proof fn lemma_parse_wifi_psk(value: &str, r: Option<heapless::String<63>>)
    requires
        call_ensures(env_parser::parse_wifi_psk, (value,), r),
    ensures
        r is Some <==> 8 <= value@.len() <= 63 && visible(value@),
        r matches Some(s) ==> outside::psk_text(s) == value@,
{
    lemma_sanitary(value@);
}

// ---------------------------------------------------------------------------
// Names
// ---------------------------------------------------------------------------

/// Whether a text is `2.4g`, in either case.
pub open spec fn is_2_4g(t: Seq<char>) -> bool {
    t.len() == 4 && t[0] == '2' && t[1] == '.' && t[2] == '4' && answers::is_letter(t[3], 'g')
}

/// Whether a text is `5g`, in either case.
pub open spec fn is_5g(t: Seq<char>) -> bool {
    t.len() == 2 && t[0] == '5' && answers::is_letter(t[1], 'g')
}

/// Whether a text is `auto`, in any mix of cases.
pub open spec fn is_auto(t: Seq<char>) -> bool {
    t.len() == 4 && answers::is_letter(t[0], 'a') && answers::is_letter(t[1], 'u')
        && answers::is_letter(t[2], 't') && answers::is_letter(t[3], 'o')
}

/// The three bands by their names, which are stored as 0, 1 and 2; no other name is one.
pub proof fn lemma_parse_wifi_band(value: &str, r: Option<u8>)
    requires
        call_ensures(env_parser::parse_wifi_band, (value,), r),
    ensures
        r == Some(0u8) <==> is_2_4g(value@),
        r == Some(1u8) <==> is_5g(value@),
        r == Some(2u8) <==> is_auto(value@),
        r is None <==> !is_2_4g(value@) && !is_5g(value@) && !is_auto(value@),
{
    lemma_band(value@);
}

/// The bands have these three names and no others, and these numbers.
pub proof fn lemma_band(t: Seq<char>)
    ensures
        ({
            let band = match crate::hal::BandMode::named(t) {
                Some(b) => Some(b.code()),
                None => None,
            };
            &&& band == Some(0u8) <==> is_2_4g(t)
            &&& band == Some(1u8) <==> is_5g(t)
            &&& band == Some(2u8) <==> is_auto(t)
            &&& band is None <==> !is_2_4g(t) && !is_5g(t) && !is_auto(t)
        }),
{
    reveal_strlit("2.4g");
    reveal_strlit("5g");
    reveal_strlit("auto");
    let l = text::ascii_lower(t);
    assert forall|i: int| 0 <= i < t.len() implies l[i] == text::lower_char(#[trigger] t[i]) by {}
    assert(l.len() == t.len());
    assert("2.4g"@.len() == 4 && "5g"@.len() == 2 && "auto"@.len() == 4);
    if t.len() == 4 {
        assert(l[0] == text::lower_char(t[0]));
        assert(l[1] == text::lower_char(t[1]));
        assert(l[2] == text::lower_char(t[2]));
        assert(l[3] == text::lower_char(t[3]));
        if is_2_4g(t) {
            assert(l == "2.4g"@);
        }
        if is_auto(t) {
            assert(l == "auto"@);
        }
        if l == "2.4g"@ {
            assert(l[0] == '2' && l[1] == '.' && l[2] == '4' && l[3] == 'g');
        }
        if l == "auto"@ {
            assert(l[0] == 'a' && l[1] == 'u' && l[2] == 't' && l[3] == 'o');
        }
        assert("2.4g"@[0] == '2');
        assert("auto"@[0] == 'a');
    }
    if t.len() == 2 {
        assert(l[0] == text::lower_char(t[0]));
        assert(l[1] == text::lower_char(t[1]));
        if is_5g(t) {
            assert(l == "5g"@);
        }
        if l == "5g"@ {
            assert(l[0] == '5' && l[1] == 'g');
        }
    }
}

/// The three parities by their names, white space around them aside; no other name is one.
pub proof fn lemma_parse_uart_parity(value: &str, r: Option<Parity>)
    requires
        call_ensures(env_parser::parse_uart_parity, (value,), r),
    ensures
        r == Some(Parity::NoParity) <==> outside::trimmed(value@) == seq!['n', 'o', 'n', 'e'],
        r == Some(Parity::Even) <==> outside::trimmed(value@) == seq!['e', 'v', 'e', 'n'],
        r == Some(Parity::Odd) <==> outside::trimmed(value@) == seq!['o', 'd', 'd'],
{
    lemma_parity(outside::trimmed(value@));
}

/// The parities have these three names and no others.
pub proof fn lemma_parity(t: Seq<char>)
    ensures
        Parity::named(t) == Some(Parity::NoParity) <==> t == seq!['n', 'o', 'n', 'e'],
        Parity::named(t) == Some(Parity::Even) <==> t == seq!['e', 'v', 'e', 'n'],
        Parity::named(t) == Some(Parity::Odd) <==> t == seq!['o', 'd', 'd'],
{
    reveal_strlit("none");
    reveal_strlit("even");
    reveal_strlit("odd");
    assert("none"@ == seq!['n', 'o', 'n', 'e']);
    assert("even"@ == seq!['e', 'v', 'e', 'n']);
    assert("odd"@ == seq!['o', 'd', 'd']);
    assert("none"@[0] == 'n');
    assert("even"@[0] == 'e');
    assert("odd"@[0] == 'o');
}

// ---------------------------------------------------------------------------
// Numbers
// ---------------------------------------------------------------------------

/// The digit that a number below ten is written as.
pub open spec fn digit(n: nat) -> char {
    ('0' as int + n) as char
}

/// A number written out, without zeros before it.
pub open spec fn numeral(n: nat) -> Seq<char>
    decreases n,
{
    if n < 10 {
        seq![digit(n)]
    } else {
        numeral(n / 10).push(digit(n % 10))
    }
}

/// So many zeros.
pub open spec fn zeros_of(n: nat) -> Seq<char> {
    Seq::new(n, |i: int| '0')
}

/// A number written out with zeros before it, and with a plus sign before these if asked for.
pub open spec fn padded(plus: bool, zeros: nat, n: nat) -> Seq<char> {
    (if plus {
        seq!['+']
    } else {
        Seq::empty()
    }) + (zeros_of(zeros) + numeral(n))
}

/// Whether a text is a way of writing a number.
pub open spec fn spells(t: Seq<char>, n: nat) -> bool {
    exists|plus: bool, zeros: nat| t == #[trigger] padded(plus, zeros, n)
}

proof fn lemma_numeral(n: nat)
    ensures
        text::is_digits(numeral(n)),
        text::digits_value(numeral(n)) == n,
    decreases n,
{
    let t = numeral(n);
    if n < 10 {
        assert(t.drop_last() == Seq::<char>::empty());
        assert(text::digits_value(t.drop_last()) == 0);
        assert(t.last() == digit(n));
    } else {
        lemma_numeral(n / 10);
        assert(t.drop_last() == numeral(n / 10));
        assert(t.last() == digit(n % 10));
        assert forall|i: int| 0 <= i < t.len() implies text::is_digit(#[trigger] t[i]) by {
            if i < t.len() - 1 {
                assert(t[i] == numeral(n / 10)[i]);
            }
        }
    }
}

proof fn lemma_zeros(zeros: nat, d: Seq<char>)
    requires
        text::is_digits(d),
    ensures
        text::is_digits(zeros_of(zeros) + d),
        text::digits_value(zeros_of(zeros) + d) == text::digits_value(d),
    decreases d.len(), zeros,
{
    let z = zeros_of(zeros);
    let t = z + d;
    assert forall|i: int| 0 <= i < t.len() implies text::is_digit(#[trigger] t[i]) by {
        if i >= zeros {
            assert(t[i] == d[i - zeros]);
        }
    }
    let e = d.drop_last();
    assert(t.drop_last() == z + e);
    assert(t.last() == d.last());
    if e.len() == 0 {
        lemma_only_zeros(zeros);
        assert(z + e == z);
        assert(text::digits_value(e) == 0);
    } else {
        assert forall|i: int| 0 <= i < e.len() implies text::is_digit(#[trigger] e[i]) by {
            assert(e[i] == d[i]);
        }
        lemma_zeros(zeros, e);
    }
    assert(text::digits_value(z + e) == text::digits_value(e));
    assert(text::digits_value(t) == 10 * text::digits_value(t.drop_last()) + (t.last() as nat
        - '0' as nat) as nat);
}

proof fn lemma_only_zeros(zeros: nat)
    ensures
        text::digits_value(zeros_of(zeros)) == 0,
    decreases zeros,
{
    if zeros > 0 {
        lemma_only_zeros((zeros - 1) as nat);
        assert(zeros_of(zeros).drop_last() == zeros_of((zeros - 1) as nat));
    }
}

/// A number that is written out is read back, with or without a plus sign and zeros before it.
pub proof fn lemma_written_number(plus: bool, zeros: nat, n: nat)
    ensures
        text::decimal(padded(plus, zeros, n)) == Some(n),
{
    let d = zeros_of(zeros) + numeral(n);
    lemma_numeral(n);
    lemma_zeros(zeros, numeral(n));
    let t = padded(plus, zeros, n);
    if plus {
        assert(t[0] == '+');
        assert(t.skip(1) == d);
    } else {
        assert(t == d);
        assert(text::is_digit(d[0]));
    }
}

proof fn lemma_digits_spelled(d: Seq<char>) -> (zeros: nat)
    requires
        text::is_digits(d),
    ensures
        d == zeros_of(zeros) + numeral(text::digits_value(d)),
    decreases d.len(),
{
    let c = d.last();
    assert(text::is_digit(d[d.len() - 1]));
    let k = (c as nat - '0' as nat) as nat;
    assert(c == digit(k));
    let e = d.drop_last();
    if e.len() == 0 {
        assert(text::digits_value(e) == 0);
        assert(text::digits_value(d) == k);
        assert(d == zeros_of(0) + numeral(k));
        0
    } else {
        assert forall|i: int| 0 <= i < e.len() implies text::is_digit(#[trigger] e[i]) by {
            assert(e[i] == d[i]);
        }
        let zeros = lemma_digits_spelled(e);
        let v = text::digits_value(e);
        let z = zeros_of(zeros);
        assert(d == e.push(c));
        if v > 0 {
            assert((10 * v + k) / 10 == v && (10 * v + k) % 10 == k);
            assert(numeral(10 * v + k) == numeral(v).push(c));
            assert(d == z + numeral(10 * v + k));
            zeros
        } else {
            assert(numeral(0) == seq!['0']);
            assert(d == zeros_of(zeros + 1) + numeral(k));
            zeros + 1
        }
    }
}

/// A text stands for a number exactly if it is a way of writing that number.
pub proof fn lemma_decimal(t: Seq<char>, n: nat)
    ensures
        text::decimal(t) == Some(n) <==> spells(t, n),
{
    if text::decimal(t) == Some(n) {
        let d = text::unsigned(t);
        let zeros = lemma_digits_spelled(d);
        let plus = t.len() > 0 && t[0] == '+';
        assert(t == padded(plus, zeros, n)) by {
            if plus {
                assert(t == seq!['+'] + d);
            } else {
                assert(t == Seq::<char>::empty() + d);
            }
        }
    }
    if spells(t, n) {
        let (plus, zeros) = choose|plus: bool, zeros: nat| t == #[trigger] padded(plus, zeros, n);
        lemma_written_number(plus, zeros, n);
    }
}

/// A number that fits 32 bits is read exactly from the ways of writing it.
pub proof fn lemma_parse_decimal(t: &str, n: u32, r: Option<u32>)
    requires
        call_ensures(text::parse_decimal, (t,), r),
    ensures
        r == Some(n) <==> spells(t@, n as nat),
{
    lemma_decimal(t@, n as nat);
}

/// A line rate is read exactly from the ways of writing it, for every rate from 300 to 5000000
/// baud; no other rate is read.
pub proof fn lemma_parse_uart_baud(value: &str, n: u32, r: Option<u32>)
    requires
        call_ensures(env_parser::parse_uart_baud, (value,), r),
    ensures
        r == Some(n) <==> 300 <= n <= 5_000_000 && spells(outside::trimmed(value@), n as nat),
{
    lemma_decimal(outside::trimmed(value@), n as nat);
}

/// Data bits are read exactly from the ways of writing them, from 5 to 8.
pub proof fn lemma_parse_uart_data_bits(value: &str, n: u8, r: Option<u8>)
    requires
        call_ensures(env_parser::parse_uart_data_bits, (value,), r),
    ensures
        r == Some(n) <==> 5 <= n <= 8 && spells(outside::trimmed(value@), n as nat),
{
    lemma_decimal(outside::trimmed(value@), n as nat);
}

/// Stop bits are read exactly from the ways of writing them, 1 or 2.
pub proof fn lemma_parse_uart_stop_bits(value: &str, n: u8, r: Option<u8>)
    requires
        call_ensures(env_parser::parse_uart_stop_bits, (value,), r),
    ensures
        r == Some(n) <==> 1 <= n <= 2 && spells(outside::trimmed(value@), n as nat),
{
    lemma_decimal(outside::trimmed(value@), n as nat);
}

// ---------------------------------------------------------------------------
// MAC address
// ---------------------------------------------------------------------------

/// Whether a character is a hexadecimal digit, in either case.
pub open spec fn is_hex(c: char) -> bool {
    '0' <= c <= '9' || 'a' <= c <= 'f' || 'A' <= c <= 'F'
}

/// What a hexadecimal digit counts.
pub open spec fn hex_value(c: char) -> int {
    if '0' <= c <= '9' {
        c as int - '0' as int
    } else if 'a' <= c <= 'f' {
        c as int - 'a' as int + 10
    } else {
        c as int - 'A' as int + 10
    }
}

/// Whether a text is hexadecimal digits, or empty.
pub open spec fn all_hex(t: Seq<char>) -> bool {
    forall|i: int| 0 <= i < t.len() ==> is_hex(#[trigger] t[i])
}

/// The octet of a part between colons: its last two digits, if there is one and all digits before
/// these are zeros. Otherwise the part has none.
pub open spec fn part_octet(p: Seq<char>) -> Seq<u8> {
    let n = p.len() as int;
    if n == 0 || exists|i: int| 0 <= i < n - 2 && #[trigger] p[i] != '0' {
        Seq::empty()
    } else if n == 1 {
        seq![hex_value(p[0]) as u8]
    } else {
        seq![(16 * hex_value(p[n - 2]) + hex_value(p[n - 1])) as u8]
    }
}

/// Parts with colons between them.
pub open spec fn with_colons(parts: Seq<Seq<char>>) -> Seq<char>
    decreases parts.len(),
{
    if parts.len() == 0 {
        Seq::empty()
    } else if parts.len() == 1 {
        parts[0]
    } else {
        parts[0] + (seq![':'] + with_colons(parts.skip(1)))
    }
}

/// The octets of all parts, in order.
pub open spec fn part_octets(parts: Seq<Seq<char>>) -> Seq<u8>
    decreases parts.len(),
{
    if parts.len() == 0 {
        Seq::empty()
    } else {
        part_octet(parts[0]) + part_octets(parts.skip(1))
    }
}

proof fn lemma_hex_zero(t: Seq<char>)
    requires
        all_hex(t),
    ensures
        env_parser::hex_number(t) == 0 <==> forall|i: int| 0 <= i < t.len() ==> #[trigger] t[i]
            == '0',
    decreases t.len(),
{
    if t.len() > 0 {
        let e = t.drop_last();
        assert(is_hex(t[t.len() - 1]));
        assert forall|i: int| 0 <= i < e.len() implies is_hex(#[trigger] e[i]) by {
            assert(e[i] == t[i]);
        }
        lemma_hex_zero(e);
        if env_parser::hex_number(t) == 0 {
            assert forall|i: int| 0 <= i < t.len() implies #[trigger] t[i] == '0' by {
                if i < t.len() - 1 {
                    assert(e[i] == t[i]);
                }
            }
        }
        if forall|i: int| 0 <= i < t.len() ==> #[trigger] t[i] == '0' {
            assert forall|i: int| 0 <= i < e.len() implies #[trigger] e[i] == '0' by {
                assert(e[i] == t[i]);
            }
            assert(t[t.len() - 1] == '0');
        }
    }
}

proof fn lemma_part_octet(p: Seq<char>)
    requires
        all_hex(p),
    ensures
        env_parser::octet(p) == part_octet(p),
{
    let n = p.len() as int;
    reveal_with_fuel(env_parser::hex_number, 2);
    if n == 0 {
    } else if n == 1 {
        assert(is_hex(p[0]));
        assert(p.drop_last() == Seq::<char>::empty());
        assert(env_parser::hex_number(p.drop_last()) == 0);
        assert(env_parser::hex_number(p) == hex_value(p[0]));
    } else {
        let q = p.drop_last();
        let f = q.drop_last();
        assert(is_hex(p[n - 1]) && is_hex(p[n - 2]));
        assert(q.last() == p[n - 2]);
        assert forall|i: int| 0 <= i < f.len() implies is_hex(#[trigger] f[i]) by {
            assert(f[i] == p[i]);
        }
        lemma_hex_zero(f);
        let v = env_parser::hex_number(f);
        assert(env_parser::hex_number(q) == 16 * v + hex_value(p[n - 2]));
        assert(env_parser::hex_number(p) == 16 * env_parser::hex_number(q) + hex_value(p[n - 1]));
        if exists|i: int| 0 <= i < n - 2 && #[trigger] p[i] != '0' {
            let i = choose|i: int| 0 <= i < n - 2 && #[trigger] p[i] != '0';
            assert(f[i] == p[i]);
            assert(v > 0);
        } else {
            assert forall|i: int| 0 <= i < f.len() implies #[trigger] f[i] == '0' by {
                assert(f[i] == p[i]);
            }
        }
    }
}

proof fn lemma_part_end(t: Seq<char>, from: int, n: int)
    requires
        0 <= from,
        0 <= n,
        from + n <= t.len(),
        forall|i: int| from <= i < from + n ==> #[trigger] t[i] != ':',
        from + n < t.len() ==> t[from + n] == ':',
    ensures
        env_parser::part_end(t, from) == from + n,
    decreases n,
{
    if n > 0 {
        assert(t[from] != ':');
        lemma_part_end(t, from + 1, n - 1);
    }
}

proof fn lemma_octets(t: Seq<char>, from: int, parts: Seq<Seq<char>>)
    requires
        parts.len() > 0,
        forall|i: int| 0 <= i < parts.len() ==> all_hex(#[trigger] parts[i]),
        0 <= from <= t.len(),
        t.skip(from) == with_colons(parts),
    ensures
        env_parser::octets(t, from) == part_octets(parts),
    decreases parts.len(),
{
    let p = parts[0];
    let n = p.len() as int;
    let s = t.skip(from);
    let rest = parts.skip(1);
    assert(all_hex(p));
    if parts.len() == 1 {
        assert(s == p);
    } else {
        assert(s == p + (seq![':'] + with_colons(rest)));
    }
    assert(s.len() >= n);
    assert forall|i: int| from <= i < from + n implies #[trigger] t[i] == p[i - from] && is_hex(
        t[i],
    ) by {
        assert(t[i] == s[i - from]);
        assert(is_hex(p[i - from]));
    }
    if parts.len() == 1 {
        assert(t.len() == from + n);
        lemma_part_end(t, from, n);
        assert(t.subrange(from, from + n) == p);
        lemma_part_octet(p);
        assert(part_octets(rest) == Seq::<u8>::empty());
    } else {
        assert(s[n] == ':');
        assert(t[from + n] == ':');
        lemma_part_end(t, from, n);
        assert(t.subrange(from, from + n) == p);
        lemma_part_octet(p);
        assert(t.skip(from + n + 1) == with_colons(rest)) by {
            assert(s.skip(n + 1) == with_colons(rest));
            assert(t.skip(from + n + 1) == s.skip(n + 1));
        }
        assert forall|i: int| 0 <= i < rest.len() implies all_hex(#[trigger] rest[i]) by {
            assert(rest[i] == parts[i + 1]);
        }
        lemma_octets(t, from + n + 1, rest);
    }
}

/// An address is read only from 17 hexadecimal digits and colons.
pub proof fn lemma_mac_characters(value: &str, r: Option<[u8; 6]>)
    requires
        call_ensures(env_parser::parse_mac_address, (value,), r),
    ensures
        r is Some ==> value@.len() == 17 && forall|i: int|
            0 <= i < 17 ==> is_hex(#[trigger] value@[i]) || value@[i] == ':',
{
    if r is Some {
        let t = value@;
        assert forall|i: int| 0 <= i < 17 implies is_hex(#[trigger] t[i]) || t[i] == ':' by {
            assert(env_parser::is_hex(t[i]) || t[i] == ':');
        }
    }
}

/// Digits in parts with colons between them are an address exactly if all of it takes 17
/// characters and six of the parts have an octet; the address is those octets, in order.
pub proof fn lemma_mac_parts(value: &str, parts: Seq<Seq<char>>, r: Option<[u8; 6]>)
    requires
        call_ensures(env_parser::parse_mac_address, (value,), r),
        parts.len() > 0,
        forall|i: int| 0 <= i < parts.len() ==> all_hex(#[trigger] parts[i]),
        value@ == with_colons(parts),
    ensures
        r is Some <==> value@.len() == 17 && part_octets(parts).len() == 6,
        r matches Some(mac) ==> mac@ == part_octets(parts),
{
    lemma_mac_of_parts(value@, parts);
}

/// An address is the octets of its parts.
pub proof fn lemma_mac_of_parts(t: Seq<char>, parts: Seq<Seq<char>>)
    requires
        parts.len() > 0,
        forall|i: int| 0 <= i < parts.len() ==> all_hex(#[trigger] parts[i]),
        t == with_colons(parts),
    ensures
        env_parser::mac_address(t) is Some <==> t.len() == 17 && part_octets(parts).len() == 6,
        env_parser::mac_address(t) matches Some(mac) ==> mac == part_octets(parts),
{
    assert(t.skip(0) == t);
    lemma_octets(t, 0, parts);
    lemma_colon_characters(parts);
    assert forall|i: int| 0 <= i < t.len() implies env_parser::is_hex(#[trigger] t[i]) || t[i]
        == ':' by {
        assert(is_hex(t[i]) || t[i] == ':');
    }
}

proof fn lemma_colon_characters(parts: Seq<Seq<char>>)
    requires
        forall|i: int| 0 <= i < parts.len() ==> all_hex(#[trigger] parts[i]),
    ensures
        forall|i: int|
            0 <= i < with_colons(parts).len() ==> is_hex(#[trigger] with_colons(parts)[i])
                || with_colons(parts)[i] == ':',
    decreases parts.len(),
{
    let t = with_colons(parts);
    if parts.len() > 0 {
        let p = parts[0];
        let rest = parts.skip(1);
        assert forall|i: int| 0 <= i < rest.len() implies all_hex(#[trigger] rest[i]) by {
            assert(rest[i] == parts[i + 1]);
        }
        lemma_colon_characters(rest);
        assert(all_hex(p));
        assert forall|i: int| 0 <= i < t.len() implies is_hex(#[trigger] t[i]) || t[i] == ':' by {
            if i < p.len() {
                assert(t[i] == p[i]);
                assert(is_hex(p[i]));
            } else if i > p.len() {
                assert(t[i] == with_colons(rest)[i - p.len() - 1]);
            }
        }
    }
}

/// Whether an octet is written as two digits at `at`.
pub open spec fn is_pair(t: Seq<char>, at: int, octet: u8) -> bool {
    is_hex(t[at]) && is_hex(t[at + 1]) && octet == 16 * hex_value(t[at]) + hex_value(t[at + 1])
}

/// Six octets written as two digits each, with colons between them, are read as these octets.
pub proof fn lemma_mac_written_out(value: &str, mac: Seq<u8>, r: Option<[u8; 6]>)
    requires
        call_ensures(env_parser::parse_mac_address, (value,), r),
        mac.len() == 6,
        value@.len() == 17,
        forall|k: int| 0 <= k < 6 ==> #[trigger] is_pair(value@, 3 * k, mac[k]),
        value@[2] == ':' && value@[5] == ':' && value@[8] == ':' && value@[11] == ':' && value@[14]
            == ':',
    ensures
        r matches Some(m) && m@ == mac,
{
    let t = value@;
    let parts = Seq::new(6, |k: int| t.subrange(3 * k, 3 * k + 2));
    assert forall|k: int| 0 <= k < parts.len() implies all_hex(#[trigger] parts[k]) by {
        assert(is_pair(t, 3 * k, mac[k]));
        assert forall|i: int| 0 <= i < 2 implies is_hex(#[trigger] parts[k][i]) by {
            assert(parts[k][i] == t[3 * k + i]);
        }
    }
    lemma_pairs(t, mac, 0);
    assert(parts.skip(0) == parts);
    assert(t.skip(0) == t);
    assert(mac.skip(0) == mac);
    lemma_mac_parts(value, parts, r);
}

proof fn lemma_pairs(t: Seq<char>, mac: Seq<u8>, k: int)
    requires
        mac.len() == 6,
        t.len() == 17,
        forall|k: int| 0 <= k < 6 ==> #[trigger] is_pair(t, 3 * k, mac[k]),
        t[2] == ':' && t[5] == ':' && t[8] == ':' && t[11] == ':' && t[14] == ':',
        0 <= k < 6,
    ensures
        ({
            let parts = Seq::new(6, |k: int| t.subrange(3 * k, 3 * k + 2)).skip(k);
            &&& with_colons(parts) == t.skip(3 * k)
            &&& part_octets(parts) == mac.skip(k)
        }),
    decreases 6 - k,
{
    let all = Seq::new(6, |k: int| t.subrange(3 * k, 3 * k + 2));
    let parts = all.skip(k);
    let p = parts[0];
    assert(p == t.subrange(3 * k, 3 * k + 2));
    assert(is_pair(t, 3 * k, mac[k]));
    assert(p[0] == t[3 * k] && p[1] == t[3 * k + 1]);
    assert(part_octet(p) == seq![mac[k]]);
    assert(parts.skip(1) == all.skip(k + 1));
    if k < 5 {
        lemma_pairs(t, mac, k + 1);
        assert(t[3 * k + 2] == ':');
        assert(p + (seq![':'] + t.skip(3 * k + 3)) == t.skip(3 * k));
        assert(seq![mac[k]] + mac.skip(k + 1) == mac.skip(k));
    } else {
        assert(p == t.skip(15));
        assert(part_octets(parts.skip(1)) == Seq::<u8>::empty());
        assert(seq![mac[k]] + Seq::<u8>::empty() == mac.skip(k));
    }
}

} // verus!
