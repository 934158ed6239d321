//! Texts: comparison, and numbers written in digits.

use vstd::prelude::*;
use vstd::string::*;
use vstd::utf8::*;

verus! {

/// Whether two texts are the same.
pub fn equals(a: &str, b: &str) -> (r: bool)
    ensures
        r == (a@ == b@),
{
    let n: usize = a.unicode_len();
    if n != b.unicode_len() {
        return false;
    }
    let mut i: usize = 0;
    while i < n
        invariant
            i <= n,
            n == a@.len(),
            n == b@.len(),
            forall|j: int| 0 <= j < i ==> a@[j] == b@[j],
        decreases n - i,
    {
        if a.get_char(i) != b.get_char(i) {
            return false;
        }
        i = i + 1;
    }
    assert(a@ =~= b@);
    true
}

/// The lower case of an ASCII letter; every other character is itself.
pub open spec fn lower_char(c: char) -> char {
    if 'A' <= c <= 'Z' {
        (c as u32 + 32) as char
    } else {
        c
    }
}

/// A text with its ASCII letters in lower case.
pub open spec fn ascii_lower(t: Seq<char>) -> Seq<char> {
    t.map_values(|c: char| lower_char(c))
}

fn lower(c: char) -> (r: char)
    ensures
        r == lower_char(c),
{
    if 'A' <= c && c <= 'Z' {
        (c as u8 + 32) as char
    } else {
        c
    }
}

/// Whether `a` is `b` but for the case of ASCII letters, `b` being in lower case.
pub fn equals_ignoring_case(a: &str, b: &str) -> (r: bool)
    ensures
        r == (ascii_lower(a@) == b@),
{
    let n: usize = a.unicode_len();
    if n != b.unicode_len() {
        return false;
    }
    let mut i: usize = 0;
    while i < n
        invariant
            i <= n,
            n == a@.len(),
            n == b@.len(),
            forall|j: int| 0 <= j < i ==> lower_char(#[trigger] a@[j]) == b@[j],
        decreases n - i,
    {
        if lower(a.get_char(i)) != b.get_char(i) {
            assert(ascii_lower(a@)[i as int] != b@[i as int]);
            return false;
        }
        i = i + 1;
    }
    assert(ascii_lower(a@) =~= b@);
    true
}

/// The bytes of a text in ASCII, one for each character.
pub fn ascii_bytes(t: &str) -> (r: Option<&[u8]>)
    ensures
        r is Some <==> is_ascii_chars(t@),
        r matches Some(b) ==> {
            &&& b@ == encode_utf8(t@)
            &&& b@.len() == t@.len()
            &&& forall|i: int| 0 <= i < t@.len() ==> #[trigger] b@[i] == t@[i] as u8
            &&& forall|i: int| 0 <= i < t@.len() ==> #[trigger] t@[i] == b@[i] as char
        },
{
    if !t.is_ascii() {
        return None;
    }
    proof {
        is_ascii_chars_encode_utf8(t@);
    }
    Some(t.as_bytes())
}

// ---------------------------------------------------------------------------
// Decimal numbers
// ---------------------------------------------------------------------------

pub open spec fn is_digit(c: char) -> bool {
    '0' <= c <= '9'
}

/// Whether a text is one or more digits.
pub open spec fn is_digits(t: Seq<char>) -> bool {
    t.len() > 0 && forall|i: int| 0 <= i < t.len() ==> is_digit(#[trigger] t[i])
}

/// The number that digits stand for.
pub open spec fn digits_value(t: Seq<char>) -> nat
    decreases t.len(),
{
    if t.len() == 0 {
        0
    } else {
        10 * digits_value(t.drop_last()) + (t.last() as nat - '0' as nat) as nat
    }
}

/// A text without the plus sign at its front.
pub open spec fn unsigned(t: Seq<char>) -> Seq<char> {
    if t.len() > 0 && t[0] == '+' {
        t.skip(1)
    } else {
        t
    }
}

/// The number that a text stands for: digits, with or without a plus sign before them.
pub open spec fn decimal(t: Seq<char>) -> Option<nat> {
    let d = unsigned(t);
    if is_digits(d) {
        Some(digits_value(d))
    } else {
        None
    }
}

/// More digits make no smaller number.
proof fn lemma_digits_grow(t: Seq<char>, n: int)
    requires
        is_digits(t),
        0 <= n <= t.len(),
    ensures
        digits_value(t.take(n)) <= digits_value(t),
    decreases t.len(),
{
    if n == t.len() {
        assert(t.take(n) == t);
    } else if t.len() == 1 {
        assert(t.take(n).len() == 0);
    } else {
        let d = t.drop_last();
        assert forall|i: int| 0 <= i < d.len() implies is_digit(#[trigger] d[i]) by {
            assert(d[i] == t[i]);
        }
        lemma_digits_grow(d, n);
        assert(d.take(n) == t.take(n));
    }
}

/// Reads a number that fits a `u32`.
pub fn parse_decimal(t: &str) -> (r: Option<u32>)
    ensures
        match decimal(t@) {
            Some(n) => if n <= u32::MAX {
                r == Some(n as u32)
            } else {
                r is None
            },
            None => r is None,
        },
{
    let b = match ascii_bytes(t) {
        Some(b) => b,
        None => {
            proof {
                if is_digits(unsigned(t@)) {
                    assert forall|i: int| 0 <= i < t@.len() implies '\0' <= #[trigger] t@[i]
                        <= '\u{7f}' by {
                        if unsigned(t@) == t@ {
                            assert(is_digit(unsigned(t@)[i]));
                        } else if i > 0 {
                            assert(is_digit(unsigned(t@)[i - 1]));
                        }
                    }
                }
            }
            return None;
        },
    };
    let start: usize = if b.len() > 0 && b[0] == 0x2b {
        1
    } else {
        0
    };
    let ghost d = unsigned(t@);
    assert(b@.len() > 0 ==> t@[0] == b@[0] as char);
    assert(d == t@.skip(start as int));
    if start == b.len() {
        return None;
    }
    let mut value: u32 = 0;
    let mut i: usize = start;
    while i < b.len()
        invariant
            start <= i <= b@.len(),
            b@.len() == t@.len(),
            forall|j: int| 0 <= j < t@.len() ==> #[trigger] b@[j] == t@[j] as u8,
            forall|j: int| 0 <= j < t@.len() ==> #[trigger] t@[j] == b@[j] as char,
            d == t@.skip(start as int),
            d == unsigned(t@),
            d.len() > 0,
            forall|j: int| 0 <= j < i - start ==> is_digit(#[trigger] d[j]),
            value == digits_value(d.take(i - start)),
        decreases b@.len() - i,
    {
        let c: u8 = b[i];
        let ghost k = i - start;
        assert(d[k] == t@[i as int]);
        assert(d[k] == c as char);
        if c < 0x30 || c > 0x39 {
            assert(!is_digit(d[k]));
            return None;
        }
        assert(d.take(k + 1).drop_last() == d.take(k));
        assert(d.take(k + 1).last() == d[k]);
        let digit: u32 = (c - 0x30) as u32;
        if value > 429_496_729 || (value == 429_496_729 && digit > 5) {
            proof {
                assert(digits_value(d.take(k + 1)) > u32::MAX);
                if is_digits(d) {
                    lemma_digits_grow(d, k + 1);
                }
            }
            return None;
        }
        value = value * 10 + digit;
        i = i + 1;
    }
    assert(d.take(i - start) == d);
    Some(value)
}

} // verus!
