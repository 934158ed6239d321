//! What holds of encoded and decoded values, of texts, and of hardware settings.

use vstd::prelude::*;
use vstd::utf8::*;

use crate::errors::StampError;
use crate::hal::{BandMode, Parity};
use crate::handle::values;
use crate::ota::tlv;
use crate::ota::tlv::Tlv;
use crate::outside;
use crate::text;
use crate::wire;
use crate::wire::{Sink, Source, WireError};

verus! {

// ---------------------------------------------------------------------------
// Encoding
// ---------------------------------------------------------------------------

/// A number is encoded in four bytes, most significant first.
pub proof fn lemma_enc_u32(v: u32, s: &mut Sink)
    requires
        call_ensures(wire::enc_u32, (v, s), ()),
    ensures
        final(s)@.len() == old(s)@.len() + 1,
        final(s)@.drop_last() == old(s)@,
        final(s)@.last().len() == 4,
        ({
            let b = final(s)@.last();
            v == b[0] * 0x100_0000 + b[1] * 0x1_0000 + b[2] * 0x100 + b[3]
        }),
{
    lemma_number_bytes(v);
}

/// The four bytes of a number make it up, most significant first.
pub proof fn lemma_number_bytes(v: u32)
    ensures
        wire::be_bytes(v).len() == 4,
        ({
            let b = wire::be_bytes(v);
            v == b[0] * 0x100_0000 + b[1] * 0x1_0000 + b[2] * 0x100 + b[3]
        }),
{
}

/// A byte and a byte string are encoded as they are, a truth value as one or zero.
pub proof fn lemma_enc_plain(
    b: u8,
    s: &mut Sink,
    t: bool,
    s2: &mut Sink,
    bytes: &[u8],
    s3: &mut Sink,
)
    requires
        call_ensures(wire::enc_u8, (b, s), ()),
        call_ensures(wire::enc_bool, (t, s2), ()),
        call_ensures(wire::enc_bytes, (bytes, s3), ()),
    ensures
        final(s)@ == old(s)@.push(seq![b]),
        final(s2)@ == old(s2)@.push(seq![if t { 1u8 } else { 0u8 }]),
        final(s3)@ == old(s3)@.push(bytes@),
{
}

/// A text is encoded as the number of its bytes, and these.
pub proof fn lemma_enc_str(t: &str, s: &mut Sink)
    requires
        call_ensures(wire::enc_str, (t, s), ()),
        encode_utf8(t@).len() <= u32::MAX,
    ensures
        final(s)@.len() == old(s)@.len() + 2,
        final(s)@.take(old(s)@.len() as int) == old(s)@,
        final(s)@.last() == encode_utf8(t@),
        ({
            let b = final(s)@[old(s)@.len() as int];
            b.len() == 4 && encode_utf8(t@).len() == b[0] * 0x100_0000 + b[1] * 0x1_0000 + b[2]
                * 0x100 + b[3]
        }),
{
    lemma_number_bytes(encode_utf8(t@).len() as u32);
}

/// Pieces are kept in order: those that were there, and then those that came.
pub proof fn lemma_sink(
    new: Sink,
    bytes: &[u8],
    s: &mut Sink,
    other: &Sink,
    s2: &mut Sink,
)
    requires
        call_ensures(Sink::new, (), new),
        call_ensures(Sink::push, (s, bytes), ()),
        call_ensures(Sink::push_all, (s2, other), ()),
    ensures
        new@.len() == 0,
        final(s)@ == old(s)@.push(bytes@),
        final(s2)@ == old(s2)@ + other@,
{
}

/// Pieces are counted, and each is given as it was pushed.
pub proof fn lemma_sink_pieces(s: &Sink, n: usize, i: usize, b: &[u8])
    requires
        call_ensures(Sink::len, (s,), n),
        i < s@.len(),
        call_ensures(Sink::piece, (s, i), b),
    ensures
        n == s@.len(),
        b@ == s@[i as int],
{
}

/// Pieces put together have the bytes of each piece, one piece after the other.
pub proof fn lemma_sink_bytes(front: Seq<Seq<u8>>, piece: Seq<u8>, s: &Sink, b: Vec<u8>)
    requires
        call_ensures(Sink::bytes, (s,), b),
        s@ == front.push(piece),
    ensures
        b@ == wire::joined(front) + piece,
        wire::joined(Seq::<Seq<u8>>::empty()).len() == 0,
{
    assert(front.push(piece) == front + seq![piece]);
    wire::lemma_joined(front, seq![piece]);
    wire::lemma_joined_one(piece);
}

// ---------------------------------------------------------------------------
// Decoding
// ---------------------------------------------------------------------------

/// A source starts with all of its bytes, and tells how many are left.
pub proof fn lemma_source<'a>(data: &'a [u8], s: Source<'a>, n: usize)
    requires
        call_ensures(Source::<'a>::new, (data,), s),
        call_ensures(Source::<'a>::remaining, (&s,), n),
    ensures
        s.rest() == data@,
        n == data@.len(),
{
}

/// So many bytes are taken off the front exactly if there are so many; otherwise none is.
pub proof fn lemma_take<'a>(s: &mut Source<'a>, n: usize, r: Result<&'a [u8], WireError>)
    requires
        call_ensures(Source::<'a>::take, (s, n), r),
    ensures
        r is Ok <==> n <= old(s).rest().len(),
        r matches Ok(t) ==> t@.len() == n && t@ + final(s).rest() == old(s).rest(),
        r matches Err(e) ==> e == WireError::RanOut && final(s).rest() == old(s).rest(),
{
    let b = old(s).rest();
    if n <= b.len() {
        assert(b.take(n as int) + b.skip(n as int) == b);
    }
}

/// A byte is the first one.
pub proof fn lemma_dec_byte<'a>(s: &mut Source<'a>, r: Result<u8, WireError>)
    requires
        call_ensures(Source::<'a>::dec_u8, (s,), r),
    ensures
        r is Ok <==> old(s).rest().len() >= 1,
        r matches Ok(v) ==> seq![v] + final(s).rest() == old(s).rest(),
        r matches Err(e) ==> e == WireError::RanOut,
{
    let b = old(s).rest();
    if b.len() >= 1 {
        assert(seq![b[0]] + b.skip(1) == b);
    }
}

/// A truth value is false exactly if the first byte is zero.
pub proof fn lemma_dec_truth<'a>(s: &mut Source<'a>, r: Result<bool, WireError>)
    requires
        call_ensures(Source::<'a>::dec_bool, (s,), r),
    ensures
        r is Ok <==> old(s).rest().len() >= 1,
        r matches Ok(v) ==> (v <==> old(s).rest()[0] != 0) && final(s).rest() == old(s).rest().skip(
            1,
        ),
        r matches Err(e) ==> e == WireError::RanOut,
{
}

/// A number is that of the first four bytes, most significant first.
pub proof fn lemma_dec_number<'a>(s: &mut Source<'a>, r: Result<u32, WireError>)
    requires
        call_ensures(Source::<'a>::dec_u32, (s,), r),
    ensures
        r is Ok <==> old(s).rest().len() >= 4,
        r matches Ok(v) ==> {
            let b = old(s).rest();
            &&& v == b[0] * 0x100_0000 + b[1] * 0x1_0000 + b[2] * 0x100 + b[3]
            &&& final(s).rest() == b.skip(4)
        },
        r matches Err(e) ==> e == WireError::RanOut,
{
    let b = old(s).rest();
    if b.len() >= 4 {
        let v = b.take(4);
        assert(v[0] == b[0] && v[1] == b[1] && v[2] == b[2] && v[3] == b[3]);
        assert(v[0] * 0x100_0000 + v[1] * 0x1_0000 + v[2] * 0x100 + v[3] <= u32::MAX);
    }
}

/// An array is so many first bytes.
pub proof fn lemma_dec_array<'a, const N: usize>(s: &mut Source<'a>, r: Result<[u8; N], WireError>)
    requires
        call_ensures(Source::<'a>::dec_array::<N>, (s,), r),
    ensures
        r is Ok <==> old(s).rest().len() >= N,
        r matches Ok(a) ==> a@ + final(s).rest() == old(s).rest(),
        r matches Err(e) ==> e == WireError::RanOut,
{
    let b = old(s).rest();
    if b.len() >= N {
        assert(b.take(N as int) + b.skip(N as int) == b);
    }
}

/// A text is as many bytes as the number before it says, each of which prints: a character for
/// each byte.
pub proof fn lemma_dec_text<'a>(s: &mut Source<'a>, r: Result<&'a str, WireError>)
    requires
        call_ensures(Source::<'a>::dec_str, (s,), r),
    ensures
        ({
            let b = old(s).rest();
            let n = b[0] * 0x100_0000 + b[1] * 0x1_0000 + b[2] * 0x100 + b[3];
            let there = b.len() >= 4 && b.len() >= 4 + n;
            let prints = forall|i: int| 4 <= i < 4 + n ==> 0x20 <= #[trigger] b[i] <= 0x7e;
            &&& r is Ok <==> there && prints
            &&& r matches Ok(t) ==> {
                &&& t@.len() == n
                &&& forall|i: int| 0 <= i < n ==> #[trigger] t@[i] as int == b[4 + i]
                &&& final(s).rest() == b.skip(4 + n)
            }
            &&& !there ==> r == Err::<&'a str, WireError>(WireError::RanOut)
            &&& there && !prints ==> r == Err::<&'a str, WireError>(WireError::BadName)
        }),
{
    let b = old(s).rest();
    if b.len() >= 4 {
        let v = b.take(4);
        assert(v[0] == b[0] && v[1] == b[1] && v[2] == b[2] && v[3] == b[3]);
        let n = b[0] * 0x100_0000 + b[1] * 0x1_0000 + b[2] * 0x100 + b[3];
        assert(n <= u32::MAX);
        let b1 = b.skip(4);
        if b1.len() >= n {
            let t = b1.take(n);
            assert forall|i: int| 0 <= i < n implies #[trigger] t[i] == b[4 + i] by {}
            if forall|i: int| 4 <= i < 4 + n ==> 0x20 <= #[trigger] b[i] <= 0x7e {
                assert forall|i: int| 0 <= i < n implies 0x20 <= #[trigger] t[i] <= 0x7e by {
                    assert(t[i] == b[4 + i]);
                }
            }
            if outside::is_printable(t) {
                assert forall|i: int| 4 <= i < 4 + n implies 0x20 <= #[trigger] b[i] <= 0x7e by {
                    assert(t[i - 4] == b[4 + (i - 4)]);
                }
            }
            assert(b1.skip(n) == b.skip(4 + n));
        }
    }
}

/// Two digests are the same exactly if each byte is.
pub proof fn lemma_same_bytes(a: &[u8; 32], b: &[u8; 32], r: bool)
    requires
        call_ensures(wire::same_bytes, (a, b), r),
    ensures
        r <==> forall|i: int| 0 <= i < 32 ==> #[trigger] a@[i] == b@[i],
{
    if forall|i: int| 0 <= i < 32 ==> #[trigger] a@[i] == b@[i] {
        assert(a@ == b@);
    }
}

// ---------------------------------------------------------------------------
// Parameters of an update
// ---------------------------------------------------------------------------

/// A parameter is its type, its length and its value. An unknown type, a length that is not that
/// of the type, and bytes that are missing each have their error.
pub proof fn lemma_tlv_dec<'a>(s: &mut Source<'a>, r: Result<Tlv, WireError>)
    requires
        call_ensures(Tlv::dec, (s,), r),
    ensures
        ({
            let b = old(s).rest();
            let number = b[2] * 0x100_0000 + b[3] * 0x1_0000 + b[4] * 0x100 + b[5];
            let len = if b[0] == 2 {
                32int
            } else {
                4int
            };
            &&& b.len() == 0 ==> r == Err::<Tlv, WireError>(WireError::RanOut)
            &&& b.len() > 0 && b[0] > 2 ==> r == Err::<Tlv, WireError>(
                WireError::UnknownPacket { number: b[0] },
            )
            &&& b.len() > 0 && b[0] <= 2 ==> {
                &&& b.len() == 1 ==> r == Err::<Tlv, WireError>(WireError::RanOut)
                &&& b.len() >= 2 && b[1] != len ==> r == Err::<Tlv, WireError>(
                    WireError::PacketWrong,
                )
                &&& b.len() >= 2 && b[1] == len && b.len() < 2 + len ==> r == Err::<
                    Tlv,
                    WireError,
                >(WireError::RanOut)
                &&& b.len() >= 2 + len && b[1] == len ==> {
                    &&& final(s).rest() == b.skip(2 + len)
                    &&& b[0] == 0 ==> r == Ok::<Tlv, WireError>(
                        Tlv::OtaType { ota_type: number as u32 },
                    )
                    &&& b[0] == 1 ==> r == Ok::<Tlv, WireError>(
                        Tlv::FirmwareBlob { size: number as u32 },
                    )
                    &&& b[0] == 2 ==> (r matches Ok(Tlv::Sha256Checksum { checksum }) && checksum@
                        == b.subrange(2, 34))
                }
            }
        }),
{
    let b = old(s).rest();
    if b.len() >= 2 {
        let b2 = b.skip(1).skip(1);
        assert(b.skip(1)[0] == b[1]);
        assert(b2 == b.skip(2));
        if b2.len() >= 4 {
            let v = b2.take(4);
            assert(v[0] == b[2] && v[1] == b[3] && v[2] == b[4] && v[3] == b[5]);
            assert(b2.skip(4) == b.skip(6));
        }
        if b2.len() >= 32 {
            assert(b2.take(32) == b.subrange(2, 34));
            assert(b2.skip(32) == b.skip(34));
        }
    }
}

/// Bytes for a parameter are taken behind those held, up to the end that its length says; one that
/// is longer than any is refused with its first two bytes held.
pub proof fn lemma_taking_bytes<'a>(
    s: &mut Source<'a>,
    holder: &mut [u8; tlv::MAX_TLV_SIZE],
    current_len: &mut usize,
    r: Result<(), WireError>,
)
    requires
        call_ensures(Source::<'a>::try_taking_bytes_for_tlv, (s, holder, current_len), r),
        *old(current_len) <= 34,
        tlv::is_partial(old(holder)@.take(*old(current_len) as int)),
    ensures
        ({
            let held = final(holder)@.take(*final(current_len) as int);
            let all = old(holder)@.take(*old(current_len) as int) + old(s).rest();
            &&& held + final(s).rest() == all
            &&& r is Ok <==> all.len() >= 2 && all[1] <= 32 && all.len() >= 2 + all[1]
            &&& r is Ok ==> held.len() == 2 + all[1]
            &&& all.len() >= 2 && all[1] > 32 ==> r == Err::<(), WireError>(WireError::NoRoom)
                && held.len() == 2
            &&& all.len() < 2 || all[1] <= 32 && all.len() < 2 + all[1] ==> r == Err::<
                (),
                WireError,
            >(WireError::RanOut) && final(s).rest().len() == 0
        }),
{
    let all = old(holder)@.take(*old(current_len) as int) + old(s).rest();
    let e = Seq::<u8>::empty();
    assert(all + e == all);
    if all.len() >= 2 {
        assert(all.take(2) + all.skip(2) == all);
        if all.len() >= 2 + all[1] {
            assert(all.take(2 + all[1]) + all.skip(2 + all[1]) == all);
        }
    }
}

// ---------------------------------------------------------------------------
// Texts
// ---------------------------------------------------------------------------

/// Two texts are equal exactly if they have the same characters.
pub proof fn lemma_equals(a: &str, b: &str, r: bool)
    requires
        call_ensures(text::equals, (a, b), r),
    ensures
        r <==> a@ == b@,
{
}

/// A text is another one in lower case, but for its case, exactly if each character is the same or
/// its upper case.
pub proof fn lemma_equals_ignoring_case(a: &str, b: &str, r: bool)
    requires
        call_ensures(text::equals_ignoring_case, (a, b), r),
    ensures
        r <==> a@.len() == b@.len() && forall|i: int|
            0 <= i < a@.len() ==> {
                let c = #[trigger] a@[i];
                if 'A' <= c <= 'Z' {
                    b@[i] as int == c as int + 32
                } else {
                    b@[i] == c
                }
            },
{
    let l = text::ascii_lower(a@);
    assert(l.len() == a@.len());
    if r {
        assert forall|i: int| 0 <= i < a@.len() implies {
            let c = #[trigger] a@[i];
            if 'A' <= c <= 'Z' {
                b@[i] as int == c as int + 32
            } else {
                b@[i] == c
            }
        } by {
            assert(l[i] == text::lower_char(a@[i]));
        }
    } else if a@.len() == b@.len() {
        if forall|i: int|
            0 <= i < a@.len() ==> {
                let c = #[trigger] a@[i];
                if 'A' <= c <= 'Z' {
                    b@[i] as int == c as int + 32
                } else {
                    b@[i] == c
                }
            } {
            assert forall|i: int| 0 <= i < l.len() implies l[i] == b@[i] by {
                assert(l[i] == text::lower_char(a@[i]));
            }
            assert(l == b@);
        }
    }
}

/// The bytes of a text in ASCII are its characters; other texts have none.
pub proof fn lemma_ascii_bytes(t: &str, r: Option<&[u8]>)
    requires
        call_ensures(text::ascii_bytes, (t,), r),
    ensures
        r is Some <==> is_ascii_chars(t@),
        r matches Some(b) ==> b@.len() == t@.len() && forall|i: int|
            0 <= i < b@.len() ==> #[trigger] b@[i] as int == t@[i] as int,
{
    if let Some(b) = r {
        assert forall|i: int| 0 <= i < b@.len() implies #[trigger] b@[i] as int
            == t@[i] as int by {
            assert('\0' <= t@[i] <= '\u{7f}');
        }
    }
}

// ---------------------------------------------------------------------------
// Hardware settings
// ---------------------------------------------------------------------------

/// Parities are stored as 0, 1 and 2, and come back; any other number is read as none.
pub proof fn lemma_parity_codes(p: Parity, code: u8, other: u8, back: Parity)
    requires
        call_ensures(Parity::to_u8, (p,), code),
        call_ensures(Parity::from_u8, (other,), back),
    ensures
        code == 0 <==> p == Parity::NoParity,
        code == 1 <==> p == Parity::Even,
        code == 2 <==> p == Parity::Odd,
        back == Parity::Even <==> other == 1,
        back == Parity::Odd <==> other == 2,
        other == code ==> back == p,
{
}

/// Parities and bands are read from their names: parities as they are, bands in either case.
pub proof fn lemma_hardware_names(
    name: &str,
    p: Option<Parity>,
    b: Option<BandMode>,
)
    requires
        call_ensures(Parity::from_str, (name,), p),
        call_ensures(BandMode::from_str, (name,), b),
    ensures
        p == Some(Parity::NoParity) <==> name@ == seq!['n', 'o', 'n', 'e'],
        p == Some(Parity::Even) <==> name@ == seq!['e', 'v', 'e', 'n'],
        p == Some(Parity::Odd) <==> name@ == seq!['o', 'd', 'd'],
        b == Some(BandMode::Band2_4G) <==> values::is_2_4g(name@),
        b == Some(BandMode::Band5G) <==> values::is_5g(name@),
        b == Some(BandMode::Auto) <==> values::is_auto(name@),
{
    values::lemma_parity(name@);
    values::lemma_band(name@);
}

/// Bands are stored as 0, 1 and 2.
pub proof fn lemma_band_codes(b: BandMode, code: u8)
    requires
        call_ensures(BandMode::to_u8, (b,), code),
    ensures
        code == 0 <==> b == BandMode::Band2_4G,
        code == 1 <==> b == BandMode::Band5G,
        code == 2 <==> b == BandMode::Auto,
{
}

// ---------------------------------------------------------------------------
// Errors
// ---------------------------------------------------------------------------

/// What each error says.
pub proof fn lemma_message(e: &StampError, m: &'static str)
    requires
        call_ensures(StampError::message, (e,), m),
    ensures
        *e == StampError::Rng ==> m@ == "RNG failed"@,
        *e == StampError::KeyFormat ==> m@ == "bad public key format"@,
        *e == StampError::BadKey ==> m@ == "bad key"@,
        *e is Wire ==> m@ == "encoding failed"@,
        *e == StampError::FlashRead ==> m@ == "flash error"@,
        *e == StampError::Undecodable ==> m@ == "failed to decode flash config"@,
        *e == StampError::WrongVersion ==> m@ == "wrong config version"@,
        *e == StampError::BadHash ==> m@ == "bad config hash"@,
        *e == StampError::TooLarge ==> m@ == "encoded config too large for flash area"@,
        *e == StampError::FlashErase ==> m@ == "flash erase error"@,
        *e == StampError::FlashWrite ==> m@ == "flash write error"@,
        *e == StampError::InvalidValue ==> m@ == "invalid value"@,
        *e == StampError::Unauthenticated ==> m@ == "not authenticated"@,
        *e == StampError::BadUsage ==> m@ == "bad usage"@,
{
}

} // verus!
