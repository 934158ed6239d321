//! SSH wire format: the primitives that stored records are made of.
//!
//! Numbers are big-endian, a text or a blob is preceded by its length as a
//! `u32`, byte arrays stand as they are. The `dec_*` spec functions are the
//! grammar: each takes the bytes at hand and gives the value read and the bytes
//! after it, or the error.

use vstd::prelude::*;
use vstd::slice::slice_subrange;
use vstd::utf8::*;

use crate::outside;

verus! {

/// What can go wrong while encoding or decoding.
#[derive(Clone, Copy, Debug, PartialEq, Eq, Structural)]
pub enum WireError {
    /// The target has no room for the encoding.
    NoRoom,
    /// The input ended early.
    RanOut,
    /// A text does not fit the field it is for.
    BadString,
    /// A text holds something other than printable ASCII.
    BadName,
    /// A value is out of its range.
    PacketWrong,
    /// A length field contradicts what follows it.
    SSHProto,
    /// The value has no encoding.
    UnknownVariant,
    /// The type field holds an unknown number.
    UnknownPacket { number: u8 },
}

// ---------------------------------------------------------------------------
// Encoding
// ---------------------------------------------------------------------------

/// The four bytes of `v`, most significant first.
pub open spec fn be_bytes(v: u32) -> Seq<u8> {
    seq![
        (v / 0x100_0000) as u8,
        (v / 0x1_0000 % 0x100) as u8,
        (v / 0x100 % 0x100) as u8,
        (v % 0x100) as u8,
    ]
}

/// The number that four bytes hold, most significant first.
pub open spec fn be_value(b: Seq<u8>) -> u32
    recommends
        b.len() == 4,
{
    (b[0] * 0x100_0000 + b[1] * 0x1_0000 + b[2] * 0x100 + b[3]) as u32
}

pub open spec fn bool_bytes(v: bool) -> Seq<u8> {
    seq![if v { 1u8 } else { 0u8 }]
}

/// A length-prefixed byte string.
pub open spec fn blob_bytes(b: Seq<u8>) -> Seq<u8> {
    be_bytes(b.len() as u32) + b
}

/// A length-prefixed text.
pub open spec fn text_bytes(t: Seq<char>) -> Seq<u8> {
    blob_bytes(encode_utf8(t))
}

/// Pieces put together.
pub open spec fn joined(pieces: Seq<Seq<u8>>) -> Seq<u8>
    decreases pieces.len(),
{
    if pieces.len() == 0 {
        Seq::empty()
    } else {
        pieces[0] + joined(pieces.skip(1))
    }
}

/// The pieces of a length-prefixed byte string: its length, and its bytes.
pub open spec fn blob_pieces(b: Seq<u8>) -> Seq<Seq<u8>> {
    seq![be_bytes(b.len() as u32), b]
}

/// The pieces of a text.
pub open spec fn text_pieces(t: Seq<char>) -> Seq<Seq<u8>> {
    blob_pieces(encode_utf8(t))
}

/// An encoding in pieces, in the order in which they were pushed. Whoever takes an encoding
/// takes a piece as a whole or not at all.
pub struct Sink {
    pieces: Vec<Vec<u8>>,
}

impl View for Sink {
    type V = Seq<Seq<u8>>;

    closed spec fn view(&self) -> Seq<Seq<u8>> {
        self.pieces@.map_values(|p: Vec<u8>| p@)
    }
}

/// Appends `bytes` to `to`.
fn append(bytes: &[u8], to: &mut Vec<u8>)
    ensures
        final(to)@ == old(to)@ + bytes@,
{
    let ghost before = to@;
    let mut i: usize = 0;
    while i < bytes.len()
        invariant
            i <= bytes@.len(),
            to@ == before + bytes@.take(i as int),
        decreases bytes@.len() - i,
    {
        to.push(bytes[i]);
        i = i + 1;
    }
    assert(bytes@.take(i as int) == bytes@);
}

impl Sink {
    /// A sink that nothing was pushed to.
    pub fn new() -> (s: Sink)
        ensures
            s@ == Seq::<Seq<u8>>::empty(),
    {
        let s = Sink { pieces: Vec::new() };
        assert(s@ == Seq::<Seq<u8>>::empty());
        s
    }

    /// Pushes a piece.
    pub fn push(&mut self, bytes: &[u8])
        ensures
            final(self)@ == old(self)@ + seq![bytes@],
    {
        let mut piece: Vec<u8> = Vec::new();
        append(bytes, &mut piece);
        assert(piece@ == bytes@);
        self.pieces.push(piece);
        assert(self@ == old(self)@ + seq![bytes@]);
    }

    /// How many pieces were pushed.
    pub fn len(&self) -> (n: usize)
        ensures
            n == self@.len(),
    {
        self.pieces.len()
    }

    /// A piece.
    pub fn piece(&self, i: usize) -> (b: &[u8])
        requires
            i < self@.len(),
        ensures
            b@ == self@[i as int],
    {
        self.pieces[i].as_slice()
    }

    /// Pushes all pieces of another encoding.
    pub fn push_all(&mut self, other: &Sink)
        ensures
            final(self)@ == old(self)@ + other@,
    {
        let ghost before = self@;
        let mut i: usize = 0;
        while i < other.len()
            invariant
                i <= other@.len(),
                self@ == before + other@.take(i as int),
            decreases other@.len() - i,
        {
            self.push(other.piece(i));
            assert(other@.take(i + 1) == other@.take(i as int) + seq![other@[i as int]]);
            i = i + 1;
        }
        assert(other@.take(i as int) == other@);
    }

    /// All pieces put together.
    pub fn bytes(&self) -> (b: Vec<u8>)
        ensures
            b@ == joined(self@),
    {
        let mut b: Vec<u8> = Vec::new();
        let mut i: usize = 0;
        assert(self@.take(0) == Seq::<Seq<u8>>::empty());
        while i < self.len()
            invariant
                i <= self@.len(),
                b@ == joined(self@.take(i as int)),
            decreases self@.len() - i,
        {
            append(self.piece(i), &mut b);
            proof {
                assert(self@.take(i + 1) == self@.take(i as int) + seq![self@[i as int]]);
                lemma_joined(self@.take(i as int), seq![self@[i as int]]);
                lemma_joined_one(self@[i as int]);
            }
            i = i + 1;
        }
        assert(self@.take(i as int) == self@);
        b
    }
}

/// One piece put together is itself.
pub proof fn lemma_joined_one(b: Seq<u8>)
    ensures
        joined(seq![b]) == b,
{
    assert(seq![b].skip(1) == Seq::<Seq<u8>>::empty());
    assert(joined(seq![b].skip(1)) == Seq::<u8>::empty());
    assert(b + Seq::<u8>::empty() == b);
}

/// Pieces put together in two parts are what they are together.
pub proof fn lemma_joined(a: Seq<Seq<u8>>, b: Seq<Seq<u8>>)
    ensures
        joined(a + b) == joined(a) + joined(b),
    decreases a.len(),
{
    if a.len() == 0 {
        assert(a + b == b);
        assert(joined(a) + joined(b) == joined(b));
    } else {
        lemma_joined(a.skip(1), b);
        assert((a + b).skip(1) == a.skip(1) + b);
        assert(a[0] + (joined(a.skip(1)) + joined(b)) == a[0] + joined(a.skip(1)) + joined(b));
    }
}

/// A byte string in pieces.
pub proof fn lemma_joined_blob(b: Seq<u8>)
    ensures
        joined(blob_pieces(b)) == blob_bytes(b),
{
    let n = be_bytes(b.len() as u32);
    assert(blob_pieces(b) == seq![n] + seq![b]);
    lemma_joined(seq![n], seq![b]);
    lemma_joined_one(n);
    lemma_joined_one(b);
}

/// Encodes bytes as they stand.
pub fn enc_bytes(bytes: &[u8], s: &mut Sink)
    ensures
        final(s)@ == old(s)@ + seq![bytes@],
{
    s.push(bytes);
}

pub fn enc_u8(v: u8, s: &mut Sink)
    ensures
        final(s)@ == old(s)@ + seq![seq![v]],
{
    let b: [u8; 1] = [v];
    s.push(b.as_slice());
    assert(b@ == seq![v]);
}

pub fn enc_bool(v: bool, s: &mut Sink)
    ensures
        final(s)@ == old(s)@ + seq![bool_bytes(v)],
{
    enc_u8(if v { 1 } else { 0 }, s);
}

pub fn enc_u32(v: u32, s: &mut Sink)
    ensures
        final(s)@ == old(s)@ + seq![be_bytes(v)],
{
    let b: [u8; 4] = [
        (v / 0x100_0000) as u8,
        (v / 0x1_0000 % 0x100) as u8,
        (v / 0x100 % 0x100) as u8,
        (v % 0x100) as u8,
    ];
    s.push(b.as_slice());
    assert(b@ == be_bytes(v));
}

/// Encodes a text.
pub fn enc_str(t: &str, s: &mut Sink)
    requires
        encode_utf8(t@).len() <= u32::MAX,
    ensures
        final(s)@ == old(s)@ + text_pieces(t@),
{
    let ghost before = s@;
    let bytes = t.as_bytes();
    enc_u32(bytes.len() as u32, s);
    enc_bytes(bytes, s);
    assert(s@ == before + text_pieces(t@));
}

// ---------------------------------------------------------------------------
// Decoding
// ---------------------------------------------------------------------------

pub open spec fn dec_u8(b: Seq<u8>) -> Result<(u8, Seq<u8>), WireError> {
    if b.len() < 1 {
        Err(WireError::RanOut)
    } else {
        Ok((b[0], b.skip(1)))
    }
}

/// Any byte but zero is true.
pub open spec fn dec_bool(b: Seq<u8>) -> Result<(bool, Seq<u8>), WireError> {
    if b.len() < 1 {
        Err(WireError::RanOut)
    } else {
        Ok((b[0] != 0, b.skip(1)))
    }
}

pub open spec fn dec_u32(b: Seq<u8>) -> Result<(u32, Seq<u8>), WireError> {
    if b.len() < 4 {
        Err(WireError::RanOut)
    } else {
        Ok((be_value(b.take(4)), b.skip(4)))
    }
}

/// `n` bytes as they stand.
pub open spec fn dec_bytes(b: Seq<u8>, n: nat) -> Result<(Seq<u8>, Seq<u8>), WireError> {
    if b.len() < n {
        Err(WireError::RanOut)
    } else {
        Ok((b.take(n as int), b.skip(n as int)))
    }
}

/// A length-prefixed byte string that has to hold `n` bytes.
pub open spec fn dec_blob(b: Seq<u8>, n: nat) -> Result<(Seq<u8>, Seq<u8>), WireError> {
    match dec_u32(b) {
        Err(e) => Err(e),
        Ok((len, b1)) => match dec_bytes(b1, n) {
            Err(e) => Err(e),
            Ok((v, b2)) => if len == n {
                Ok((v, b2))
            } else {
                Err(WireError::SSHProto)
            },
        },
    }
}

/// A length-prefixed text of printable ASCII.
pub open spec fn dec_str(b: Seq<u8>) -> Result<(Seq<char>, Seq<u8>), WireError> {
    match dec_u32(b) {
        Err(e) => Err(e),
        Ok((len, b1)) => match dec_bytes(b1, len as nat) {
            Err(e) => Err(e),
            Ok((t, b2)) => if outside::is_printable(t) {
                Ok((outside::ascii_chars(t), b2))
            } else {
                Err(WireError::BadName)
            },
        },
    }
}

/// Whether a text is all ASCII characters that print, the space among them.
pub open spec fn printable(t: Seq<char>) -> bool {
    forall|i: int| 0 <= i < t.len() ==> ' ' <= #[trigger] t[i] <= '~'
}

/// Bytes being decoded, from the front.
pub struct Source<'a> {
    data: &'a [u8],
    pos: usize,
}

impl<'a> Source<'a> {
    #[verifier::type_invariant]
    spec fn inside(self) -> bool {
        self.pos <= self.data@.len()
    }

    /// The bytes not taken yet.
    pub closed spec fn rest(&self) -> Seq<u8> {
        self.data@.skip(self.pos as int)
    }

    pub fn new(data: &'a [u8]) -> (s: Source<'a>)
        ensures
            s.rest() == data@,
    {
        Source { data, pos: 0 }
    }

    pub fn remaining(&self) -> (n: usize)
        ensures
            n == self.rest().len(),
    {
        proof {
            use_type_invariant(self);
        }
        self.data.len() - self.pos
    }

    /// Takes `n` bytes off the front, or none at all if there are fewer.
    pub fn take(&mut self, n: usize) -> (r: Result<&'a [u8], WireError>)
        ensures
            match dec_bytes(old(self).rest(), n as nat) {
                Ok((v, rest)) => r matches Ok(t) && t@ == v && final(self).rest() == rest,
                Err(e) => r == Err::<&'a [u8], WireError>(e) && final(self).rest()
                    == old(self).rest(),
            },
    {
        proof {
            use_type_invariant(&*self);
        }
        if n > self.data.len() - self.pos {
            return Err(WireError::RanOut);
        }
        let from: usize = self.pos;
        let t = slice_subrange(self.data, from, from + n);
        self.pos = from + n;
        assert(t@ == old(self).rest().take(n as int));
        assert(self.rest() == old(self).rest().skip(n as int));
        Ok(t)
    }

    pub fn dec_u8(&mut self) -> (r: Result<u8, WireError>)
        ensures
            match dec_u8(old(self).rest()) {
                Ok((v, rest)) => r == Ok::<u8, WireError>(v) && final(self).rest() == rest,
                Err(e) => r == Err::<u8, WireError>(e),
            },
    {
        let t = self.take(1)?;
        Ok(t[0])
    }

    pub fn dec_bool(&mut self) -> (r: Result<bool, WireError>)
        ensures
            match dec_bool(old(self).rest()) {
                Ok((v, rest)) => r == Ok::<bool, WireError>(v) && final(self).rest() == rest,
                Err(e) => r == Err::<bool, WireError>(e),
            },
    {
        Ok(self.dec_u8()? != 0)
    }

    pub fn dec_u32(&mut self) -> (r: Result<u32, WireError>)
        ensures
            match dec_u32(old(self).rest()) {
                Ok((v, rest)) => r == Ok::<u32, WireError>(v) && final(self).rest() == rest,
                Err(e) => r == Err::<u32, WireError>(e),
            },
    {
        let t = self.take(4)?;
        Ok(
            t[0] as u32 * 0x100_0000 + t[1] as u32 * 0x1_0000 + t[2] as u32 * 0x100 + t[3] as u32,
        )
    }

    /// Takes `N` bytes as they stand.
    pub fn dec_array<const N: usize>(&mut self) -> (r: Result<[u8; N], WireError>)
        ensures
            match dec_bytes(old(self).rest(), N as nat) {
                Ok((v, rest)) => r matches Ok(a) && a@ == v && final(self).rest() == rest,
                Err(e) => r == Err::<[u8; N], WireError>(e),
            },
    {
        let t = self.take(N)?;
        let mut a: [u8; N] = [0u8; N];
        let mut i: usize = 0;
        while i < N
            invariant
                i <= N,
                t@.len() == N,
                forall|j: int| 0 <= j < i ==> a@[j] == t@[j],
            decreases N - i,
        {
            a[i] = t[i];
            i = i + 1;
        }
        assert(a@ == t@);
        Ok(a)
    }

    pub fn dec_str(&mut self) -> (r: Result<&'a str, WireError>)
        ensures
            match dec_str(old(self).rest()) {
                Ok((v, rest)) => r matches Ok(t) && t@ == v && final(self).rest() == rest,
                Err(e) => r == Err::<&'a str, WireError>(e),
            },
    {
        let len: u32 = self.dec_u32()?;
        let t = self.take(len as usize)?;
        match outside::ascii_text(t) {
            Some(text) => Ok(text),
            None => Err(WireError::BadName),
        }
    }
}

/// Whether two digests are the same.
pub fn same_bytes(a: &[u8; 32], b: &[u8; 32]) -> (r: bool)
    ensures
        r == (a@ == b@),
{
    let mut i: usize = 0;
    while i < 32
        invariant
            i <= 32,
            forall|j: int| 0 <= j < i ==> a@[j] == b@[j],
        decreases 32 - i,
    {
        if a[i] != b[i] {
            return false;
        }
        i = i + 1;
    }
    assert(a@ =~= b@);
    true
}

// ---------------------------------------------------------------------------
// What is read back of what was written
// ---------------------------------------------------------------------------

/// A text that was read is printable ASCII: its UTF-8 form takes a byte for each
/// character.
pub proof fn lemma_text_read(b: Seq<u8>)
    ensures
        dec_str(b) matches Ok((t, _)) ==> printable(t) && encode_utf8(t).len() == t.len(),
{
    if let Ok((t, _)) = dec_str(b) {
        is_ascii_chars_encode_utf8(t);
    }
}

pub proof fn lemma_be_value(v: u32)
    ensures
        be_bytes(v).len() == 4,
        be_value(be_bytes(v)) == v,
{
}

/// A byte is read back, and nothing after it is touched.
pub proof fn lemma_dec_u8(v: u8, rest: Seq<u8>)
    ensures
        dec_u8(seq![v] + rest) == Ok::<_, WireError>((v, rest)),
{
    assert((seq![v] + rest).skip(1) == rest);
}

/// A truth value is read back, and nothing after it is touched.
pub proof fn lemma_dec_bool(v: bool, rest: Seq<u8>)
    ensures
        dec_bool(bool_bytes(v) + rest) == Ok::<_, WireError>((v, rest)),
{
    assert((bool_bytes(v) + rest).skip(1) == rest);
}

/// A number is read back, and nothing after it is touched.
pub proof fn lemma_dec_u32(v: u32, rest: Seq<u8>)
    ensures
        dec_u32(be_bytes(v) + rest) == Ok::<_, WireError>((v, rest)),
{
    lemma_be_value(v);
    assert((be_bytes(v) + rest).take(4) == be_bytes(v));
    assert((be_bytes(v) + rest).skip(4) == rest);
}

/// Bytes are read back, and nothing after them is touched.
pub proof fn lemma_dec_bytes(b: Seq<u8>, rest: Seq<u8>)
    ensures
        dec_bytes(b + rest, b.len()) == Ok::<_, WireError>((b, rest)),
{
    assert((b + rest).take(b.len() as int) == b);
    assert((b + rest).skip(b.len() as int) == rest);
}

/// A byte string is read back, and nothing after it is touched.
pub proof fn lemma_dec_blob(b: Seq<u8>, rest: Seq<u8>)
    requires
        b.len() <= u32::MAX,
    ensures
        dec_blob(blob_bytes(b) + rest, b.len()) == Ok::<_, WireError>((b, rest)),
{
    lemma_dec_u32(b.len() as u32, b + rest);
    lemma_dec_bytes(b, rest);
    assert(blob_bytes(b) + rest == be_bytes(b.len() as u32) + (b + rest));
}

/// A text of printable ASCII is read back, and nothing after it is touched.
pub proof fn lemma_dec_str(t: Seq<char>, rest: Seq<u8>)
    requires
        t.len() <= u32::MAX,
        printable(t),
    ensures
        encode_utf8(t).len() == t.len(),
        dec_str(text_bytes(t) + rest) == Ok::<_, WireError>((t, rest)),
{
    is_ascii_chars_encode_utf8(t);
    let b = encode_utf8(t);
    lemma_dec_u32(b.len() as u32, b + rest);
    lemma_dec_bytes(b, rest);
    assert(text_bytes(t) + rest == be_bytes(b.len() as u32) + (b + rest));
    assert(outside::ascii_chars(b) == t);
}

} // verus!
