//! Calls into other crates and into the standard library, with what is taken
//! for granted of each.

use vstd::prelude::*;
use vstd::string::*;
use vstd::utf8::*;

verus! {

// ---------------------------------------------------------------------------
// Texts
// ---------------------------------------------------------------------------

/// Whether every byte is an ASCII character that prints, the space among them.
pub open spec fn is_printable(b: Seq<u8>) -> bool {
    forall|i: int| 0 <= i < b.len() ==> 0x20 <= #[trigger] b[i] <= 0x7e
}

/// The characters that ASCII bytes stand for.
pub open spec fn ascii_chars(b: Seq<u8>) -> Seq<char> {
    Seq::new(b.len(), |i: int| b[i] as char)
}

/// `sunset::sshwire::try_as_ascii_str`: the bytes as a text, if each of them is
/// ASCII and none is a control character.
#[verifier::external_body]
pub(crate) fn ascii_text(b: &[u8]) -> (r: Option<&str>)
    ensures
        r is Some <==> is_printable(b@),
        r matches Some(t) ==> t@ == ascii_chars(b@),
{
    sunset::sshwire::try_as_ascii_str(b).ok()
}

/// A text of at most `N` bytes, held in place.
#[verifier::external_type_specification]
#[verifier::external_body]
pub struct ExFixedText<const N: usize>(heapless::String<N>);

/// The text that an SSID field holds.
pub uninterp spec fn ssid_text(s: heapless::String<32>) -> Seq<char>;

/// The text that a passphrase field holds.
pub uninterp spec fn psk_text(s: heapless::String<63>) -> Seq<char>;

/// `heapless::String::<32>::try_from`: holds `t` if its UTF-8 form takes at most
/// 32 bytes, and fails otherwise.
#[verifier::external_body]
pub(crate) fn ssid_from(t: &str) -> (r: Option<heapless::String<32>>)
    ensures
        r is Some <==> encode_utf8(t@).len() <= 32,
        r matches Some(s) ==> ssid_text(s) == t@,
{
    heapless::String::<32>::try_from(t).ok()
}

/// `heapless::String::<32>::as_str`: the text held, whose UTF-8 form takes at
/// most 32 bytes.
#[verifier::external_body]
pub(crate) fn ssid_str(s: &heapless::String<32>) -> (t: &str)
    ensures
        t@ == ssid_text(*s),
        encode_utf8(t@).len() <= 32,
{
    s.as_str()
}

/// `heapless::String::<32>::new`: holds nothing.
#[verifier::external_body]
pub(crate) fn ssid_new() -> (s: heapless::String<32>)
    ensures
        ssid_text(s) == Seq::<char>::empty(),
{
    heapless::String::<32>::new()
}

/// `heapless::String::<32>::push`: appends the character if the UTF-8 form then
/// takes at most 32 bytes, and otherwise fails with the text as it was.
#[verifier::external_body]
pub(crate) fn ssid_push(s: &mut heapless::String<32>, c: char) -> (r: Result<(), ()>)
    ensures
        r is Ok <==> encode_utf8(ssid_text(*old(s)).push(c)).len() <= 32,
        r is Ok ==> ssid_text(*final(s)) == ssid_text(*old(s)).push(c),
        r is Err ==> ssid_text(*final(s)) == ssid_text(*old(s)),
{
    s.push(c)
}

/// `heapless::String::<63>::try_from`: holds `t` if its UTF-8 form takes at most
/// 63 bytes, and fails otherwise.
#[verifier::external_body]
pub(crate) fn psk_from(t: &str) -> (r: Option<heapless::String<63>>)
    ensures
        r is Some <==> encode_utf8(t@).len() <= 63,
        r matches Some(s) ==> psk_text(s) == t@,
{
    heapless::String::<63>::try_from(t).ok()
}

/// `heapless::String::<63>::as_str`: the text held, whose UTF-8 form takes at
/// most 63 bytes.
#[verifier::external_body]
pub(crate) fn psk_str(s: &heapless::String<63>) -> (t: &str)
    ensures
        t@ == psk_text(*s),
        encode_utf8(t@).len() <= 63,
{
    s.as_str()
}

/// `heapless::String::<63>::new`: holds nothing.
#[verifier::external_body]
pub(crate) fn psk_new() -> (s: heapless::String<63>)
    ensures
        psk_text(s) == Seq::<char>::empty(),
{
    heapless::String::<63>::new()
}

/// `heapless::String::<63>::push`: appends the character if the UTF-8 form then
/// takes at most 63 bytes, and otherwise fails with the text as it was.
#[verifier::external_body]
pub(crate) fn psk_push(s: &mut heapless::String<63>, c: char) -> (r: Result<(), ()>)
    ensures
        r is Ok <==> encode_utf8(psk_text(*old(s)).push(c)).len() <= 63,
        r is Ok ==> psk_text(*final(s)) == psk_text(*old(s)).push(c),
        r is Err ==> psk_text(*final(s)) == psk_text(*old(s)),
{
    s.push(c)
}

/// A list of at most `N` items, held in place.
#[verifier::external_type_specification]
#[verifier::external_body]
#[verifier::reject_recursive_types(T)]
pub struct ExFixedList<T, const N: usize>(heapless::Vec<T, N>);

/// The octets that a list holds, in order.
pub uninterp spec fn octets_held(v: heapless::Vec<u8, 6>) -> Seq<u8>;

/// `heapless::Vec::<u8, 6>::new`: holds nothing.
#[verifier::external_body]
pub(crate) fn octets_new() -> (v: heapless::Vec<u8, 6>)
    ensures
        octets_held(v) == Seq::<u8>::empty(),
{
    heapless::Vec::<u8, 6>::new()
}

/// `heapless::Vec::<u8, 6>::push`: appends the octet unless six are held already; then it
/// fails with the list as it was.
#[verifier::external_body]
pub(crate) fn octets_push(v: &mut heapless::Vec<u8, 6>, octet: u8) -> (r: Result<(), u8>)
    ensures
        r is Ok <==> octets_held(*old(v)).len() < 6,
        r is Ok ==> octets_held(*final(v)) == octets_held(*old(v)).push(octet),
        r is Err ==> octets_held(*final(v)) == octets_held(*old(v)),
{
    v.push(octet)
}

/// `heapless::Vec::<u8, 6>::as_slice`: the octets held.
#[verifier::external_body]
pub(crate) fn octets_slice(v: &heapless::Vec<u8, 6>) -> (s: &[u8])
    ensures
        s@ == octets_held(*v),
{
    v.as_slice()
}

/// Whether Unicode counts the character as white space.
pub open spec fn is_white_space(c: char) -> bool {
    let u = c as u32;
    ||| 0x9 <= u <= 0xd
    ||| u == 0x20
    ||| u == 0x85
    ||| u == 0xa0
    ||| u == 0x1680
    ||| 0x2000 <= u <= 0x200a
    ||| u == 0x2028
    ||| u == 0x2029
    ||| u == 0x202f
    ||| u == 0x205f
    ||| u == 0x3000
}

/// A text without the white space at its front.
pub open spec fn trimmed_front(t: Seq<char>) -> Seq<char>
    decreases t.len(),
{
    if t.len() > 0 && is_white_space(t[0]) {
        trimmed_front(t.drop_first())
    } else {
        t
    }
}

/// A text without the white space at its end.
pub open spec fn trimmed_back(t: Seq<char>) -> Seq<char>
    decreases t.len(),
{
    if t.len() > 0 && is_white_space(t.last()) {
        trimmed_back(t.drop_last())
    } else {
        t
    }
}

/// A text without the white space at its ends.
pub open spec fn trimmed(t: Seq<char>) -> Seq<char> {
    trimmed_back(trimmed_front(t))
}

/// Trimming a trimmed text changes nothing.
pub proof fn lemma_trimmed_twice(t: Seq<char>)
    ensures
        trimmed(trimmed(t)) == trimmed(t),
{
    let f = trimmed_front(t);
    lemma_trimmed_front(t);
    lemma_trimmed_back(f);
    let b = trimmed_back(f);
    assert(trimmed_front(b) == b);
    assert(trimmed_back(b) == b);
}

proof fn lemma_trimmed_front(t: Seq<char>)
    ensures
        trimmed_front(t).len() > 0 ==> !is_white_space(trimmed_front(t)[0]),
    decreases t.len(),
{
    if t.len() > 0 && is_white_space(t[0]) {
        lemma_trimmed_front(t.drop_first());
    }
}

proof fn lemma_trimmed_back(t: Seq<char>)
    ensures
        trimmed_back(t).len() > 0 ==> !is_white_space(trimmed_back(t).last()),
        trimmed_back(t).len() > 0 ==> trimmed_back(t)[0] == t[0],
    decreases t.len(),
{
    if t.len() > 0 && is_white_space(t.last()) {
        lemma_trimmed_back(t.drop_last());
    }
}

/// `str::trim`: white space, as Unicode defines it, is taken off both ends.
pub assume_specification[ str::trim ](t: &str) -> (r: &str)
    ensures
        r@ == trimmed(t@),
;

/// The lower case of a text, as Unicode defines it.
pub uninterp spec fn lowercase(t: Seq<char>) -> Seq<char>;

/// `str::to_lowercase`: the lower case of the text. Of a text in ASCII it
/// replaces the letters `A` to `Z` and nothing else.
#[verifier::external_body]
pub(crate) fn to_lowercase(t: &str) -> (r: String)
    ensures
        r@ == lowercase(t@),
        is_ascii_chars(t@) ==> r@ == crate::text::ascii_lower(t@),
{
    t.to_lowercase()
}

// ---------------------------------------------------------------------------
// Hashing
// ---------------------------------------------------------------------------

/// A SHA-256 computation under way.
#[verifier::external_type_specification]
#[verifier::external_body]
pub struct ExSha256(sha2::Sha256);

/// The bytes that a hasher has been given so far, in order.
pub uninterp spec fn absorbed(h: sha2::Sha256) -> Seq<u8>;

/// The SHA-256 digest of a message.
pub uninterp spec fn sha256(message: Seq<u8>) -> [u8; 32];

/// `sha2::Sha256::new`: a hasher that has been given nothing.
#[verifier::external_body]
pub(crate) fn hasher_new() -> (h: sha2::Sha256)
    ensures
        absorbed(h) == Seq::<u8>::empty(),
{
    sha2::Digest::new()
}

/// `sha2::Sha256::update`: gives the hasher the bytes that follow.
#[verifier::external_body]
pub(crate) fn hasher_update(h: &mut sha2::Sha256, bytes: &[u8])
    ensures
        absorbed(*final(h)) == absorbed(*old(h)) + bytes@,
{
    sha2::Digest::update(h, bytes)
}

/// `sha2::Sha256::finalize`, on a copy: the digest of all that the hasher has
/// been given.
#[verifier::external_body]
pub(crate) fn hasher_digest(h: &sha2::Sha256) -> (d: [u8; 32])
    ensures
        d == sha256(absorbed(*h)),
{
    sha2::Digest::finalize(h.clone()).into()
}

// ---------------------------------------------------------------------------
// Randomness and keys
// ---------------------------------------------------------------------------

#[verifier::external_type_specification]
#[verifier::external_body]
pub struct ExRngError(getrandom::Error);

#[verifier::external_type_specification]
#[verifier::external_body]
pub struct ExKeyError(ssh_key::Error);

/// `getrandom::fill`: overwrites the buffer with random bytes, or fails. Which
/// bytes come is left open.
#[verifier::external_body]
pub(crate) fn random_fill(dest: &mut [u8]) -> (r: Result<(), getrandom::Error>)
    ensures
        final(dest)@.len() == old(dest)@.len(),
{
    getrandom::fill(dest)
}

/// A public key that was read from a line in the OpenSSH format.
#[derive(Clone, Copy, Debug, PartialEq, Eq)]
pub enum OpensshKey {
    /// An Ed25519 key.
    Ed25519([u8; 32]),
    /// A key of another kind.
    Other,
}

/// What a line in the OpenSSH format holds: nothing if it is not one, else the
/// bytes of the key if it is an Ed25519 key.
pub uninterp spec fn openssh_key(line: Seq<char>) -> Option<Option<[u8; 32]>>;

/// `ssh_key::PublicKey::from_str`: reads a public key in the OpenSSH format.
#[verifier::external_body]
pub(crate) fn parse_openssh(line: &str) -> (r: Result<OpensshKey, ssh_key::Error>)
    ensures
        openssh_key(line@) == match r {
            Ok(OpensshKey::Ed25519(k)) => Some(Some(k)),
            Ok(OpensshKey::Other) => Some(None),
            Err(_) => None,
        },
{
    match line.parse::<ssh_key::PublicKey>()?.key_data() {
        ssh_key::public::KeyData::Ed25519(k) => Ok(OpensshKey::Ed25519(k.0)),
        _ => Ok(OpensshKey::Other),
    }
}

} // verus!
