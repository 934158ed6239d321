//! What holds of the record in flash: what is written, what is accepted, and what a start does.

use vstd::prelude::*;

use crate::codec;
use crate::config;
use crate::config::{ConfigModel, SSHStampConfig, UartPins};
use crate::errors::StampError;
use crate::laws::device;
use crate::laws::layout;
use crate::laws::reading;
use crate::outside;
use crate::store;
use crate::store::{FlashConfig, FlashWrite, LoadModel, LoadOutcome};
use crate::wire;
use crate::wire::{Sink, WireError};

verus! {

// ---------------------------------------------------------------------------
// The record
// ---------------------------------------------------------------------------

/// The encoding of a configuration that has one.
pub open spec fn encoding(c: ConfigModel, ipv6: bool) -> Seq<u8> {
    layout::encoded(c.hostkey->Ed25519_0, c, ipv6)
}

/// A record: a version, the encoding of a configuration, and a digest.
pub open spec fn record(version: u8, c: ConfigModel, hash: Seq<u8>, ipv6: bool) -> Seq<u8> {
    seq![version] + (encoding(c, ipv6) + hash)
}

/// The record that is written: version 12, and the digest of the encoding.
pub open spec fn own_record(c: ConfigModel, ipv6: bool) -> Seq<u8> {
    record(12, c, outside::sha256(encoding(c, ipv6))@, ipv6)
}

/// The digest of a configuration is that of its encoding; a host key that an agent holds has none.
pub proof fn lemma_config_hash(c: &SSHStampConfig, ipv6: bool, r: Result<[u8; 32], StampError>)
    requires
        call_ensures(store::config_hash, (c, ipv6), r),
    ensures
        c@.hostkey is Ed25519 ==> r == Ok::<[u8; 32], StampError>(
            outside::sha256(encoding(c@, ipv6)),
        ),
        c@.hostkey is AgentEd25519 ==> r == Err::<[u8; 32], StampError>(
            StampError::Wire(WireError::UnknownVariant),
        ),
{
    assert(c@.pubkeys.len() == 3);
    layout::lemma_layout(c@, ipv6);
}

/// A record is made of version 12, the encoding, and the digest that is at hand.
pub proof fn lemma_encode_record(
    c: &SSHStampConfig,
    hash: &[u8; 32],
    ipv6: bool,
    r: Result<Sink, StampError>,
)
    requires
        call_ensures(store::encode_record, (c, hash, ipv6), r),
    ensures
        c@.hostkey is Ed25519 ==> (r matches Ok(s) && wire::joined(s@) == record(
            12,
            c@,
            hash@,
            ipv6,
        )),
        c@.hostkey is AgentEd25519 ==> (r matches Err(e) && e == StampError::Wire(
            WireError::UnknownVariant,
        )),
{
    assert(c@.pubkeys.len() == 3);
    layout::lemma_layout(c@, ipv6);
    store::lemma_joined_record(c@, hash@, ipv6);
}

proof fn lemma_reads_record(
    version: u8,
    c: ConfigModel,
    hash: Seq<u8>,
    ipv6: bool,
    tail: Seq<u8>,
)
    requires
        layout::keepable(c, ipv6),
        hash.len() == 32,
    ensures
        store::read_record(record(version, c, hash, ipv6) + tail, ipv6) == Ok::<_, WireError>(
            store::RecordModel { version, config: codec::stored(c), hash },
        ),
        codec::config_bytes(codec::stored(c), ipv6) == Ok::<_, WireError>(encoding(c, ipv6)),
{
    layout::lemma_keepable(c, ipv6);
    layout::lemma_layout(c, ipv6);
    codec::lemma_stored_encoding(c, ipv6);
    let b = encoding(c, ipv6);
    codec::lemma_round_trip(c, ipv6, hash + tail);
    codec::lemma_grouped(seq![version], b + hash, tail);
    codec::lemma_grouped(b, hash, tail);
    wire::lemma_dec_u8(version, (b + hash) + tail);
    wire::lemma_dec_bytes(hash, tail);
}

/// A record is decoded into its version, its configuration without name servers, and its digest,
/// whatever follows it.
pub proof fn lemma_decode_record(
    version: u8,
    c: ConfigModel,
    hash: Seq<u8>,
    tail: Seq<u8>,
    buf: &[u8],
    ipv6: bool,
    r: Result<FlashConfig, WireError>,
)
    requires
        call_ensures(store::decode_record, (buf, ipv6), r),
        layout::keepable(c, ipv6),
        hash.len() == 32,
        buf@ == record(version, c, hash, ipv6) + tail,
    ensures
        r matches Ok(f) && f@.version == version && f@.hash == hash && layout::is_kept(
            c,
            f@.config,
        ),
{
    lemma_reads_record(version, c, hash, ipv6, tail);
    layout::lemma_stored(c);
}

/// A record is decoded with any flags that say what is there.
pub proof fn lemma_decode_laid(
    m: reading::Marks,
    version: u8,
    c: ConfigModel,
    hash: Seq<u8>,
    tail: Seq<u8>,
    buf: &[u8],
    ipv6: bool,
    r: Result<FlashConfig, WireError>,
)
    requires
        call_ensures(store::decode_record, (buf, ipv6), r),
        layout::keepable(c, ipv6),
        reading::marks(m, c, ipv6),
        hash.len() == 32,
        buf@ == seq![version] + (reading::laid(m, c, ipv6) + (hash + tail)),
    ensures
        r matches Ok(f) && f@.version == version && f@.hash == hash && layout::is_kept(
            c,
            f@.config,
        ),
{
    reading::lemma_laid_read(m, c, ipv6, hash + tail);
    layout::lemma_stored(c);
    wire::lemma_dec_u8(version, reading::laid(m, c, ipv6) + (hash + tail));
    wire::lemma_dec_bytes(hash, tail);
}

/// Whether bytes are a record with these flags, followed by `tail`.
pub open spec fn is_record(
    b: Seq<u8>,
    f: store::RecordModel,
    m: reading::Marks,
    tail: Seq<u8>,
    ipv6: bool,
) -> bool {
    &&& reading::marks(m, f.config, ipv6)
    &&& f.hash.len() == 32
    &&& b == seq![f.version] + (reading::laid(m, f.config, ipv6) + (f.hash + tail))
}

/// No other bytes are decoded as a record.
pub proof fn lemma_decoded_is_laid(buf: &[u8], ipv6: bool, r: Result<FlashConfig, WireError>)
    requires
        call_ensures(store::decode_record, (buf, ipv6), r),
    ensures
        r matches Ok(f) ==> exists|m: reading::Marks, tail: Seq<u8>|
            is_record(buf@, f@, m, tail, ipv6),
{
    if let Ok(f) = r {
        let (m, tail) = lemma_record_was(buf@, f@, ipv6);
        assert(is_record(buf@, f@, m, tail, ipv6));
    }
}

proof fn lemma_record_was(b: Seq<u8>, f: store::RecordModel, ipv6: bool) -> (r: (
    reading::Marks,
    Seq<u8>,
))
    requires
        store::read_record(b, ipv6) == Ok::<_, WireError>(f),
    ensures
        is_record(b, f, r.0, r.1, ipv6),
{
    let b1 = b.skip(1);
    assert(b == seq![b[0]] + b1);
    let m = reading::lemma_laid_was(b1, ipv6);
    match codec::read_config(b1, ipv6) {
        Ok((c, b2)) => {
            lemma_halves(b2, 32);
            (m, b2.skip(32))
        },
        Err(_) => (m, b1),
    }
}

proof fn lemma_halves(b: Seq<u8>, n: int)
    ensures
        0 <= n <= b.len() ==> b == b.take(n) + b.skip(n),
{
}

// ---------------------------------------------------------------------------
// Loading
// ---------------------------------------------------------------------------

/// A record is accepted exactly if it is of version 12 and its digest is the one calculated. The
/// version is checked first.
pub proof fn lemma_judge(
    f: FlashConfig,
    calc: Result<[u8; 32], StampError>,
    r: LoadOutcome,
)
    requires
        call_ensures(store::judge, (f, calc), r),
    ensures
        r@ is Loaded <==> f@.version == 12 && (calc matches Ok(h) && h@ == f@.hash),
        r@ matches LoadModel::Loaded(c) ==> c == f@.config,
        f@.version != 12 ==> r@ == LoadModel::Invalid(StampError::WrongVersion),
        f@.version == 12 ==> (calc matches Err(e) ==> r@ == LoadModel::Invalid(e)),
        f@.version == 12 ==> (calc matches Ok(h) ==> h@ != f@.hash ==> r@ == LoadModel::Invalid(
            StampError::BadHash,
        )),
{
}

/// A flash that could not be read is invalid. One that could be read holds no configuration
/// exactly if no record is decoded from it.
pub proof fn lemma_load_checked(
    read_ok: bool,
    buf: &[u8],
    ipv6: bool,
    r: LoadOutcome,
    decoded: Result<FlashConfig, WireError>,
)
    requires
        call_ensures(store::load_checked, (read_ok, buf, ipv6), r),
        call_ensures(store::decode_record, (buf, ipv6), decoded),
    ensures
        !read_ok ==> r@ == LoadModel::Invalid(StampError::FlashRead),
        r@ is Absent <==> read_ok && decoded is Err,
        r@ matches LoadModel::Loaded(c) ==> (decoded matches Ok(f) && f@.config == c && f@.version
            == 12 && f@.hash == outside::sha256(encoding(c, ipv6))@),
        read_ok ==> (decoded matches Ok(f) ==> f@.version != 12 ==> r@ == LoadModel::Invalid(
            StampError::WrongVersion,
        )),
        read_ok ==> (decoded matches Ok(f) ==> f@.version == 12 && f@.hash != outside::sha256(
            encoding(f@.config, ipv6),
        )@ ==> r@ == LoadModel::Invalid(StampError::BadHash)),
        read_ok ==> (decoded matches Ok(f) ==> f@.version == 12 && f@.hash == outside::sha256(
            encoding(f@.config, ipv6),
        )@ ==> r@ == LoadModel::Loaded(f@.config)),
{
    if let Ok(f) = decoded {
        if let Ok((_, b)) = wire::dec_u8(buf@) {
            codec::lemma_read_is_storable(b, ipv6);
        }
        layout::lemma_keepable(f@.config, ipv6);
        layout::lemma_layout(f@.config, ipv6);
    }
}

/// The verdict on a record in flash, whatever follows it: another version and another digest are
/// told apart, and what is right is loaded without its name servers.
pub proof fn lemma_load_record(
    version: u8,
    c: ConfigModel,
    hash: Seq<u8>,
    tail: Seq<u8>,
    buf: &[u8],
    ipv6: bool,
    r: LoadOutcome,
)
    requires
        call_ensures(store::load_checked, (true, buf, ipv6), r),
        layout::keepable(c, ipv6),
        hash.len() == 32,
        buf@ == record(version, c, hash, ipv6) + tail,
    ensures
        version != 12 ==> r@ == LoadModel::Invalid(StampError::WrongVersion),
        version == 12 && hash != outside::sha256(encoding(c, ipv6))@ ==> r@ == LoadModel::Invalid(
            StampError::BadHash,
        ),
        version == 12 && hash == outside::sha256(encoding(c, ipv6))@ ==> (r@
            matches LoadModel::Loaded(d) && layout::is_kept(c, d)),
{
    lemma_reads_record(version, c, hash, ipv6, tail);
    layout::lemma_stored(c);
}

/// Loading gives the configuration that the check accepts, and otherwise says why not.
pub proof fn lemma_load(
    read_ok: bool,
    buf: &[u8],
    ipv6: bool,
    checked: LoadOutcome,
    r: Result<SSHStampConfig, StampError>,
)
    requires
        call_ensures(store::load_checked, (read_ok, buf, ipv6), checked),
        call_ensures(store::load, (read_ok, buf, ipv6), r),
    ensures
        r is Ok <==> checked@ is Loaded,
        checked@ matches LoadModel::Loaded(c) ==> (r matches Ok(d) && d@ == c),
        checked@ is Absent ==> r == Err::<SSHStampConfig, StampError>(StampError::Undecodable),
        checked@ matches LoadModel::Invalid(e) ==> r == Err::<SSHStampConfig, StampError>(e),
{
}

// ---------------------------------------------------------------------------
// Saving
// ---------------------------------------------------------------------------

/// The write of so many bytes: from the start of the area at 0x9000, all 4096 bytes of which are
/// erased before.
pub open spec fn is_area_write(w: FlashWrite, len: int) -> bool {
    &&& w.erase_from == 0x9000
    &&& w.erase_to == 0xa000
    &&& w.offset == 0x9000
    &&& w.len == len
}

/// Whether `len` is `n` rounded up to a multiple of `step`.
pub open spec fn is_rounded(len: int, n: int, step: int) -> bool {
    step > 0 && len % step == 0 && n <= len < n + step
}

proof fn lemma_rounded(n: int, step: int, len: int)
    requires
        0 <= n,
        0 < step,
    ensures
        is_rounded(store::round_up(n, step), n, step),
        is_rounded(len, n, step) ==> len == store::round_up(n, step),
{
    let r = store::round_up(n, step);
    vstd::arithmetic::div_mod::lemma_fundamental_div_mod(n, step);
    vstd::arithmetic::div_mod::lemma_mod_bound(n, step);
    if n % step != 0 {
        vstd::arithmetic::div_mod::lemma_mod_multiples_vanish(n / step + 1, 0, step);
        assert(n + (step - n % step) == step * (n / step + 1)) by (nonlinear_arith)
            requires
                n == step * (n / step) + n % step,
        ;
    }
    if is_rounded(len, n, step) {
        vstd::arithmetic::div_mod::lemma_fundamental_div_mod(len, step);
        vstd::arithmetic::div_mod::lemma_fundamental_div_mod(r, step);
        let (a, b) = (len / step, r / step);
        assert(a == b) by (nonlinear_arith)
            requires
                step > 0,
                -step < step * a - step * b < step,
        ;
    }
}

/// What gets into a buffer is the front of all pieces, and then what was there.
proof fn lemma_front_fits(pieces: Seq<Seq<u8>>, before: Seq<u8>)
    ensures
        exists|j: int|
            0 <= j <= before.len() && store::buffer_with(Ok(pieces), before) == wire::joined(
                pieces,
            ).take(j) + #[trigger] before.skip(j),
{
    let room = before.len() as int;
    store::lemma_fitting(pieces, room);
    lemma_front(pieces, room);
    let j = store::fitting(pieces, room).len() as int;
    assert(store::buffer_with(Ok(pieces), before) == wire::joined(pieces).take(j) + before.skip(j));
}

proof fn lemma_front(pieces: Seq<Seq<u8>>, room: int)
    ensures
        ({
            let f = store::fitting(pieces, room);
            f.len() <= wire::joined(pieces).len() && f == wire::joined(pieces).take(f.len() as int)
        }),
    decreases pieces.len(),
{
    let f = store::fitting(pieces, room);
    if pieces.len() > 0 && pieces[0].len() <= room {
        lemma_front(pieces.skip(1), room - pieces[0].len());
        assert(f == wire::joined(pieces).take(f.len() as int));
    }
}

/// What saving the bytes of a record comes to, given the room in the buffer and the granularity of
/// the flash.
pub open spec fn is_saved(
    r: Result<FlashWrite, StampError>,
    bytes: Seq<u8>,
    before: Seq<u8>,
    after: Seq<u8>,
    write_size: usize,
    len: int,
) -> bool {
    let n = bytes.len();
    let room = before.len();
    &&& n > room ==> r == Err::<FlashWrite, StampError>(StampError::Wire(WireError::NoRoom))
    &&& n > room ==> exists|j: int|
        0 <= j <= room && after == bytes.take(j) + #[trigger] before.skip(j)
    &&& n <= room ==> after == bytes + before.skip(n as int)
    &&& n <= room && write_size == 0 ==> r == Err::<FlashWrite, StampError>(StampError::TooLarge)
    &&& n <= room && is_rounded(len, n as int, write_size as int) ==> {
        &&& len <= room && len <= 4096 ==> (r matches Ok(w) && is_area_write(w, len))
        &&& len > room || len > 4096 ==> r == Err::<FlashWrite, StampError>(StampError::TooLarge)
    }
}

/// Saving succeeds exactly if the record, rounded up to the granularity, fits the buffer and the
/// area of 4096 bytes. The record is then at the front of the buffer, and what was behind it stays.
pub proof fn lemma_save(
    buf: &mut [u8],
    c: &SSHStampConfig,
    write_size: usize,
    ipv6: bool,
    len: int,
    r: Result<FlashWrite, StampError>,
)
    requires
        call_ensures(store::save, (buf, c, write_size, ipv6), r),
    ensures
        c@.hostkey is Ed25519 ==> is_saved(
            r,
            own_record(c@, ipv6),
            old(buf)@,
            final(buf)@,
            write_size,
            len,
        ),
        c@.hostkey is AgentEd25519 ==> r == Err::<FlashWrite, StampError>(
            StampError::Wire(WireError::UnknownVariant),
        ) && final(buf)@ == old(buf)@,
{
    assert(c@.pubkeys.len() == 3);
    lemma_saves(c@, old(buf)@, write_size, ipv6, len);
}

proof fn lemma_saves(
    c: ConfigModel,
    before: Seq<u8>,
    write_size: usize,
    ipv6: bool,
    len: int,
)
    requires
        c.pubkeys.len() == 3,
    ensures
        c.hostkey is Ed25519 ==> is_saved(
            store::save_result(c, before.len(), write_size, ipv6),
            own_record(c, ipv6),
            before,
            store::save_buffer(c, before, ipv6),
            write_size,
            len,
        ),
        c.hostkey is AgentEd25519 ==> store::save_result(c, before.len(), write_size, ipv6)
            == Err::<FlashWrite, StampError>(StampError::Wire(WireError::UnknownVariant))
            && store::save_buffer(c, before, ipv6) == before,
{
    layout::lemma_layout(c, ipv6);
    store::lemma_buffer_holds_record(c, before, ipv6);
    if c.hostkey is Ed25519 {
        assert(store::record_bytes(c, ipv6) == Ok::<_, WireError>(own_record(c, ipv6)));
        let h = outside::sha256(encoding(c, ipv6))@;
        store::lemma_joined_record(c, h, ipv6);
        lemma_front_fits(store::record_pieces(c, h, ipv6)->Ok_0, before);
        if write_size > 0 {
            lemma_rounded(own_record(c, ipv6).len() as int, write_size as int, len);
        }
    }
}

/// The same for a record with a digest that is at hand.
pub proof fn lemma_save_with_hash(
    buf: &mut [u8],
    c: &SSHStampConfig,
    hash: &[u8; 32],
    write_size: usize,
    ipv6: bool,
    len: int,
    r: Result<FlashWrite, StampError>,
)
    requires
        call_ensures(store::save_with_hash, (buf, c, hash, write_size, ipv6), r),
    ensures
        c@.hostkey is Ed25519 ==> is_saved(
            r,
            record(12, c@, hash@, ipv6),
            old(buf)@,
            final(buf)@,
            write_size,
            len,
        ),
        c@.hostkey is AgentEd25519 ==> r == Err::<FlashWrite, StampError>(
            StampError::Wire(WireError::UnknownVariant),
        ) && final(buf)@ == old(buf)@,
{
    assert(c@.pubkeys.len() == 3);
    layout::lemma_layout(c@, ipv6);
    store::lemma_joined_record(c@, hash@, ipv6);
    codec::lemma_joined_config(c@, ipv6);
    if c@.hostkey is Ed25519 {
        let b = record(12, c@, hash@, ipv6);
        assert(store::record_with(c@, hash@, ipv6) == Ok::<_, WireError>(b));
        store::lemma_fitting(
            store::record_pieces(c@, hash@, ipv6)->Ok_0,
            old(buf)@.len() as int,
        );
        lemma_front_fits(store::record_pieces(c@, hash@, ipv6)->Ok_0, old(buf)@);
        if write_size > 0 {
            lemma_rounded(b.len() as int, write_size as int, len);
        }
    }
}

/// What is saved is loaded on the next start: from the bytes that were written, whatever follows
/// them, the configuration comes back without its name servers.
pub proof fn lemma_save_then_load(
    buf: &mut [u8],
    c: &SSHStampConfig,
    write_size: usize,
    ipv6: bool,
    w: FlashWrite,
    tail: Seq<u8>,
    flash: &[u8],
    r: Result<SSHStampConfig, StampError>,
)
    requires
        call_ensures(
            store::save,
            (buf, c, write_size, ipv6),
            Ok::<FlashWrite, StampError>(w),
        ),
        layout::keepable(c@, ipv6),
        flash@ == final(buf)@.take(w.len as int) + tail,
        call_ensures(store::load, (true, flash, ipv6), r),
    ensures
        r matches Ok(d) && layout::is_kept(c@, d@),
{
    layout::lemma_keepable(c@, ipv6);
    layout::lemma_stored(c@);
    store::lemma_saved_is_loaded(c@, old(buf)@, write_size, ipv6, w, tail);
}

/// A configuration that can be kept is saved in a buffer of 460 bytes, for a granularity of up to
/// 16 bytes.
pub proof fn lemma_save_succeeds(
    buf: &mut [u8],
    c: &SSHStampConfig,
    write_size: usize,
    ipv6: bool,
    r: Result<FlashWrite, StampError>,
)
    requires
        call_ensures(store::save, (buf, c, write_size, ipv6), r),
        layout::keepable(c@, ipv6),
        1 <= write_size <= 16,
        old(buf)@.len() >= 460,
    ensures
        r is Ok,
{
    layout::lemma_keepable(c@, ipv6);
    store::lemma_save_succeeds(c@, old(buf)@.len(), write_size, ipv6);
}

// ---------------------------------------------------------------------------
// Starting up
// ---------------------------------------------------------------------------

/// A new configuration comes with the write of its record, which is in the buffer. It fails only
/// where the random numbers do, or where the record cannot be saved.
pub proof fn lemma_create(
    buf: &mut [u8],
    mac: [u8; 6],
    pins: UartPins,
    write_size: usize,
    ipv6: bool,
    len: int,
    r: Result<(SSHStampConfig, FlashWrite), StampError>,
)
    requires
        call_ensures(store::create, (buf, mac, pins, write_size, ipv6), r),
    ensures
        r matches Ok((c, w)) ==> device::is_first(c@, mac@, pins) && is_saved(
            Ok(w),
            own_record(c@, ipv6),
            old(buf)@,
            final(buf)@,
            write_size,
            len,
        ),
        r matches Err(e) ==> e == StampError::Rng || e == StampError::TooLarge || e
            == StampError::Wire(WireError::NoRoom),
        r matches Err(e) ==> old(buf)@.len() >= 460 && 1 <= write_size <= 16 ==> e
            == StampError::Rng,
        r matches Err(e) ==> e == StampError::Rng ==> final(buf)@ == old(buf)@,
{
    lemma_created(r, old(buf)@, final(buf)@, mac, pins, write_size, ipv6, len);
}

proof fn lemma_created(
    r: Result<(SSHStampConfig, FlashWrite), StampError>,
    before: Seq<u8>,
    after: Seq<u8>,
    mac: [u8; 6],
    pins: UartPins,
    write_size: usize,
    ipv6: bool,
    len: int,
)
    requires
        store::created(r, before, after, mac@, pins, write_size, ipv6),
    ensures
        r matches Ok((c, w)) ==> device::is_first(c@, mac@, pins) && is_saved(
            Ok(w),
            own_record(c@, ipv6),
            before,
            after,
            write_size,
            len,
        ),
        r matches Err(e) ==> e == StampError::Rng || e == StampError::TooLarge || e
            == StampError::Wire(WireError::NoRoom),
        r matches Err(e) ==> before.len() >= 460 && 1 <= write_size <= 16 ==> e
            == StampError::Rng,
        r matches Err(e) ==> e == StampError::Rng ==> after == before,
{
    match r {
        Ok((c, w)) => {
            device::lemma_is_first(c@, mac@, pins);
            lemma_saves(c@, before, write_size, ipv6, len);
        },
        Err(e) => {
            if !(e == StampError::Rng && after == before) {
                let c = choose|c: SSHStampConfig|
                    {
                        &&& #[trigger] config::is_fresh(c@, mac@, pins)
                        &&& store::save_result(c@, before.len(), write_size, ipv6) == Err::<
                            FlashWrite,
                            _,
                        >(e)
                        &&& after == store::save_buffer(c@, before, ipv6)
                    };
                layout::lemma_layout(c@, ipv6);
                codec::lemma_fresh_is_storable(c, mac, pins, ipv6);
                if before.len() >= 460 && 1 <= write_size <= 16 {
                    store::lemma_save_succeeds(c@, before.len(), write_size, ipv6);
                }
            }
        },
    }
}

/// Whether `to` is `from` with a new name of 16 letters and digits, a passphrase of 24 if it had
/// none, and everything else as it was.
pub open spec fn is_renamed(from: ConfigModel, to: ConfigModel) -> bool {
    &&& to.wifi_ap_ssid.len() == 16 && device::is_alphanumeric(to.wifi_ap_ssid)
    &&& from.wifi_ap_pw.len() > 0 ==> to.wifi_ap_pw == from.wifi_ap_pw
    &&& from.wifi_ap_pw.len() == 0 ==> to.wifi_ap_pw.len() == 24 && device::is_alphanumeric(
        to.wifi_ap_pw,
    )
    &&& to == (ConfigModel {
        wifi_ap_ssid: to.wifi_ap_ssid,
        wifi_ap_pw: to.wifi_ap_pw,
        ..from
    })
}

proof fn lemma_is_renamed(from: ConfigModel, to: ConfigModel)
    ensures
        store::is_migrated(from, to) ==> is_renamed(from, to),
{
    device::lemma_alphanumeric(to.wifi_ap_ssid);
    device::lemma_alphanumeric(to.wifi_ap_pw);
}

/// The name that older firmware gave to every device is the one that is replaced, and an access
/// point without passphrase is an open one.
pub proof fn lemma_needs_migration(c: &SSHStampConfig, r: bool, open: bool)
    requires
        call_ensures(store::needs_migration, (c,), r),
        call_ensures(store::is_open, (c,), open),
    ensures
        r <==> c@.wifi_ap_ssid == seq!['s', 's', 'h', '-', 's', 't', 'a', 'm', 'p'],
        open <==> c@.wifi_ap_pw.len() == 0,
{
    lemma_old_name();
}

proof fn lemma_old_name()
    ensures
        "ssh-stamp"@ == seq!['s', 's', 'h', '-', 's', 't', 'a', 'm', 'p'],
{
    reveal_strlit("ssh-stamp");
}

/// An access point is given the name, and the passphrase if there is one; nothing else changes.
pub proof fn lemma_rename(
    c: SSHStampConfig,
    ssid: heapless::String<32>,
    pw: Option<heapless::String<63>>,
    r: SSHStampConfig,
)
    requires
        call_ensures(store::rename_access_point, (c, ssid, pw), r),
    ensures
        r@.wifi_ap_ssid == outside::ssid_text(ssid),
        pw is None ==> r@.wifi_ap_pw == c@.wifi_ap_pw,
        pw matches Some(p) ==> r@.wifi_ap_pw == outside::psk_text(p),
        r@ == (ConfigModel {
            wifi_ap_ssid: r@.wifi_ap_ssid,
            wifi_ap_pw: r@.wifi_ap_pw,
            ..c@
        }),
{
}

/// Migration renames the access point and keeps its passphrase, if it has one, and all keys.
pub proof fn lemma_migrate(c: SSHStampConfig, r: Result<SSHStampConfig, StampError>)
    requires
        call_ensures(store::migrate, (c,), r),
    ensures
        r matches Ok(m) ==> is_renamed(c@, m@),
        r matches Err(e) ==> e == StampError::Rng,
{
    if let Ok(m) = r {
        lemma_is_renamed(c@, m@);
    }
}

/// What a start does, by what was found in flash. An invalid configuration is an error and is not
/// touched. A valid one is used as it is and nothing is written, unless it has the old name: then
/// it is renamed and written. Only where there is none is a new one created and written.
pub proof fn lemma_load_or_create(
    read_ok: bool,
    buf: &mut [u8],
    mac: [u8; 6],
    pins: UartPins,
    write_size: usize,
    ipv6: bool,
    found: &[u8],
    checked: LoadOutcome,
    len: int,
    r: Result<(SSHStampConfig, Option<FlashWrite>), StampError>,
)
    requires
        call_ensures(store::load_or_create, (read_ok, buf, mac, pins, write_size, ipv6), r),
        found@ == old(buf)@,
        call_ensures(store::load_checked, (read_ok, found, ipv6), checked),
    ensures
        checked@ matches LoadModel::Invalid(e) ==> r == Err::<
            (SSHStampConfig, Option<FlashWrite>),
            StampError,
        >(e) && final(buf)@ == old(buf)@,
        checked@ matches LoadModel::Loaded(c0) ==> {
            let old_name = c0.wifi_ap_ssid == seq!['s', 's', 'h', '-', 's', 't', 'a', 'm', 'p'];
            &&& !old_name ==> (r matches Ok((c, w)) && c@ == c0 && w is None) && final(buf)@
                == old(buf)@
            &&& old_name ==> (r matches Ok((c, w)) ==> is_renamed(c0, c@) && (w matches Some(w)
                && is_saved(
                Ok(w),
                own_record(c@, ipv6),
                old(buf)@,
                final(buf)@,
                write_size,
                len,
            )))
        },
        checked@ is Absent ==> (r matches Ok((c, w)) ==> device::is_first(c@, mac@, pins) && (w
            matches Some(w) && is_saved(
            Ok(w),
            own_record(c@, ipv6),
            old(buf)@,
            final(buf)@,
            write_size,
            len,
        ))),
        checked@ !is Invalid ==> (r matches Err(e) ==> e == StampError::Rng || e
            == StampError::TooLarge || e == StampError::Wire(WireError::NoRoom)),
        checked@ !is Invalid ==> (r matches Err(e) ==> old(buf)@.len() >= 460 && 1 <= write_size
            <= 16 ==> e == StampError::Rng),
        checked@ !is Invalid ==> (r matches Err(e) ==> e == StampError::Rng ==> final(buf)@
            == old(buf)@),
{
    lemma_old_name();
    match checked@ {
        LoadModel::Invalid(e) => {},
        LoadModel::Loaded(c0) => {
            store::lemma_loaded_is_checked(old(buf)@, ipv6);
            layout::lemma_keepable(c0, ipv6);
            match r {
                Ok((c, w)) => {
                    lemma_is_renamed(c0, c@);
                    lemma_saves(c@, old(buf)@, write_size, ipv6, len);
                },
                Err(e) => {
                    if !(e == StampError::Rng && final(buf)@ == old(buf)@)
                        && store::has_default_ssid(c0) {
                        let c = choose|c: SSHStampConfig|
                            {
                                &&& #[trigger] store::is_migrated(c0, c@)
                                &&& store::save_result(c@, old(buf)@.len(), write_size, ipv6)
                                    == Err::<FlashWrite, _>(e)
                                &&& final(buf)@ == store::save_buffer(c@, old(buf)@, ipv6)
                            };
                        layout::lemma_layout(c@, ipv6);
                        config::lemma_alphanumeric(c@.wifi_ap_ssid);
                        if c0.wifi_ap_pw.len() == 0 {
                            config::lemma_alphanumeric(c@.wifi_ap_pw);
                        }
                        assert(codec::storable(c@, ipv6));
                        if old(buf)@.len() >= 460 && 1 <= write_size <= 16 {
                            store::lemma_save_succeeds(c@, old(buf)@.len(), write_size, ipv6);
                        }
                    }
                },
            }
        },
        LoadModel::Absent => {
            let made = match r {
                Ok((c, w)) => Ok((c, w->0)),
                Err(e) => Err(e),
            };
            lemma_created(made, old(buf)@, final(buf)@, mac, pins, write_size, ipv6, len);
        },
    }
}

} // verus!
