//! The configuration record in flash.
//!
//! A record is the version of the format, the encoded configuration and the
//! SHA-256 digest of that encoding. It stands at the start of its own flash area.
//! The functions here work on a buffer; the caller reads the flash into it
//! beforehand, and afterwards erases and writes what a [`FlashWrite`] says.

use vstd::prelude::*;

use crate::codec;
use crate::config;
use crate::config::{SSHStampConfig, UartPins};
use crate::errors::StampError;
use crate::outside;
use crate::wire;
use crate::wire::{Sink, Source, WireError};

verus! {

pub const CONFIG_VERSION_SIZE: usize = 4;

pub const CONFIG_HASH_SIZE: usize = 32;

/// Size of the flash area that holds the record.
pub const CONFIG_AREA_SIZE: usize = 4096;

/// Where that area starts.
pub const CONFIG_OFFSET: usize = 0x9000;

/// A decoded record.
pub struct FlashConfig {
    pub version: u8,
    pub config: SSHStampConfig,
    /// SHA-256 digest of the encoded configuration.
    pub hash: [u8; 32],
}

impl FlashConfig {
    /// A buffer of this size holds the whole record.
    pub const BUF_SIZE: usize = 460;
}

/// What a [`FlashConfig`] holds.
#[verifier::ext_equal]
pub struct RecordModel {
    pub version: u8,
    pub config: config::ConfigModel,
    pub hash: Seq<u8>,
}

impl View for FlashConfig {
    type V = RecordModel;

    open spec fn view(&self) -> RecordModel {
        RecordModel { version: self.version, config: self.config@, hash: self.hash@ }
    }
}

/// The record of a configuration with the digest `hash`.
pub open spec fn record_with(c: config::ConfigModel, hash: Seq<u8>, ipv6: bool) -> Result<
    Seq<u8>,
    WireError,
> {
    match codec::config_bytes(c, ipv6) {
        Ok(b) => Ok(seq![SSHStampConfig::CURRENT_VERSION] + (b + hash)),
        Err(e) => Err(e),
    }
}

/// The record of a configuration.
pub open spec fn record_bytes(c: config::ConfigModel, ipv6: bool) -> Result<Seq<u8>, WireError> {
    match codec::config_bytes(c, ipv6) {
        Ok(b) => record_with(c, outside::sha256(b)@, ipv6),
        Err(e) => Err(e),
    }
}

/// The pieces that the record of a configuration with the digest `hash` is pushed in.
pub open spec fn record_pieces(c: config::ConfigModel, hash: Seq<u8>, ipv6: bool) -> Result<
    Seq<Seq<u8>>,
    WireError,
> {
    match codec::config_pieces(c, ipv6) {
        Ok(p) => Ok(seq![seq![SSHStampConfig::CURRENT_VERSION]] + (p + seq![hash])),
        Err(e) => Err(e),
    }
}

/// The pieces of a record put together are the record.
pub proof fn lemma_joined_record(c: config::ConfigModel, hash: Seq<u8>, ipv6: bool)
    ensures
        record_with(c, hash, ipv6) == match record_pieces(c, hash, ipv6) {
            Ok(p) => Ok(wire::joined(p)),
            Err(e) => Err(e),
        },
{
    codec::lemma_joined_config(c, ipv6);
    if let Ok(p) = codec::config_pieces(c, ipv6) {
        let v = seq![SSHStampConfig::CURRENT_VERSION];
        wire::lemma_joined(seq![v], p + seq![hash]);
        wire::lemma_joined(p, seq![hash]);
        wire::lemma_joined_one(v);
        wire::lemma_joined_one(hash);
    }
}

/// The record at the front of `b`. What follows it does not matter.
pub open spec fn read_record(b: Seq<u8>, ipv6: bool) -> Result<RecordModel, WireError> {
    match wire::dec_u8(b) {
        Err(e) => Err(e),
        Ok((version, b)) => match codec::read_config(b, ipv6) {
            Err(e) => Err(e),
            Ok((config, b)) => match wire::dec_bytes(b, 32) {
                Err(e) => Err(e),
                Ok((hash, _)) => Ok(RecordModel { version, config, hash }),
            },
        },
    }
}

/// The digest of the encoded configuration.
pub fn config_hash(config: &SSHStampConfig, ipv6: bool) -> (r: Result<[u8; 32], StampError>)
    ensures
        match codec::config_bytes(config@, ipv6) {
            Ok(b) => r matches Ok(h) && h == outside::sha256(b),
            Err(e) => r == Err::<[u8; 32], StampError>(StampError::Wire(e)),
        },
{
    let mut encoded = Sink::new();
    match config.enc(ipv6, &mut encoded) {
        Ok(_) => {},
        Err(e) => {
            proof {
                codec::lemma_joined_config(config@, ipv6);
            }
            return Err(StampError::Wire(e));
        },
    }
    let bytes = encoded.bytes();
    let mut h = outside::hasher_new();
    outside::hasher_update(&mut h, bytes.as_slice());
    proof {
        codec::lemma_joined_config(config@, ipv6);
        let pieces = codec::config_pieces(config@, ipv6)->Ok_0;
        assert(Seq::<Seq<u8>>::empty() + pieces == pieces);
        assert(outside::absorbed(h) == bytes@);
    }
    Ok(outside::hasher_digest(&h))
}

/// Decodes the record at the front of `buf`.
pub fn decode_record(buf: &[u8], ipv6: bool) -> (r: Result<FlashConfig, WireError>)
    ensures
        match read_record(buf@, ipv6) {
            Ok(m) => r matches Ok(f) && f@ == m,
            Err(e) => r == Err::<FlashConfig, WireError>(e),
        },
{
    let mut s = Source::new(buf);
    let version: u8 = s.dec_u8()?;
    let config = SSHStampConfig::dec(&mut s, ipv6)?;
    let hash: [u8; 32] = s.dec_array()?;
    Ok(FlashConfig { version, config, hash })
}

// ---------------------------------------------------------------------------
// Loading
// ---------------------------------------------------------------------------

/// What was found in flash.
pub enum LoadOutcome {
    /// A configuration that passed the version and integrity checks.
    Loaded(SSHStampConfig),
    /// Nothing that decodes, as in blank flash on first boot. Only here is a new
    /// configuration the right thing.
    Absent,
    /// A configuration that failed a check, or the flash could not be read. It is
    /// not to be overwritten.
    Invalid(StampError),
}

/// What a [`LoadOutcome`] holds.
#[verifier::ext_equal]
pub enum LoadModel {
    Loaded(config::ConfigModel),
    Absent,
    Invalid(StampError),
}

impl View for LoadOutcome {
    type V = LoadModel;

    open spec fn view(&self) -> LoadModel {
        match self {
            LoadOutcome::Loaded(c) => LoadModel::Loaded(c@),
            LoadOutcome::Absent => LoadModel::Absent,
            LoadOutcome::Invalid(e) => LoadModel::Invalid(*e),
        }
    }
}

/// The verdict on a decoded record whose configuration has the digest `calc`.
pub open spec fn judged(record: RecordModel, calc: Result<[u8; 32], StampError>) -> LoadModel {
    if record.version != SSHStampConfig::CURRENT_VERSION {
        LoadModel::Invalid(StampError::WrongVersion)
    } else {
        match calc {
            Err(e) => LoadModel::Invalid(e),
            Ok(h) => if h@ == record.hash {
                LoadModel::Loaded(record.config)
            } else {
                LoadModel::Invalid(StampError::BadHash)
            },
        }
    }
}

/// The digest that a configuration has to come with.
pub open spec fn hash_of(c: config::ConfigModel, ipv6: bool) -> Result<[u8; 32], StampError> {
    match codec::config_bytes(c, ipv6) {
        Ok(b) => Ok(outside::sha256(b)),
        Err(e) => Err(StampError::Wire(e)),
    }
}

/// What bytes that were read from flash amount to.
pub open spec fn loaded(b: Seq<u8>, ipv6: bool) -> LoadModel {
    match read_record(b, ipv6) {
        Err(_) => LoadModel::Absent,
        Ok(record) => judged(record, hash_of(record.config, ipv6)),
    }
}

/// What an attempt to read the flash amounts to.
pub open spec fn load_outcome(read_ok: bool, b: Seq<u8>, ipv6: bool) -> LoadModel {
    if read_ok {
        loaded(b, ipv6)
    } else {
        LoadModel::Invalid(StampError::FlashRead)
    }
}

/// Checks version and digest of a decoded record.
pub fn judge(record: FlashConfig, calc: Result<[u8; 32], StampError>) -> (r: LoadOutcome)
    ensures
        r@ == judged(record@, calc),
{
    if record.version != SSHStampConfig::CURRENT_VERSION {
        return LoadOutcome::Invalid(StampError::WrongVersion);
    }
    match calc {
        Err(e) => LoadOutcome::Invalid(e),
        Ok(h) => {
            if wire::same_bytes(&h, &record.hash) {
                LoadOutcome::Loaded(record.config)
            } else {
                LoadOutcome::Invalid(StampError::BadHash)
            }
        },
    }
}

/// Judges what was read from flash into `buf`, telling "no configuration yet" from
/// "a configuration that is not valid". `read_ok` says whether the read succeeded.
pub fn load_checked(read_ok: bool, buf: &[u8], ipv6: bool) -> (r: LoadOutcome)
    ensures
        r@ == load_outcome(read_ok, buf@, ipv6),
{
    if !read_ok {
        return LoadOutcome::Invalid(StampError::FlashRead);
    }
    match decode_record(buf, ipv6) {
        Err(_) => LoadOutcome::Absent,
        Ok(record) => {
            let calc = config_hash(&record.config, ipv6);
            judge(record, calc)
        },
    }
}

/// The configuration that was read from flash into `buf`.
pub fn load(read_ok: bool, buf: &[u8], ipv6: bool) -> (r: Result<SSHStampConfig, StampError>)
    ensures
        match load_outcome(read_ok, buf@, ipv6) {
            LoadModel::Loaded(m) => r matches Ok(c) && c@ == m,
            LoadModel::Absent => r == Err::<SSHStampConfig, StampError>(StampError::Undecodable),
            LoadModel::Invalid(e) => r == Err::<SSHStampConfig, StampError>(e),
        },
{
    match load_checked(read_ok, buf, ipv6) {
        LoadOutcome::Loaded(c) => Ok(c),
        LoadOutcome::Absent => Err(StampError::Undecodable),
        LoadOutcome::Invalid(e) => Err(e),
    }
}

// ---------------------------------------------------------------------------
// Saving
// ---------------------------------------------------------------------------

/// What is to be done to the flash: erase from `erase_from` to before `erase_to`,
/// then write the first `len` bytes of the buffer at `offset`.
#[derive(Clone, Copy, Debug, PartialEq, Eq, Structural)]
pub struct FlashWrite {
    pub erase_from: u32,
    pub erase_to: u32,
    pub offset: u32,
    pub len: usize,
}

/// The smallest multiple of `step` that is at least `n`.
pub open spec fn round_up(n: int, step: int) -> int
    recommends
        step > 0,
{
    if n % step == 0 {
        n
    } else {
        n + (step - n % step)
    }
}

/// What saving a record asks of the flash, or why it fails, given the size of the buffer
/// and the write granularity of the flash.
pub open spec fn write_plan(
    record: Result<Seq<u8>, WireError>,
    room: nat,
    write_size: usize,
) -> Result<FlashWrite, StampError> {
    match record {
        Err(e) => Err(StampError::Wire(e)),
        Ok(b) => if b.len() > room {
            Err(StampError::Wire(WireError::NoRoom))
        } else {
            let len = round_up(b.len() as int, write_size as int);
            if write_size == 0 || len > room || len > CONFIG_AREA_SIZE {
                Err(StampError::TooLarge)
            } else {
                Ok(
                    FlashWrite {
                        erase_from: CONFIG_OFFSET as u32,
                        erase_to: (CONFIG_OFFSET + CONFIG_AREA_SIZE) as u32,
                        offset: CONFIG_OFFSET as u32,
                        len: len as usize,
                    },
                )
            }
        },
    }
}

/// What gets into `room` bytes: the pieces in order, up to the first that does not fit.
pub open spec fn fitting(pieces: Seq<Seq<u8>>, room: int) -> Seq<u8>
    decreases pieces.len(),
{
    if pieces.len() == 0 || pieces[0].len() > room {
        Seq::empty()
    } else {
        pieces[0] + fitting(pieces.skip(1), room - pieces[0].len())
    }
}

/// A buffer after a record was put into it: as much of the record as fits, and then what was
/// there.
pub open spec fn buffer_with(record: Result<Seq<Seq<u8>>, WireError>, before: Seq<u8>) -> Seq<u8> {
    match record {
        Err(_) => before,
        Ok(pieces) => {
            let front = fitting(pieces, before.len() as int);
            front + before.skip(front.len() as int)
        },
    }
}

/// All pieces get in if there is room for them, and not all if there is not.
pub proof fn lemma_fitting(pieces: Seq<Seq<u8>>, room: int)
    requires
        0 <= room,
    ensures
        fitting(pieces, room).len() <= room,
        wire::joined(pieces).len() <= room ==> fitting(pieces, room) == wire::joined(pieces),
    decreases pieces.len(),
{
    if pieces.len() > 0 && pieces[0].len() <= room {
        lemma_fitting(pieces.skip(1), room - pieces[0].len());
    }
}

/// What saving a configuration asks of the flash, or why it fails.
pub open spec fn save_result(
    c: config::ConfigModel,
    room: nat,
    write_size: usize,
    ipv6: bool,
) -> Result<FlashWrite, StampError> {
    write_plan(record_bytes(c, ipv6), room, write_size)
}

/// The buffer after saving a configuration.
pub open spec fn save_buffer(c: config::ConfigModel, before: Seq<u8>, ipv6: bool) -> Seq<u8> {
    match codec::config_bytes(c, ipv6) {
        Ok(b) => buffer_with(record_pieces(c, outside::sha256(b)@, ipv6), before),
        Err(_) => before,
    }
}

/// `n` rounded up to a multiple of `step`, if there is one that fits.
fn next_multiple(n: usize, step: usize) -> (r: Option<usize>)
    ensures
        match r {
            Some(m) => step > 0 && m == round_up(n as int, step as int),
            None => step == 0 || round_up(n as int, step as int) > usize::MAX,
        },
{
    if step == 0 {
        return None;
    }
    let over: usize = n % step;
    if over == 0 {
        return Some(n);
    }
    n.checked_add(step - over)
}

/// The record of a configuration whose digest is `hash`.
pub fn encode_record(config: &SSHStampConfig, hash: &[u8; 32], ipv6: bool) -> (r: Result<
    Sink,
    StampError,
>)
    ensures
        match record_pieces(config@, hash@, ipv6) {
            Ok(p) => r matches Ok(v) && v@ == p,
            Err(e) => r == Err::<Sink, StampError>(StampError::Wire(e)),
        },
{
    let mut record = Sink::new();
    wire::enc_u8(SSHStampConfig::CURRENT_VERSION, &mut record);
    let ghost front = record@;
    assert(front == seq![seq![SSHStampConfig::CURRENT_VERSION]]);
    match config.enc(ipv6, &mut record) {
        Ok(_) => {},
        Err(e) => {
            return Err(StampError::Wire(e));
        },
    }
    wire::enc_bytes(hash, &mut record);
    proof {
        let p = codec::config_pieces(config@, ipv6)->Ok_0;
        codec::lemma_grouped(front, p, seq![hash@]);
    }
    Ok(record)
}

/// Overwrites a part of `buf`.
fn put(buf: &mut [u8], at: usize, bytes: &[u8])
    requires
        at + bytes@.len() <= old(buf)@.len(),
    ensures
        final(buf)@ == old(buf)@.take(at as int) + bytes@ + old(buf)@.skip(at + bytes@.len()),
{
    let ghost before = buf@;
    let n: usize = buf.len();
    let l: usize = bytes.len();
    let mut i: usize = 0;
    while i < l
        invariant
            i <= l,
            l == bytes@.len(),
            at + l <= n == before.len(),
            buf@ == before.take(at as int) + bytes@.take(i as int) + before.skip(at + i),
        decreases l - i,
    {
        buf[at + i] = bytes[i];
        assert(buf@ == before.take(at as int) + bytes@.take(i + 1) + before.skip(at + i + 1));
        i = i + 1;
    }
    assert(bytes@.take(l as int) == bytes@);
}

/// Puts pieces into `buf`, one after the other from its start, up to the first that does not
/// fit. Gives the bytes that all of them take, if all fit.
fn put_all(buf: &mut [u8], record: &Sink) -> (r: Option<usize>)
    ensures
        final(buf)@ == buffer_with(Ok(record@), old(buf)@),
        match r {
            Some(n) => n == wire::joined(record@).len() && n <= old(buf)@.len(),
            None => wire::joined(record@).len() > old(buf)@.len(),
        },
{
    let ghost before = buf@;
    let ghost room = before.len() as int;
    let ghost all = record@;
    let mut at: usize = 0;
    let mut i: usize = 0;
    proof {
        assert(all.skip(0) == all);
        assert(before.take(0) + before == before);
        assert(before.take(0) + fitting(all, room) == fitting(all, room));
        lemma_fitting(all, room);
    }
    while i < record.len()
        invariant
            i <= all.len(),
            all == record@,
            before == old(buf)@,
            buf@.len() == before.len() == room,
            at <= room,
            buf@.skip(at as int) == before.skip(at as int),
            buf@.take(at as int) + fitting(all.skip(i as int), room - at) == fitting(all, room),
            at + wire::joined(all.skip(i as int)).len() == wire::joined(all).len(),
        decreases all.len() - i,
    {
        let piece = record.piece(i);
        let ghost rest = all.skip(i as int);
        assert(rest[0] == piece@);
        assert(rest.skip(1) == all.skip(i + 1));
        if piece.len() > buf.len() - at {
            assert(wire::joined(rest).len() >= rest[0].len());
            assert(buf@.take(at as int) + Seq::<u8>::empty() == buf@.take(at as int));
            assert(buf@ == buf@.take(at as int) + buf@.skip(at as int));
            return None;
        }
        let ghost at_i = buf@;
        put(buf, at, piece);
        proof {
            let n = at + piece@.len();
            assert(buf@.take(n) == at_i.take(at as int) + piece@);
            assert(buf@.skip(n) == at_i.skip(n));
            assert(at_i.skip(at as int).skip(piece@.len() as int) == at_i.skip(n));
            assert(before.skip(at as int).skip(piece@.len() as int) == before.skip(n));
            assert(at_i.take(at as int) + piece@ + fitting(rest.skip(1), room - n) == at_i.take(
                at as int,
            ) + (piece@ + fitting(rest.skip(1), room - n)));
        }
        at = at + piece.len();
        i = i + 1;
    }
    proof {
        assert(all.skip(i as int).len() == 0);
        assert(buf@.take(at as int) + Seq::<u8>::empty() == buf@.take(at as int));
        assert(buf@ == buf@.take(at as int) + buf@.skip(at as int));
    }
    Some(at)
}

/// Puts the record of `config`, whose digest is `hash`, into `buf` and says what is to be
/// written to flash.
pub fn save_with_hash(
    buf: &mut [u8],
    config: &SSHStampConfig,
    hash: &[u8; 32],
    write_size: usize,
    ipv6: bool,
) -> (r: Result<FlashWrite, StampError>)
    ensures
        r == write_plan(record_with(config@, hash@, ipv6), old(buf)@.len(), write_size),
        final(buf)@ == buffer_with(record_pieces(config@, hash@, ipv6), old(buf)@),
{
    proof {
        lemma_joined_record(config@, hash@, ipv6);
    }
    let record = encode_record(config, hash, ipv6)?;
    let l: usize = match put_all(buf, &record) {
        Some(l) => l,
        None => {
            return Err(StampError::Wire(WireError::NoRoom));
        },
    };
    proof {
        lemma_fitting(record@, old(buf)@.len() as int);
    }
    match next_multiple(l, write_size) {
        Some(len) if len <= buf.len() && len <= CONFIG_AREA_SIZE => Ok(
            FlashWrite {
                erase_from: CONFIG_OFFSET as u32,
                erase_to: (CONFIG_OFFSET + CONFIG_AREA_SIZE) as u32,
                offset: CONFIG_OFFSET as u32,
                len,
            },
        ),
        _ => Err(StampError::TooLarge),
    }
}

/// Puts the record of `config` into `buf` and says what is to be written to flash.
///
/// No more than the record is written, rounded up to the write granularity
/// `write_size`, and never past the area that is erased for it.
pub fn save(buf: &mut [u8], config: &SSHStampConfig, write_size: usize, ipv6: bool) -> (r: Result<
    FlashWrite,
    StampError,
>)
    ensures
        r == save_result(config@, old(buf)@.len(), write_size, ipv6),
        final(buf)@ == save_buffer(config@, old(buf)@, ipv6),
{
    let hash = config_hash(config, ipv6)?;
    save_with_hash(buf, config, &hash, write_size, ipv6)
}

// ---------------------------------------------------------------------------
// Starting up
// ---------------------------------------------------------------------------

/// Creates a new configuration and puts its record into `buf`.
pub fn create(
    buf: &mut [u8],
    default_mac: [u8; 6],
    default_uart_pins: UartPins,
    write_size: usize,
    ipv6: bool,
) -> (r: Result<(SSHStampConfig, FlashWrite), StampError>)
    ensures
        created(r, old(buf)@, final(buf)@, default_mac@, default_uart_pins, write_size, ipv6),
{
    let c = SSHStampConfig::new(default_mac, default_uart_pins)?;
    let w = save(buf, &c, write_size, ipv6)?;
    Ok((c, w))
}

/// What [`create`] may come to, given the buffer before and after: a new
/// configuration that is saved, or the failure to generate or to save one.
pub open spec fn created(
    r: Result<(SSHStampConfig, FlashWrite), StampError>,
    before: Seq<u8>,
    after: Seq<u8>,
    mac: Seq<u8>,
    pins: UartPins,
    write_size: usize,
    ipv6: bool,
) -> bool {
    match r {
        Ok((c, w)) => {
            &&& config::is_fresh(c@, mac, pins)
            &&& save_result(c@, before.len(), write_size, ipv6) == Ok::<_, StampError>(w)
            &&& after == save_buffer(c@, before, ipv6)
        },
        Err(e) => {
            ||| e == StampError::Rng && after == before
            ||| exists|c: SSHStampConfig|
                {
                    &&& #[trigger] config::is_fresh(c@, mac, pins)
                    &&& save_result(c@, before.len(), write_size, ipv6) == Err::<FlashWrite, _>(e)
                    &&& after == save_buffer(c@, before, ipv6)
                }
        },
    }
}

/// Whether a stored configuration has the access point name that older firmware
/// gave to every device.
pub open spec fn has_default_ssid(c: config::ConfigModel) -> bool {
    c.wifi_ap_ssid == "ssh-stamp"@
}

/// A configuration with a new access point name, and a new passphrase if it had
/// none.
pub open spec fn migrated(
    c: config::ConfigModel,
    ssid: Seq<char>,
    pw: Seq<char>,
) -> config::ConfigModel {
    config::ConfigModel {
        wifi_ap_ssid: ssid,
        wifi_ap_pw: if c.wifi_ap_pw.len() == 0 {
            pw
        } else {
            c.wifi_ap_pw
        },
        ..c
    }
}

/// Whether `to` is what `from` may be migrated to.
pub open spec fn is_migrated(from: config::ConfigModel, to: config::ConfigModel) -> bool {
    &&& to == migrated(from, to.wifi_ap_ssid, to.wifi_ap_pw)
    &&& to.wifi_ap_ssid.len() == 16 && config::alphanumeric(to.wifi_ap_ssid)
    &&& from.wifi_ap_pw.len() == 0 ==> to.wifi_ap_pw.len() == 24 && config::alphanumeric(
        to.wifi_ap_pw,
    )
}

/// Whether the access point has the name that older firmware gave to every device.
pub fn needs_migration(c: &SSHStampConfig) -> (r: bool)
    ensures
        r == has_default_ssid(c@),
{
    crate::text::equals(outside::ssid_str(&c.wifi_ap_ssid), "ssh-stamp")
}

/// Whether the access point has no passphrase.
pub fn is_open(c: &SSHStampConfig) -> (r: bool)
    ensures
        r == (c@.wifi_ap_pw.len() == 0),
{
    outside::psk_str(&c.wifi_ap_pw).unicode_len() == 0
}

/// Gives the access point another name, and a passphrase where one is handed over.
pub fn rename_access_point(
    c: SSHStampConfig,
    ssid: heapless::String<32>,
    pw: Option<heapless::String<63>>,
) -> (r: SSHStampConfig)
    ensures
        r@ == (config::ConfigModel {
            wifi_ap_ssid: outside::ssid_text(ssid),
            wifi_ap_pw: match pw {
                Some(p) => outside::psk_text(p),
                None => c@.wifi_ap_pw,
            },
            ..c@
        }),
{
    let mut c = c;
    c.wifi_ap_ssid = ssid;
    if let Some(p) = pw {
        c.wifi_ap_pw = p;
    }
    c
}

/// Replaces the name that older firmware gave to every access point by a random
/// one; an access point without passphrase gets one.
pub fn migrate(c: SSHStampConfig) -> (r: Result<SSHStampConfig, StampError>)
    ensures
        match r {
            Ok(m) => is_migrated(c@, m@),
            Err(e) => e == StampError::Rng,
        },
{
    let ssid = SSHStampConfig::generate_wifi_ssid()?;
    let pw = if is_open(&c) {
        Some(SSHStampConfig::generate_wifi_password()?)
    } else {
        None
    };
    Ok(rename_access_point(c, ssid, pw))
}

/// What [`load_or_create`] may come to where a valid configuration was found.
pub open spec fn kept_or_migrated(
    r: Result<(SSHStampConfig, Option<FlashWrite>), StampError>,
    found: config::ConfigModel,
    before: Seq<u8>,
    after: Seq<u8>,
    write_size: usize,
    ipv6: bool,
) -> bool {
    if !has_default_ssid(found) {
        r matches Ok((c, None)) && c@ == found && after == before
    } else {
        match r {
            Ok((c, w)) => {
                &&& is_migrated(found, c@)
                &&& w matches Some(w) && save_result(c@, before.len(), write_size, ipv6) == Ok::<
                    _,
                    StampError,
                >(w)
                &&& after == save_buffer(c@, before, ipv6)
            },
            Err(e) => {
                ||| e == StampError::Rng && after == before
                ||| exists|c: SSHStampConfig|
                    {
                        &&& #[trigger] is_migrated(found, c@)
                        &&& save_result(c@, before.len(), write_size, ipv6) == Err::<FlashWrite, _>(
                            e,
                        )
                        &&& after == save_buffer(c@, before, ipv6)
                    }
            },
        }
    }
}

/// Loads the configuration that was read from flash into `buf`, or creates one if
/// there is none. With the configuration comes what is to be written to flash, if
/// anything.
///
/// Where a configuration is present but not valid this fails and asks for nothing
/// to be written: a new one would wipe the stored keys, change the host key and
/// open the device to a first login again.
pub fn load_or_create(
    read_ok: bool,
    buf: &mut [u8],
    default_mac: [u8; 6],
    default_uart_pins: UartPins,
    write_size: usize,
    ipv6: bool,
) -> (r: Result<(SSHStampConfig, Option<FlashWrite>), StampError>)
    ensures
        match load_outcome(read_ok, old(buf)@, ipv6) {
            LoadModel::Loaded(found) => kept_or_migrated(
                r,
                found,
                old(buf)@,
                final(buf)@,
                write_size,
                ipv6,
            ),
            LoadModel::Invalid(e) => r == Err::<(SSHStampConfig, Option<FlashWrite>), StampError>(e)
                && final(buf)@ == old(buf)@,
            LoadModel::Absent => match r {
                Ok((c, w)) => w is Some && created(
                    Ok((c, w->0)),
                    old(buf)@,
                    final(buf)@,
                    default_mac@,
                    default_uart_pins,
                    write_size,
                    ipv6,
                ),
                Err(e) => created(
                    Err(e),
                    old(buf)@,
                    final(buf)@,
                    default_mac@,
                    default_uart_pins,
                    write_size,
                    ipv6,
                ),
            },
        },
{
    match load_checked(read_ok, buf, ipv6) {
        LoadOutcome::Loaded(c) => {
            if needs_migration(&c) {
                let c = migrate(c)?;
                let w = save(buf, &c, write_size, ipv6)?;
                Ok((c, Some(w)))
            } else {
                Ok((c, None))
            }
        },
        LoadOutcome::Invalid(e) => Err(e),
        LoadOutcome::Absent => {
            let (c, w) = create(buf, default_mac, default_uart_pins, write_size, ipv6)?;
            Ok((c, Some(w)))
        },
    }
}

// ---------------------------------------------------------------------------
// What holds of the record
// ---------------------------------------------------------------------------

/// A record is read back from its parts.
proof fn lemma_read_parts(
    version: u8,
    b: Seq<u8>,
    h: Seq<u8>,
    tail: Seq<u8>,
    c: config::ConfigModel,
    ipv6: bool,
)
    requires
        codec::read_config(b + (h + tail), ipv6) == Ok::<_, WireError>((c, h + tail)),
        h.len() == 32,
    ensures
        read_record((seq![version] + (b + h)) + tail, ipv6) == Ok::<_, WireError>(
            RecordModel { version, config: c, hash: h },
        ),
{
    codec::lemma_grouped(seq![version], b + h, tail);
    codec::lemma_grouped(b, h, tail);
    wire::lemma_dec_u8(version, (b + h) + tail);
    wire::lemma_dec_bytes(h, tail);
}

/// A record that is followed by anything is read back.
proof fn lemma_read_record(c: config::ConfigModel, ipv6: bool, tail: Seq<u8>)
    requires
        codec::storable(c, ipv6),
    ensures
        record_bytes(c, ipv6) matches Ok(b) && loaded(b + tail, ipv6) == LoadModel::Loaded(
            codec::stored(c),
        ),
{
    codec::lemma_stored_encoding(c, ipv6);
    codec::lemma_round_trip(c, ipv6, Seq::empty());
    let b = codec::config_bytes(c, ipv6)->Ok_0;
    let h = outside::sha256(b)@;
    codec::lemma_round_trip(c, ipv6, h + tail);
    lemma_read_parts(SSHStampConfig::CURRENT_VERSION, b, h, tail, codec::stored(c), ipv6);
    lemma_accepted(
        (seq![SSHStampConfig::CURRENT_VERSION] + (b + h)) + tail,
        b,
        codec::stored(c),
        ipv6,
    );
}

/// A record of the current version with the right digest is accepted.
proof fn lemma_accepted(x: Seq<u8>, b: Seq<u8>, c: config::ConfigModel, ipv6: bool)
    requires
        read_record(x, ipv6) == Ok::<_, WireError>(
            RecordModel {
                version: SSHStampConfig::CURRENT_VERSION,
                config: c,
                hash: outside::sha256(b)@,
            },
        ),
        codec::config_bytes(c, ipv6) == Ok::<_, WireError>(b),
    ensures
        loaded(x, ipv6) == LoadModel::Loaded(c),
{
}

/// A record takes at most 445 bytes.
pub proof fn lemma_record_size(c: config::ConfigModel, ipv6: bool)
    requires
        codec::storable(c, ipv6),
    ensures
        record_bytes(c, ipv6) matches Ok(b) && b.len() <= 445 < FlashConfig::BUF_SIZE
            < CONFIG_AREA_SIZE,
{
    codec::lemma_config_size(c, ipv6);
}

/// What is saved is what is loaded: whatever the flash holds after the bytes that
/// were written, the configuration comes back, but for the name servers.
pub proof fn lemma_saved_is_loaded(
    c: config::ConfigModel,
    before: Seq<u8>,
    write_size: usize,
    ipv6: bool,
    w: FlashWrite,
    tail: Seq<u8>,
)
    requires
        codec::storable(c, ipv6),
        save_result(c, before.len(), write_size, ipv6) == Ok::<_, StampError>(w),
    ensures
        load_outcome(true, save_buffer(c, before, ipv6).take(w.len as int) + tail, ipv6)
            == LoadModel::Loaded(codec::stored(c)),
{
    let b = record_bytes(c, ipv6)->Ok_0;
    lemma_write_in_area(c, before.len(), write_size, ipv6, w);
    let rest = before.subrange(b.len() as int, w.len as int) + tail;
    lemma_buffer_holds_record(c, before, ipv6);
    lemma_front(b, before, w.len as int, tail);
    lemma_read_record(c, ipv6, rest);
}

/// A record that fits stands at the front of the buffer.
pub proof fn lemma_buffer_holds_record(c: config::ConfigModel, before: Seq<u8>, ipv6: bool)
    ensures
        record_bytes(c, ipv6) matches Ok(b) ==> b.len() <= before.len() ==> save_buffer(
            c,
            before,
            ipv6,
        ) == b + before.skip(b.len() as int),
{
    if let Ok(b) = codec::config_bytes(c, ipv6) {
        let h = outside::sha256(b)@;
        lemma_joined_record(c, h, ipv6);
        lemma_fitting(record_pieces(c, h, ipv6)->Ok_0, before.len() as int);
    }
}

proof fn lemma_front(b: Seq<u8>, before: Seq<u8>, n: int, tail: Seq<u8>)
    requires
        b.len() <= n <= before.len(),
    ensures
        (b + before.skip(b.len() as int)).take(n) + tail == b + (before.subrange(b.len() as int, n)
            + tail),
{
}

/// A record is loaded, whatever follows it, exactly if its configuration can be stored.
pub proof fn lemma_loads_if_storable(c: config::ConfigModel, ipv6: bool, tail: Seq<u8>)
    ensures
        codec::storable(c, ipv6) <==> (record_bytes(c, ipv6) matches Ok(b) && load_outcome(
            true,
            b + tail,
            ipv6,
        ) == LoadModel::Loaded(codec::stored(c))),
{
    if codec::storable(c, ipv6) {
        lemma_read_record(c, ipv6, tail);
    } else if let Ok(b) = record_bytes(c, ipv6) {
        lemma_loaded_is_checked(b + tail, ipv6);
    }
}

/// The write starts where the erased area starts and does not go past its end. It
/// covers the record and less than one unit of the write granularity more.
pub proof fn lemma_write_in_area(
    c: config::ConfigModel,
    room: nat,
    write_size: usize,
    ipv6: bool,
    w: FlashWrite,
)
    requires
        save_result(c, room, write_size, ipv6) == Ok::<_, StampError>(w),
    ensures
        w.erase_from == w.offset == CONFIG_OFFSET,
        w.erase_to == CONFIG_OFFSET + CONFIG_AREA_SIZE,
        w.offset + w.len <= w.erase_to,
        w.len <= room,
        write_size > 0 && w.len % write_size == 0,
        record_bytes(c, ipv6) matches Ok(b) && b.len() <= w.len < b.len() + write_size,
{
    let n = record_bytes(c, ipv6)->Ok_0.len() as int;
    let step = write_size as int;
    if n % step != 0 {
        vstd::arithmetic::div_mod::lemma_fundamental_div_mod(n, step);
        vstd::arithmetic::div_mod::lemma_mod_multiples_vanish(n / step + 1, 0, step);
        assert(n + (step - n % step) == step * (n / step + 1)) by (nonlinear_arith)
            requires
                n == step * (n / step) + n % step,
        ;
    }
}

/// A configuration can be saved in a buffer of [`FlashConfig::BUF_SIZE`] bytes, for
/// a write granularity of up to 16 bytes.
pub proof fn lemma_save_succeeds(
    c: config::ConfigModel,
    room: nat,
    write_size: usize,
    ipv6: bool,
)
    requires
        codec::storable(c, ipv6),
        1 <= write_size <= 16,
        room >= FlashConfig::BUF_SIZE,
    ensures
        save_result(c, room, write_size, ipv6) is Ok,
{
    lemma_record_size(c, ipv6);
    let n = record_bytes(c, ipv6)->Ok_0.len() as int;
    vstd::arithmetic::div_mod::lemma_mod_bound(n, write_size as int);
}

/// Erased flash holds no configuration.
pub proof fn lemma_blank_is_absent(n: nat, ipv6: bool)
    ensures
        load_outcome(true, Seq::new(n, |i: int| 0xffu8), ipv6) == LoadModel::Absent,
{
    let b = Seq::new(n, |i: int| 0xffu8);
    if let Ok((_, b1)) = wire::dec_u8(b) {
        if let Ok((_, b2)) = codec::read_signkey(b1) {
            assert(codec::read_slots(b2, crate::settings::KEY_SLOTS as nat) is Err);
        }
    }
}

/// A configuration is loaded only from a record of the current version that ends in
/// the digest of the configuration; and what is loaded can be saved again.
pub proof fn lemma_loaded_is_checked(b: Seq<u8>, ipv6: bool)
    ensures
        loaded(b, ipv6) matches LoadModel::Loaded(c) ==> {
            &&& codec::storable(c, ipv6) && codec::stored(c) == c
            &&& read_record(b, ipv6) matches Ok(record) && record.version
                == SSHStampConfig::CURRENT_VERSION && record.config == c && Ok::<_, StampError>(
                record.hash,
            ) == match hash_of(c, ipv6) {
                Ok(h) => Ok(h@),
                Err(e) => Err(e),
            }
        },
{
    if let Ok((_, b)) = wire::dec_u8(b) {
        codec::lemma_read_is_storable(b, ipv6);
    }
}

/// A new configuration is found again on the next start, and is left as it is.
pub proof fn lemma_created_is_kept(
    c: SSHStampConfig,
    mac: [u8; 6],
    pins: UartPins,
    before: Seq<u8>,
    write_size: usize,
    ipv6: bool,
    w: FlashWrite,
    tail: Seq<u8>,
)
    requires
        config::is_fresh(c@, mac@, pins),
        save_result(c@, before.len(), write_size, ipv6) == Ok::<_, StampError>(w),
    ensures
        load_outcome(true, save_buffer(c@, before, ipv6).take(w.len as int) + tail, ipv6)
            == LoadModel::Loaded(c@),
        !has_default_ssid(c@),
{
    codec::lemma_fresh_is_storable(c, mac, pins, ipv6);
    lemma_saved_is_loaded(c@, before, write_size, ipv6, w, tail);
    reveal_strlit("ssh-stamp");
}

/// A configuration is migrated at most once: on the next start it is found with its
/// new name. Its keys are those that it had.
pub proof fn lemma_migrates_once(
    from: config::ConfigModel,
    to: config::ConfigModel,
    before: Seq<u8>,
    write_size: usize,
    ipv6: bool,
    w: FlashWrite,
    tail: Seq<u8>,
)
    requires
        codec::storable(from, ipv6),
        is_migrated(from, to),
        save_result(to, before.len(), write_size, ipv6) == Ok::<_, StampError>(w),
    ensures
        load_outcome(true, save_buffer(to, before, ipv6).take(w.len as int) + tail, ipv6)
            == LoadModel::Loaded(codec::stored(to)),
        !has_default_ssid(codec::stored(to)),
        to.hostkey == from.hostkey,
        to.pubkeys == from.pubkeys,
        to.first_login == from.first_login,
        to.wifi_ap_pw.len() > 0,
{
    config::lemma_alphanumeric(to.wifi_ap_ssid);
    if from.wifi_ap_pw.len() == 0 {
        config::lemma_alphanumeric(to.wifi_ap_pw);
    }
    lemma_saved_is_loaded(to, before, write_size, ipv6, w, tail);
    reveal_strlit("ssh-stamp");
}

} // verus!
