//! Parameters of an update, each a type byte, a length byte and a value.
//!
//! The parameters come one after the other, the firmware blob last: its value is
//! the size of the image, and the image follows it.

use vstd::prelude::*;

use crate::wire;
use crate::wire::{Source, WireError};

verus! {

/// Type of the parameter that says what the update is for.
pub const OTA_TYPE: u8 = 0;

/// Type of the parameter that announces the firmware image.
pub const FIRMWARE_BLOB: u8 = 1;

/// Type of the parameter that holds the digest of the image.
pub const SHA256_CHECKSUM: u8 = 2;

/// What the update is for: this firmware.
pub const OTA_TYPE_VALUE_SSH_STAMP: u32 = 0x7373_6873;

/// The most bytes that a parameter takes.
pub const MAX_TLV_SIZE: usize = 34;

/// A parameter.
#[derive(Clone, Copy, Debug, PartialEq, Eq)]
pub enum Tlv {
    OtaType { ota_type: u32 },
    FirmwareBlob { size: u32 },
    Sha256Checksum { checksum: [u8; 32] },
}

/// What a [`Tlv`] holds.
#[verifier::ext_equal]
pub enum TlvModel {
    OtaType { ota_type: u32 },
    FirmwareBlob { size: u32 },
    Sha256Checksum { checksum: Seq<u8> },
}

impl View for Tlv {
    type V = TlvModel;

    open spec fn view(&self) -> TlvModel {
        match *self {
            Tlv::OtaType { ota_type } => TlvModel::OtaType { ota_type },
            Tlv::FirmwareBlob { size } => TlvModel::FirmwareBlob { size },
            Tlv::Sha256Checksum { checksum } => TlvModel::Sha256Checksum { checksum: checksum@ },
        }
    }
}

/// The bytes of a parameter.
pub open spec fn tlv_bytes(t: TlvModel) -> Seq<u8> {
    match t {
        TlvModel::OtaType { ota_type } => seq![OTA_TYPE, 4u8] + wire::be_bytes(ota_type),
        TlvModel::FirmwareBlob { size } => seq![FIRMWARE_BLOB, 4u8] + wire::be_bytes(size),
        TlvModel::Sha256Checksum { checksum } => seq![SHA256_CHECKSUM, 32u8] + checksum,
    }
}

/// The value of a number parameter, after its type.
pub open spec fn read_number(b: Seq<u8>) -> Result<(u32, Seq<u8>), WireError> {
    match wire::dec_u8(b) {
        Err(e) => Err(e),
        Ok((len, b)) => if len != 4 {
            Err(WireError::PacketWrong)
        } else {
            wire::dec_u32(b)
        },
    }
}

/// The value of a digest parameter, after its type.
pub open spec fn read_digest(b: Seq<u8>) -> Result<(Seq<u8>, Seq<u8>), WireError> {
    match wire::dec_u8(b) {
        Err(e) => Err(e),
        Ok((len, b)) => if len != 32 {
            Err(WireError::PacketWrong)
        } else {
            wire::dec_bytes(b, 32)
        },
    }
}

/// The parameter at the front of `b`.
pub open spec fn read_tlv(b: Seq<u8>) -> Result<(TlvModel, Seq<u8>), WireError> {
    match wire::dec_u8(b) {
        Err(e) => Err(e),
        Ok((kind, b)) => if kind == OTA_TYPE {
            match read_number(b) {
                Err(e) => Err(e),
                Ok((ota_type, b)) => Ok((TlvModel::OtaType { ota_type }, b)),
            }
        } else if kind == FIRMWARE_BLOB {
            match read_number(b) {
                Err(e) => Err(e),
                Ok((size, b)) => Ok((TlvModel::FirmwareBlob { size }, b)),
            }
        } else if kind == SHA256_CHECKSUM {
            match read_digest(b) {
                Err(e) => Err(e),
                Ok((checksum, b)) => Ok((TlvModel::Sha256Checksum { checksum }, b)),
            }
        } else {
            Err(WireError::UnknownPacket { number: kind })
        },
    }
}

fn dec_number(s: &mut Source) -> (r: Result<u32, WireError>)
    ensures
        match read_number(old(s).rest()) {
            Ok((v, rest)) => r == Ok::<u32, WireError>(v) && final(s).rest() == rest,
            Err(e) => r == Err::<u32, WireError>(e),
        },
{
    let len: u8 = s.dec_u8()?;
    if len != 4 {
        return Err(WireError::PacketWrong);
    }
    s.dec_u32()
}

impl Tlv {
    /// Takes a parameter off the front of `s`.
    pub fn dec(s: &mut Source) -> (r: Result<Tlv, WireError>)
        ensures
            match read_tlv(old(s).rest()) {
                Ok((v, rest)) => r matches Ok(t) && t@ == v && final(s).rest() == rest,
                Err(e) => r == Err::<Tlv, WireError>(e),
            },
    {
        let kind: u8 = s.dec_u8()?;
        if kind == OTA_TYPE {
            let ota_type: u32 = dec_number(s)?;
            Ok(Tlv::OtaType { ota_type })
        } else if kind == FIRMWARE_BLOB {
            let size: u32 = dec_number(s)?;
            Ok(Tlv::FirmwareBlob { size })
        } else if kind == SHA256_CHECKSUM {
            let len: u8 = s.dec_u8()?;
            if len != 32 {
                return Err(WireError::PacketWrong);
            }
            let checksum: [u8; 32] = s.dec_array()?;
            Ok(Tlv::Sha256Checksum { checksum })
        } else {
            Err(WireError::UnknownPacket { number: kind })
        }
    }
}

/// A parameter is read back, and nothing after it is touched.
pub proof fn lemma_read_tlv(t: TlvModel, rest: Seq<u8>)
    requires
        t matches TlvModel::Sha256Checksum { checksum } ==> checksum.len() == 32,
    ensures
        read_tlv(tlv_bytes(t) + rest) == Ok::<_, WireError>((t, rest)),
{
    let (kind, len, value) = match t {
        TlvModel::OtaType { ota_type } => (OTA_TYPE, 4u8, wire::be_bytes(ota_type)),
        TlvModel::FirmwareBlob { size } => (FIRMWARE_BLOB, 4u8, wire::be_bytes(size)),
        TlvModel::Sha256Checksum { checksum } => (SHA256_CHECKSUM, 32u8, checksum),
    };
    wire::lemma_dec_u8(kind, seq![len] + (value + rest));
    wire::lemma_dec_u8(len, value + rest);
    assert(tlv_bytes(t) + rest == seq![kind] + (seq![len] + (value + rest)));
    match t {
        TlvModel::OtaType { ota_type } => wire::lemma_dec_u32(ota_type, rest),
        TlvModel::FirmwareBlob { size } => wire::lemma_dec_u32(size, rest),
        TlvModel::Sha256Checksum { checksum } => wire::lemma_dec_bytes(checksum, rest),
    }
}

// ---------------------------------------------------------------------------
// Collecting a parameter that comes in pieces
// ---------------------------------------------------------------------------

/// The size of the parameter that `b` starts with, by its length byte.
pub open spec fn tlv_size(b: Seq<u8>) -> int
    recommends
        b.len() >= 2,
{
    2 + b[1]
}

/// Whether `held` is the front of a parameter: at most its header, or no more than
/// its length byte says.
pub open spec fn is_partial(held: Seq<u8>) -> bool {
    held.len() <= 2 || held.len() <= tlv_size(held) <= MAX_TLV_SIZE
}

/// What becomes of the bytes held and the bytes at hand: those held then, those
/// left, and whether a whole parameter is held.
///
/// A parameter that would not fit is refused once its header is held.
pub open spec fn collected(held: Seq<u8>, data: Seq<u8>) -> (
    Seq<u8>,
    Seq<u8>,
    Result<(), WireError>,
) {
    let all = held + data;
    if all.len() < 2 {
        (all, Seq::empty(), Err(WireError::RanOut))
    } else if tlv_size(all) > MAX_TLV_SIZE {
        (all.take(2), all.skip(2), Err(WireError::NoRoom))
    } else if all.len() < tlv_size(all) {
        (all, Seq::empty(), Err(WireError::RanOut))
    } else {
        (all.take(tlv_size(all)), all.skip(tlv_size(all)), Ok(()))
    }
}

/// Moves bytes from `source` behind those held until `target` are held, or the
/// source is empty.
fn fill<'a>(
    source: &mut Source<'a>,
    holder: &mut [u8; MAX_TLV_SIZE],
    current_len: &mut usize,
    target: usize,
)
    requires
        *old(current_len) <= target <= MAX_TLV_SIZE,
    ensures
        ({
            let held = old(holder)@.take(*old(current_len) as int);
            let all = held + old(source).rest();
            let n = if all.len() < target {
                all.len() as int
            } else {
                target as int
            };
            &&& *final(current_len) == n
            &&& final(holder)@.take(n) == all.take(n)
            &&& final(source).rest() == all.skip(n)
        }),
{
    let ghost held = holder@.take(*current_len as int);
    let ghost all = held + source.rest();
    let wanted: usize = target - *current_len;
    let there: usize = source.remaining();
    let n: usize = if there < wanted {
        there
    } else {
        wanted
    };
    match source.take(n) {
        Ok(bytes) => {
            let start: usize = *current_len;
            let mut i: usize = 0;
            while i < n
                invariant
                    i <= n,
                    n == bytes@.len(),
                    start + n <= MAX_TLV_SIZE,
                    held.len() == start,
                    forall|j: int| 0 <= j < start ==> holder@[j] == held[j],
                    forall|j: int| 0 <= j < i ==> holder@[start + j] == #[trigger] bytes@[j],
                decreases n - i,
            {
                holder[start + i] = bytes[i];
                i = i + 1;
            }
            *current_len = start + n;
            assert(held + bytes@ == all.take(start + n));
            assert forall|j: int| start <= j < start + n implies holder@[j] == (held
                + bytes@)[j] by {
                assert(bytes@[j - start] == holder@[start + (j - start)]);
            }
            assert(holder@.take(start + n) == held + bytes@);
            assert(source.rest() == all.skip(start + n));
        },
        Err(_) => {},
    }
}

impl<'a> Source<'a> {
    /// Takes bytes for one parameter, behind those that `holder` has already.
    pub fn try_taking_bytes_for_tlv(
        &mut self,
        holder: &mut [u8; MAX_TLV_SIZE],
        current_len: &mut usize,
    ) -> (r: Result<(), WireError>)
        requires
            *old(current_len) <= MAX_TLV_SIZE,
            is_partial(old(holder)@.take(*old(current_len) as int)),
        ensures
            ({
                let (held, rest, result) = collected(
                    old(holder)@.take(*old(current_len) as int),
                    old(self).rest(),
                );
                &&& *final(current_len) <= MAX_TLV_SIZE
                &&& final(holder)@.take(*final(current_len) as int) == held
                &&& final(self).rest() == rest
                &&& r == result
                &&& is_partial(held)
            }),
    {
        let ghost held = holder@.take(*current_len as int);
        let ghost all = held + self.rest();
        if *current_len < 2 {
            fill(self, holder, current_len, 2);
            if *current_len < 2 {
                assert(all.take(all.len() as int) == all);
                assert(all.skip(all.len() as int) == Seq::<u8>::empty());
                return Err(WireError::RanOut);
            }
            assert(all.take(2) + all.skip(2) == all);
        }
        let ghost held2 = holder@.take(*current_len as int);
        assert(held2 + self.rest() == all);
        assert(held2[1] == holder@[1]);
        let size: usize = 2 + holder[1] as usize;
        if size > MAX_TLV_SIZE {
            assert(held2 == all.take(2));
            assert(self.rest() == all.skip(2));
            return Err(WireError::NoRoom);
        }
        fill(self, holder, current_len, size);
        if *current_len < size {
            assert(all.take(all.len() as int) == all);
            assert(all.skip(all.len() as int) == Seq::<u8>::empty());
            Err(WireError::RanOut)
        } else {
            Ok(())
        }
    }
}

} // verus!
