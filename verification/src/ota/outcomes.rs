//! What each step of an update comes to, in every state.

use vstd::prelude::*;

use crate::ota::handler;
use crate::ota::handler::{
    OtaError, OtaHeader, ProcessorModel, Request, RequestModel, UpdateProcessor,
    UpdateProcessorState,
};
use crate::ota::laws;
use crate::ota::tlv;
use crate::ota::tlv::Tlv;
use crate::outside;
use crate::wire;
use crate::wire::{Source, WireError};

verus! {

// ---------------------------------------------------------------------------
// Start and end
// ---------------------------------------------------------------------------

/// A processor starts with no parameter, nothing hashed and nothing held.
pub proof fn lemma_new(p: UpdateProcessor)
    requires
        call_ensures(UpdateProcessor::new, (), p),
    ensures
        p@.state == UpdateProcessorState::ReadingParameters,
        p@.header.ota_type is None,
        p@.header.firmware_blob_size is None,
        p@.header.sha256_checksum is None,
        p@.hashed.len() == 0,
        p@.held.len() == 0,
{
}

/// Finalizing succeeds exactly if the update finished and the platform applied it. An update that
/// failed gives its own error, one that is not complete is illegal, and one that could not be
/// applied is an internal error. Whatever comes of it, no parameter and nothing hashed is left.
pub proof fn lemma_finalize(p: &mut UpdateProcessor, applied: bool, r: Result<(), OtaError>)
    requires
        call_ensures(UpdateProcessor::finalize, (p, applied), r),
        old(p).wf(),
    ensures
        r is Ok <==> old(p)@.state == UpdateProcessorState::Finished && applied,
        old(p)@.state == UpdateProcessorState::Finished && !applied ==> r == Err::<(), OtaError>(
            OtaError::InternalError,
        ),
        old(p)@.state matches UpdateProcessorState::Error(e) ==> r == Err::<(), OtaError>(e),
        old(p)@.state == UpdateProcessorState::ReadingParameters ==> r == Err::<(), OtaError>(
            OtaError::IllegalOperation,
        ),
        old(p)@.state is Downloading ==> r == Err::<(), OtaError>(OtaError::IllegalOperation),
        final(p)@.state == UpdateProcessorState::ReadingParameters,
        final(p)@.header.ota_type is None,
        final(p)@.header.firmware_blob_size is None,
        final(p)@.header.sha256_checksum is None,
        final(p)@.hashed.len() == 0,
        final(p)@.held == old(p)@.held,
{
}

/// An update is finalized at most once: right after it nothing can be finalized.
pub proof fn lemma_finalize_once(
    p: &mut UpdateProcessor,
    applied: bool,
    r: Result<(), OtaError>,
    again: &mut UpdateProcessor,
    applied_again: bool,
    r_again: Result<(), OtaError>,
)
    requires
        old(p).wf(),
        call_ensures(UpdateProcessor::finalize, (p, applied), r),
        *again == *final(p),
        call_ensures(UpdateProcessor::finalize, (again, applied_again), r_again),
    ensures
        r_again == Err::<(), OtaError>(OtaError::IllegalOperation),
{
}

/// The platform is to apply an update exactly if it finished.
pub proof fn lemma_is_finished(p: &UpdateProcessor, r: bool, s: UpdateProcessorState, h: OtaHeader)
    requires
        call_ensures(UpdateProcessor::is_finished, (p,), r),
        call_ensures(UpdateProcessor::state, (p,), s),
        call_ensures(UpdateProcessor::header, (p,), h),
    ensures
        r <==> s == UpdateProcessorState::Finished,
        s == p@.state,
        h.ota_type == p@.header.ota_type,
        h.firmware_blob_size == p@.header.firmware_blob_size,
        h.sha256_checksum is Some <==> p@.header.sha256_checksum is Some,
        h.sha256_checksum matches Some(c) ==> p@.header.sha256_checksum == Some(c@),
{
}

// ---------------------------------------------------------------------------
// Parameters
// ---------------------------------------------------------------------------

/// The kind of this firmware and no other is taken, at any time; the digest is taken once the kind
/// is known, and the announcement of an image once both are. A parameter that is taken changes
/// nothing but itself; one that is not makes the update fail.
pub proof fn lemma_handle_tlv(p: &mut UpdateProcessor, t: Tlv, r: Result<Option<u32>, OtaError>)
    requires
        call_ensures(UpdateProcessor::handle_tlv, (p, t), r),
        old(p).wf(),
    ensures
        ({
            let m = old(p)@;
            let n = final(p)@;
            &&& r is Ok <==> match t {
                Tlv::OtaType { ota_type } => ota_type == 0x7373_6873,
                Tlv::Sha256Checksum { checksum } => m.header.ota_type is Some,
                Tlv::FirmwareBlob { size } => m.header.ota_type is Some && m.header.sha256_checksum
                    is Some,
            }
            &&& r is Err ==> {
                &&& r == Err::<Option<u32>, OtaError>(OtaError::IllegalOperation)
                &&& n.state == UpdateProcessorState::Error(OtaError::IllegalOperation)
                &&& n.header == m.header
                &&& n.held == m.held
            }
            &&& r is Ok ==> n.state == m.state
            &&& n.hashed == m.hashed
            &&& n.header.firmware_blob_size == m.header.firmware_blob_size
            &&& r is Ok ==> match t {
                Tlv::OtaType { ota_type } => {
                    &&& r == Ok::<Option<u32>, OtaError>(None)
                    &&& n.header.ota_type == Some(ota_type)
                    &&& n.header.sha256_checksum == m.header.sha256_checksum
                    &&& n.held.len() == 0
                },
                Tlv::Sha256Checksum { checksum } => {
                    &&& r == Ok::<Option<u32>, OtaError>(None)
                    &&& n.header.ota_type == m.header.ota_type
                    &&& n.header.sha256_checksum == Some(checksum@)
                    &&& n.held.len() == 0
                },
                Tlv::FirmwareBlob { size } => {
                    &&& r == Ok::<Option<u32>, OtaError>(Some(size))
                    &&& n == m
                },
            }
        }),
{
}

/// A download starts exactly if kind and digest are known and the image fits the partition, an
/// image of just its size too. An image that does not fit makes the update fail; a partition of
/// unknown size is an internal error that changes nothing.
pub proof fn lemma_handle_firmware_blob(
    p: &mut UpdateProcessor,
    size: u32,
    max_size: Option<u32>,
    r: Result<(), OtaError>,
)
    requires
        call_ensures(UpdateProcessor::handle_firmware_blob, (p, size, max_size), r),
        old(p).wf(),
    ensures
        ({
            let m = old(p)@;
            let n = final(p)@;
            let known = m.header.ota_type is Some && m.header.sha256_checksum is Some;
            &&& r is Ok <==> known && (max_size matches Some(max) && size <= max)
            &&& r is Ok ==> {
                &&& n.state == UpdateProcessorState::Downloading { total_received_size: 0 }
                &&& n.header.firmware_blob_size == Some(size)
            }
            &&& r is Err && (!known || max_size is Some) ==> {
                &&& r == Err::<(), OtaError>(OtaError::IllegalOperation)
                &&& n.state == UpdateProcessorState::Error(OtaError::IllegalOperation)
                &&& n.header == m.header
            }
            &&& known && max_size is None ==> r == Err::<(), OtaError>(OtaError::InternalError) && n
                == m
            &&& n.header.ota_type == m.header.ota_type
            &&& n.header.sha256_checksum == m.header.sha256_checksum
            &&& n.hashed == m.hashed
            &&& n.held == m.held
        }),
{
}

// ---------------------------------------------------------------------------
// The image
// ---------------------------------------------------------------------------

/// A chunk that was written counts toward the image: the update finishes exactly with the chunk
/// that completes the image, if the digest is the one announced, and fails if it is another one.
/// Before that the download goes on by so much. A chunk that could not be written changes nothing.
pub proof fn lemma_chunk_written_with(
    p: &mut UpdateProcessor,
    len: usize,
    ok: bool,
    digest: &[u8; 32],
    received: u32,
    size: u32,
    r: Result<(), OtaError>,
)
    requires
        call_ensures(UpdateProcessor::chunk_written_with, (p, len, ok, digest), r),
        old(p).wf(),
        old(p)@.state == (UpdateProcessorState::Downloading { total_received_size: received }),
        old(p)@.header.firmware_blob_size == Some(size),
    ensures
        ({
            let m = old(p)@;
            let n = final(p)@;
            let total = received + len;
            let right = m.header.sha256_checksum == Some(digest@);
            &&& !ok ==> r == Err::<(), OtaError>(OtaError::WriteError) && n == m
            &&& ok && total > 0xffff_ffff ==> r == Err::<(), OtaError>(OtaError::InternalError) && n
                == m
            &&& ok && total < size ==> r is Ok && n.state == (UpdateProcessorState::Downloading {
                total_received_size: total as u32,
            })
            &&& n.state == UpdateProcessorState::Finished <==> ok && size <= total <= 0xffff_ffff
                && right
            &&& n.state == UpdateProcessorState::Finished ==> r is Ok
            &&& ok && size <= total <= 0xffff_ffff && !right && m.header.sha256_checksum is Some
                ==> r == Err::<(), OtaError>(OtaError::VerificationFailed) && n.state
                == UpdateProcessorState::Error(OtaError::VerificationFailed)
            &&& ok && size <= total <= 0xffff_ffff && m.header.sha256_checksum is None ==> r
                == Err::<(), OtaError>(OtaError::IllegalOperation) && n == m
            &&& n.header == m.header
            &&& n.hashed == m.hashed
            &&& n.held == m.held
        }),
{
}

/// The digest that counts is that of all that was received.
pub proof fn lemma_chunk_written(
    p: &mut UpdateProcessor,
    len: usize,
    ok: bool,
    received: u32,
    size: u32,
    r: Result<(), OtaError>,
)
    requires
        call_ensures(UpdateProcessor::chunk_written, (p, len, ok), r),
        old(p).wf(),
        old(p)@.state == (UpdateProcessorState::Downloading { total_received_size: received }),
        old(p)@.header.firmware_blob_size == Some(size),
    ensures
        ({
            let m = old(p)@;
            let n = final(p)@;
            let total = received + len;
            let right = m.header.sha256_checksum == Some(outside::sha256(m.hashed)@);
            &&& !ok ==> r == Err::<(), OtaError>(OtaError::WriteError) && n == m
            &&& ok && total > 0xffff_ffff ==> r == Err::<(), OtaError>(OtaError::InternalError) && n
                == m
            &&& ok && total < size ==> r is Ok && n.state == (UpdateProcessorState::Downloading {
                total_received_size: total as u32,
            })
            &&& n.state == UpdateProcessorState::Finished <==> ok && size <= total <= 0xffff_ffff
                && right
            &&& n.state == UpdateProcessorState::Finished ==> r is Ok
            &&& ok && size <= total <= 0xffff_ffff && !right && m.header.sha256_checksum is Some
                ==> r == Err::<(), OtaError>(OtaError::VerificationFailed) && n.state
                == UpdateProcessorState::Error(OtaError::VerificationFailed)
            &&& ok && size <= total <= 0xffff_ffff && m.header.sha256_checksum is None ==> r
                == Err::<(), OtaError>(OtaError::IllegalOperation) && n == m
            &&& n.header == m.header
            &&& n.hashed == m.hashed
            &&& n.held == m.held
        }),
{
}

/// A chunk outside of a download, or of an image of no size, is illegal and changes nothing.
pub proof fn lemma_stray_chunk(
    p: &mut UpdateProcessor,
    len: usize,
    ok: bool,
    r: Result<(), OtaError>,
)
    requires
        call_ensures(UpdateProcessor::chunk_written, (p, len, ok), r),
        old(p).wf(),
        old(p)@.state !is Downloading || old(p)@.header.firmware_blob_size is None,
    ensures
        r == Err::<(), OtaError>(OtaError::IllegalOperation),
        final(p)@ == old(p)@,
{
}

/// A digest is verified exactly if it is the one announced. Another one makes the update fail;
/// without one announced the check is illegal.
pub proof fn lemma_verify_checksum(
    p: &mut UpdateProcessor,
    digest: &[u8; 32],
    r: Result<(), OtaError>,
)
    requires
        call_ensures(UpdateProcessor::verify_checksum, (p, digest), r),
        old(p).wf(),
    ensures
        r is Ok <==> old(p)@.header.sha256_checksum == Some(digest@),
        r is Ok ==> final(p)@ == old(p)@,
        old(p)@.header.sha256_checksum is None ==> r == Err::<(), OtaError>(
            OtaError::IllegalOperation,
        ) && final(p)@ == old(p)@,
        r is Err && old(p)@.header.sha256_checksum is Some ==> r == Err::<(), OtaError>(
            OtaError::VerificationFailed,
        ) && final(p)@ == (ProcessorModel {
            state: UpdateProcessorState::Error(OtaError::VerificationFailed),
            ..old(p)@
        }),
{
}

// ---------------------------------------------------------------------------
// Data
// ---------------------------------------------------------------------------

/// Without data, or after the update finished or failed, nothing is done and nothing is used.
pub proof fn lemma_process_nothing<'a>(
    p: &mut UpdateProcessor,
    source: &mut Source<'a>,
    r: Request<'a>,
)
    requires
        call_ensures(UpdateProcessor::process_data, (p, source), r),
        old(p).wf(),
        old(source).rest().len() == 0 || old(p)@.state == UpdateProcessorState::Finished || old(
            p,
        )@.state is Error,
    ensures
        final(p)@ == old(p)@,
        final(source).rest() == old(source).rest(),
        r@ == RequestModel::Done(Ok(())),
{
}

/// Data of the image is hashed and to be written right behind what was received, as much as there
/// is and no more than is missing; the rest stays, and so does everything else.
pub proof fn lemma_process_image<'a>(
    p: &mut UpdateProcessor,
    source: &mut Source<'a>,
    received: u32,
    size: u32,
    r: Request<'a>,
)
    requires
        call_ensures(UpdateProcessor::process_data, (p, source), r),
        old(p).wf(),
        old(source).rest().len() > 0,
        old(p)@.state == (UpdateProcessorState::Downloading { total_received_size: received }),
        old(p)@.header.firmware_blob_size == Some(size),
        received < size,
    ensures
        ({
            let data = old(source).rest();
            let rest = final(source).rest();
            &&& r@ matches RequestModel::Write { offset, chunk } && {
                &&& offset == received
                &&& chunk + rest == data
                &&& chunk.len() <= size - received
                &&& rest.len() == 0 || chunk.len() == size - received
                &&& final(p)@.hashed == old(p)@.hashed + chunk
            }
            &&& final(p)@.state == old(p)@.state
            &&& final(p)@.header == old(p)@.header
            &&& final(p)@.held == old(p)@.held
        }),
{
    let data = old(source).rest();
    let n = if data.len() < size - received {
        data.len() as int
    } else {
        size - received
    };
    assert(data.take(n) + data.skip(n) == data);
}

/// Data for an image that is complete, or was never announced, is illegal and is not used.
pub proof fn lemma_process_too_much<'a>(
    p: &mut UpdateProcessor,
    source: &mut Source<'a>,
    received: u32,
    r: Request<'a>,
)
    requires
        call_ensures(UpdateProcessor::process_data, (p, source), r),
        old(p).wf(),
        old(source).rest().len() > 0,
        old(p)@.state == (UpdateProcessorState::Downloading { total_received_size: received }),
        old(p)@.header.firmware_blob_size matches Some(size) ==> size <= received,
    ensures
        r@ == RequestModel::Done(Err(OtaError::IllegalOperation)),
        final(p)@ == old(p)@,
        final(source).rest() == old(source).rest(),
{
}

/// Less than a whole parameter is held, in front of what comes next, and nothing else changes.
pub proof fn lemma_process_part<'a>(
    p: &mut UpdateProcessor,
    source: &mut Source<'a>,
    r: Request<'a>,
)
    requires
        call_ensures(UpdateProcessor::process_data, (p, source), r),
        old(p).wf(),
        old(source).rest().len() > 0,
        old(p)@.state == UpdateProcessorState::ReadingParameters,
        ({
            let all = old(p)@.held + old(source).rest();
            all.len() < 2 || all[1] <= 32 && all.len() < 2 + all[1]
        }),
    ensures
        r@ == RequestModel::Done(Ok(())),
        final(p)@ == (ProcessorModel { held: old(p)@.held + old(source).rest(), ..old(p)@ }),
        final(source).rest().len() == 0,
{
    let m = old(p)@;
    let data = old(source).rest();
    let m1 = handler::parameter_step(m, data).0;
    assert(handler::run(m, data) == handler::run(m1, Seq::empty()));
}

/// A parameter that says it is longer than any is an internal error; the update stands where it
/// stood.
pub proof fn lemma_process_long<'a>(
    p: &mut UpdateProcessor,
    source: &mut Source<'a>,
    r: Request<'a>,
)
    requires
        call_ensures(UpdateProcessor::process_data, (p, source), r),
        old(p).wf(),
        old(source).rest().len() > 0,
        old(p)@.state == UpdateProcessorState::ReadingParameters,
        ({
            let all = old(p)@.held + old(source).rest();
            all.len() >= 2 && all[1] > 32
        }),
    ensures
        r@ == RequestModel::Done(Err(OtaError::InternalError)),
        final(p)@.state == old(p)@.state,
        final(p)@.header == old(p)@.header,
        final(p)@.hashed == old(p)@.hashed,
        final(p)@.held == (old(p)@.held + old(source).rest()).take(2),
        final(source).rest() == (old(p)@.held + old(source).rest()).skip(2),
{
}

/// The number that four bytes hold, most significant first.
pub open spec fn number_at(b: Seq<u8>, at: int) -> int {
    b[at] * 0x100_0000 + b[at + 1] * 0x1_0000 + b[at + 2] * 0x100 + b[at + 3]
}

/// What a whole parameter in `all`, held and at hand together, comes to. A parameter of a known
/// kind with the wrong length is an internal error. The kind of this firmware, and a digest after
/// it, are taken, and the data after them is processed as if it had come by itself. The size of
/// the partition is asked for once the image is announced after both. Everything else that comes
/// out of its order, or is for another firmware, makes the update fail.
pub proof fn lemma_whole_parameter(m: ProcessorModel, data: Seq<u8>)
    requires
        m.state == UpdateProcessorState::ReadingParameters,
        data.len() > 0,
        (m.held + data).len() >= 2,
        (m.held + data)[1] <= 32,
        (m.held + data).len() >= 2 + (m.held + data)[1],
    ensures
        ({
            let all = m.held + data;
            let len = all[1];
            let rest = all.skip(2 + len);
            let (m1, rest1, request) = handler::run(m, data);
            let known = m.header.ota_type is Some;
            let fails = {
                &&& request == RequestModel::Done(Err(OtaError::IllegalOperation))
                &&& m1.state == UpdateProcessorState::Error(OtaError::IllegalOperation)
                &&& m1.header == m.header && m1.hashed == m.hashed
                &&& m1.held == all.take(2 + len) && rest1 == rest
            };
            let internal = {
                &&& request == RequestModel::Done(Err(OtaError::InternalError))
                &&& m1.state == m.state
                &&& m1.header == m.header && m1.hashed == m.hashed
                &&& m1.held == all.take(2 + len) && rest1 == rest
            };
            &&& all[0] == 0 && len != 4 ==> internal
            &&& all[0] == 0 && len == 4 && number_at(all, 2) != 0x7373_6873 ==> fails
            &&& all[0] == 0 && len == 4 && number_at(all, 2) == 0x7373_6873 ==> handler::run(
                m,
                data,
            ) == handler::run(
                ProcessorModel {
                    header: handler::HeaderModel { ota_type: Some(0x7373_6873), ..m.header },
                    held: Seq::empty(),
                    ..m
                },
                rest,
            )
            &&& all[0] == 2 && len != 32 ==> internal
            &&& all[0] == 2 && len == 32 && !known ==> fails
            &&& all[0] == 2 && len == 32 && known ==> handler::run(m, data) == handler::run(
                ProcessorModel {
                    header: handler::HeaderModel {
                        sha256_checksum: Some(all.subrange(2, 34)),
                        ..m.header
                    },
                    held: Seq::empty(),
                    ..m
                },
                rest,
            )
            &&& all[0] == 1 && len != 4 ==> internal
            &&& all[0] == 1 && len == 4 && (!known || m.header.sha256_checksum is None) ==> fails
            &&& all[0] == 1 && len == 4 && known && m.header.sha256_checksum is Some ==> {
                &&& request == RequestModel::PartitionSize { size: number_at(all, 2) as u32 }
                &&& m1.state == m.state
                &&& m1.header == m.header && m1.hashed == m.hashed
                &&& m1.held == all.take(2 + len) && rest1 == rest
            }
            &&& all[0] > 2 && !known ==> fails
            &&& all[0] > 2 && known ==> {
                &&& request == RequestModel::Done(Err(OtaError::UnknownTlvType))
                &&& m1.state == m.state
                &&& m1.header == m.header && m1.hashed == m.hashed
                &&& m1.held == all.take(2 + len) && rest1 == rest
            }
        }),
{
    let all = m.held + data;
    let len = all[1] as int;
    let t = all.take(2 + len);
    let rest = all.skip(2 + len);
    assert(tlv::collected(m.held, data) == (t, rest, Ok::<(), WireError>(())));
    assert(t[0] == all[0] && t[1] == all[1]);
    let t1 = t.skip(1);
    let t2 = t1.skip(1);
    assert(wire::dec_u8(t) == Ok::<_, WireError>((t[0], t1)));
    assert(wire::dec_u8(t1) == Ok::<_, WireError>((t[1], t2)));
    assert(t2.len() == len);
    if len == 4 {
        let v = t2.take(4);
        assert(v[0] == all[2] && v[1] == all[3] && v[2] == all[4] && v[3] == all[5]);
        assert(0 <= number_at(all, 2) <= 0xffff_ffff);
        assert(wire::be_value(v) == number_at(all, 2));
    }
    if len == 32 {
        assert(t2.take(32) == all.subrange(2, 34));
    }
}

/// What is asked and left after processing data is what [`handler::run`] says.
pub proof fn lemma_process_data<'a>(
    p: &mut UpdateProcessor,
    source: &mut Source<'a>,
    r: Request<'a>,
)
    requires
        call_ensures(UpdateProcessor::process_data, (p, source), r),
        old(p).wf(),
    ensures
        handler::run(old(p)@, old(source).rest()) == (final(p)@, final(source).rest(), r@),
{
}

// ---------------------------------------------------------------------------
// A whole update
// ---------------------------------------------------------------------------

/// An update is these bytes: the kind of this firmware, a digest of 32 bytes, the size of the
/// image, and the image. Where the image fits the partition and has the digest it finishes, with
/// the image written; with another digest it fails.
pub proof fn lemma_update_bytes(stream: Seq<u8>, max: u32)
    requires
        stream.len() > 46,
        stream.take(8) == seq![0u8, 4u8, 0x73u8, 0x73u8, 0x68u8, 0x73u8, 2u8, 32u8],
        stream[40] == 1 && stream[41] == 4,
        number_at(stream, 42) == stream.len() - 46,
        stream.len() - 46 <= max,
    ensures
        ({
            let image = stream.skip(46);
            let (m, r, w) = laws::feed(handler::initial(), stream, max);
            &&& w == image
            &&& if outside::sha256(image)@ == stream.subrange(8, 40) {
                r is Ok && m.state == UpdateProcessorState::Finished
            } else {
                r == Err::<(), OtaError>(OtaError::VerificationFailed) && m.state
                    == UpdateProcessorState::Error(OtaError::VerificationFailed)
            }
        }),
{
    lemma_stream(stream);
    laws::lemma_update(stream.subrange(8, 40), stream.skip(46), max);
}

proof fn lemma_stream(stream: Seq<u8>)
    requires
        stream.len() > 46,
        stream.take(8) == seq![0u8, 4u8, 0x73u8, 0x73u8, 0x68u8, 0x73u8, 2u8, 32u8],
        stream[40] == 1 && stream[41] == 4,
        number_at(stream, 42) == stream.len() - 46,
    ensures
        laws::update_stream(stream.subrange(8, 40), stream.skip(46)) == stream,
{
    let image = stream.skip(46);
    let checksum = stream.subrange(8, 40);
    let size = image.len() as u32;
    let front = stream.take(8);
    let kind = tlv::tlv_bytes(tlv::TlvModel::OtaType { ota_type: 0x7373_6873 });
    let digest = tlv::tlv_bytes(tlv::TlvModel::Sha256Checksum { checksum });
    let blob = tlv::tlv_bytes(tlv::TlvModel::FirmwareBlob { size });
    assert(kind == stream.subrange(0, 6)) by {
        lemma_four_bytes(0x73, 0x73, 0x68, 0x73);
        assert(forall|i: int| 0 <= i < 6 ==> stream.subrange(0, 6)[i] == front[i]);
        assert(kind == seq![0u8, 4u8, 0x73u8, 0x73u8, 0x68u8, 0x73u8]);
    }
    assert(digest == stream.subrange(6, 40)) by {
        assert(stream[6] == front[6] && stream[7] == front[7]);
        assert(digest == seq![2u8, 32u8] + checksum);
    }
    assert(blob == stream.subrange(40, 46)) by {
        lemma_bytes_of_number(stream, 42);
        assert(blob == seq![1u8, 4u8] + stream.subrange(42, 46));
    }
    lemma_cut(stream, 6, 40, 46);
}

proof fn lemma_cut(b: Seq<u8>, i: int, j: int, k: int)
    requires
        0 <= i <= j <= k <= b.len(),
    ensures
        b.subrange(0, i) + (b.subrange(i, j) + (b.subrange(j, k) + b.skip(k))) == b,
{
}

proof fn lemma_bytes_of_number(b: Seq<u8>, at: int)
    requires
        0 <= at <= b.len() - 4,
    ensures
        0 <= number_at(b, at) <= u32::MAX,
        wire::be_bytes(number_at(b, at) as u32) == b.subrange(at, at + 4),
{
    lemma_four_bytes(b[at], b[at + 1], b[at + 2], b[at + 3]);
}

proof fn lemma_four_bytes(a: u8, b: u8, c: u8, d: u8)
    ensures
        ({
            let v = a * 0x100_0000 + b * 0x1_0000 + c * 0x100 + d;
            0 <= v <= u32::MAX && wire::be_bytes(v as u32) == seq![a, b, c, d]
        }),
{
    let v = a * 0x100_0000 + b * 0x1_0000 + c * 0x100 + d;
    let n = v as u32;
    assert(n / 0x100_0000 == a && n / 0x1_0000 % 0x100 == b && n / 0x100 % 0x100 == c && n % 0x100
        == d) by (bit_vector)
        requires
            n == a * 0x100_0000 + b * 0x1_0000 + c * 0x100 + d,
    ;
}

} // verus!
