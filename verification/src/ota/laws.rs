//! What holds of an update as a whole.

use vstd::prelude::*;

use crate::ota::handler;
use crate::ota::handler::{OtaError, UpdateProcessorState};
use crate::ota::tlv;
use crate::outside;
use crate::wire;

verus! {

// ---------------------------------------------------------------------------
// Only verified firmware finishes
// ---------------------------------------------------------------------------

/// A finished update has the digest that was announced.
pub open spec fn verified(m: handler::ProcessorModel) -> bool {
    m.state == UpdateProcessorState::Finished ==> m.header.sha256_checksum == Some(
        outside::sha256(m.hashed)@,
    )
}

/// What holds of every processor holds of one that waits for its update.
pub proof fn lemma_initial()
    ensures
        verified(handler::initial()),
        consistent(handler::initial()),
        known_kind(handler::initial()),
        ready(handler::initial()),
{
}

/// Processing data finishes nothing, and leaves a finished update as it is.
pub proof fn lemma_run_keeps_verified(m: handler::ProcessorModel, data: Seq<u8>)
    requires
        verified(m),
    ensures
        verified(handler::run(m, data).0),
        handler::run(m, data).0.state == UpdateProcessorState::Finished ==> handler::run(
            m,
            data,
        ).0 == m,
    decreases m.held.len() + data.len(), data.len(),
{
    if data.len() > 0 && m.state == UpdateProcessorState::ReadingParameters {
        let (m1, rest, step) = handler::parameter_step(m, data);
        if step is Go {
            lemma_run_keeps_verified(m1, rest);
        }
    }
}

/// An update finishes with a chunk only if all that was received has the digest
/// that was announced.
pub proof fn lemma_written_keeps_verified(m: handler::ProcessorModel, n: nat, ok: bool)
    requires
        verified(m),
    ensures
        verified(handler::written(m, n, ok, outside::sha256(m.hashed)@).0),
{
}

/// Announcing an image or ending an update finishes nothing.
pub proof fn lemma_others_keep_verified(m: handler::ProcessorModel, size: u32, max: Option<u32>)
    requires
        verified(m),
    ensures
        verified(handler::blob_announced(m, size, max).0),
        verified(handler::reset(m)),
{
}

/// Data that comes after an update finished or failed changes nothing.
pub proof fn lemma_late_data_is_ignored(m: handler::ProcessorModel, data: Seq<u8>)
    requires
        m.state is Finished || m.state is Error,
    ensures
        handler::run(m, data) == (m, data, handler::RequestModel::Done(Ok(()))),
{
}

// ---------------------------------------------------------------------------
// What is written
// ---------------------------------------------------------------------------

/// What holds between chunks while every write succeeds: the image is hashed as far
/// as it was received, it is received only after its kind, digest and size were
/// announced, and no more of it is taken in than was announced, whatever comes of it.
pub open spec fn consistent(m: handler::ProcessorModel) -> bool {
    &&& m.hashed.len() > 0 ==> (m.header.firmware_blob_size matches Some(size) && m.hashed.len()
        <= size)
    &&& match m.state {
        UpdateProcessorState::ReadingParameters => m.hashed.len() == 0,
        UpdateProcessorState::Downloading { total_received_size } => {
            &&& m.hashed.len() == total_received_size
            &&& m.header.ota_type == Some(tlv::OTA_TYPE_VALUE_SSH_STAMP)
            &&& m.header.sha256_checksum is Some
            &&& m.header.firmware_blob_size matches Some(size) && total_received_size <= size
        },
        UpdateProcessorState::Finished => {
            &&& m.header.ota_type == Some(tlv::OTA_TYPE_VALUE_SSH_STAMP)
            &&& m.header.sha256_checksum == Some(outside::sha256(m.hashed)@)
            &&& m.header.firmware_blob_size matches Some(size) && m.hashed.len() == size
        },
        UpdateProcessorState::Error(_) => true,
    }
}

/// The kind of update in a header is the one that is accepted.
pub open spec fn known_kind(m: handler::ProcessorModel) -> bool {
    m.header.ota_type matches Some(t) ==> t == tlv::OTA_TYPE_VALUE_SSH_STAMP
}

/// Chunks are written one after the other from the start of the partition, none
/// twice, and never past the size that was announced: a chunk is written where the
/// hashed part of the image ended.
pub proof fn lemma_writes_are_contiguous(m: handler::ProcessorModel, data: Seq<u8>)
    requires
        consistent(m),
        handler::run(m, data).2 is Write,
    ensures
        ({
            let (m1, rest, request) = handler::run(m, data);
            let offset = request->Write_offset;
            let chunk = request->chunk;
            &&& m.state == (UpdateProcessorState::Downloading { total_received_size: offset })
            &&& offset == m.hashed.len()
            &&& chunk.len() > 0
            &&& data == chunk + rest
            &&& m1.hashed == m.hashed + chunk
            &&& m.header.firmware_blob_size matches Some(size) && offset + chunk.len() <= size
            &&& consistent(
                handler::written(m1, chunk.len(), true, outside::sha256(m1.hashed)@).0,
            )
        }),
{
    lemma_run_request(m, data);
}

/// A write is asked for only in the midst of a download, the size of the partition
/// only while parameters are read. The bytes held and at hand never get more.
pub proof fn lemma_run_request(m: handler::ProcessorModel, data: Seq<u8>)
    ensures
        handler::run(m, data).2 is Write ==> m.state is Downloading && handler::run(m, data).1.len()
            < data.len() && handler::run(m, data).0.held == m.held,
        handler::run(m, data).2 is PartitionSize ==> m.state is ReadingParameters,
        handler::run(m, data).0.held.len() + handler::run(m, data).1.len() <= m.held.len()
            + data.len(),
    decreases m.held.len() + data.len(), data.len(),
{
    if data.len() > 0 && m.state is ReadingParameters {
        let (m1, rest, step) = handler::parameter_step(m, data);
        if step is Go {
            lemma_run_request(m1, rest);
        }
    }
}

/// Processing data that asks for no write keeps a consistent state.
pub proof fn lemma_run_keeps_consistent(m: handler::ProcessorModel, data: Seq<u8>)
    requires
        consistent(m),
        known_kind(m),
    ensures
        known_kind(handler::run(m, data).0),
        !(handler::run(m, data).2 is Write) ==> consistent(handler::run(m, data).0),
    decreases m.held.len() + data.len(), data.len(),
{
    if data.len() > 0 && m.state is ReadingParameters {
        let (m1, rest, step) = handler::parameter_step(m, data);
        if step is Go {
            lemma_run_keeps_consistent(m1, rest);
        }
    }
}

/// A download starts only after the kind and the digest of the image were announced,
/// and only if the image fits the partition.
pub proof fn lemma_download_starts(m: handler::ProcessorModel, size: u32, max: Option<u32>)
    requires
        consistent(m),
        known_kind(m),
        m.state is ReadingParameters,
        handler::blob_announced(m, size, max).1 is Ok,
    ensures
        consistent(handler::blob_announced(m, size, max).0),
        handler::blob_announced(m, size, max).0.state is Downloading,
        max matches Some(limit) && size <= limit,
        m.header.ota_type is Some,
        m.header.sha256_checksum is Some,
{
}

// ---------------------------------------------------------------------------
// A whole update
// ---------------------------------------------------------------------------

pub open spec fn phase(state: UpdateProcessorState) -> nat {
    if state is ReadingParameters {
        1
    } else {
        0
    }
}

/// Taking in data where the partition holds `max` bytes and every write succeeds:
/// the state then, the result, and all that was written, in order.
pub open spec fn feed(m: handler::ProcessorModel, data: Seq<u8>, max: u32) -> (
    handler::ProcessorModel,
    Result<(), OtaError>,
    Seq<u8>,
)
    decreases m.held.len() + data.len(), phase(m.state),
{
    proof {
        lemma_run_request(m, data);
    }
    let (m1, rest, request) = handler::run(m, data);
    match request {
        handler::RequestModel::Done(r) => (m1, r, Seq::empty()),
        handler::RequestModel::PartitionSize { size } => {
            let (m2, r) = handler::blob_announced(m1, size, Some(max));
            if r is Ok {
                feed(m2, rest, max)
            } else {
                (m2, r, Seq::empty())
            }
        },
        handler::RequestModel::Write { offset: _, chunk } => {
            let (m2, r) = handler::written(m1, chunk.len(), true, outside::sha256(m1.hashed)@);
            if r is Ok {
                let (m3, r3, w) = feed(m2, rest, max);
                (m3, r3, chunk + w)
            } else {
                (m2, r, chunk)
            }
        },
    }
}

/// A parameter that comes in two pieces is read as if it came in one.
proof fn lemma_parameter_split(m: handler::ProcessorModel, a: Seq<u8>, b: Seq<u8>)
    requires
        m.state is ReadingParameters,
    ensures
        ({
            let (m1, rest, step) = handler::parameter_step(m, a);
            if tlv::collected(m.held, a).2 == Err::<(), _>(wire::WireError::RanOut) {
                &&& rest.len() == 0
                &&& m1 == (handler::ProcessorModel { held: m.held + a, ..m })
                &&& step is Go
                &&& handler::parameter_step(m, a + b) == handler::parameter_step(m1, b)
            } else {
                handler::parameter_step(m, a + b) == (m1, rest + b, step)
            }
        }),
{
    let all = m.held + a;
    let (m1, rest, step) = handler::parameter_step(m, a);
    assert(m.held + (a + b) == all + b);
    match tlv::collected(m.held, a).2 {
        Err(wire::WireError::RanOut) => {},
        Err(_) => {
            lemma_whole(all, b, 2);
        },
        Ok(_) => {
            lemma_whole(all, b, tlv::tlv_size(all));
        },
    }
}

/// Parameters that come in two pieces are read as if they came in one.
proof fn lemma_run_split(m: handler::ProcessorModel, a: Seq<u8>, b: Seq<u8>)
    requires
        m.state is ReadingParameters,
    ensures
        ({
            let (m1, rest, request) = handler::run(m, a);
            if request matches handler::RequestModel::Done(Ok(_)) {
                m1.state is ReadingParameters && handler::run(m, a + b) == handler::run(m1, b)
            } else {
                !(request is Write) && handler::run(m, a + b) == (m1, rest + b, request)
            }
        }),
    decreases m.held.len() + a.len(), a.len(),
{
    if a.len() == 0 {
        assert(a + b == b);
    } else {
        let (m1, rest, step) = handler::parameter_step(m, a);
        lemma_parameter_split(m, a, b);
        if tlv::collected(m.held, a).2 == Err::<(), _>(wire::WireError::RanOut) {
            assert(handler::run(m1, rest) == (
                m1,
                rest,
                handler::RequestModel::Done(Ok::<(), OtaError>(())),
            ));
            if b.len() == 0 {
                assert(a + b == a);
                assert(rest == b);
            }
        } else if step is Go {
            lemma_run_split(m1, rest, b);
            assert(handler::run(m, a) == handler::run(m1, rest));
            assert(handler::run(m, a + b) == handler::run(m1, rest + b));
        }
    }
}

proof fn lemma_whole(all: Seq<u8>, b: Seq<u8>, n: int)
    requires
        0 <= n <= all.len(),
        all.len() >= 2,
    ensures
        (all + b).take(n) == all.take(n),
        (all + b).skip(n) == all.skip(n) + b,
        tlv::tlv_size(all + b) == tlv::tlv_size(all),
{
}

/// A download after more data: all of it is received, or as much as was missing.
pub open spec fn downloaded(m: handler::ProcessorModel, data: Seq<u8>) -> (
    handler::ProcessorModel,
    Result<(), OtaError>,
    Seq<u8>,
) {
    let received = m.state->total_received_size;
    let n = m.header.firmware_blob_size->0 - received;
    if data.len() == 0 {
        (m, Ok(()), Seq::empty())
    } else if n <= 0 {
        (m, Err(OtaError::IllegalOperation), Seq::empty())
    } else if data.len() < n {
        (
            handler::ProcessorModel {
                state: UpdateProcessorState::Downloading {
                    total_received_size: (received + data.len()) as u32,
                },
                hashed: m.hashed + data,
                ..m
            },
            Ok(()),
            data,
        )
    } else {
        let m1 = handler::ProcessorModel { hashed: m.hashed + data.take(n), ..m };
        let (m2, r) = handler::digest_checked(m1, outside::sha256(m1.hashed)@);
        (
            if r is Ok {
                handler::ProcessorModel { state: UpdateProcessorState::Finished, ..m2 }
            } else {
                m2
            },
            r,
            data.take(n),
        )
    }
}

proof fn lemma_feed_download(m: handler::ProcessorModel, data: Seq<u8>, max: u32)
    requires
        m.state is Downloading,
        m.header.firmware_blob_size is Some,
    ensures
        feed(m, data, max) == downloaded(m, data),
{
    let received = m.state->total_received_size;
    let size = m.header.firmware_blob_size->0;
    if data.len() > 0 && received < size {
        let (m1, rest, request) = handler::run(m, data);
        let chunk = request->chunk;
        let (m2, r) = handler::written(m1, chunk.len(), true, outside::sha256(m1.hashed)@);
        if data.len() < size - received {
            assert(data.take(data.len() as int) == data);
            assert(rest.len() == 0);
        }
        if r is Ok {
            assert(feed(m2, rest, max) == (m2, Ok::<(), OtaError>(()), Seq::<u8>::empty()));
            assert(chunk + Seq::<u8>::empty() == chunk);
        }
    }
}

/// A download goes on where it stopped.
proof fn lemma_downloaded_split(m: handler::ProcessorModel, a: Seq<u8>, b: Seq<u8>)
    requires
        ready(m),
        m.state is Downloading,
    ensures
        ({
            let (m1, r1, w1) = downloaded(m, a);
            if r1 is Err {
                downloaded(m, a + b) == (m1, r1, w1)
            } else if m1.state is Downloading {
                let (m2, r2, w2) = downloaded(m1, b);
                downloaded(m, a + b) == (m2, r2, w1 + w2)
            } else {
                m1.state is Finished && downloaded(m, a + b) == (m1, r1, w1)
            }
        }),
{
    let (m1, r1, w1) = downloaded(m, a);
    let n = m.header.firmware_blob_size->0 - m.state->total_received_size;
    if a.len() == 0 {
        assert(a + b == b);
        assert(w1 + downloaded(m1, b).2 == downloaded(m1, b).2);
    } else if n <= 0 {
        assert((a + b).len() > 0);
    } else if a.len() < n {
        if b.len() == 0 {
            assert(a + b == a);
            assert(w1 + downloaded(m1, b).2 == a);
        } else if a.len() + b.len() < n {
            assert(m1.hashed + b == m.hashed + (a + b));
        } else {
            let k = n - a.len();
            assert((a + b).take(n) == a + b.take(k));
            assert(m1.hashed + b.take(k) == m.hashed + (a + b).take(n));
        }
    } else {
        assert((a + b).take(n) == a.take(n));
    }
}

/// What holds of every processor: an image is received only after its digest and size
/// were announced.
pub open spec fn ready(m: handler::ProcessorModel) -> bool {
    m.state is Downloading ==> m.header.firmware_blob_size is Some && m.header.sha256_checksum
        is Some
}

proof fn lemma_feed_by_run(
    m: handler::ProcessorModel,
    data: Seq<u8>,
    m1: handler::ProcessorModel,
    data1: Seq<u8>,
    max: u32,
)
    requires
        handler::run(m, data) == handler::run(m1, data1),
    ensures
        feed(m, data, max) == feed(m1, data1, max),
{
}

/// It does not matter how the data is cut: taking in `a` and then `b` comes to the
/// same as taking in both at once. A failure in `a` is what comes of both.
pub proof fn lemma_feed_split(m: handler::ProcessorModel, a: Seq<u8>, b: Seq<u8>, max: u32)
    requires
        ready(m),
    ensures
        ({
            let (m1, r1, w1) = feed(m, a, max);
            let (m2, r2, w2) = feed(m1, b, max);
            feed(m, a + b, max) == if r1 is Ok {
                (m2, r2, w1 + w2)
            } else {
                (m1, r1, w1)
            }
        }),
    decreases m.held.len() + a.len(), phase(m.state),
{
    let (m1, r1, w1) = feed(m, a, max);
    let (m2, r2, w2) = feed(m1, b, max);
    lemma_run_request(m, a);
    match m.state {
        UpdateProcessorState::ReadingParameters => {
            lemma_run_split(m, a, b);
            let (ma, rest, request) = handler::run(m, a);
            match request {
                handler::RequestModel::Done(Ok(_)) => {
                    assert(w1 + w2 == w2);
                    lemma_feed_by_run(m, a + b, m1, b, max);
                },
                handler::RequestModel::PartitionSize { size } => {
                    let (mb, r) = handler::blob_announced(ma, size, Some(max));
                    if r is Ok {
                        lemma_feed_split(mb, rest, b, max);
                        assert(feed(m, a, max) == feed(mb, rest, max));
                        assert(feed(m, a + b, max) == feed(mb, rest + b, max));
                    }
                },
                _ => {},
            }
        },
        UpdateProcessorState::Downloading { total_received_size: _ } => {
            lemma_feed_download(m, a, max);
            lemma_feed_download(m, a + b, max);
            lemma_downloaded_split(m, a, b);
            if m1.state is Downloading {
                lemma_feed_download(m1, b, max);
            } else if r1 is Ok {
                assert(feed(m1, b, max) == (m1, Ok::<(), OtaError>(()), Seq::<u8>::empty()));
                assert(w1 + w2 == w1);
            }
        },
        UpdateProcessorState::Finished => {
            assert(w1 + w2 == Seq::<u8>::empty());
        },
        UpdateProcessorState::Error(_) => {
            assert(w1 + w2 == Seq::<u8>::empty());
        },
    }
}

/// The data of an update: its kind, the digest, the size of the image, the image.
pub open spec fn update_stream(checksum: Seq<u8>, image: Seq<u8>) -> Seq<u8> {
    tlv::tlv_bytes(tlv::TlvModel::OtaType { ota_type: tlv::OTA_TYPE_VALUE_SSH_STAMP }) + (
    tlv::tlv_bytes(tlv::TlvModel::Sha256Checksum { checksum }) + (tlv::tlv_bytes(
        tlv::TlvModel::FirmwareBlob { size: image.len() as u32 },
    ) + image))
}

/// A whole parameter is taken off the front of the data.
proof fn lemma_parameter(m: handler::ProcessorModel, t: tlv::TlvModel, rest: Seq<u8>)
    requires
        m.held.len() == 0,
        t matches tlv::TlvModel::Sha256Checksum { checksum } ==> checksum.len() == 32,
    ensures
        ({
            let b = tlv::tlv_bytes(t);
            let (m1, step) = handler::tlv_step(handler::ProcessorModel { held: b, ..m }, t);
            handler::parameter_step(m, b + rest) == (m1, rest, step) && b.len() > 0
        }),
{
    let b = tlv::tlv_bytes(t);
    assert(m.held + (b + rest) == b + rest);
    assert(b.len() == tlv::tlv_size(b + rest));
    assert((b + rest).take(b.len() as int) == b);
    assert((b + rest).skip(b.len() as int) == rest);
    tlv::lemma_read_tlv(t, Seq::empty());
    assert(b + Seq::<u8>::empty() == b);
}

/// An update whose image has the digest announced and fits the partition finishes,
/// and what was written is the image. With another digest it fails.
pub proof fn lemma_update(checksum: Seq<u8>, image: Seq<u8>, max: u32)
    requires
        checksum.len() == 32,
        0 < image.len() <= max,
    ensures
        ({
            let (m, r, w) = feed(handler::initial(), update_stream(checksum, image), max);
            &&& w == image
            &&& m.hashed == image
            &&& if outside::sha256(image)@ == checksum {
                r is Ok && m.state is Finished
            } else {
                r == Err::<(), OtaError>(OtaError::VerificationFailed) && m.state
                    == UpdateProcessorState::Error(OtaError::VerificationFailed)
            }
        }),
{
    let size = image.len() as u32;
    let t1 = tlv::TlvModel::OtaType { ota_type: tlv::OTA_TYPE_VALUE_SSH_STAMP };
    let t2 = tlv::TlvModel::Sha256Checksum { checksum };
    let t3 = tlv::TlvModel::FirmwareBlob { size };
    let d3 = tlv::tlv_bytes(t3) + image;
    let d2 = tlv::tlv_bytes(t2) + d3;
    let d1 = tlv::tlv_bytes(t1) + d2;
    let m0 = handler::initial();
    lemma_parameter(m0, t1, d2);
    let m1 = handler::parameter_step(m0, d1).0;
    lemma_parameter(m1, t2, d3);
    let m2 = handler::parameter_step(m1, d2).0;
    lemma_parameter(m2, t3, image);
    let m3 = handler::parameter_step(m2, d3).0;
    assert(handler::run(m2, d3) == (m3, image, handler::RequestModel::PartitionSize { size }));
    assert(handler::run(m1, d2) == handler::run(m2, d3));
    assert(handler::run(m0, d1) == handler::run(m1, d2));
    let (m4, r4) = handler::blob_announced(m3, size, Some(max));
    lemma_feed_download(m4, image, max);
    assert(image.take(image.len() as int) == image);
    assert(m4.hashed + image == image);
}

/// Taking in data chunk by chunk, until one fails.
pub open spec fn feed_chunks(m: handler::ProcessorModel, chunks: Seq<Seq<u8>>, max: u32) -> (
    handler::ProcessorModel,
    Result<(), OtaError>,
    Seq<u8>,
)
    decreases chunks.len(),
{
    if chunks.len() == 0 {
        (m, Ok(()), Seq::empty())
    } else {
        let (m1, r1, w1) = feed(m, chunks[0], max);
        if r1 is Ok {
            let (m2, r2, w2) = feed_chunks(m1, chunks.skip(1), max);
            (m2, r2, w1 + w2)
        } else {
            (m1, r1, w1)
        }
    }
}

proof fn lemma_run_keeps_ready(m: handler::ProcessorModel, data: Seq<u8>)
    requires
        ready(m),
    ensures
        ready(handler::run(m, data).0),
    decreases m.held.len() + data.len(), data.len(),
{
    if data.len() > 0 && m.state is ReadingParameters {
        let (m1, rest, step) = handler::parameter_step(m, data);
        if step is Go {
            lemma_run_keeps_ready(m1, rest);
        }
    }
}

/// Taking in data keeps what holds of every processor, and what was written is what the hashed
/// part of the image grew by. So over any history of data the image is hashed as it was written,
/// from its start, and only a known kind of update with the announced digest and size finishes.
pub proof fn lemma_feed_keeps(m: handler::ProcessorModel, data: Seq<u8>, max: u32)
    requires
        consistent(m),
        known_kind(m),
        ready(m),
    ensures
        ({
            let (m1, _, w) = feed(m, data, max);
            &&& consistent(m1)
            &&& known_kind(m1)
            &&& ready(m1)
            &&& m1.hashed == m.hashed + w
        }),
    decreases m.held.len() + data.len(), phase(m.state),
{
    lemma_run_request(m, data);
    lemma_run_keeps_ready(m, data);
    lemma_run_keeps_consistent(m, data);
    lemma_run_hashes(m, data);
    let (m1, rest, request) = handler::run(m, data);
    match request {
        handler::RequestModel::Done(_) => {
            assert(m.hashed + Seq::<u8>::empty() == m.hashed);
        },
        handler::RequestModel::PartitionSize { size } => {
            let (m2, r) = handler::blob_announced(m1, size, Some(max));
            assert(m.hashed + Seq::<u8>::empty() == m.hashed);
            if r is Ok {
                lemma_feed_keeps(m2, rest, max);
            }
        },
        handler::RequestModel::Write { offset: _, chunk } => {
            lemma_writes_are_contiguous(m, data);
            let (m2, r) = handler::written(m1, chunk.len(), true, outside::sha256(m1.hashed)@);
            if r is Ok {
                lemma_feed_keeps(m2, rest, max);
                let w = feed(m2, rest, max).2;
                assert(m.hashed + chunk + w == m.hashed + (chunk + w));
            }
        },
    }
}

/// Only a chunk that is to be written is hashed; and parameters are read up to where the image
/// is announced.
proof fn lemma_run_hashes(m: handler::ProcessorModel, data: Seq<u8>)
    ensures
        ({
            let (m1, _, request) = handler::run(m, data);
            &&& !(request is Write) ==> m1.hashed == m.hashed
            &&& request is PartitionSize ==> m1.state is ReadingParameters
        }),
    decreases m.held.len() + data.len(), data.len(),
{
    if data.len() > 0 && m.state is ReadingParameters {
        let (m1, rest, step) = handler::parameter_step(m, data);
        if step is Go {
            lemma_run_hashes(m1, rest);
        }
    }
}

proof fn lemma_feed_keeps_ready(m: handler::ProcessorModel, data: Seq<u8>, max: u32)
    requires
        ready(m),
    ensures
        ready(feed(m, data, max).0),
    decreases m.held.len() + data.len(), phase(m.state),
{
    lemma_run_request(m, data);
    lemma_run_keeps_ready(m, data);
    let (m1, rest, request) = handler::run(m, data);
    match request {
        handler::RequestModel::Done(_) => {},
        handler::RequestModel::PartitionSize { size } => {
            let (m2, r) = handler::blob_announced(m1, size, Some(max));
            if r is Ok {
                lemma_feed_keeps_ready(m2, rest, max);
            }
        },
        handler::RequestModel::Write { offset: _, chunk } => {
            let (m2, r) = handler::written(m1, chunk.len(), true, outside::sha256(m1.hashed)@);
            if r is Ok {
                lemma_feed_keeps_ready(m2, rest, max);
            }
        },
    }
}

/// Data comes to the same whether it is taken in chunk by chunk or at once.
pub proof fn lemma_feed_chunks(m: handler::ProcessorModel, chunks: Seq<Seq<u8>>, max: u32)
    requires
        ready(m),
    ensures
        feed(m, wire::joined(chunks), max) == feed_chunks(m, chunks, max),
    decreases chunks.len(),
{
    if chunks.len() > 0 {
        let (m1, r1, w1) = feed(m, chunks[0], max);
        lemma_feed_keeps_ready(m, chunks[0], max);
        lemma_feed_chunks(m1, chunks.skip(1), max);
        lemma_feed_split(m, chunks[0], wire::joined(chunks.skip(1)), max);
    }
}

/// An update whose image has the digest announced and fits the partition finishes with
/// the image written, however its data is cut into chunks.
pub proof fn lemma_update_in_chunks(
    checksum: Seq<u8>,
    image: Seq<u8>,
    max: u32,
    chunks: Seq<Seq<u8>>,
)
    requires
        checksum == outside::sha256(image)@,
        0 < image.len() <= max,
        wire::joined(chunks) == update_stream(checksum, image),
    ensures
        ({
            let (m, r, w) = feed_chunks(handler::initial(), chunks, max);
            r is Ok && m.state is Finished && w == image
        }),
{
    lemma_feed_chunks(handler::initial(), chunks, max);
    lemma_update(checksum, image, max);
}

/// Data that comes chunk by chunk keeps what holds of every processor, and what was written is
/// what the hashed part of the image grew by.
pub proof fn lemma_chunks_keep(m: handler::ProcessorModel, chunks: Seq<Seq<u8>>, max: u32)
    requires
        consistent(m),
        known_kind(m),
        ready(m),
    ensures
        ({
            let (m1, _, w) = feed_chunks(m, chunks, max);
            &&& consistent(m1)
            &&& known_kind(m1)
            &&& ready(m1)
            &&& m1.hashed == m.hashed + w
        }),
{
    lemma_feed_chunks(m, chunks, max);
    lemma_feed_keeps(m, wire::joined(chunks), max);
}

} // verus!
