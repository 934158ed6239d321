//! The update state machine.
//!
//! An [`UpdateProcessor`] takes the bytes of an update as they come: first the
//! parameters, then the firmware image. Writing to flash and asking for the size of
//! the update partition is left to the caller: [`UpdateProcessor::process_data`]
//! goes on until it needs one of these, says so in a [`Request`], and is called
//! again once the answer was handed in.

use vstd::prelude::*;

use crate::ota::tlv;
use crate::ota::tlv::{Tlv, MAX_TLV_SIZE};
use crate::outside;
use crate::wire;
use crate::wire::{Source, WireError};

verus! {

/// Why an update failed.
#[derive(Clone, Copy, Debug, PartialEq, Eq, Structural)]
pub enum OtaError {
    /// More data is needed.
    MoreDataRequired,
    /// Internal error.
    InternalError,
    /// The operation was illegal in the state at hand.
    IllegalOperation,
    /// The flash could not be written.
    WriteError,
    /// The firmware received does not have the digest announced.
    VerificationFailed,
    /// A parameter is of an unknown type.
    UnknownTlvType,
}

/// Where an update stands.
#[derive(Clone, Copy, Debug, PartialEq, Eq, Structural)]
pub enum UpdateProcessorState {
    /// The parameters are being read, until the firmware image is reached.
    ReadingParameters,
    /// The image is being received, hashed and written.
    Downloading { total_received_size: u32 },
    /// The image was received and verified.
    Finished,
    /// The update failed.
    Error(OtaError),
}

/// The parameters received so far.
#[derive(Clone, Copy, Debug, PartialEq, Eq)]
pub struct OtaHeader {
    pub ota_type: Option<u32>,
    pub firmware_blob_size: Option<u32>,
    pub sha256_checksum: Option<[u8; 32]>,
}

/// Takes in a firmware update.
pub struct UpdateProcessor {
    state: UpdateProcessorState,
    /// Computes the digest of the firmware while it comes in.
    hasher: sha2::Sha256,
    header: OtaHeader,
    /// A parameter of which not all has come in, and how much of it has.
    tlv_holder: [u8; MAX_TLV_SIZE],
    current_len: usize,
}

/// What is needed of the caller before more data can be processed.
pub enum Request<'a> {
    /// Nothing: the data was processed, or the update failed.
    Done(Result<(), OtaError>),
    /// The size of the update partition, for [`UpdateProcessor::handle_firmware_blob`].
    PartitionSize { size: u32 },
    /// That `chunk` is written at `offset` of the update partition, for
    /// [`UpdateProcessor::chunk_written`].
    Write { offset: u32, chunk: &'a [u8] },
}

// ---------------------------------------------------------------------------
// Model
// ---------------------------------------------------------------------------

/// What an [`OtaHeader`] holds.
#[verifier::ext_equal]
pub struct HeaderModel {
    pub ota_type: Option<u32>,
    pub firmware_blob_size: Option<u32>,
    pub sha256_checksum: Option<Seq<u8>>,
}

impl View for OtaHeader {
    type V = HeaderModel;

    open spec fn view(&self) -> HeaderModel {
        HeaderModel {
            ota_type: self.ota_type,
            firmware_blob_size: self.firmware_blob_size,
            sha256_checksum: match self.sha256_checksum {
                Some(c) => Some(c@),
                None => None,
            },
        }
    }
}

/// What an [`UpdateProcessor`] holds.
#[verifier::ext_equal]
pub struct ProcessorModel {
    pub state: UpdateProcessorState,
    /// The part of the image that was hashed.
    pub hashed: Seq<u8>,
    pub header: HeaderModel,
    /// The front of a parameter.
    pub held: Seq<u8>,
}

impl View for UpdateProcessor {
    type V = ProcessorModel;

    closed spec fn view(&self) -> ProcessorModel {
        ProcessorModel {
            state: self.state,
            hashed: outside::absorbed(self.hasher),
            header: self.header@,
            held: self.tlv_holder@.take(self.current_len as int),
        }
    }
}

/// What a [`Request`] holds.
#[verifier::ext_equal]
pub enum RequestModel {
    Done(Result<(), OtaError>),
    PartitionSize { size: u32 },
    Write { offset: u32, chunk: Seq<u8> },
}

impl<'a> View for Request<'a> {
    type V = RequestModel;

    open spec fn view(&self) -> RequestModel {
        match *self {
            Request::Done(r) => RequestModel::Done(r),
            Request::PartitionSize { size } => RequestModel::PartitionSize { size },
            Request::Write { offset, chunk } => RequestModel::Write { offset, chunk: chunk@ },
        }
    }
}

/// No parameter received.
pub open spec fn empty_header() -> HeaderModel {
    HeaderModel { ota_type: None, firmware_blob_size: None, sha256_checksum: None }
}

/// An update that has not started.
pub open spec fn initial() -> ProcessorModel {
    ProcessorModel {
        state: UpdateProcessorState::ReadingParameters,
        hashed: Seq::empty(),
        header: empty_header(),
        held: Seq::empty(),
    }
}

/// The update failed for good.
pub open spec fn failed(m: ProcessorModel, e: OtaError) -> ProcessorModel {
    ProcessorModel { state: UpdateProcessorState::Error(e), ..m }
}

/// What comes of one step: go on, fail, or ask for the size of the partition.
pub enum Step {
    Go,
    Fail(OtaError),
    AskSize(u32),
}

/// Taking in a whole parameter.
///
/// What the update is for comes first, and the digest before the image.
pub open spec fn tlv_step(m: ProcessorModel, t: tlv::TlvModel) -> (ProcessorModel, Step) {
    let illegal = (failed(m, OtaError::IllegalOperation), Step::Fail(OtaError::IllegalOperation));
    match t {
        tlv::TlvModel::OtaType { ota_type } => if ota_type != tlv::OTA_TYPE_VALUE_SSH_STAMP {
            illegal
        } else {
            (
                ProcessorModel {
                    header: HeaderModel { ota_type: Some(ota_type), ..m.header },
                    held: Seq::empty(),
                    ..m
                },
                Step::Go,
            )
        },
        tlv::TlvModel::Sha256Checksum { checksum } => if m.header.ota_type is None {
            illegal
        } else {
            (
                ProcessorModel {
                    header: HeaderModel { sha256_checksum: Some(checksum), ..m.header },
                    held: Seq::empty(),
                    ..m
                },
                Step::Go,
            )
        },
        tlv::TlvModel::FirmwareBlob { size } => if m.header.ota_type is None
            || m.header.sha256_checksum is None {
            illegal
        } else {
            (m, Step::AskSize(size))
        },
    }
}

/// Reading a parameter: the state and the data after it, and what comes of it.
pub open spec fn parameter_step(m: ProcessorModel, data: Seq<u8>) -> (
    ProcessorModel,
    Seq<u8>,
    Step,
) {
    let (held, rest, whole) = tlv::collected(m.held, data);
    let m1 = ProcessorModel { held, ..m };
    match whole {
        Err(WireError::RanOut) => (
            ProcessorModel { state: UpdateProcessorState::ReadingParameters, ..m1 },
            rest,
            Step::Go,
        ),
        Err(_) => (m1, rest, Step::Fail(OtaError::InternalError)),
        Ok(_) => match tlv::read_tlv(held) {
            Ok((t, _)) => {
                let (m2, step) = tlv_step(m1, t);
                (m2, rest, step)
            },
            Err(WireError::UnknownPacket { number: _ }) => if m.header.ota_type is None {
                (
                    failed(m1, OtaError::IllegalOperation),
                    rest,
                    Step::Fail(OtaError::IllegalOperation),
                )
            } else {
                (m1, rest, Step::Fail(OtaError::UnknownTlvType))
            },
            Err(WireError::RanOut) => (
                ProcessorModel { held: Seq::empty(), ..m1 },
                rest,
                Step::Fail(OtaError::MoreDataRequired),
            ),
            Err(_) => (m1, rest, Step::Fail(OtaError::InternalError)),
        },
    }
}

/// Receiving a part of the image: as much as there is, but not more than is
/// missing, is hashed and then to be written where the part before it ended.
pub open spec fn download_step(m: ProcessorModel, received: u32, data: Seq<u8>) -> (
    ProcessorModel,
    Seq<u8>,
    RequestModel,
) {
    match m.header.firmware_blob_size {
        None => (m, data, RequestModel::Done(Err(OtaError::IllegalOperation))),
        Some(size) => if received >= size {
            (m, data, RequestModel::Done(Err(OtaError::IllegalOperation)))
        } else {
            let n = if data.len() < size - received {
                data.len() as int
            } else {
                size - received
            };
            (
                ProcessorModel { hashed: m.hashed + data.take(n), ..m },
                data.skip(n),
                RequestModel::Write { offset: received, chunk: data.take(n) },
            )
        },
    }
}

/// Processing data until something is needed of the caller: the state and the data
/// then, and what is needed.
pub open spec fn run(m: ProcessorModel, data: Seq<u8>) -> (ProcessorModel, Seq<u8>, RequestModel)
    decreases m.held.len() + data.len(), data.len(),
{
    if data.len() == 0 {
        (m, data, RequestModel::Done(Ok(())))
    } else {
        match m.state {
            UpdateProcessorState::ReadingParameters => {
                let (m1, rest, step) = parameter_step(m, data);
                match step {
                    Step::Go => run(m1, rest),
                    Step::Fail(e) => (m1, rest, RequestModel::Done(Err(e))),
                    Step::AskSize(size) => (m1, rest, RequestModel::PartitionSize { size }),
                }
            },
            UpdateProcessorState::Downloading { total_received_size } => download_step(
                m,
                total_received_size,
                data,
            ),
            UpdateProcessorState::Finished => (m, data, RequestModel::Done(Ok(()))),
            UpdateProcessorState::Error(_) => (m, data, RequestModel::Done(Ok(()))),
        }
    }
}

/// An image of `size` bytes was announced, and `max_size` says how large the update
/// partition is, if that could be found out.
pub open spec fn blob_announced(m: ProcessorModel, size: u32, max_size: Option<u32>) -> (
    ProcessorModel,
    Result<(), OtaError>,
) {
    if m.header.ota_type is None || m.header.sha256_checksum is None {
        (failed(m, OtaError::IllegalOperation), Err(OtaError::IllegalOperation))
    } else {
        match max_size {
            None => (m, Err(OtaError::InternalError)),
            Some(max) => if size > max {
                (failed(m, OtaError::IllegalOperation), Err(OtaError::IllegalOperation))
            } else {
                (
                    ProcessorModel {
                        state: UpdateProcessorState::Downloading { total_received_size: 0 },
                        header: HeaderModel { firmware_blob_size: Some(size), ..m.header },
                        ..m
                    },
                    Ok(()),
                )
            },
        }
    }
}

/// The digest of what was received is `digest`.
pub open spec fn digest_checked(m: ProcessorModel, digest: Seq<u8>) -> (
    ProcessorModel,
    Result<(), OtaError>,
) {
    match m.header.sha256_checksum {
        None => (m, Err(OtaError::IllegalOperation)),
        Some(checksum) => if checksum == digest {
            (m, Ok(()))
        } else {
            (failed(m, OtaError::VerificationFailed), Err(OtaError::VerificationFailed))
        },
    }
}

/// A part of the image that takes `n` bytes was written, or could not be; the digest
/// of all that was received is `digest`.
///
/// The update is finished once the image is complete and has the digest announced.
pub open spec fn written(m: ProcessorModel, n: nat, ok: bool, digest: Seq<u8>) -> (
    ProcessorModel,
    Result<(), OtaError>,
) {
    match (m.state, m.header.firmware_blob_size) {
        (UpdateProcessorState::Downloading { total_received_size }, Some(size)) => if !ok {
            (m, Err(OtaError::WriteError))
        } else if total_received_size + n > u32::MAX {
            (m, Err(OtaError::InternalError))
        } else if total_received_size + n >= size {
            match digest_checked(m, digest) {
                (m1, Ok(_)) => (
                    ProcessorModel { state: UpdateProcessorState::Finished, ..m1 },
                    Ok(()),
                ),
                (m1, Err(e)) => (m1, Err(e)),
            }
        } else {
            (
                ProcessorModel {
                    state: UpdateProcessorState::Downloading {
                        total_received_size: (total_received_size + n) as u32,
                    },
                    ..m
                },
                Ok(()),
            )
        },
        _ => (m, Err(OtaError::IllegalOperation)),
    }
}

/// A processor that starts anew. A parameter that is held stays.
pub open spec fn reset(m: ProcessorModel) -> ProcessorModel {
    ProcessorModel { held: m.held, ..initial() }
}

/// What finalizing comes to in a state; `applied` says whether the platform could
/// apply the update.
pub open spec fn finalized(state: UpdateProcessorState, applied: bool) -> Result<(), OtaError> {
    match state {
        UpdateProcessorState::Finished => if applied {
            Ok(())
        } else {
            Err(OtaError::InternalError)
        },
        UpdateProcessorState::Error(e) => Err(e),
        _ => Err(OtaError::IllegalOperation),
    }
}

// ---------------------------------------------------------------------------
// The processor
// ---------------------------------------------------------------------------

impl UpdateProcessor {
    /// What holds of every processor: what is held is the front of a parameter.
    pub closed spec fn wf(&self) -> bool {
        &&& self.current_len <= MAX_TLV_SIZE
        &&& tlv::is_partial(self.tlv_holder@.take(self.current_len as int))
    }

    /// A processor that waits for an update.
    pub fn new() -> (p: UpdateProcessor)
        ensures
            p.wf(),
            p@ == initial(),
    {
        let p = UpdateProcessor {
            state: UpdateProcessorState::ReadingParameters,
            hasher: outside::hasher_new(),
            header: OtaHeader { ota_type: None, firmware_blob_size: None, sha256_checksum: None },
            tlv_holder: [0u8; MAX_TLV_SIZE],
            current_len: 0,
        };
        assert(p@.held == Seq::<u8>::empty());
        p
    }

    /// Where the update stands.
    pub fn state(&self) -> (state: UpdateProcessorState)
        ensures
            state == self@.state,
    {
        self.state
    }

    /// The parameters received so far.
    pub fn header(&self) -> (header: OtaHeader)
        ensures
            header@ == self@.header,
    {
        self.header
    }

    /// Processes the data in `source`, as far as it can without the caller.
    ///
    /// What is left in `source` then was not used. Data that comes after the update
    /// finished or failed is ignored.
    pub fn process_data<'a>(&mut self, source: &mut Source<'a>) -> (r: Request<'a>)
        requires
            old(self).wf(),
        ensures
            final(self).wf(),
            ({
                let (m, rest, request) = run(old(self)@, old(source).rest());
                &&& final(self)@ == m
                &&& final(source).rest() == rest
                &&& r@ == request
            }),
    {
        let ghost whole = run(self@, source.rest());
        while source.remaining() > 0
            invariant
                self.wf(),
                run(self@, source.rest()) == whole,
                whole == run(old(self)@, old(source).rest()),
            decreases self@.held.len() + source.rest().len(), source.rest().len(),
        {
            match self.state {
                UpdateProcessorState::ReadingParameters => {
                    match self.process_reading_parameters(source) {
                        Ok(None) => {},
                        Ok(Some(size)) => {
                            return Request::PartitionSize { size };
                        },
                        Err(e) => {
                            return Request::Done(Err(e));
                        },
                    }
                },
                UpdateProcessorState::Downloading { total_received_size } => {
                    return self.process_downloading(source, total_received_size);
                },
                UpdateProcessorState::Finished => {
                    return Request::Done(Ok(()));
                },
                UpdateProcessorState::Error(_) => {
                    return Request::Done(Ok(()));
                },
            }
        }
        Request::Done(Ok(()))
    }

    fn clear_holder(&mut self)
        ensures
            final(self).wf(),
            final(self)@ == (ProcessorModel { held: Seq::empty(), ..old(self)@ }),
    {
        self.tlv_holder = [0u8; MAX_TLV_SIZE];
        self.current_len = 0;
        assert(self@.held == Seq::<u8>::empty());
    }

    fn fail(&mut self, e: OtaError)
        requires
            old(self).wf(),
        ensures
            final(self).wf(),
            final(self)@ == failed(old(self)@, e),
    {
        self.state = UpdateProcessorState::Error(e);
    }

    /// Reads one parameter, or as much of it as there is. A firmware blob that may be
    /// announced gives its size.
    fn process_reading_parameters(&mut self, source: &mut Source) -> (r: Result<
        Option<u32>,
        OtaError,
    >)
        requires
            old(self).wf(),
        ensures
            final(self).wf(),
            ({
                let (m, rest, step) = parameter_step(old(self)@, old(source).rest());
                &&& final(self)@ == m
                &&& final(source).rest() == rest
                &&& r == (match step {
                    Step::Go => Ok::<Option<u32>, OtaError>(None),
                    Step::Fail(e) => Err(e),
                    Step::AskSize(size) => Ok(Some(size)),
                })
            }),
    {
        match source.try_taking_bytes_for_tlv(&mut self.tlv_holder, &mut self.current_len) {
            Err(WireError::RanOut) => {
                self.state = UpdateProcessorState::ReadingParameters;
                return Ok(None);
            },
            Err(_) => {
                return Err(OtaError::InternalError);
            },
            Ok(_) => {},
        }
        let mut single = Source::new(
            vstd::slice::slice_subrange(self.tlv_holder.as_slice(), 0, self.current_len),
        );
        assert(single.rest() == self@.held);
        match Tlv::dec(&mut single) {
            Ok(t) => self.handle_tlv(t),
            Err(WireError::UnknownPacket { number: _ }) => {
                if self.header.ota_type.is_none() {
                    self.fail(OtaError::IllegalOperation);
                    return Err(OtaError::IllegalOperation);
                }
                Err(OtaError::UnknownTlvType)
            },
            Err(WireError::RanOut) => {
                self.clear_holder();
                Err(OtaError::MoreDataRequired)
            },
            Err(_) => Err(OtaError::InternalError),
        }
    }

    /// Takes in a parameter. A firmware blob that may be announced gives its size.
    pub fn handle_tlv(&mut self, t: Tlv) -> (r: Result<Option<u32>, OtaError>)
        requires
            old(self).wf(),
        ensures
            final(self).wf(),
            ({
                let (m, step) = tlv_step(old(self)@, t@);
                &&& final(self)@ == m
                &&& r == (match step {
                    Step::Go => Ok::<Option<u32>, OtaError>(None),
                    Step::Fail(e) => Err(e),
                    Step::AskSize(size) => Ok(Some(size)),
                })
            }),
    {
        match t {
            Tlv::OtaType { ota_type } => {
                if ota_type != tlv::OTA_TYPE_VALUE_SSH_STAMP {
                    self.fail(OtaError::IllegalOperation);
                    return Err(OtaError::IllegalOperation);
                }
                self.header.ota_type = Some(ota_type);
                self.clear_holder();
                Ok(None)
            },
            Tlv::Sha256Checksum { checksum } => {
                if self.header.ota_type.is_none() {
                    self.fail(OtaError::IllegalOperation);
                    return Err(OtaError::IllegalOperation);
                }
                self.header.sha256_checksum = Some(checksum);
                self.clear_holder();
                Ok(None)
            },
            Tlv::FirmwareBlob { size } => {
                if self.header.ota_type.is_none() || self.header.sha256_checksum.is_none() {
                    self.fail(OtaError::IllegalOperation);
                    return Err(OtaError::IllegalOperation);
                }
                Ok(Some(size))
            },
        }
    }

    /// Starts the download of an image of `size` bytes, if it fits the update
    /// partition. `max_size` is the size of that, if it could be found out.
    pub fn handle_firmware_blob(&mut self, size: u32, max_size: Option<u32>) -> (r: Result<
        (),
        OtaError,
    >)
        requires
            old(self).wf(),
        ensures
            final(self).wf(),
            (final(self)@, r) == blob_announced(old(self)@, size, max_size),
    {
        if self.header.ota_type.is_none() || self.header.sha256_checksum.is_none() {
            self.fail(OtaError::IllegalOperation);
            return Err(OtaError::IllegalOperation);
        }
        match max_size {
            None => Err(OtaError::InternalError),
            Some(max) => {
                if size > max {
                    self.fail(OtaError::IllegalOperation);
                    return Err(OtaError::IllegalOperation);
                }
                self.header.firmware_blob_size = Some(size);
                self.state = UpdateProcessorState::Downloading { total_received_size: 0 };
                Ok(())
            },
        }
    }

    fn process_downloading<'a>(&mut self, source: &mut Source<'a>, received: u32) -> (r: Request<
        'a,
    >)
        requires
            old(self).wf(),
        ensures
            final(self).wf(),
            ({
                let (m, rest, request) = download_step(old(self)@, received, old(source).rest());
                &&& final(self)@ == m
                &&& final(source).rest() == rest
                &&& r@ == request
            }),
    {
        let size: u32 = match self.header.firmware_blob_size {
            Some(size) => size,
            None => {
                return Request::Done(Err(OtaError::IllegalOperation));
            },
        };
        if received >= size {
            return Request::Done(Err(OtaError::IllegalOperation));
        }
        let missing: usize = (size - received) as usize;
        let there: usize = source.remaining();
        let to_take: usize = if there < missing {
            there
        } else {
            missing
        };
        match source.take(to_take) {
            Ok(chunk) => {
                outside::hasher_update(&mut self.hasher, chunk);
                Request::Write { offset: received, chunk }
            },
            Err(_) => Request::Done(Err(OtaError::InternalError)),
        }
    }

    /// Takes note that a chunk of `len` bytes was written, or that it could not be.
    /// With the last one the digest of the image is checked.
    pub fn chunk_written(&mut self, len: usize, ok: bool) -> (r: Result<(), OtaError>)
        requires
            old(self).wf(),
        ensures
            final(self).wf(),
            (final(self)@, r) == written(
                old(self)@,
                len as nat,
                ok,
                outside::sha256(old(self)@.hashed)@,
            ),
    {
        let digest = if self.completes(len) {
            outside::hasher_digest(&self.hasher)
        } else {
            [0u8; 32]
        };
        self.chunk_written_with(len, ok, &digest)
    }

    /// Whether `len` more bytes are all that is missing of the image.
    fn completes(&self, len: usize) -> (r: bool)
        ensures
            r == (match (self@.state, self@.header.firmware_blob_size) {
                (UpdateProcessorState::Downloading { total_received_size }, Some(size)) =>
                    total_received_size + len >= size,
                _ => false,
            }),
    {
        match (self.state, self.header.firmware_blob_size) {
            (UpdateProcessorState::Downloading { total_received_size }, Some(size)) =>
                total_received_size >= size || len >= (size - total_received_size) as usize,
            _ => false,
        }
    }

    /// Takes note of a chunk; `digest` is the digest of all that was received.
    pub fn chunk_written_with(&mut self, len: usize, ok: bool, digest: &[u8; 32]) -> (r: Result<
        (),
        OtaError,
    >)
        requires
            old(self).wf(),
        ensures
            final(self).wf(),
            (final(self)@, r) == written(old(self)@, len as nat, ok, digest@),
    {
        match (self.state, self.header.firmware_blob_size) {
            (UpdateProcessorState::Downloading { total_received_size }, Some(size)) => {
                if !ok {
                    return Err(OtaError::WriteError);
                }
                if len > u32::MAX as usize {
                    return Err(OtaError::InternalError);
                }
                let total: u32 = match total_received_size.checked_add(len as u32) {
                    Some(total) => total,
                    None => {
                        return Err(OtaError::InternalError);
                    },
                };
                if total >= size {
                    self.verify_checksum(digest)?;
                    self.state = UpdateProcessorState::Finished;
                } else {
                    self.state = UpdateProcessorState::Downloading { total_received_size: total };
                }
                Ok(())
            },
            _ => Err(OtaError::IllegalOperation),
        }
    }

    /// Holds the digest of what was received against the one announced.
    pub fn verify_checksum(&mut self, digest: &[u8; 32]) -> (r: Result<(), OtaError>)
        requires
            old(self).wf(),
        ensures
            final(self).wf(),
            (final(self)@, r) == digest_checked(old(self)@, digest@),
    {
        match self.header.sha256_checksum {
            None => Err(OtaError::IllegalOperation),
            Some(checksum) => {
                if wire::same_bytes(&checksum, digest) {
                    Ok(())
                } else {
                    self.fail(OtaError::VerificationFailed);
                    Err(OtaError::VerificationFailed)
                }
            },
        }
    }

    /// Whether the update is complete and verified, so that the platform is to apply
    /// it before [`UpdateProcessor::finalize`].
    pub fn is_finished(&self) -> (r: bool)
        ensures
            r == (self@.state == UpdateProcessorState::Finished),
    {
        match self.state {
            UpdateProcessorState::Finished => true,
            _ => false,
        }
    }

    /// Ends an update. `applied` says whether the platform could apply it. Whatever
    /// comes of it, the processor starts anew, but for a parameter that it holds.
    pub fn finalize(&mut self, applied: bool) -> (r: Result<(), OtaError>)
        requires
            old(self).wf(),
        ensures
            final(self).wf(),
            final(self)@ == reset(old(self)@),
            r == finalized(old(self)@.state, applied),
    {
        let r = match self.state {
            UpdateProcessorState::Finished => {
                if applied {
                    Ok(())
                } else {
                    Err(OtaError::InternalError)
                }
            },
            UpdateProcessorState::Error(e) => Err(e),
            _ => Err(OtaError::IllegalOperation),
        };
        self.reset_ota_state();
        r
    }

    fn reset_ota_state(&mut self)
        requires
            old(self).wf(),
        ensures
            final(self).wf(),
            final(self)@ == reset(old(self)@),
    {
        self.state = UpdateProcessorState::ReadingParameters;
        self.hasher = outside::hasher_new();
        self.header = OtaHeader {
            ota_type: None,
            firmware_blob_size: None,
            sha256_checksum: None,
        };
    }
}

} // verus!
