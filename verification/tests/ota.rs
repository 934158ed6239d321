use ssh_stamp::ota::handler::{
    OtaError, Request, UpdateProcessor, UpdateProcessorState,
};
use ssh_stamp::ota::tlv::{Tlv, MAX_TLV_SIZE};
use ssh_stamp::wire::{Source, WireError};

const IMAGE: [u8; 10] = [0, 1, 2, 3, 4, 5, 6, 7, 8, 9];
const DIGEST: [u8; 32] = [
    0x1f, 0x82, 0x5a, 0xa2, 0xf0, 0x02, 0x0e, 0xf7, 0xcf, 0x91, 0xdf, 0xa3, 0x0d, 0xa4, 0x66, 0x8d,
    0x79, 0x1c, 0x5d, 0x48, 0x24, 0xfc, 0x8e, 0x41, 0x35, 0x4b, 0x89, 0xec, 0x05, 0x79, 0x5a, 0xb3,
];

const KIND: [u8; 6] = [0, 4, 0x73, 0x73, 0x68, 0x73];

fn checksum(digest: &[u8; 32]) -> Vec<u8> {
    let mut v = vec![2, 32];
    v.extend_from_slice(digest);
    v
}

fn blob(size: u32) -> Vec<u8> {
    let mut v = vec![1, 4];
    v.extend_from_slice(&size.to_be_bytes());
    v
}

fn stream(digest: &[u8; 32], image: &[u8]) -> Vec<u8> {
    let mut v = KIND.to_vec();
    v.extend(checksum(digest));
    v.extend(blob(image.len() as u32));
    v.extend_from_slice(image);
    v
}

/// Takes in data with a partition of `max` bytes, and keeps what is written.
fn feed(
    p: &mut UpdateProcessor,
    data: &[u8],
    max: Option<u32>,
    flash: &mut Vec<u8>,
) -> Result<(), OtaError> {
    let mut source = Source::new(data);
    loop {
        match p.process_data(&mut source) {
            Request::Done(r) => return r,
            Request::PartitionSize { size } => p.handle_firmware_blob(size, max)?,
            Request::Write { offset, chunk } => {
                assert_eq!(offset as usize, flash.len());
                flash.extend_from_slice(chunk);
                p.chunk_written(chunk.len(), true)?;
            }
        }
    }
}

#[test]
fn update_at_once() {
    let mut p = UpdateProcessor::new();
    let mut flash = Vec::new();
    assert_eq!(feed(&mut p, &stream(&DIGEST, &IMAGE), Some(10), &mut flash), Ok(()));
    assert_eq!(p.state(), UpdateProcessorState::Finished);
    assert_eq!(flash, IMAGE);
    assert_eq!(p.header().firmware_blob_size, Some(10));
    assert_eq!(p.header().sha256_checksum, Some(DIGEST));
    assert!(p.is_finished());
    assert_eq!(p.finalize(true), Ok(()));
    assert_eq!(p.state(), UpdateProcessorState::ReadingParameters);
    assert_eq!(p.header().ota_type, None);
}

#[test]
fn update_cut_anywhere() {
    let data = stream(&DIGEST, &IMAGE);
    for size in 1..=data.len() {
        let mut p = UpdateProcessor::new();
        let mut flash = Vec::new();
        for chunk in data.chunks(size) {
            assert_eq!(feed(&mut p, chunk, Some(100), &mut flash), Ok(()));
        }
        assert_eq!(p.state(), UpdateProcessorState::Finished);
        assert_eq!(flash, IMAGE);
    }
}

#[test]
fn wrong_digest() {
    let mut digest = DIGEST;
    digest[31] ^= 1;
    let mut p = UpdateProcessor::new();
    let mut flash = Vec::new();
    assert_eq!(
        feed(&mut p, &stream(&digest, &IMAGE), Some(10), &mut flash),
        Err(OtaError::VerificationFailed)
    );
    assert_eq!(
        p.state(),
        UpdateProcessorState::Error(OtaError::VerificationFailed)
    );
    assert_eq!(p.finalize(true), Err(OtaError::VerificationFailed));
}

#[test]
fn image_that_does_not_fit() {
    let mut p = UpdateProcessor::new();
    let mut flash = Vec::new();
    assert_eq!(
        feed(&mut p, &stream(&DIGEST, &IMAGE), Some(9), &mut flash),
        Err(OtaError::IllegalOperation)
    );
    assert_eq!(p.state(), UpdateProcessorState::Error(OtaError::IllegalOperation));
    assert!(flash.is_empty());
}

#[test]
fn partition_of_unknown_size() {
    let mut p = UpdateProcessor::new();
    let mut flash = Vec::new();
    assert_eq!(
        feed(&mut p, &stream(&DIGEST, &IMAGE), None, &mut flash),
        Err(OtaError::InternalError)
    );
    assert_eq!(p.state(), UpdateProcessorState::ReadingParameters);
}

#[test]
fn order_of_parameters() {
    for first in [checksum(&DIGEST), blob(10), vec![77, 0], vec![0, 4, 1, 2, 3, 4]] {
        let mut p = UpdateProcessor::new();
        assert_eq!(
            feed(&mut p, &first, Some(10), &mut Vec::new()),
            Err(OtaError::IllegalOperation)
        );
        assert_eq!(p.state(), UpdateProcessorState::Error(OtaError::IllegalOperation));
        // What follows is ignored.
        assert_eq!(feed(&mut p, &KIND, Some(10), &mut Vec::new()), Ok(()));
        assert_eq!(p.header().ota_type, None);
    }
    let mut p = UpdateProcessor::new();
    let mut data = KIND.to_vec();
    data.extend(blob(10));
    assert_eq!(
        feed(&mut p, &data, Some(10), &mut Vec::new()),
        Err(OtaError::IllegalOperation)
    );
}

#[test]
fn unknown_parameter() {
    let mut p = UpdateProcessor::new();
    assert_eq!(feed(&mut p, &KIND, Some(10), &mut Vec::new()), Ok(()));
    assert_eq!(
        feed(&mut p, &[77, 1, 0], Some(10), &mut Vec::new()),
        Err(OtaError::UnknownTlvType)
    );
    assert_eq!(p.state(), UpdateProcessorState::ReadingParameters);
    // It stays in the way.
    assert_eq!(
        feed(&mut p, &checksum(&DIGEST), Some(10), &mut Vec::new()),
        Err(OtaError::UnknownTlvType)
    );
}

#[test]
fn malformed_parameters() {
    for data in [vec![0, 5, 0, 0, 0, 0, 0], vec![2, 31], vec![9, 33]] {
        let mut p = UpdateProcessor::new();
        let mut data = data;
        data.resize(40, 0);
        assert_eq!(
            feed(&mut p, &data, Some(10), &mut Vec::new()),
            Err(OtaError::InternalError)
        );
    }
}

#[test]
fn data_after_the_image_is_ignored() {
    let mut p = UpdateProcessor::new();
    let mut flash = Vec::new();
    let mut data = stream(&DIGEST, &IMAGE);
    data.extend_from_slice(&[1, 2, 3]);
    assert_eq!(feed(&mut p, &data, Some(10), &mut flash), Ok(()));
    assert_eq!(feed(&mut p, &[4, 5], Some(10), &mut flash), Ok(()));
    assert_eq!(flash, IMAGE);
}

#[test]
fn empty_image() {
    let mut p = UpdateProcessor::new();
    let mut flash = Vec::new();
    assert_eq!(feed(&mut p, &stream(&DIGEST, &[]), Some(10), &mut flash), Ok(()));
    assert_eq!(
        p.state(),
        UpdateProcessorState::Downloading {
            total_received_size: 0
        }
    );
    assert_eq!(
        feed(&mut p, &[1], Some(10), &mut flash),
        Err(OtaError::IllegalOperation)
    );
}

#[test]
fn failed_write() {
    let mut p = UpdateProcessor::new();
    let data = stream(&DIGEST, &IMAGE);
    let mut source = Source::new(&data);
    assert!(matches!(
        p.process_data(&mut source),
        Request::PartitionSize { size: 10 }
    ));
    assert_eq!(p.handle_firmware_blob(10, Some(10)), Ok(()));
    assert!(matches!(
        p.process_data(&mut source),
        Request::Write { offset: 0, chunk } if chunk == IMAGE
    ));
    assert_eq!(p.chunk_written(10, false), Err(OtaError::WriteError));
    assert_eq!(
        p.state(),
        UpdateProcessorState::Downloading {
            total_received_size: 0
        }
    );
    assert_eq!(p.finalize(true), Err(OtaError::IllegalOperation));
}

#[test]
fn finalizing_fails_where_the_platform_does() {
    let mut p = UpdateProcessor::new();
    feed(&mut p, &stream(&DIGEST, &IMAGE), Some(10), &mut Vec::new()).unwrap();
    assert_eq!(p.finalize(false), Err(OtaError::InternalError));
    assert_eq!(UpdateProcessor::new().finalize(true), Err(OtaError::IllegalOperation));
}

#[test]
fn chunk_with_a_given_digest() {
    let mut p = UpdateProcessor::new();
    let mut data = KIND.to_vec();
    data.extend(checksum(&[5; 32]));
    data.extend(blob(3));
    assert_eq!(feed(&mut p, &data, Some(3), &mut Vec::new()), Ok(()));
    assert_eq!(p.chunk_written_with(2, true, &[0; 32]), Ok(()));
    assert_eq!(
        p.state(),
        UpdateProcessorState::Downloading {
            total_received_size: 2
        }
    );
    assert_eq!(p.chunk_written_with(usize::MAX, true, &[5; 32]), Err(OtaError::InternalError));
    assert_eq!(p.chunk_written_with(1, true, &[5; 32]), Ok(()));
    assert_eq!(p.state(), UpdateProcessorState::Finished);
    assert_eq!(
        p.chunk_written_with(1, true, &[5; 32]),
        Err(OtaError::IllegalOperation)
    );
}

#[test]
fn parameters_are_decoded() {
    assert_eq!(
        Tlv::dec(&mut Source::new(&[0, 4, 1, 2, 3, 4])),
        Ok(Tlv::OtaType {
            ota_type: 0x01020304
        })
    );
    assert_eq!(
        Tlv::dec(&mut Source::new(&blob(77))),
        Ok(Tlv::FirmwareBlob { size: 77 })
    );
    assert_eq!(
        Tlv::dec(&mut Source::new(&checksum(&DIGEST))),
        Ok(Tlv::Sha256Checksum { checksum: DIGEST })
    );
    assert_eq!(
        Tlv::dec(&mut Source::new(&[9])),
        Err(WireError::UnknownPacket { number: 9 })
    );
    assert_eq!(Tlv::dec(&mut Source::new(&[0, 5])), Err(WireError::PacketWrong));
    assert_eq!(Tlv::dec(&mut Source::new(&[0, 4, 1])), Err(WireError::RanOut));
}

#[test]
fn parameter_in_pieces() {
    let mut holder = [0; MAX_TLV_SIZE];
    let mut len = 0;
    for b in &KIND[..5] {
        let r = Source::new(&[*b]).try_taking_bytes_for_tlv(&mut holder, &mut len);
        assert_eq!(r, Err(WireError::RanOut));
    }
    let data = [KIND[5], 8, 9];
    let mut s = Source::new(&data);
    assert_eq!(s.try_taking_bytes_for_tlv(&mut holder, &mut len), Ok(()));
    assert_eq!(holder[..len], KIND);
    assert_eq!(s.remaining(), 2);

    let mut len = 0;
    let mut s = Source::new(&[1, 33, 7]);
    assert_eq!(
        s.try_taking_bytes_for_tlv(&mut holder, &mut len),
        Err(WireError::NoRoom)
    );
    assert_eq!(s.remaining(), 1);
}
