use ssh_stamp::codec::{dec_option_octets, dec_option_u32, enc_option};
use ssh_stamp::wire::{enc_bool, enc_bytes, enc_str, enc_u32, enc_u8, Sink, Source, WireError};
use sunset::packets::Ed25519PubKey;
use sunset::sshwire::{read_ssh, write_ssh, Blob, SSHEncode};

fn theirs(v: &dyn SSHEncode) -> Vec<u8> {
    let mut buf = [0u8; 200];
    let n = write_ssh(&mut buf, v).unwrap();
    buf[..n].to_vec()
}

#[test]
fn numbers_are_encoded_as_sunset_does() {
    for v in [0u32, 1, 255, 256, 0x0102_0304, u32::MAX] {
        let mut s = Sink::new();
        enc_u32(v, &mut s);
        let s = s.bytes();
        assert_eq!(s, theirs(&v));
        assert_eq!(Source::new(&s).dec_u32(), Ok(v));
    }
    for v in [0u8, 7, 255] {
        let mut s = Sink::new();
        enc_u8(v, &mut s);
        let s = s.bytes();
        assert_eq!(s, theirs(&v));
        assert_eq!(Source::new(&s).dec_u8(), Ok(v));
    }
    for v in [false, true] {
        let mut s = Sink::new();
        enc_bool(v, &mut s);
        let s = s.bytes();
        assert_eq!(s, theirs(&v));
        assert_eq!(Source::new(&s).dec_bool(), Ok(v));
    }
    assert_eq!(Source::new(&[2]).dec_bool(), Ok(true));
    assert!(read_ssh::<bool>(&[2], None).unwrap().0);
}

#[test]
fn bytes_are_encoded_as_sunset_does() {
    let mut s = Sink::new();
    enc_bytes(&[9; 6], &mut s);
    let s = s.bytes();
    assert_eq!(s, theirs(&[9u8; 6]));
    let a: Result<[u8; 6], WireError> = Source::new(&s).dec_array();
    assert_eq!(a, Ok([9; 6]));

    let key = Ed25519PubKey { key: Blob([3; 32]) };
    let mut s = Sink::new();
    enc_u32(32, &mut s);
    enc_bytes(&[3; 32], &mut s);
    assert_eq!(s.bytes(), theirs(&key));
}

#[test]
fn texts_are_encoded_as_sunset_does() {
    for v in ["", "abc", "with space ~", "h\u{e9}"] {
        let mut s = Sink::new();
        enc_str(v, &mut s);
        let s = s.bytes();
        assert_eq!(s, theirs(&v));
        assert_eq!(
            Source::new(&s).dec_str().is_ok(),
            read_ssh::<&str>(&s, None).is_ok()
        );
    }
}

#[test]
fn every_byte_in_a_text() {
    for b in 0..=255u8 {
        let data = [0, 0, 0, 1, b];
        let ours = Source::new(&data).dec_str();
        match read_ssh::<&str>(&data, None) {
            Ok((t, 5)) => assert_eq!(ours, Ok(t)),
            Ok(_) => panic!("not all was read"),
            Err(_) => assert_eq!(ours, Err(WireError::BadName)),
        }
        assert_eq!(ours.is_ok(), (0x20..=0x7e).contains(&b));
    }
}

#[test]
fn source_runs_out() {
    let data = [0, 0, 0, 4, 1];
    assert_eq!(Source::new(&data).dec_str(), Err(WireError::RanOut));
    assert_eq!(Source::new(&data[..3]).dec_u32(), Err(WireError::RanOut));
    assert_eq!(Source::new(&[]).dec_u8(), Err(WireError::RanOut));
    let mut s = Source::new(&data);
    assert_eq!(s.take(6).err(), Some(WireError::RanOut));
    assert_eq!(s.remaining(), 5);
    assert_eq!(s.take(3).ok(), Some(&data[..3]));
    assert_eq!(s.remaining(), 2);
}

#[test]
fn optional_values() {
    let mut s = Sink::new();
    enc_option(None, &mut s);
    let mut v = Sink::new();
    enc_u32(256, &mut v);
    enc_option(Some(&v), &mut s);
    assert_eq!(s.len(), 3);
    let s = s.bytes();
    assert_eq!(s, vec![0, 1, 0, 0, 1, 0]);
    let mut source = Source::new(&s);
    assert_eq!(dec_option_u32(&mut source), Ok(None));
    assert_eq!(dec_option_u32(&mut source), Ok(Some(256)));
    assert_eq!(dec_option_u32(&mut source), Err(WireError::RanOut));
    assert_eq!(dec_option_octets(&mut Source::new(&[0])), Ok(None));
    assert_eq!(dec_option_octets(&mut Source::new(&[1; 17])), Ok(Some([1; 16])));
    assert_eq!(dec_option_octets(&mut Source::new(&[1; 16])), Err(WireError::RanOut));
}

#[test]
fn pieces_are_those_of_sunset() {
    // A piece is written as a whole or not at all, and what was written before it stays.
    let mut s = Sink::new();
    enc_str("abc", &mut s);
    for room in 0..8 {
        let mut buf = vec![0xaa; room];
        let r = write_ssh(&mut buf, &"abc");
        let mut at = 0;
        for i in 0..s.len() {
            let piece = s.piece(i);
            if piece.len() > room - at {
                break;
            }
            assert_eq!(&buf[at..at + piece.len()], piece);
            at += piece.len();
        }
        assert!(buf[at..].iter().all(|b| *b == 0xaa));
        assert_eq!(r.is_ok(), at == 7);
    }
    let mut all = Sink::new();
    all.push(&[1]);
    all.push_all(&s);
    assert_eq!(all.bytes(), vec![1, 0, 0, 0, 3, b'a', b'b', b'c']);
}
