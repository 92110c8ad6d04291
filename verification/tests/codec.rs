use dispatch_core::codec::{
    encode_path, put_bytes, put_u128_be, put_u16_be, put_u32_be, put_u64_be, put_u8, ByteReader,
};
use dispatch_core::path::{ActorPath, NamedPath, SystemPath, Transport, UniquePath};
use dispatch_core::serialisation::SerError;

#[test]
fn u64_big_endian_round_trip() {
    let mut buf: Vec<u8> = Vec::new();
    put_u64_be(&mut buf, 0x0102030405060708);
    assert_eq!(buf, vec![1, 2, 3, 4, 5, 6, 7, 8]);
    let mut r = ByteReader::new(buf);
    assert_eq!(r.get_u64_be(), 0x0102030405060708);
    assert_eq!(r.remaining_len(), 0);
}

#[test]
fn small_integers_big_endian() {
    let mut buf: Vec<u8> = Vec::new();
    put_u8(&mut buf, 7);
    put_u16_be(&mut buf, 0x1F90);
    put_u32_be(&mut buf, 0x7F000001);
    assert_eq!(buf, vec![7, 0x1F, 0x90, 0x7F, 0, 0, 1]);
    let mut r = ByteReader::new(buf);
    assert_eq!(r.get_u8(), 7);
    assert_eq!(r.get_u16_be(), 0x1F90);
    assert_eq!(r.get_u32_be(), 0x7F000001);
}

#[test]
fn u128_big_endian_round_trip() {
    let mut buf: Vec<u8> = Vec::new();
    put_u128_be(&mut buf, 5);
    assert_eq!(buf.len(), 16);
    assert_eq!(&buf[..15], &[0u8; 15]);
    assert_eq!(buf[15], 5);
    let mut r = ByteReader::new(buf);
    assert_eq!(r.get_u128_be(), 5);
}

#[test]
fn byte_runs_round_trip() {
    let mut buf: Vec<u8> = Vec::new();
    put_bytes(&mut buf, &[9, 8, 7]);
    put_bytes(&mut buf, &[6]);
    let mut r = ByteReader::new(buf);
    assert_eq!(r.get_bytes(3), vec![9, 8, 7]);
    assert_eq!(r.get_u8(), 6);
}

#[test]
fn unique_path_wire_form() {
    let p = ActorPath::Unique(UniquePath::new(Transport::Tcp, 0x7F000001, 8080, 5));
    let mut buf: Vec<u8> = Vec::new();
    encode_path(&mut buf, &p).expect("a unique path always encodes");
    let mut expected = vec![1u8, 127, 0, 0, 1, 0x1F, 0x90, 0];
    expected.extend_from_slice(&[0u8; 15]);
    expected.push(5);
    assert_eq!(buf, expected);
}

#[test]
fn named_path_wire_form() {
    let sys = SystemPath::new(Transport::Local, 0x7F000001, 80);
    let p = ActorPath::Named(NamedPath::with_system(
        sys,
        vec!["a".to_string(), "bc".to_string()],
    ));
    let mut buf: Vec<u8> = Vec::new();
    encode_path(&mut buf, &p).expect("short names encode");
    let expected = vec![
        0u8, 127, 0, 0, 1, 0, 80, // system path: local, 127.0.0.1:80
        1, // named variant
        0, 2, // two segments
        0, 1, b'a', 0, 2, b'b', b'c',
    ];
    assert_eq!(buf, expected);
}

#[test]
fn oversized_segment_is_rejected() {
    let sys = SystemPath::new(Transport::Tcp, 0x7F000001, 80);
    let long = "x".repeat(70000);
    let p = ActorPath::Named(NamedPath::with_system(sys, vec![long]));
    let mut buf: Vec<u8> = Vec::new();
    match encode_path(&mut buf, &p) {
        Err(SerError::InvalidData(_)) => (),
        other => panic!("expected InvalidData, got {:?}", other.is_ok()),
    }
    assert!(buf.is_empty(), "a failed encode leaves the buffer untouched");
}
