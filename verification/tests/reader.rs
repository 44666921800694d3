use minecraft::error::ErrorKind;
use minecraft::util::binary::{BinaryReader, ReadN, ReadVarInt};

#[test]
fn read_bytes_reads_and_moves() {
    let mut r = BinaryReader::new(vec![1, 2, 3, 4]);
    assert_eq!(r.read_bytes(0).unwrap(), Vec::<u8>::new());
    assert_eq!(r.current(), 0);
    assert_eq!(r.read_bytes(3).unwrap(), vec![1, 2, 3]);
    assert_eq!(r.current(), 3);
    let e = r.read_bytes(2).unwrap_err();
    assert_eq!(e.kind, ErrorKind::OutOfRange);
    assert_eq!(e.message, "Out of range");
    assert_eq!(r.current(), 3);
    assert_eq!(r.read_bytes(1).unwrap(), vec![4]);
}

#[test]
fn read_numbers_are_big_endian() {
    let mut r = BinaryReader::new(vec![0x12, 0x34, 0xff, 0xfe, 0x01, 0x00, 0x00, 0x00, 0x00, 0x00, 0x00, 0x00, 0x2a]);
    assert_eq!(r.read::<u16>().unwrap(), 0x1234);
    assert_eq!(r.read::<i16>().unwrap(), -2);
    assert_eq!(r.read::<u64>().unwrap(), 0x0100_0000_0000_0000);
    assert_eq!(r.read::<u8>().unwrap(), 0x2a);
    assert!(r.read::<u8>().is_err());
}

#[test]
fn read_wide_and_signed_numbers() {
    let mut bytes = vec![0xffu8; 16];
    bytes.extend_from_slice(&[0x80, 0, 0, 0]);
    let mut r = BinaryReader::new(bytes);
    assert_eq!(r.read::<i128>().unwrap(), -1);
    assert_eq!(r.read::<i32>().unwrap(), i32::MIN);
    let mut r = BinaryReader::new(vec![0xff; 16]);
    assert_eq!(r.read::<u128>().unwrap(), u128::MAX);
}

#[test]
fn read_bool_is_false_only_for_zero() {
    let mut r = BinaryReader::new(vec![0, 1, 7]);
    assert!(!r.read::<bool>().unwrap());
    assert!(r.read::<bool>().unwrap());
    assert!(r.read::<bool>().unwrap());
}

#[test]
fn read_too_few_bytes_fails_without_moving() {
    let mut r = BinaryReader::new(vec![1, 2, 3]);
    let e = r.read::<u32>().unwrap_err();
    assert_eq!(e.kind, ErrorKind::OutOfRange);
    assert_eq!(r.current(), 0);
}

#[test]
fn read_string_reads_length_then_utf8() {
    let mut r = BinaryReader::new(vec![3, b'a', b'b', b'c', 2, 0xc3, 0xa9]);
    assert_eq!(r.read_string().unwrap(), "abc");
    assert_eq!(r.read_string().unwrap(), "é");
    assert_eq!(r.current(), 7);
    let mut r = BinaryReader::new(vec![0]);
    assert_eq!(r.read_string().unwrap(), "");
}

#[test]
fn read_string_fails_on_short_or_invalid_text() {
    let mut r = BinaryReader::new(vec![5, b'a']);
    let e = r.read_string().unwrap_err();
    assert_eq!(e.kind, ErrorKind::OutOfRange);
    assert_eq!(e.message, "Out of range");
    assert_eq!(r.current(), 1);
    let mut r = BinaryReader::new(vec![1, 0xff]);
    let e = r.read_string().unwrap_err();
    assert_eq!(e.kind, ErrorKind::OutOfRange);
    assert_eq!(e.message, "invalid utf-8 sequence of 1 bytes from index 0");
    assert_eq!(r.current(), 2);
}

#[test]
fn at_indexes_and_wraps_negative_indices() {
    let r = BinaryReader::new(vec![10, 20, 30]);
    assert_eq!(r.at(0).unwrap(), 10);
    assert_eq!(r.at(2).unwrap(), 30);
    let e = r.at(3).unwrap_err();
    assert_eq!(e.kind, ErrorKind::OutOfRange);
    assert_eq!(e.message, "Out of range");
    assert_eq!(r.at(-1).unwrap(), 30);
    assert_eq!(r.at(-3).unwrap(), 10);
    assert_eq!(r.at(-4).unwrap(), 30);
    assert_eq!(r.at(-7).unwrap(), 30);
    assert_eq!(r.at(-8).unwrap(), 20);
}

#[test]
fn accessors_report_buffer_and_offset() {
    let mut r = BinaryReader::new(vec![1, 2, 3]);
    assert_eq!(r.length(), 3);
    assert_eq!(r.current(), 0);
    r.set_pos(2);
    assert_eq!(r.current(), 2);
    assert_eq!(r.read_bytes(1).unwrap(), vec![3]);
    r.set_pos(10);
    assert!(r.read_bytes(1).is_err());
    assert_eq!(r.buffer_cloned(), vec![1, 2, 3]);
}

#[test]
fn no_operation_changes_the_buffer() {
    let b: Vec<u8> = vec![0x03, b'a', b'b', b'c', 0xff, 0xff, 0xff, 0xff, 0xff, 0xff, 0x05, 0x81];
    let mut r = BinaryReader::new(b.clone());
    assert_eq!(r.read_string().unwrap(), "abc");
    assert!(r.read_varint().is_err());
    r.set_pos(10);
    assert_eq!(r.read_varlong().unwrap(), 5);
    assert!(r.read::<u32>().is_err());
    assert!(r._read(2).is_err());
    assert_eq!(r.at(-1).unwrap(), 0x81);
    r.set_pos(1);
    assert_eq!(r.read_bytes(2).unwrap(), vec![b'a', b'b']);
    assert_eq!(r.read::<u8>().unwrap(), b'c');
    r.set_pos(100);
    assert!(r.read_varint().is_err());
    assert_eq!(r.buffer_cloned(), b);
    assert_eq!(r.length(), b.len());
}
