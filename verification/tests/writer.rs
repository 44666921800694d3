use minecraft::util::binary::{BinaryWriter, PacketWriter, ToBytes};
use minecraft::util::writer;

#[test]
fn numbers_are_written_little_endian() {
    assert_eq!(0x1234u16.to_bytes(), vec![0x34, 0x12]);
    assert_eq!((-2i32).to_bytes(), vec![0xfe, 0xff, 0xff, 0xff]);
    assert_eq!(1i64.to_bytes(), vec![1, 0, 0, 0, 0, 0, 0, 0]);
    assert_eq!(0x7fu8.to_bytes(), vec![0x7f]);
    assert_eq!((-1i8).to_bytes(), vec![0xff]);
    assert_eq!(u128::MAX.to_bytes(), vec![0xff; 16]);
    assert_eq!(true.to_bytes(), vec![1]);
    assert_eq!(false.to_bytes(), vec![0]);
}

#[test]
fn texts_are_written_with_their_length() {
    assert_eq!("hi".to_bytes(), vec![2, b'h', b'i']);
    assert_eq!(String::from("é").to_bytes(), vec![2, 0xc3, 0xa9]);
    assert_eq!("".to_bytes(), vec![0]);
}

#[test]
fn binary_writer_appends() {
    let mut w = BinaryWriter::new();
    assert_eq!(w.length(), 0);
    w.write(0x0102u16);
    w.write_varint(300);
    w.write("a");
    let mut more = vec![9, 9];
    w.write_bytes(&mut more);
    assert!(more.is_empty());
    assert_eq!(w.buffer(), vec![0x02, 0x01, 0xac, 0x02, 1, b'a', 9, 9]);
    assert_eq!(w.buffer_cloned(), w.buffer());
    assert_eq!(w.length(), 8);
}

#[test]
fn packet_writer_frames_with_the_length() {
    let mut p = PacketWriter::new();
    p.write(0x01u8);
    p.write(5i64);
    assert_eq!(p.bytes(), vec![9, 1, 5, 0, 0, 0, 0, 0, 0, 0]);
    let mut p = PacketWriter::new();
    p.write_varint(128);
    let mut tail = vec![7];
    p.write_bytes(&mut tail);
    assert_eq!(p.bytes(), vec![3, 0x80, 0x01, 7]);
    assert_eq!(PacketWriter::new().bytes(), vec![0]);
}

#[test]
fn long_bodies_get_multi_byte_lengths() {
    let mut p = PacketWriter::new();
    let mut body = vec![0u8; 200];
    p.write_bytes(&mut body);
    let out = p.bytes();
    assert_eq!(&out[..2], &[0xc8, 0x01]);
    assert_eq!(out.len(), 202);
}

#[test]
fn legacy_writer_varint_writes_the_last_group_as_four_bytes() {
    let mut w = writer::BinaryWriter::new();
    w.write_varint(5);
    assert_eq!(w.buffer(), vec![5, 0, 0, 0]);
    let mut w = writer::BinaryWriter::new();
    w.write_varint(300);
    assert_eq!(w.buffer(), vec![2, 0, 0, 0]);
    assert_eq!(writer::BinaryWriter::varint_len(300), 2);
    assert_eq!(writer::BinaryWriter::varint_len(-5), 5);
}

#[test]
fn legacy_writer_appends_and_frames() {
    let mut w = writer::BinaryWriter::new();
    w.write(0x0102u16);
    let mut more = vec![3];
    w.write_bytes(&mut more);
    assert_eq!(w.length(), 3);
    assert_eq!(w.buffer_cloned(), vec![2, 1, 3]);
    let mut p = writer::PacketWriter::new();
    p.write(0x01u8);
    p.write_varint(1);
    let mut tail = vec![8];
    p.write_bytes(&mut tail);
    assert_eq!(p.bytes(), vec![6, 0, 0, 0, 1, 1, 0, 0, 0, 8]);
}
