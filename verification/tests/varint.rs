use minecraft::error::ErrorKind;
use minecraft::util::binary::{read_varint_step, BinaryReader, ReadN, ReadVarInt, VarInt, VarIntStep};

#[test]
fn as_varint_encodes_small_values_in_one_byte() {
    assert_eq!(VarInt::as_varint(0), vec![0x00]);
    assert_eq!(VarInt::as_varint(1), vec![0x01]);
    assert_eq!(VarInt::as_varint(127), vec![0x7f]);
}

#[test]
fn as_varint_encodes_larger_values_low_group_first() {
    assert_eq!(VarInt::as_varint(128), vec![0x80, 0x01]);
    assert_eq!(VarInt::as_varint(300), vec![0xac, 0x02]);
    assert_eq!(VarInt::as_varint(25565), vec![0xdd, 0xc7, 0x01]);
    assert_eq!(VarInt::as_varint(2097151), vec![0xff, 0xff, 0x7f]);
    assert_eq!(VarInt::as_varint(i32::MAX), vec![0xff, 0xff, 0xff, 0xff, 0x07]);
}

#[test]
fn varint_byte_count_matches_encoding_lengths() {
    assert_eq!(VarInt::varint_byte_count(0), 1);
    assert_eq!(VarInt::varint_byte_count(127), 1);
    assert_eq!(VarInt::varint_byte_count(128), 2);
    assert_eq!(VarInt::varint_byte_count(16383), 2);
    assert_eq!(VarInt::varint_byte_count(16384), 3);
    assert_eq!(VarInt::varint_byte_count(2097152), 4);
    assert_eq!(VarInt::varint_byte_count(268435455), 4);
    assert_eq!(VarInt::varint_byte_count(268435456), 5);
    assert_eq!(VarInt::varint_byte_count(-1), 5);
    assert_eq!(VarInt::varint_byte_count(i32::MIN), 5);
    for v in [0, 1, 127, 128, 300, 25565, 2097151, 2097152, i32::MAX] {
        assert_eq!(VarInt::varint_byte_count(v), VarInt::as_varint(v).len());
    }
}

#[test]
fn read_varint_reads_back_what_as_varint_writes() {
    for v in [0, 1, 127, 128, 255, 300, 25565, 2097151, 2097152, 268435456, i32::MAX] {
        let mut bytes = VarInt::as_varint(v);
        let n = bytes.len();
        bytes.push(0x55);
        let mut r = BinaryReader::new(bytes);
        assert_eq!(r.read_varint().unwrap(), v);
        assert_eq!(r.current(), n);
    }
}

#[test]
fn read_varint_decodes_five_byte_negative_values() {
    let mut r = BinaryReader::new(vec![0xff, 0xff, 0xff, 0xff, 0x0f]);
    assert_eq!(r.read_varint().unwrap(), -1);
    let mut r = BinaryReader::new(vec![0x80, 0x80, 0x80, 0x80, 0x08]);
    assert_eq!(r.read_varint().unwrap(), i32::MIN);
}

#[test]
fn read_varint_refuses_a_sixth_byte() {
    let mut r = BinaryReader::new(vec![0x80, 0x80, 0x80, 0x80, 0x80, 0x01, 0x02]);
    let e = r.read_varint().unwrap_err();
    assert_eq!(e.kind, ErrorKind::OutOfRange);
    assert_eq!(e.message, "VarInt too big");
    assert_eq!(r.current(), 6);
}

#[test]
fn read_varint_on_truncated_input_consumes_everything() {
    let mut r = BinaryReader::new(vec![0x80, 0x80]);
    let e = r.read_varint().unwrap_err();
    assert_eq!(e.kind, ErrorKind::OutOfRange);
    assert_eq!(e.message, "Out of range");
    assert_eq!(r.current(), 2);
    let mut r = BinaryReader::new(vec![]);
    assert_eq!(r.read_varint().unwrap_err().message, "Out of range");
}

#[test]
fn read_varlong_shifts_each_group_as_a_byte() {
    let mut r = BinaryReader::new(vec![0x01]);
    assert_eq!(r.read_varlong().unwrap(), 1);
    // second group: 1 shifted by 7 within a byte
    let mut r = BinaryReader::new(vec![0xff, 0x01]);
    assert_eq!(r.read_varlong().unwrap(), 255);
    // third group: 1 shifted by 14 mod 8 = 6 within a byte
    let mut r = BinaryReader::new(vec![0x80, 0x80, 0x01]);
    assert_eq!(r.read_varlong().unwrap(), 64);
    assert_eq!(r.current(), 3);
}

#[test]
fn read_varlong_refuses_an_eleventh_byte() {
    let mut r = BinaryReader::new(vec![0x80; 12]);
    let e = r.read_varlong().unwrap_err();
    assert_eq!(e.kind, ErrorKind::OutOfRange);
    assert_eq!(e.message, "VarLong too big");
    assert_eq!(r.current(), 11);
    let mut r = BinaryReader::new(vec![0x80, 0x80]);
    assert_eq!(r.read_varlong().unwrap_err().message, "Out of range");
}

#[test]
fn read_n_reads_exactly_n_bytes() {
    let mut r = BinaryReader::new(vec![1, 2, 3]);
    assert_eq!(r._read(2).unwrap(), vec![1, 2]);
    assert!(r._read(2).is_err());
    assert_eq!(r._read(1).unwrap(), vec![3]);
}

#[test]
fn read_varint_step_folds_bytes() {
    match read_varint_step(0, 0, 0xac) {
        VarIntStep::More(v, s) => {
            assert_eq!(v, 0x2c);
            assert_eq!(s, 1);
            match read_varint_step(v, s, 0x02) {
                VarIntStep::Done(v) => assert_eq!(v, 300),
                _ => panic!("expected the last byte"),
            }
        }
        _ => panic!("expected more bytes"),
    }
    assert!(matches!(read_varint_step(5, 5, 0x01), VarIntStep::TooBig));
}
