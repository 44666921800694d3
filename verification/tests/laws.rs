use minecraft::util::binary::{BinaryReader, BinaryWriter, ToBytes};

#[test]
fn texts_read_back_as_written() {
    for t in ["", "hello", "héllo wörld", "日本"] {
        let mut w = BinaryWriter::new();
        w.write(t);
        w.write(String::from(t));
        let mut r = BinaryReader::new(w.buffer());
        assert_eq!(r.read_string().unwrap(), t);
        assert_eq!(r.read_string().unwrap(), t);
        assert_eq!(r.current(), r.length());
    }
}

#[test]
fn bytes_and_bools_read_back_as_written() {
    for x in [0u8, 1, 0x7f, 0x80, 0xff] {
        let mut r = BinaryReader::new(x.to_bytes());
        assert_eq!(r.read::<u8>().unwrap(), x);
    }
    for b in [false, true] {
        let mut r = BinaryReader::new(b.to_bytes());
        assert_eq!(r.read::<bool>().unwrap(), b);
    }
}

#[test]
fn wider_numbers_read_back_reversed() {
    let mut r = BinaryReader::new(0x0102u16.to_bytes());
    assert_eq!(r.read::<u16>().unwrap(), 0x0201);
    let mut r = BinaryReader::new(0x01020304u32.to_bytes());
    assert_eq!(r.read::<u32>().unwrap(), 0x04030201);
}
