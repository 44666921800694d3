use minecraft::error::{Error, ErrorKind, Result};
use minecraft::protocol::server::packet::ReadPacket;
use minecraft::server::net::body_length;
use minecraft::server::server::ping_entry;
use minecraft::util::binary::{ReadN, ReadVarInt};

/// A byte source over a fixed buffer that records the size of every read.
struct Source {
    bytes: Vec<u8>,
    pos: usize,
    reads: Vec<usize>,
}

impl Source {
    fn new(bytes: Vec<u8>) -> Self {
        Source { bytes, pos: 0, reads: Vec::new() }
    }
}

impl ReadN for Source {
    fn _read(&mut self, n: usize) -> Result<Vec<u8>> {
        self.reads.push(n);
        if self.pos + n > self.bytes.len() {
            return Err(Error::new(ErrorKind::EOF, "EOF"));
        }
        let v = self.bytes[self.pos..self.pos + n].to_vec();
        self.pos += n;
        Ok(v)
    }
}

impl ReadVarInt for Source {}

impl ReadPacket for Source {}

fn err<T>(r: Result<T>) -> Error {
    match r {
        Err(e) => e,
        Ok(_) => panic!("expected an error"),
    }
}

#[test]
fn read_packet_reads_length_then_exactly_the_body() {
    let mut s = Source::new(vec![0x03, 0x01, 0xaa, 0xbb, 0x09]);
    let p = s.read_packet().unwrap();
    assert_eq!(p.length, 3);
    assert_eq!(p.id, 1);
    assert_eq!(p.data, vec![0xaa, 0xbb]);
    assert_eq!(s.reads, vec![1, 3]);
    assert_eq!(s.pos, 4);
}

#[test]
fn read_packet_refuses_lengths_without_reading_on() {
    for (bytes, kind, msg) in [
        (vec![0x00, 0x01], ErrorKind::EOF, "EOF"),
        (vec![0xff, 0xff, 0xff, 0xff, 0x0f, 0x01], ErrorKind::EOF, "EOF"),
        (vec![0xfe, 0x01, 0x01], ErrorKind::Deprecated, "LegacyPing"),
        (vec![0x80, 0x50, 0x01], ErrorKind::OutOfRange, "Out of limit"),
        (vec![0xff, 0xff, 0xff, 0xff, 0xff, 0xff], ErrorKind::OutOfRange, "VarInt too big"),
    ] {
        let n = bytes.len();
        let mut s = Source::new(bytes);
        let e = err(s.read_packet());
        assert_eq!(e.kind, kind);
        assert_eq!(e.message, msg);
        assert!(s.reads.iter().all(|&r| r == 1));
        assert!(s.pos <= n);
    }
}

#[test]
fn read_packet_fails_on_a_short_body() {
    let mut s = Source::new(vec![0x05, 0x01, 0x02]);
    let e = err(s.read_packet());
    assert_eq!(e.kind, ErrorKind::EOF);
    assert_eq!(s.reads, vec![1, 5]);
}

#[test]
fn body_length_decides_eof_limit_and_size() {
    for len in [-1isize, 0] {
        let e = body_length(len).unwrap_err();
        assert_eq!(e.kind, ErrorKind::Other);
        assert_eq!(e.message, "EOF");
    }
    let e = body_length(10240).unwrap_err();
    assert_eq!(e.message, "Out of limit");
    assert_eq!(body_length(10239).unwrap(), 10239);
    assert_eq!(body_length(1).unwrap(), 1);
}

#[test]
fn ping_entry_holds_the_server_list_values() {
    let p = ping_entry();
    assert_eq!(p.version.name, "1.12.2");
    assert_eq!(p.version.protocol, 340);
    assert_eq!(p.players.max, 1024);
    assert_eq!(p.players.online, 1023);
    assert!(p.players.sample.is_empty());
    assert_eq!(p.description.text, "This is a Minecraft server");
    assert_eq!(p.favicon, "data:image/png;base64,<data>");
    assert!(p.previewsChat);
}
