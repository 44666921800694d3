use minecraft::error::ErrorKind;
use minecraft::protocol::handshake::{Handshake, HandshakeStatus};
use minecraft::protocol::packet::Packet;
use minecraft::protocol::ping::ResponsePacket;
use minecraft::protocol::response::PacketSerializable;
use minecraft::server::packet::{frame_start, read_varint32_step, FrameStart, Packet as Kind};
use minecraft::server::reader::BinaryReader;
use minecraft::util::binary::VarIntStep;

#[test]
fn legacy_parse_refuses_the_legacy_ping() {
    let e = Packet::parse(vec![0xfe, 0x01, 0x00]).err().unwrap();
    assert_eq!(e.kind, ErrorKind::Other);
    assert_eq!(e.message, "Legacy ping, not supported");
    let p = Packet::parse(vec![2, 0x00, 9]).unwrap();
    assert_eq!((p.length, p.id, p.data.clone()), (2, 0, vec![9]));
    let q = p.clone();
    assert_eq!(q.data, vec![9]);
}

#[test]
fn legacy_handshake_parses() {
    let data = vec![0xd4, 0x02, 1, b'h', 0x63, 0xdd, 2];
    let p = Packet { length: data.len() + 1, id: 0, data };
    let h = Handshake::parse(&p).unwrap();
    assert_eq!(h.version, 340);
    assert_eq!(h.address, "h");
    assert_eq!(h.port, 25565);
    assert!(matches!(h.status, HandshakeStatus::Login));
    assert_eq!(h.debug_text(), "Handshake(Version: 340, Address: h, Port: 25565, Status: Login)");
    let p = Packet { length: 1, id: 1, data: vec![] };
    let e = Handshake::parse(&p).err().unwrap();
    assert_eq!(e.kind, ErrorKind::Other);
    assert_eq!(e.message, "Not a handshake packet");
    let p = Packet { length: 6, id: 0, data: vec![1, 0, 0, 1, 9] };
    assert_eq!(Handshake::parse(&p).err().unwrap().message, "Seems a broken handshake packet");
}

#[test]
fn legacy_pong_is_framed_by_the_legacy_writer() {
    let b = ResponsePacket::Pong { payload: 2 }.serialize();
    assert_eq!(b, vec![9, 0, 0, 0, 1, 2, 0, 0, 0, 0, 0, 0, 0]);
}

#[test]
fn packet_kind_is_told_by_the_first_byte() {
    assert!(matches!(Kind::parse(vec![0]), Kind::SLP()));
    assert!(matches!(Kind::parse(vec![0, 1]), Kind::Handshake()));
    assert!(matches!(Kind::parse(vec![7, 0]), Kind::Unknown()));
}

#[test]
fn frame_start_classifies_lengths() {
    assert!(matches!(frame_start(0), FrameStart::End));
    assert!(matches!(frame_start(254), FrameStart::Legacy));
    assert!(matches!(frame_start(5), FrameStart::Body(5)));
}

#[test]
fn stream_varint_step_shifts_within_a_byte() {
    match read_varint32_step(0, 0, 0xff) {
        VarIntStep::More(v, s) => {
            assert_eq!((v, s), (127, 1));
            assert!(matches!(read_varint32_step(v, s, 0x01), VarIntStep::Done(255)));
        }
        _ => panic!("expected more bytes"),
    }
    assert!(matches!(read_varint32_step(0, 5, 0x00), VarIntStep::TooBig));
}

#[test]
fn server_reader_hands_back_one_byte_fewer() {
    let mut r = BinaryReader::new(vec![1, 2, 3, 4]);
    assert_eq!(r.read_bytes(3).unwrap(), vec![1, 2]);
    assert_eq!(r.read_bytes(1).unwrap(), Vec::<u8>::new());
    let e = r.read_bytes(1).unwrap_err();
    assert_eq!(e.kind, ErrorKind::Other);
    assert_eq!(e.message, "Out of index");
}

#[test]
fn server_reader_fails_when_nothing_remains() {
    let mut r = BinaryReader::new(vec![]);
    assert_eq!(r.read_8().unwrap_err().message, "Out of index");
    assert_eq!(r.read_16().unwrap_err().message, "Out of index");
    assert_eq!(r.read_32().unwrap_err().message, "Out of index");
    assert_eq!(r.read_64().unwrap_err().message, "Out of index");
    assert_eq!(r.read_varint().unwrap_err().message, "Out of index");
    assert_eq!(r.read_varlong().unwrap_err().message, "Out of index");
    let mut r = BinaryReader::new(vec![1, 2, 3]);
    assert_eq!(r.read_64().unwrap_err().kind, ErrorKind::Other);
}

/// Folds `bytes` with `read_varint32_step` as the stream reader does: the value
/// and the bytes used, `None` for a sixth byte or bytes that run out.
fn fold_stream_varint(bytes: &[u8]) -> Option<(i32, usize)> {
    let (mut value, mut shift) = (0i32, 0u32);
    for (i, b) in bytes.iter().enumerate() {
        match read_varint32_step(value, shift, *b) {
            VarIntStep::TooBig => return None,
            VarIntStep::Done(v) => return Some((v, i + 1)),
            VarIntStep::More(v, s) => {
                value = v;
                shift = s;
            }
        }
    }
    None
}

#[test]
fn stream_varint_decodes_whole_values() {
    assert_eq!(fold_stream_varint(&[0x05, 0x99]), Some((5, 1)));
    // the second group, shifted by 7 as a byte, loses its bits
    assert_eq!(fold_stream_varint(&[0xac, 0x02]), Some((44, 2)));
    assert_eq!(fold_stream_varint(&[0xff, 0x01, 0x00]), Some((255, 2)));
    assert_eq!(fold_stream_varint(&[0x80, 0x80, 0x80, 0x80, 0x80, 0x00]), None);
    assert_eq!(fold_stream_varint(&[0x80, 0x80]), None);
}
