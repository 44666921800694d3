use minecraft::error::ErrorKind;
use minecraft::protocol::server::packet::{DedeserializePacket, Packet, SerializePacket};
use minecraft::protocol::server::request::handshake::{HandshakePacket, HandshakeStatus};
use minecraft::protocol::server::request::login_start::LoginStartPacket;
use minecraft::protocol::server::request::ping::PingPacket;
use minecraft::protocol::server::response::login::LoginPacket;
use minecraft::protocol::server::response::pong::PongPacket;
use minecraft::util::binary::{PacketWriter, VarInt};

fn handshake_data(version: Vec<u8>, address: &str, port: u16, status: u8) -> Vec<u8> {
    let mut d = version;
    d.extend(VarInt::as_varint(address.len() as i32));
    d.extend_from_slice(address.as_bytes());
    d.extend_from_slice(&port.to_be_bytes());
    d.push(status);
    d
}

fn packet(id: i32, data: Vec<u8>) -> Packet {
    Packet { length: data.len() + 1, id, data }
}

#[test]
fn parse_reads_length_id_and_data() {
    let p = Packet::parse(vec![3, 0x00, 0xab, 0xcd, 0xee]).unwrap();
    assert_eq!(p.length, 3);
    assert_eq!(p.id, 0);
    assert_eq!(p.data, vec![0xab, 0xcd]);
    let q = p.clone();
    assert_eq!((q.length, q.id, q.data), (3, 0, vec![0xab, 0xcd]));
}

#[test]
fn parse_fails_on_short_input() {
    let e = Packet::parse(vec![]).err().unwrap();
    assert_eq!(e.kind, ErrorKind::OutOfRange);
    assert_eq!(e.message, "Out of range");
    let e = Packet::parse(vec![5, 0, 1]).err().unwrap();
    assert_eq!(e.message, "Out of range");
}

#[test]
fn parse_reads_back_what_the_packet_writer_frames() {
    let mut w = PacketWriter::new();
    w.write(0x05u8);
    w.write(0x0102u16);
    let p = Packet::parse(w.bytes()).unwrap();
    assert_eq!(p.length, 3);
    assert_eq!(p.id, 5);
    assert_eq!(p.data, vec![0x02, 0x01]);
}

#[test]
fn frame_length_checks_the_declared_length() {
    for len in [-1, 0] {
        let e = Packet::frame_length(len).unwrap_err();
        assert_eq!(e.kind, ErrorKind::EOF);
        assert_eq!(e.message, "EOF");
    }
    let e = Packet::frame_length(254).unwrap_err();
    assert_eq!(e.kind, ErrorKind::Deprecated);
    assert_eq!(e.message, "LegacyPing");
    let e = Packet::frame_length(10240).unwrap_err();
    assert_eq!(e.kind, ErrorKind::OutOfRange);
    assert_eq!(e.message, "Out of limit");
    assert_eq!(Packet::frame_length(1).unwrap(), 1);
    assert_eq!(Packet::frame_length(10239).unwrap(), 10239);
}

#[test]
fn from_frame_puts_the_length_back() {
    let p = Packet::from_frame(3, vec![0x01, 7, 8]).unwrap();
    assert_eq!((p.length, p.id, p.data), (3, 1, vec![7, 8]));
}

#[test]
fn handshake_deserializes() {
    let h = HandshakePacket::deserialize(packet(0, handshake_data(VarInt::as_varint(340), "localhost", 25565, 1))).unwrap();
    assert_eq!(h.version, 340);
    assert_eq!(h.address, "localhost");
    assert_eq!(h.port, 25565);
    assert!(matches!(h.status, HandshakeStatus::Status));
    assert_eq!(h.debug_text(), "Handshake(Version: 340, Address: localhost, Port: 25565, Status: Status)");
    let h = HandshakePacket::deserialize(packet(0, handshake_data(vec![0xfb, 0xff, 0xff, 0xff, 0x0f], "", 1, 2))).unwrap();
    assert!(matches!(h.status, HandshakeStatus::Login));
    assert_eq!(h.debug_text(), "Handshake(Version: -5, Address: , Port: 1, Status: Login)");
}

#[test]
fn handshake_refuses_broken_packets() {
    let e = HandshakePacket::deserialize(packet(1, handshake_data(VarInt::as_varint(340), "a", 1, 1))).err().unwrap();
    assert_eq!(e.kind, ErrorKind::BrokenPacket);
    assert_eq!(e.message, "Broken Packet");
    let e = HandshakePacket::deserialize(packet(0, handshake_data(VarInt::as_varint(340), "a", 1, 3))).err().unwrap();
    assert_eq!(e.kind, ErrorKind::BrokenPacket);
    assert_eq!(e.message, "Broken Handshake Packet");
    let mut short = handshake_data(VarInt::as_varint(340), "a", 1, 1);
    short.pop();
    let e = HandshakePacket::deserialize(packet(0, short)).err().unwrap();
    assert_eq!(e.kind, ErrorKind::OutOfRange);
}

#[test]
fn login_start_reads_the_name() {
    let l = LoginStartPacket::deserialize(packet(0, vec![5, b'S', b't', b'e', b'v', b'e'])).unwrap();
    assert_eq!(l.name, "Steve");
    assert!(l.sid_data.is_none());
    assert!(l.uuid.is_none());
    let e = LoginStartPacket::deserialize(packet(2, vec![0])).err().unwrap();
    assert_eq!(e.kind, ErrorKind::BrokenPacket);
    assert_eq!(e.message, "Broken Packet");
}

#[test]
fn ping_deserializes_both_requests() {
    assert!(matches!(PingPacket::deserialize(packet(0, vec![])).unwrap(), PingPacket::ServerListPing()));
    match PingPacket::deserialize(packet(1, vec![0, 0, 0, 0, 0, 0, 1, 2])).unwrap() {
        PingPacket::Ping { payload } => assert_eq!(payload, 0x0102),
        _ => panic!("expected a ping"),
    }
    let e = PingPacket::deserialize(packet(1, vec![0, 0])).err().unwrap();
    assert_eq!(e.kind, ErrorKind::OutOfRange);
    let e = PingPacket::deserialize(packet(3, vec![])).err().unwrap();
    assert_eq!(e.kind, ErrorKind::BrokenPacket);
    assert_eq!(e.message, "Broken Packet");
}

#[test]
fn pong_serializes() {
    let b = PongPacket::Pong { payload: 1 }.serialize();
    assert_eq!(b, vec![9, 1, 1, 0, 0, 0, 0, 0, 0, 0]);
    let b = PongPacket::ServerListPing { data: String::from("{}") }.serialize();
    assert_eq!(b, vec![4, 0, 2, b'{', b'}']);
}

#[test]
fn login_success_sends_the_uuid_text() {
    let b = LoginPacket::Success(0x0123456789abcdef0123456789abcdef, String::from("Steve")).serialize();
    let mut expected = vec![39, 2, 36];
    expected.extend_from_slice(b"01234567-89ab-cdef-0123-456789abcdef");
    expected.push(0);
    assert_eq!(b, expected);
}

#[test]
fn login_block_sends_the_reason() {
    let b = LoginPacket::Block(String::from("{\"text\":\"no\"}")).serialize();
    let mut expected = vec![15, 0, 13];
    expected.extend_from_slice(b"{\"text\":\"no\"}");
    assert_eq!(b, expected);
}
