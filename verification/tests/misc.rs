use minecraft::error::{Error, ErrorKind};
use minecraft::protocol::server::packet::Packet;
use minecraft::server::config::StartupConfig;
use minecraft::server::session::{advance, Action, Stage};
use minecraft::types::Position;
use minecraft::util::binary::VarInt;

#[test]
fn error_new_keeps_kind_and_message() {
    let e = Error::new(ErrorKind::EOF, "gone");
    assert_eq!(e.kind, ErrorKind::EOF);
    assert_eq!(e.message, "gone");
}

#[test]
fn position_parse_unpacks_signed_fields() {
    let p = Position::parse((1u64 << 38) | (2 << 12) | 3);
    assert_eq!((p.x, p.y, p.z), (1, 3, 2));
    let p = Position::parse(u64::MAX);
    assert_eq!((p.x, p.y, p.z), (-1, -1, -1));
    let p = Position::parse((0x200_0000u64 << 38) | (0x800 as u64));
    assert_eq!((p.x, p.y, p.z), (-0x200_0000, -0x800, 0));
}

#[test]
fn position_to_long_packs_with_wrapped_shifts() {
    assert_eq!(Position { x: 0, y: 5, z: 7 }.to_long(), (7 << 12) | 5);
    assert_eq!(Position { x: 0, y: -1, z: 0 }.to_long(), 0xFFF);
    // the x field is shifted by 38 mod 32 = 6
    assert_eq!(Position { x: 1, y: 0, z: 0 }.to_long(), 64);
}

#[test]
fn position_roundtrips_when_x_is_zero_and_z_small() {
    for (y, z) in [(0, 0), (5, 7), (-1, 1000), (-2048, 0x7ffff), (2047, 3)] {
        let p = Position::parse(Position { x: 0, y, z }.to_long());
        assert_eq!((p.x, p.y, p.z), (0, y, z));
    }
    let p = Position::parse(Position { x: 1, y: 0, z: 0 }.to_long());
    assert_ne!((p.x, p.y, p.z), (1, 0, 0));
}

#[test]
fn defaults_match_a_fresh_configuration() {
    let c = StartupConfig::defaults();
    assert_eq!(c.address, "0.0.0.0:25565");
    assert_eq!(c.max_players, 20);
    assert_eq!(c.ext_dir, "./exts");
    assert_eq!(c.data_dir, "./data");
    assert!(!c.online_mode);
}

fn packet(id: i32, data: Vec<u8>) -> Packet {
    Packet { length: data.len() + 1, id, data }
}

fn handshake(status: u8) -> Packet {
    let mut d = VarInt::as_varint(340);
    d.extend_from_slice(&[1, b'h', 0x63, 0xdd, status]);
    packet(0, d)
}

#[test]
fn session_walks_through_status() {
    let a = advance(Stage::Handshake, handshake(1), false).unwrap();
    assert!(matches!(a, Action::Read(Stage::Status(2))));
    let a = advance(Stage::Status(2), packet(0, vec![]), false).unwrap();
    assert!(matches!(a, Action::SendServerList(Some(Stage::Status(1)))));
    let a = advance(Stage::Status(1), packet(1, vec![0, 0, 0, 0, 0, 0, 0, 9]), false).unwrap();
    assert!(matches!(a, Action::SendPong(9, None)));
}

#[test]
fn session_walks_through_login() {
    let a = advance(Stage::Handshake, handshake(2), false).unwrap();
    assert!(matches!(a, Action::Read(Stage::Login)));
    match advance(Stage::Login, packet(0, vec![2, b'h', b'i']), false).unwrap() {
        Action::Join(p) => assert_eq!(p.name, "hi"),
        _ => panic!("expected the player to join"),
    }
    let e = advance(Stage::Login, packet(0, vec![2, b'h', b'i']), true).err().unwrap();
    assert_eq!(e.kind, ErrorKind::Other);
    assert_eq!(e.message, "No error");
    let e = advance(Stage::Login, packet(1, vec![]), false).err().unwrap();
    assert_eq!(e.kind, ErrorKind::BrokenPacket);
    assert_eq!(e.message, "");
}

#[test]
fn session_passes_reading_errors_on() {
    let e = advance(Stage::Handshake, handshake(9), false).err().unwrap();
    assert_eq!(e.message, "Broken Handshake Packet");
    let e = advance(Stage::Status(2), packet(4, vec![]), false).err().unwrap();
    assert_eq!(e.kind, ErrorKind::BrokenPacket);
}
