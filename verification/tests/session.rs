use mc_proxy::encrypt::{hex, server_id_hash, signed_hex};
use mc_proxy::handshake::serverbound::Handshake;
use mc_proxy::mc_types::{Packet, PacketError, ProtocolError};
use mc_proxy::motd::{load_motds, motd, pick_motd};
use mc_proxy::status;
use mc_proxy::whitelist::Player;

#[test]
fn server_id_hash_known_values() {
    assert_eq!(
        server_id_hash("Notch", &vec![], &vec![]),
        "4ed1f46bbe04bc756bcb17c0c7ce3e4632f06a48"
    );
    assert_eq!(
        server_id_hash("jeb_", &vec![], &vec![]),
        "-7c9d5b0044c130109a5d7b5fb5c317c02b4e28c1"
    );
    assert_eq!(
        server_id_hash("simon", &vec![], &vec![]),
        "88e16a1019277b15d58faf0541e11910eb756f6"
    );
}

#[test]
fn server_id_hash_joins_its_three_parts() {
    assert_eq!(
        server_id_hash("No", &b"tc".to_vec(), &b"h".to_vec()),
        "4ed1f46bbe04bc756bcb17c0c7ce3e4632f06a48"
    );
    assert_eq!(
        server_id_hash("", &b"je".to_vec(), &b"b_".to_vec()),
        "-7c9d5b0044c130109a5d7b5fb5c317c02b4e28c1"
    );
    assert!(server_id_hash("", &vec![1; 16], &vec![2; 162]) != server_id_hash("", &vec![1; 16], &vec![3; 162]));
}

#[test]
fn signed_hex_of_small_numbers() {
    assert_eq!(signed_hex(&vec![]), "0");
    assert_eq!(signed_hex(&vec![0]), "0");
    assert_eq!(signed_hex(&vec![0, 0, 0]), "0");
    assert_eq!(signed_hex(&vec![0x00, 0x0F]), "f");
    assert_eq!(signed_hex(&vec![0x00, 0x10]), "10");
    assert_eq!(signed_hex(&vec![0x7F]), "7f");
    assert_eq!(signed_hex(&vec![0x01, 0x00]), "100");
    assert_eq!(signed_hex(&vec![0xFF]), "-1");
    assert_eq!(signed_hex(&vec![0x80]), "-80");
    assert_eq!(signed_hex(&vec![0xFF, 0x00]), "-100");
    assert_eq!(signed_hex(&vec![0x80, 0x00]), "-8000");
    assert_eq!(signed_hex(&vec![0xFF, 0xFF, 0xFE]), "-2");
    assert_eq!(signed_hex(&vec![0x12, 0x34, 0xAB]), "1234ab");
}

#[test]
fn hex_drops_leading_zeros() {
    assert_eq!(hex(&vec![]), "0");
    assert_eq!(hex(&vec![0, 0]), "0");
    assert_eq!(hex(&vec![0, 0x0A]), "a");
    assert_eq!(hex(&vec![0x0A, 0x00]), "a00");
    assert_eq!(hex(&vec![0xFF, 0xFF]), "ffff");
    assert_eq!(hex(&vec![0x01, 0x23, 0x45, 0x67, 0x89, 0xAB, 0xCD, 0xEF]), "123456789abcdef");
}

#[test]
fn motds_are_loaded_from_text() {
    let doc = load_motds(Some("{\"line1\":[\"a\"],\"line2\":[\"x\"]}"));
    assert_eq!(motd(&doc), "a\nx");
    let doc = load_motds(Some("not json"));
    assert_eq!(motd(&doc), "A Minecraft Server Proxy");
    let doc = load_motds(None);
    assert_eq!(motd(&doc), "A Minecraft Server Proxy");
    assert_eq!(pick_motd(&doc, 0, 0), "A Minecraft Server Proxy");
}

#[test]
fn packets_read_and_write_themselves() {
    let packet = Handshake {
        protocol_version: 762,
        server_address: "x".to_string(),
        server_port: 25565,
        next_state: 1,
    };
    let mut stream: Vec<u8> = vec![];
    packet.write(&mut stream);
    status::serverbound::Status {}.write(&mut stream);
    status::serverbound::Ping { payload: 7 }.write(&mut stream);
    assert_eq!(
        stream,
        vec![
            0x08, 0x00, 0xFA, 0x05, 0x01, b'x', 0x63, 0xDD, 0x01, 0x01, 0x00, 0x09, 0x01, 0, 0,
            0, 0, 0, 0, 0, 7
        ]
    );
    let read = Handshake::read(&mut stream).unwrap();
    assert_eq!(read.server_address, "x");
    assert_eq!(read.server_port, 25565);
    assert!(status::serverbound::Status::read(&mut stream).is_ok());
    assert!(matches!(
        status::serverbound::Status::read(&mut stream),
        Err(ProtocolError::Packet(PacketError::InvalidPacketId))
    ));
    assert!(stream.is_empty());
}

#[test]
fn players_are_equal_by_name_and_uuid() {
    let a = Player { name: "a".to_string(), player_uuid: Some(1), active: true };
    let b = Player { name: "a".to_string(), player_uuid: Some(1), active: false };
    let c = Player { name: "a".to_string(), player_uuid: Some(2), active: true };
    let d = Player { name: "d".to_string(), player_uuid: Some(1), active: true };
    assert!(a == b);
    assert!(a != c);
    assert!(a != d);
}
