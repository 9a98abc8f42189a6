use mc_proxy::handshake::serverbound::{Handshake, HandshakeEnum};
use mc_proxy::login;
use mc_proxy::login::clientbound::{
    Disconnect, EncryptionRequest, LoginSuccess, LoginSuccessProperty,
};
use mc_proxy::login::serverbound::{EncryptionResponse, LoginStart};
use mc_proxy::mc_types::{
    get_packet, read_packet, write_data, write_packet, Packet, PacketError, ProtocolError,
    VarIntError,
};
use mc_proxy::status;

fn framed<P: Packet>(packet: &P) -> Vec<u8> {
    let mut stream: Vec<u8> = vec![];
    write_packet(packet, &mut stream);
    stream
}

fn frame_with_id(id: u8, body: &[u8]) -> Vec<u8> {
    let mut payload = vec![id];
    payload.extend_from_slice(body);
    let mut stream: Vec<u8> = vec![];
    write_data(&mut stream, &mut payload);
    stream
}

#[test]
fn packet_ids_follow_the_table() {
    assert_eq!(Handshake::packet_id(), 0);
    assert_eq!(status::serverbound::Status::packet_id(), 0);
    assert_eq!(status::serverbound::Ping::packet_id(), 1);
    assert_eq!(status::clientbound::Status::packet_id(), 0);
    assert_eq!(status::clientbound::Ping::packet_id(), 1);
    assert_eq!(LoginStart::packet_id(), 0);
    assert_eq!(EncryptionResponse::packet_id(), 1);
    assert_eq!(Disconnect::packet_id(), 0);
    assert_eq!(EncryptionRequest::packet_id(), 1);
    assert_eq!(LoginSuccess::packet_id(), 2);
}

#[test]
fn handshake_known_bytes() {
    let packet = Handshake {
        protocol_version: 762,
        server_address: "x".to_string(),
        server_port: 25565,
        next_state: 1,
    };
    assert_eq!(packet.convert(), vec![0x00, 0xFA, 0x05, 0x01, b'x', 0x63, 0xDD, 0x01]);
    assert_eq!(
        framed(&packet),
        vec![0x08, 0x00, 0xFA, 0x05, 0x01, b'x', 0x63, 0xDD, 0x01]
    );
}

#[test]
fn handshake_round_trip() {
    let packet = Handshake {
        protocol_version: 762,
        server_address: "play.example.org".to_string(),
        server_port: 25565,
        next_state: 2,
    };
    let mut stream = framed(&packet);
    stream.push(0x77);
    let read = read_packet::<Handshake>(&mut stream).unwrap();
    assert_eq!(read.protocol_version, 762);
    assert_eq!(read.server_address, "play.example.org");
    assert_eq!(read.server_port, 25565);
    assert_eq!(read.next_state, 2);
    assert_eq!(stream, vec![0x77]);
}

#[test]
fn handshake_enum_reads_handshake() {
    let packet = Handshake {
        protocol_version: -1,
        server_address: String::new(),
        server_port: 0,
        next_state: 1,
    };
    let mut stream = framed(&packet);
    match HandshakeEnum::read(&mut stream) {
        Ok(HandshakeEnum::Handshake(read)) => {
            assert_eq!(read.protocol_version, -1);
            assert_eq!(read.server_address, "");
            assert_eq!(read.server_port, 0);
            assert_eq!(read.next_state, 1);
        }
        Err(e) => panic!("{:?}", e),
    }
    assert!(stream.is_empty());
}

#[test]
fn handshake_truncated_body() {
    let mut stream = frame_with_id(0, &[0xFA, 0x05, 0x01, b'x', 0x63]);
    assert!(matches!(
        read_packet::<Handshake>(&mut stream),
        Err(ProtocolError::VarInt(VarIntError::RanOutOfBytes))
    ));
    assert!(stream.is_empty());
}

#[test]
fn handshake_unknown_id_leaves_later_frames() {
    let mut stream = frame_with_id(7, &[1, 2, 3]);
    let later = frame_with_id(0, &[]);
    stream.extend_from_slice(&later);
    assert!(matches!(
        HandshakeEnum::read(&mut stream),
        Err(ProtocolError::Packet(PacketError::InvalidPacketId))
    ));
    assert_eq!(stream, later);
}

#[test]
fn status_request_round_trip() {
    let stream = framed(&status::serverbound::Status {});
    assert_eq!(stream, vec![0x01, 0x00]);
    let mut stream = stream;
    assert!(matches!(
        status::serverbound::StatusPackets::read(&mut stream),
        Ok(status::serverbound::StatusPackets::Status(_))
    ));
    assert!(stream.is_empty());
}

#[test]
fn serverbound_ping_round_trip() {
    let packet = status::serverbound::Ping { payload: 0x1122334455667788 };
    let mut stream = framed(&packet);
    assert_eq!(
        stream,
        vec![0x09, 0x01, 0x11, 0x22, 0x33, 0x44, 0x55, 0x66, 0x77, 0x88]
    );
    match status::serverbound::StatusPackets::read(&mut stream) {
        Ok(status::serverbound::StatusPackets::Ping(read)) => {
            assert_eq!(read.payload, 0x1122334455667788)
        }
        _ => panic!("expected a ping"),
    }
}

#[test]
fn serverbound_status_unknown_id() {
    let mut stream = frame_with_id(2, &[]);
    stream.extend_from_slice(&[0x01, 0x00]);
    assert!(matches!(
        status::serverbound::StatusPackets::read(&mut stream),
        Err(ProtocolError::Packet(PacketError::InvalidPacketId))
    ));
    assert_eq!(stream, vec![0x01, 0x00]);
    assert!(matches!(
        status::serverbound::StatusPackets::read(&mut stream),
        Ok(status::serverbound::StatusPackets::Status(_))
    ));
}

#[test]
fn serverbound_ping_truncated() {
    let mut stream = frame_with_id(1, &[1, 2, 3]);
    assert!(matches!(
        status::serverbound::StatusPackets::read(&mut stream),
        Err(ProtocolError::VarInt(VarIntError::RanOutOfBytes))
    ));
}

#[test]
fn clientbound_status_round_trip() {
    let packet = status::clientbound::Status { response: "{\"a\":1}".to_string() };
    let mut stream = framed(&packet);
    match status::clientbound::StatusPackets::read(&mut stream) {
        Ok(status::clientbound::StatusPackets::Status(read)) => {
            assert_eq!(read.response, "{\"a\":1}")
        }
        _ => panic!("expected a status answer"),
    }
    let packet = status::clientbound::Ping { payload: -5 };
    let mut stream = framed(&packet);
    match status::clientbound::StatusPackets::read(&mut stream) {
        Ok(status::clientbound::StatusPackets::Ping(read)) => assert_eq!(read.payload, -5),
        _ => panic!("expected a pong"),
    }
    let mut stream = frame_with_id(9, &[]);
    assert!(matches!(
        status::clientbound::StatusPackets::read(&mut stream),
        Err(ProtocolError::Packet(PacketError::InvalidPacketId))
    ));
}

#[test]
fn login_start_round_trip() {
    let with_uuid = LoginStart { name: "alice".to_string(), player_uuid: Some(1) };
    let bytes = with_uuid.convert();
    assert_eq!(bytes.len(), 1 + 6 + 1 + 16);
    assert_eq!(bytes[7], 1);
    assert_eq!(bytes[23], 1);
    let mut stream = framed(&with_uuid);
    match login::serverbound::Login::read(&mut stream) {
        Ok(login::serverbound::Login::LoginStart(read)) => {
            assert_eq!(read.name, "alice");
            assert_eq!(read.player_uuid, Some(1));
        }
        _ => panic!("expected a login start"),
    }
    let without = LoginStart { name: "a".to_string(), player_uuid: None };
    assert_eq!(without.convert(), vec![0, 1, b'a', 0]);
    let mut stream = framed(&without);
    let read = read_packet::<LoginStart>(&mut stream).unwrap();
    assert_eq!(read.name, "a");
    assert_eq!(read.player_uuid, None);
}

#[test]
fn login_start_truncated_uuid() {
    let mut stream = frame_with_id(0, &[1, b'a', 1, 0, 0]);
    assert!(matches!(
        read_packet::<LoginStart>(&mut stream),
        Err(ProtocolError::VarInt(VarIntError::RanOutOfBytes))
    ));
}

#[test]
fn encryption_response_round_trip() {
    let packet = EncryptionResponse { shared_secret: vec![1; 128], verify_token: vec![2; 128] };
    let mut stream = framed(&packet);
    match login::serverbound::Login::read(&mut stream) {
        Ok(login::serverbound::Login::EncryptionResponse(read)) => {
            assert_eq!(read.shared_secret, vec![1; 128]);
            assert_eq!(read.verify_token, vec![2; 128]);
        }
        _ => panic!("expected an encryption response"),
    }
    let mut stream = frame_with_id(2, &[]);
    assert!(matches!(
        login::serverbound::Login::read(&mut stream),
        Err(ProtocolError::Packet(PacketError::InvalidPacketId))
    ));
}

#[test]
fn disconnect_round_trip() {
    let packet = Disconnect { reason: "{\"text\":\"bye\"}".to_string() };
    let mut stream = framed(&packet);
    match login::clientbound::Login::read(&mut stream) {
        Ok(login::clientbound::Login::Disconnect(read)) => {
            assert_eq!(read.reason, "{\"text\":\"bye\"}")
        }
        _ => panic!("expected a disconnect"),
    }
}

#[test]
fn encryption_request_round_trip() {
    let packet = EncryptionRequest {
        server_id: String::new(),
        public_key: vec![0x30, 0x81, 0x9F],
        verify_token: vec![1, 2, 3, 4],
    };
    assert_eq!(packet.convert(), vec![1, 0, 3, 0x30, 0x81, 0x9F, 4, 1, 2, 3, 4]);
    let mut stream = framed(&packet);
    match login::clientbound::Login::read(&mut stream) {
        Ok(login::clientbound::Login::EncryptionRequest(read)) => {
            assert_eq!(read.server_id, "");
            assert_eq!(read.public_key, vec![0x30, 0x81, 0x9F]);
            assert_eq!(read.verify_token, vec![1, 2, 3, 4]);
        }
        _ => panic!("expected an encryption request"),
    }
}

fn sample_properties() -> Vec<LoginSuccessProperty> {
    vec![
        LoginSuccessProperty {
            name: "textures".to_string(),
            value: "abc".to_string(),
            signature: Some("sig".to_string()),
        },
        LoginSuccessProperty { name: "n".to_string(), value: String::new(), signature: None },
    ]
}

#[test]
fn property_round_trip() {
    let properties = sample_properties();
    assert_eq!(properties[1].convert(), vec![1, b'n', 0, 0]);
    assert_eq!(
        properties[0].convert(),
        vec![8, b't', b'e', b'x', b't', b'u', b'r', b'e', b's', 3, b'a', b'b', b'c', 1, 3, b's', b'i', b'g']
    );
    let mut data = LoginSuccessProperty::convert_array(&properties);
    assert_eq!(data[0], 2);
    data.push(0x31);
    let read = LoginSuccessProperty::get_array(&mut data).unwrap();
    assert_eq!(data, vec![0x31]);
    assert_eq!(read.len(), 2);
    assert_eq!(read[0].name, "textures");
    assert_eq!(read[0].value, "abc");
    assert_eq!(read[0].signature, Some("sig".to_string()));
    assert_eq!(read[1].name, "n");
    assert_eq!(read[1].value, "");
    assert_eq!(read[1].signature, None);
    let copy = read[0].clone();
    assert_eq!(copy.name, "textures");
    assert_eq!(copy.signature, Some("sig".to_string()));
}

#[test]
fn property_array_errors() {
    let mut data: Vec<u8> = vec![2, 1, b'n', 0, 0];
    assert!(matches!(
        LoginSuccessProperty::get_array(&mut data),
        Err(VarIntError::RanOutOfBytes)
    ));
    let mut data: Vec<u8> = vec![0xFF, 0xFF, 0xFF, 0xFF, 0x0F];
    assert!(matches!(
        LoginSuccessProperty::get_array(&mut data),
        Err(VarIntError::RanOutOfBytes)
    ));
    let mut data: Vec<u8> = vec![0, 5];
    assert_eq!(LoginSuccessProperty::get_array(&mut data).unwrap().len(), 0);
    assert_eq!(data, vec![5]);
    let mut data: Vec<u8> = vec![1, b'n', 0];
    assert!(matches!(LoginSuccessProperty::get(&mut data), Err(VarIntError::RanOutOfBytes)));
}

#[test]
fn login_success_round_trip() {
    let packet = LoginSuccess {
        uuid: 0x0102030405060708090A0B0C0D0E0F10,
        username: "alice".to_string(),
        properties: sample_properties(),
    };
    let mut stream = framed(&packet);
    stream.extend_from_slice(&[1, 2, 3]);
    match login::clientbound::Login::read(&mut stream) {
        Ok(login::clientbound::Login::LoginSuccess(read)) => {
            assert_eq!(read.uuid, 0x0102030405060708090A0B0C0D0E0F10);
            assert_eq!(read.username, "alice");
            assert_eq!(read.properties.len(), 2);
            assert_eq!(read.properties[0].signature, Some("sig".to_string()));
            assert_eq!(read.convert(), packet.convert());
        }
        _ => panic!("expected a login success"),
    }
    assert_eq!(stream, vec![1, 2, 3]);
}

#[test]
fn clientbound_login_unknown_id() {
    let mut stream = frame_with_id(3, &[0]);
    stream.extend_from_slice(&[9, 9]);
    assert!(matches!(
        login::clientbound::Login::read(&mut stream),
        Err(ProtocolError::Packet(PacketError::InvalidPacketId))
    ));
    assert_eq!(stream, vec![9, 9]);
}

#[test]
fn read_packet_refuses_other_id() {
    let mut stream = framed(&status::serverbound::Ping { payload: 1 });
    stream.extend_from_slice(&[1, 0]);
    assert!(matches!(
        read_packet::<status::serverbound::Status>(&mut stream),
        Err(ProtocolError::Packet(PacketError::InvalidPacketId))
    ));
    assert_eq!(stream, vec![1, 0]);
}

#[test]
fn get_packet_reads_body() {
    let mut body: Vec<u8> = vec![0, 0, 0, 0, 0, 0, 0, 42];
    let ping = get_packet::<status::serverbound::Ping>(&mut body).unwrap();
    assert_eq!(ping.payload, 42);
    let mut body: Vec<u8> = vec![0];
    assert!(matches!(
        get_packet::<status::serverbound::Ping>(&mut body),
        Err(ProtocolError::VarInt(VarIntError::RanOutOfBytes))
    ));
}
