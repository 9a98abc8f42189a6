//! The status phase: the answer to a status request, the echo of a ping,
//! the probe of the backend, and the legacy status answer.

use crate::handshake::serverbound::{Handshake, HandshakeView};
use crate::info_messages;
use crate::listener::ProxyInfo;
use crate::mc_types::{
    convert_u16, read_packet, spec_convert_u16, spec_get_packet, spec_read_frame_id,
    spec_read_packet, spec_write_packet, write_packet, Chat, Packet, PacketError, ProtocolError,
    VERSION_NAME, VERSION_PROTOCOL,
};
use crate::status::clientbound;
use crate::status::clientbound::{StatusPlayers, StatusResponseData, StatusVersion};
use crate::status::serverbound;
use vstd::prelude::*;
use vstd::string::{StrSliceExecFns, StringExecFns};

verus! {

/// What the proxy does with one packet of the status phase.
pub enum StatusStep {
    /// A status request: answer it and read on.
    Respond,
    /// A ping: these bytes, the echo, go to the client, and the connection
    /// is closed.
    Pong(Vec<u8>),
    /// The packet could not be read: close.
    Failed(ProtocolError),
}

/// The maximum that a status answer names while the backend is there.
pub const PLAYERS_MAX: i32 = -13;

/// Whether `data` is the answer to a status request, given the player
/// counts of the backend if the probe got them, the message of the day
/// and the icon.
pub open spec fn spec_status_response(
    data: StatusResponseData,
    online_players: Option<StatusPlayers>,
    motd: Seq<char>,
    favicon: Option<String>,
) -> bool {
    &&& data.favicon == favicon
    &&& data.enforcesSecureChat == Some(false)
    &&& data.previewsChat == Some(false)
    &&& match online_players {
        Some(upstream) => {
            &&& data.version.name@ == VERSION_NAME@
            &&& data.version.protocol == VERSION_PROTOCOL
            &&& data.description.text@ == motd
            &&& data.players.max == PLAYERS_MAX
            &&& data.players.online == upstream.online
            &&& data.players.sample == upstream.sample
        },
        None => {
            &&& data.version.name@ == "Old"@
            &&& data.version.protocol == 0
            &&& data.description.text@ == info_messages::BACKEND_DOWN_PING@
            &&& data.players.max == 0
            &&& data.players.online == 0
            &&& data.players.sample is None
        },
    }
}

/// The answer to a status request. With the player counts of the backend
/// it names the proxy's version, the message of the day and the backend's
/// players; without them it says that the backend is down.
pub fn status_response(
    online_players: Option<StatusPlayers>,
    motd: String,
    favicon: Option<String>,
) -> (data: StatusResponseData)
    ensures
        spec_status_response(data, online_players, motd@, favicon),
{
    match online_players {
        Some(upstream) => StatusResponseData {
            version: StatusVersion { name: VERSION_NAME.to_owned(), protocol: VERSION_PROTOCOL },
            description: Chat { text: motd },
            players: StatusPlayers {
                max: PLAYERS_MAX,
                online: upstream.online,
                sample: upstream.sample,
            },
            favicon,
            enforcesSecureChat: Some(false),
            previewsChat: Some(false),
        },
        None => StatusResponseData {
            version: StatusVersion { name: "Old".to_owned(), protocol: 0 },
            description: Chat { text: info_messages::BACKEND_DOWN_PING.to_owned() },
            players: StatusPlayers { max: 0, online: 0, sample: None },
            favicon,
            enforcesSecureChat: Some(false),
            previewsChat: Some(false),
        },
    }
}

/// The bytes of the echo of a ping: a frame that holds the ping's payload.
pub open spec fn spec_pong(payload: i64) -> Seq<u8> {
    spec_write_packet::<clientbound::Ping>(clientbound::Ping { payload })
}

/// Takes one frame off what the client sent and says what to do with it.
/// A status request is to be answered; a ping is echoed with its payload
/// and ends the phase; anything else ends it with nothing sent.
pub fn respond_status(received: &mut Vec<u8>) -> (r: StatusStep)
    ensures
        final(received)@ == spec_read_frame_id(old(received)@).1,
        match spec_read_frame_id(old(received)@).0 {
            Err(e) => r matches StatusStep::Failed(f) && f == ProtocolError::VarInt(e),
            Ok((id, body)) => if id == serverbound::Status::spec_packet_id() {
                r is Respond
            } else if id == serverbound::Ping::spec_packet_id() {
                match spec_get_packet::<serverbound::Ping>(body) {
                    Ok(ping) => r matches StatusStep::Pong(bytes) && bytes@ == spec_pong(
                        ping.payload,
                    ),
                    Err(e) => r matches StatusStep::Failed(f) && f == e,
                }
            } else {
                r matches StatusStep::Failed(f) && f == ProtocolError::Packet(
                    PacketError::InvalidPacketId,
                )
            },
        },
{
    match serverbound::StatusPackets::read(received) {
        Ok(serverbound::StatusPackets::Status(_)) => StatusStep::Respond,
        Ok(serverbound::StatusPackets::Ping(packet)) => {
            let new_packet = clientbound::Ping { payload: packet.payload };
            let mut bytes: Vec<u8> = Vec::new();
            write_packet(&new_packet, &mut bytes);
            proof {
                assert(bytes@ =~= spec_write_packet::<clientbound::Ping>(new_packet@));
            }
            StatusStep::Pong(bytes)
        },
        Err(e) => StatusStep::Failed(e),
    }
}

/// The bytes of the probe for the backend's status: a handshake for the
/// status phase, then a status request.
pub open spec fn spec_upstream_request(backend_addr: Seq<char>, backend_port: u16) -> Seq<u8> {
    spec_write_packet::<Handshake>(
        HandshakeView {
            protocol_version: VERSION_PROTOCOL,
            server_address: backend_addr,
            server_port: backend_port,
            next_state: 1,
        },
    ) + spec_write_packet::<serverbound::Status>(serverbound::Status {  })
}

/// The bytes that ask the backend for its status.
pub fn get_upstream_status(proxy_info: &ProxyInfo) -> (bytes: Vec<u8>)
    ensures
        bytes@ == spec_upstream_request(proxy_info.backend_addr@, proxy_info.backend_port),
{
    let mut bytes: Vec<u8> = Vec::new();
    let handshake = Handshake {
        protocol_version: VERSION_PROTOCOL,
        server_address: proxy_info.backend_addr.clone(),
        server_port: proxy_info.backend_port,
        next_state: 1,
    };
    write_packet(&handshake, &mut bytes);
    write_packet(&serverbound::Status {  }, &mut bytes);
    proof {
        assert(bytes@ =~= spec_upstream_request(
            proxy_info.backend_addr@,
            proxy_info.backend_port,
        ));
    }
    bytes
}

/// Takes the backend's answer to the probe off what it sent: the JSON
/// text of its status.
pub fn read_upstream_status(received: &mut Vec<u8>) -> (r: Result<String, ProtocolError>)
    ensures
        final(received)@ == spec_read_frame_id(old(received)@).1,
        match r {
            Ok(json) => spec_read_packet::<clientbound::Status>(old(received)@) == Ok::<
                Seq<char>,
                ProtocolError,
            >(json@),
            Err(e) => spec_read_packet::<clientbound::Status>(old(received)@) == Err::<
                Seq<char>,
                ProtocolError,
            >(e),
        },
{
    match read_packet::<clientbound::Status>(received) {
        Ok(packet) => Ok(packet.response),
        Err(e) => Err(e),
    }
}

/// The UTF-16 code units of one character.
pub open spec fn spec_utf16_units(c: char) -> Seq<u16> {
    let v = c as u32;
    if v < 0x10000 {
        seq![v as u16]
    } else {
        seq![
            (0xD800 + (v - 0x10000) / 0x400) as u16,
            (0xDC00 + (v - 0x10000) % 0x400) as u16,
        ]
    }
}

/// The UTF-16 code units of a text.
pub open spec fn spec_utf16(text: Seq<char>) -> Seq<u16>
    decreases text.len(),
{
    if text.len() == 0 {
        Seq::empty()
    } else {
        spec_utf16(text.drop_last()) + spec_utf16_units(text.last())
    }
}

/// The bytes of a run of code units, each one big-endian.
pub open spec fn spec_units_be(units: Seq<u16>) -> Seq<u8>
    decreases units.len(),
{
    if units.len() == 0 {
        Seq::empty()
    } else {
        spec_units_be(units.drop_last()) + spec_convert_u16(units.last())
    }
}

/// The text of the legacy status answer: six fields with a NUL between
/// them.
pub open spec fn spec_legacy_text() -> Seq<char> {
    "\u{a7}1\u{0}127\u{0}"@ + VERSION_NAME@ + "\u{0}YTD Proxy\u{0}\u{a7}0\u{0}\u{a7}10"@
}

/// The legacy status answer for a text of at most 65535 code units: the
/// byte 0xFF, the number of code units, and the code units, all
/// big-endian.
pub open spec fn spec_legacy_status(text: Seq<char>) -> Seq<u8> {
    seq![0xFFu8] + spec_convert_u16(spec_utf16(text).len() as u16) + spec_units_be(
        spec_utf16(text),
    )
}

/// A text has at most two code units for each character.
pub proof fn lemma_utf16_len(text: Seq<char>)
    ensures
        spec_utf16(text).len() <= 2 * text.len(),
    decreases text.len(),
{
    if text.len() > 0 {
        lemma_utf16_len(text.drop_last());
    }
}

/// Writes a text as UTF-16 code units.
pub fn encode_utf16(text: &str) -> (units: Vec<u16>)
    ensures
        units@ == spec_utf16(text@),
        units@.len() <= 2 * text@.len(),
{
    let mut units: Vec<u16> = Vec::new();
    let count: usize = text.unicode_len();
    let mut i: usize = 0;
    proof {
        assert(text@.take(0) =~= Seq::<char>::empty());
    }
    while i < count
        invariant
            i <= count,
            count == text@.len(),
            units@ == spec_utf16(text@.take(i as int)),
            units@.len() <= 2 * i,
        decreases count - i,
    {
        let c: char = text.get_char(i);
        let v: u32 = c as u32;
        proof {
            assert(text@.take(i + 1).drop_last() =~= text@.take(i as int));
            assert(text@.take(i + 1).last() == c);
        }
        if v < 0x10000 {
            units.push(v as u16);
            proof {
                assert(units@ =~= spec_utf16(text@.take(i as int)) + spec_utf16_units(c));
            }
        } else {
            let high: u32 = 0xD800 + (v - 0x10000) / 0x400;
            let low: u32 = 0xDC00 + (v - 0x10000) % 0x400;
            units.push(high as u16);
            units.push(low as u16);
            proof {
                assert(units@ =~= spec_utf16(text@.take(i as int)) + spec_utf16_units(c));
            }
        }
        i = i + 1;
    }
    proof {
        assert(text@.take(count as int) =~= text@);
    }
    units
}

/// The legacy status answer that carries `text`, or nothing where the
/// text has more code units than its length field can hold.
pub fn legacy_status(text: &str) -> (r: Option<Vec<u8>>)
    ensures
        match r {
            Some(bytes) => spec_utf16(text@).len() <= u16::MAX && bytes@ == spec_legacy_status(
                text@,
            ),
            None => spec_utf16(text@).len() > u16::MAX,
        },
{
    let units = encode_utf16(text);
    if units.len() > 65535 {
        return None;
    }
    let mut bytes: Vec<u8> = Vec::new();
    bytes.push(0xFF);
    bytes.append(&mut convert_u16(units.len() as u16));
    let ghost head = bytes@;
    let mut i: usize = 0;
    proof {
        assert(units@.take(0) =~= Seq::<u16>::empty());
        assert(bytes@ =~= head + spec_units_be(units@.take(0)));
    }
    while i < units.len()
        invariant
            i <= units@.len(),
            head == seq![0xFFu8] + spec_convert_u16(units@.len() as u16),
            bytes@ == head + spec_units_be(units@.take(i as int)),
        decreases units@.len() - i,
    {
        bytes.append(&mut convert_u16(units[i]));
        proof {
            assert(units@.take(i + 1).drop_last() =~= units@.take(i as int));
            assert(units@.take(i + 1).last() == units@[i as int]);
            assert(bytes@ =~= head + spec_units_be(units@.take(i + 1)));
        }
        i = i + 1;
    }
    proof {
        assert(units@.take(units@.len() as int) =~= units@);
    }
    Some(bytes)
}

/// The answer to a legacy status request.
pub fn respond_legacy_status() -> (bytes: Vec<u8>)
    ensures
        bytes@ == spec_legacy_status(spec_legacy_text()),
{
    let mut text = String::from_str("\u{a7}1\u{0}127\u{0}");
    text.append(VERSION_NAME);
    text.append("\u{0}YTD Proxy\u{0}\u{a7}0\u{0}\u{a7}10");
    proof {
        reveal_strlit("\u{a7}1\u{0}127\u{0}");
        reveal_strlit("1.19.4");
        reveal_strlit("\u{0}YTD Proxy\u{0}\u{a7}0\u{0}\u{a7}10");
        assert(text@.len() <= 100);
        assert(text@ =~= spec_legacy_text());
        lemma_utf16_len(text@);
    }
    match legacy_status(text.as_str()) {
        Some(bytes) => bytes,
        None => Vec::new(),
    }
}

} // verus!
