//! Status packets sent to the client, and the data of a status answer.

use crate::mc_types::{
    convert_i64, convert_string, convert_var_int, get_packet, get_string, lemma_string_round_trip,
    lemma_try_i64_round_trip, read_frame_id, spec_convert_i64, spec_convert_string,
    spec_convert_var_int, spec_get_packet, spec_get_string, spec_read_frame_id, spec_string_fits,
    spec_try_get_i64, try_get_i64, Chat, Packet, PacketError, ProtocolError, VarIntError,
};
use vstd::prelude::*;

verus! {

/// The version that a status answer names.
pub struct StatusVersion {
    pub name: String,
    pub protocol: i32,
}

/// One player of the sample in a status answer.
pub struct StatusPlayerInfo {
    pub name: String,
    pub id: String,
}

/// The player counts of a status answer.
pub struct StatusPlayers {
    pub max: i32,
    pub online: i32,
    pub sample: Option<Vec<StatusPlayerInfo>>,
}

/// All that a status answer says. An absent member is left out of the
/// answer's JSON.
#[allow(non_snake_case)]
pub struct StatusResponseData {
    pub version: StatusVersion,
    pub description: Chat,
    pub players: StatusPlayers,
    pub favicon: Option<String>,
    pub enforcesSecureChat: Option<bool>,
    pub previewsChat: Option<bool>,
}

/// The packets that a server may send in the status phase.
pub enum StatusPackets {
    Status(Status),
    Ping(Ping),
}

impl StatusPackets {
    /// Takes one frame off the stream and reads it as a packet of the status phase: id 0 is a
    /// status answer, id 1 the answer to a ping.
    /// A frame led by an id outside the table is refused with
    /// `InvalidPacketId`; the frames behind it stay in the stream.
    pub fn read(stream: &mut Vec<u8>) -> (r: Result<Self, ProtocolError>)
        ensures
            final(stream)@ == spec_read_frame_id(old(stream)@).1,
            match spec_read_frame_id(old(stream)@).0 {
                Err(e) => r matches Err(f) && f == ProtocolError::VarInt(e),
                Ok((id, body)) => if id == Status::spec_packet_id() {
                    match r {
                        Ok(StatusPackets::Status(p)) => spec_get_packet::<Status>(body) == Ok::<
                            Seq<char>,
                            ProtocolError,
                        >(p@),
                        Ok(_) => false,
                        Err(e) => spec_get_packet::<Status>(body) == Err::<Seq<char>, ProtocolError>(e),
                    }
                } else if id == Ping::spec_packet_id() {
                    match r {
                        Ok(StatusPackets::Ping(p)) => spec_get_packet::<Ping>(body) == Ok::<
                            Ping,
                            ProtocolError,
                        >(p@),
                        Ok(_) => false,
                        Err(e) => spec_get_packet::<Ping>(body) == Err::<Ping, ProtocolError>(e),
                    }
                } else {
                    r matches Err(f) && f == ProtocolError::Packet(PacketError::InvalidPacketId)
                },
            },
    {
        let (packet_id, mut data) = match read_frame_id(stream) {
            Ok(found) => found,
            Err(e) => {
                return Err(ProtocolError::VarInt(e));
            },
        };
        if packet_id == Status::packet_id() {
            match get_packet::<Status>(&mut data) {
                Ok(p) => Ok(StatusPackets::Status(p)),
                Err(e) => Err(e),
            }
        } else if packet_id == Ping::packet_id() {
            match get_packet::<Ping>(&mut data) {
                Ok(p) => Ok(StatusPackets::Ping(p)),
                Err(e) => Err(e),
            }
        } else {
            Err(ProtocolError::Packet(PacketError::InvalidPacketId))
        }
    }
}

/// The status answer: a JSON text.
pub struct Status {
    pub response: String,
}

impl View for Status {
    type V = Seq<char>;

    open spec fn view(&self) -> Seq<char> {
        self.response@
    }
}

impl Packet for Status {
    open spec fn spec_packet_id() -> i32 {
        0
    }

    open spec fn spec_get(data: Seq<u8>) -> (Result<Seq<char>, VarIntError>, Seq<u8>) {
        spec_get_string(data)
    }

    open spec fn spec_body(v: Seq<char>) -> Seq<u8> {
        spec_convert_string(v)
    }

    open spec fn spec_fits(v: Seq<char>) -> bool {
        spec_string_fits(v)
    }

    fn packet_id() -> (id: i32) {
        0
    }

    fn get(data: &mut Vec<u8>) -> (r: Result<Self, VarIntError>) {
        match get_string(data) {
            Ok(response) => Ok(Self { response }),
            Err(e) => Err(e),
        }
    }

    fn convert(&self) -> (data: Vec<u8>) {
        let mut data: Vec<u8> = Vec::new();
        data.append(&mut convert_var_int(Self::packet_id()));
        data.append(&mut convert_string(self.response.as_str()));
        proof {
            assert(data@ =~= spec_convert_var_int(Self::spec_packet_id()) + Self::spec_body(
                self@,
            ));
        }
        data
    }

    proof fn lemma_round_trip(v: Seq<char>, rest: Seq<u8>) {
        lemma_string_round_trip(v, rest);
    }
}

/// The answer to a ping: the eight bytes of the ping.
pub struct Ping {
    pub payload: i64,
}

impl View for Ping {
    type V = Ping;

    open spec fn view(&self) -> Ping {
        *self
    }
}

impl Packet for Ping {
    open spec fn spec_packet_id() -> i32 {
        1
    }

    open spec fn spec_get(data: Seq<u8>) -> (Result<Ping, VarIntError>, Seq<u8>) {
        match spec_try_get_i64(data) {
            (Err(e), rest) => (Err(e), rest),
            (Ok(payload), rest) => (Ok(Ping { payload }), rest),
        }
    }

    open spec fn spec_body(v: Ping) -> Seq<u8> {
        spec_convert_i64(v.payload)
    }

    open spec fn spec_fits(v: Ping) -> bool {
        true
    }

    fn packet_id() -> (id: i32) {
        1
    }

    fn get(data: &mut Vec<u8>) -> (r: Result<Self, VarIntError>) {
        match try_get_i64(data) {
            Ok(payload) => Ok(Self { payload }),
            Err(e) => Err(e),
        }
    }

    fn convert(&self) -> (data: Vec<u8>) {
        let mut data: Vec<u8> = Vec::new();
        data.append(&mut convert_var_int(Self::packet_id()));
        data.append(&mut convert_i64(self.payload));
        proof {
            assert(data@ =~= spec_convert_var_int(Self::spec_packet_id()) + Self::spec_body(
                self@,
            ));
        }
        data
    }

    proof fn lemma_round_trip(v: Ping, rest: Seq<u8>) {
        lemma_try_i64_round_trip(v.payload, rest);
    }
}

} // verus!
