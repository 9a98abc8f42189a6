//! Status packets sent by the client.

use crate::mc_types::{
    convert_i64, convert_var_int, get_packet, lemma_try_i64_round_trip, read_frame_id,
    spec_convert_i64, spec_convert_var_int, spec_get_packet, spec_read_frame_id, spec_try_get_i64,
    try_get_i64, Packet, PacketError, ProtocolError, VarIntError,
};
use vstd::prelude::*;

verus! {

/// The packets that a client may send in the status phase.
pub enum StatusPackets {
    Status(Status),
    Ping(Ping),
}

impl StatusPackets {
    /// Takes one frame off the stream and reads it as a packet of the
    /// status phase: id 0 is a status request, id 1 a ping. A frame led by
    /// any other id is refused with `InvalidPacketId`; the frames behind it
    /// stay in the stream.
    pub fn read(stream: &mut Vec<u8>) -> (r: Result<Self, ProtocolError>)
        ensures
            final(stream)@ == spec_read_frame_id(old(stream)@).1,
            match spec_read_frame_id(old(stream)@).0 {
                Err(e) => r matches Err(f) && f == ProtocolError::VarInt(e),
                Ok((id, body)) => if id == Status::spec_packet_id() {
                    match r {
                        Ok(StatusPackets::Status(p)) => spec_get_packet::<Status>(body) == Ok::<
                            Status,
                            ProtocolError,
                        >(p@),
                        Ok(_) => false,
                        Err(e) => spec_get_packet::<Status>(body) == Err::<Status, ProtocolError>(
                            e,
                        ),
                    }
                } else if id == Ping::spec_packet_id() {
                    match r {
                        Ok(StatusPackets::Ping(p)) => spec_get_packet::<Ping>(body) == Ok::<
                            Ping,
                            ProtocolError,
                        >(p@),
                        Ok(_) => false,
                        Err(e) => spec_get_packet::<Ping>(body) == Err::<Ping, ProtocolError>(e),
                    }
                } else {
                    r matches Err(f) && f == ProtocolError::Packet(PacketError::InvalidPacketId)
                },
            },
    {
        let (packet_id, mut data) = match read_frame_id(stream) {
            Ok(found) => found,
            Err(e) => {
                return Err(ProtocolError::VarInt(e));
            },
        };
        if packet_id == Status::packet_id() {
            match get_packet::<Status>(&mut data) {
                Ok(p) => Ok(StatusPackets::Status(p)),
                Err(e) => Err(e),
            }
        } else if packet_id == Ping::packet_id() {
            match get_packet::<Ping>(&mut data) {
                Ok(p) => Ok(StatusPackets::Ping(p)),
                Err(e) => Err(e),
            }
        } else {
            Err(ProtocolError::Packet(PacketError::InvalidPacketId))
        }
    }
}

/// The request for the server's status. It has no fields.
pub struct Status {}

impl View for Status {
    type V = Status;

    open spec fn view(&self) -> Status {
        *self
    }
}

impl Packet for Status {
    open spec fn spec_packet_id() -> i32 {
        0
    }

    open spec fn spec_get(data: Seq<u8>) -> (Result<Status, VarIntError>, Seq<u8>) {
        (Ok(Status {  }), data)
    }

    open spec fn spec_body(v: Status) -> Seq<u8> {
        Seq::empty()
    }

    open spec fn spec_fits(v: Status) -> bool {
        true
    }

    fn packet_id() -> (id: i32) {
        0
    }

    fn get(data: &mut Vec<u8>) -> (r: Result<Self, VarIntError>) {
        Ok(Self {  })
    }

    fn convert(&self) -> (data: Vec<u8>) {
        let mut data: Vec<u8> = Vec::new();
        data.append(&mut convert_var_int(Self::packet_id()));
        proof {
            assert(data@ =~= spec_convert_var_int(Self::spec_packet_id()) + Self::spec_body(
                self@,
            ));
        }
        data
    }

    proof fn lemma_round_trip(v: Status, rest: Seq<u8>) {
        assert(Self::spec_body(v) + rest =~= rest);
    }
}

/// A ping: eight bytes that the answer repeats.
pub struct Ping {
    pub payload: i64,
}

impl View for Ping {
    type V = Ping;

    open spec fn view(&self) -> Ping {
        *self
    }
}

impl Packet for Ping {
    open spec fn spec_packet_id() -> i32 {
        1
    }

    open spec fn spec_get(data: Seq<u8>) -> (Result<Ping, VarIntError>, Seq<u8>) {
        match spec_try_get_i64(data) {
            (Err(e), rest) => (Err(e), rest),
            (Ok(payload), rest) => (Ok(Ping { payload }), rest),
        }
    }

    open spec fn spec_body(v: Ping) -> Seq<u8> {
        spec_convert_i64(v.payload)
    }

    open spec fn spec_fits(v: Ping) -> bool {
        true
    }

    fn packet_id() -> (id: i32) {
        1
    }

    fn get(data: &mut Vec<u8>) -> (r: Result<Self, VarIntError>) {
        match try_get_i64(data) {
            Ok(payload) => Ok(Self { payload }),
            Err(e) => Err(e),
        }
    }

    fn convert(&self) -> (data: Vec<u8>) {
        let mut data: Vec<u8> = Vec::new();
        data.append(&mut convert_var_int(Self::packet_id()));
        data.append(&mut convert_i64(self.payload));
        proof {
            assert(data@ =~= spec_convert_var_int(Self::spec_packet_id()) + Self::spec_body(
                self@,
            ));
        }
        data
    }

    proof fn lemma_round_trip(v: Ping, rest: Seq<u8>) {
        lemma_try_i64_round_trip(v.payload, rest);
    }
}

} // verus!
