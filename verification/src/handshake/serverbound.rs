//! Handshake packets sent by the client.

use crate::mc_types::{
    convert_string, convert_u16, convert_var_int, get_string, get_var_int, lemma_string_round_trip,
    lemma_try_u16_round_trip, lemma_var_int_round_trip, read_packet, spec_convert_string,
    spec_convert_u16, spec_convert_var_int, spec_get_string, spec_get_var_int, spec_read_frame_id,
    spec_read_packet, spec_string_fits, spec_try_get_u16, try_get_u16, Packet, ProtocolError,
    VarIntError,
};
use vstd::prelude::*;

verus! {

/// The packets that a client may send in the handshake phase.
pub enum HandshakeEnum {
    Handshake(Handshake),
}

impl HandshakeEnum {
    /// Takes one frame off the stream and reads it as a packet of the
    /// handshake phase. A frame led by an id outside the phase's table is
    /// refused with `InvalidPacketId`; the frames behind it stay in the
    /// stream.
    pub fn read(stream: &mut Vec<u8>) -> (r: Result<Self, ProtocolError>)
        ensures
            match r {
                Ok(HandshakeEnum::Handshake(p)) => spec_read_packet::<Handshake>(old(stream)@)
                    == Ok::<HandshakeView, ProtocolError>(p@),
                Err(e) => spec_read_packet::<Handshake>(old(stream)@) == Err::<
                    HandshakeView,
                    ProtocolError,
                >(e),
            },
            final(stream)@ == spec_read_frame_id(old(stream)@).1,
    {
        match read_packet::<Handshake>(stream) {
            Ok(p) => Ok(HandshakeEnum::Handshake(p)),
            Err(e) => Err(e),
        }
    }
}

/// The first packet of a connection: what the client speaks, whom it
/// addressed, and which phase it asks for.
pub struct Handshake {
    pub protocol_version: i32,
    pub server_address: String,
    pub server_port: u16,
    pub next_state: i32,
}

/// A `Handshake` as contracts see it: texts and byte strings by their
/// contents.
pub struct HandshakeView {
    pub protocol_version: i32,
    pub server_address: Seq<char>,
    pub server_port: u16,
    pub next_state: i32,
}

impl View for Handshake {
    type V = HandshakeView;

    open spec fn view(&self) -> HandshakeView {
        HandshakeView {
            protocol_version: self.protocol_version,
            server_address: self.server_address@,
            server_port: self.server_port,
            next_state: self.next_state,
        }
    }
}

impl Packet for Handshake {
    open spec fn spec_packet_id() -> i32 {
        0
    }

    open spec fn spec_get(data: Seq<u8>) -> (Result<HandshakeView, VarIntError>, Seq<u8>) {
        match spec_get_var_int(data) {
            (Err(e), rest) => (Err(e), rest),
            (Ok(protocol_version), rest) => match spec_get_string(rest) {
                (Err(e), rest) => (Err(e), rest),
                (Ok(server_address), rest) => match spec_try_get_u16(rest) {
                    (Err(e), rest) => (Err(e), rest),
                    (Ok(server_port), rest) => match spec_get_var_int(rest) {
                        (Err(e), rest) => (Err(e), rest),
                        (Ok(next_state), rest) => (
                            Ok(
                                HandshakeView {
                                    protocol_version,
                                    server_address,
                                    server_port,
                                    next_state,
                                },
                            ),
                            rest,
                        ),
                    },
                },
            },
        }
    }

    open spec fn spec_body(v: HandshakeView) -> Seq<u8> {
        spec_convert_var_int(v.protocol_version) + spec_convert_string(v.server_address)
            + spec_convert_u16(v.server_port) + spec_convert_var_int(v.next_state)
    }

    open spec fn spec_fits(v: HandshakeView) -> bool {
        spec_string_fits(v.server_address)
    }

    fn packet_id() -> (id: i32) {
        0
    }

    fn get(data: &mut Vec<u8>) -> (r: Result<Self, VarIntError>) {
        let protocol_version: i32 = match get_var_int(data) {
            Ok(v) => v,
            Err(e) => {
                return Err(e);
            },
        };
        let server_address = match get_string(data) {
            Ok(v) => v,
            Err(e) => {
                return Err(e);
            },
        };
        let server_port: u16 = match try_get_u16(data) {
            Ok(v) => v,
            Err(e) => {
                return Err(e);
            },
        };
        let next_state: i32 = match get_var_int(data) {
            Ok(v) => v,
            Err(e) => {
                return Err(e);
            },
        };
        Ok(Self { protocol_version, server_address, server_port, next_state })
    }

    fn convert(&self) -> (data: Vec<u8>) {
        let mut data: Vec<u8> = Vec::new();
        data.append(&mut convert_var_int(Self::packet_id()));
        data.append(&mut convert_var_int(self.protocol_version));
        data.append(&mut convert_string(self.server_address.as_str()));
        data.append(&mut convert_u16(self.server_port));
        data.append(&mut convert_var_int(self.next_state));
        proof {
            assert(data@ =~= spec_convert_var_int(Self::spec_packet_id()) + Self::spec_body(
                self@,
            ));
        }
        data
    }

    proof fn lemma_round_trip(v: HandshakeView, rest: Seq<u8>) {
        let r3 = spec_convert_var_int(v.next_state) + rest;
        let r2 = spec_convert_u16(v.server_port) + r3;
        let r1 = spec_convert_string(v.server_address) + r2;
        assert(Self::spec_body(v) + rest =~= spec_convert_var_int(v.protocol_version) + r1);
        lemma_var_int_round_trip(v.protocol_version, r1);
        lemma_string_round_trip(v.server_address, r2);
        lemma_try_u16_round_trip(v.server_port, r3);
        lemma_var_int_round_trip(v.next_state, rest);
    }
}

} // verus!
