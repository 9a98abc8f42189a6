//! Login packets sent by the client.

use crate::mc_types::{
    convert_bool, convert_byte_array, convert_string, convert_uuid, convert_var_int,
    get_byte_array, get_packet, get_string, lemma_byte_array_round_trip, lemma_string_round_trip,
    lemma_try_bool_round_trip, lemma_try_uuid_round_trip, read_frame_id, spec_convert_bool,
    spec_convert_byte_array, spec_convert_string, spec_convert_uuid, spec_convert_var_int,
    spec_get_byte_array, spec_get_packet, spec_get_string, spec_read_frame_id, spec_string_fits,
    spec_try_get_bool, spec_try_get_uuid, try_get_bool, try_get_uuid, Packet, PacketError,
    ProtocolError, VarIntError,
};
use vstd::prelude::*;

verus! {

/// The packets that a client may send in the login phase.
pub enum Login {
    LoginStart(LoginStart),
    EncryptionResponse(EncryptionResponse),
}

impl Login {
    /// Takes one frame off the stream and reads it as a packet of the
    /// login phase: id 0 starts the login, id 1 answers an encryption
    /// request. A frame led by any other id is refused with
    /// `InvalidPacketId`; the frames behind it stay in the stream.
    pub fn read(stream: &mut Vec<u8>) -> (r: Result<Self, ProtocolError>)
        ensures
            final(stream)@ == spec_read_frame_id(old(stream)@).1,
            match spec_read_frame_id(old(stream)@).0 {
                Err(e) => r matches Err(f) && f == ProtocolError::VarInt(e),
                Ok((id, body)) => if id == LoginStart::spec_packet_id() {
                    match r {
                        Ok(Login::LoginStart(p)) => spec_get_packet::<LoginStart>(body) == Ok::<
                            LoginStartView,
                            ProtocolError,
                        >(p@),
                        Ok(_) => false,
                        Err(e) => spec_get_packet::<LoginStart>(body) == Err::<
                            LoginStartView,
                            ProtocolError,
                        >(e),
                    }
                } else if id == EncryptionResponse::spec_packet_id() {
                    match r {
                        Ok(Login::EncryptionResponse(p)) => spec_get_packet::<EncryptionResponse>(
                            body,
                        ) == Ok::<EncryptionResponseView, ProtocolError>(p@),
                        Ok(_) => false,
                        Err(e) => spec_get_packet::<EncryptionResponse>(body) == Err::<
                            EncryptionResponseView,
                            ProtocolError,
                        >(e),
                    }
                } else {
                    r matches Err(f) && f == ProtocolError::Packet(PacketError::InvalidPacketId)
                },
            },
    {
        let (packet_id, mut data) = match read_frame_id(stream) {
            Ok(found) => found,
            Err(e) => {
                return Err(ProtocolError::VarInt(e));
            },
        };
        if packet_id == LoginStart::packet_id() {
            match get_packet::<LoginStart>(&mut data) {
                Ok(p) => Ok(Login::LoginStart(p)),
                Err(e) => Err(e),
            }
        } else if packet_id == EncryptionResponse::packet_id() {
            match get_packet::<EncryptionResponse>(&mut data) {
                Ok(p) => Ok(Login::EncryptionResponse(p)),
                Err(e) => Err(e),
            }
        } else {
            Err(ProtocolError::Packet(PacketError::InvalidPacketId))
        }
    }
}

/// The start of a login: the player's name and, if the client sent one,
/// the player's UUID.
pub struct LoginStart {
    pub name: String,
    pub player_uuid: Option<u128>,
}

/// A `LoginStart` as contracts see it: texts and byte strings by their
/// contents.
pub struct LoginStartView {
    pub name: Seq<char>,
    pub player_uuid: Option<u128>,
}

impl View for LoginStart {
    type V = LoginStartView;

    open spec fn view(&self) -> LoginStartView {
        LoginStartView { name: self.name@, player_uuid: self.player_uuid }
    }
}

/// The wire bytes of an optional UUID: a boolean, then the UUID if there
/// is one.
pub open spec fn spec_convert_optional_uuid(uuid: Option<u128>) -> Seq<u8> {
    match uuid {
        Some(value) => spec_convert_bool(true) + spec_convert_uuid(value),
        None => spec_convert_bool(false),
    }
}

impl Packet for LoginStart {
    open spec fn spec_packet_id() -> i32 {
        0
    }

    open spec fn spec_get(data: Seq<u8>) -> (Result<LoginStartView, VarIntError>, Seq<u8>) {
        match spec_get_string(data) {
            (Err(e), rest) => (Err(e), rest),
            (Ok(name), rest) => match spec_try_get_bool(rest) {
                (Err(e), rest) => (Err(e), rest),
                (Ok(has_uuid), rest) => if has_uuid {
                    match spec_try_get_uuid(rest) {
                        (Err(e), rest) => (Err(e), rest),
                        (Ok(uuid), rest) => (
                            Ok(LoginStartView { name, player_uuid: Some(uuid) }),
                            rest,
                        ),
                    }
                } else {
                    (Ok(LoginStartView { name, player_uuid: None }), rest)
                },
            },
        }
    }

    open spec fn spec_body(v: LoginStartView) -> Seq<u8> {
        spec_convert_string(v.name) + spec_convert_optional_uuid(v.player_uuid)
    }

    open spec fn spec_fits(v: LoginStartView) -> bool {
        spec_string_fits(v.name)
    }

    fn packet_id() -> (id: i32) {
        0
    }

    fn get(data: &mut Vec<u8>) -> (r: Result<Self, VarIntError>) {
        let name = match get_string(data) {
            Ok(v) => v,
            Err(e) => {
                return Err(e);
            },
        };
        let has_uuid: bool = match try_get_bool(data) {
            Ok(v) => v,
            Err(e) => {
                return Err(e);
            },
        };
        let mut player_uuid: Option<u128> = None;
        if has_uuid {
            match try_get_uuid(data) {
                Ok(v) => {
                    player_uuid = Some(v);
                },
                Err(e) => {
                    return Err(e);
                },
            }
        }
        Ok(Self { name, player_uuid })
    }

    fn convert(&self) -> (data: Vec<u8>) {
        let mut data: Vec<u8> = Vec::new();
        data.append(&mut convert_var_int(Self::packet_id()));
        data.append(&mut convert_string(self.name.as_str()));
        match self.player_uuid {
            Some(value) => {
                data.append(&mut convert_bool(true));
                data.append(&mut convert_uuid(value));
            },
            None => {
                data.append(&mut convert_bool(false));
            },
        }
        proof {
            assert(data@ =~= spec_convert_var_int(Self::spec_packet_id()) + Self::spec_body(
                self@,
            ));
        }
        data
    }

    proof fn lemma_round_trip(v: LoginStartView, rest: Seq<u8>) {
        let r1 = spec_convert_optional_uuid(v.player_uuid) + rest;
        assert(Self::spec_body(v) + rest =~= spec_convert_string(v.name) + r1);
        lemma_string_round_trip(v.name, r1);
        match v.player_uuid {
            Some(value) => {
                let r2 = spec_convert_uuid(value) + rest;
                assert(r1 =~= spec_convert_bool(true) + r2);
                lemma_try_bool_round_trip(true, r2);
                lemma_try_uuid_round_trip(value, rest);
            },
            None => {
                lemma_try_bool_round_trip(false, rest);
            },
        }
    }
}

/// The client's answer to an encryption request: the shared secret and
/// the verify token, both encrypted with the key of the request.
pub struct EncryptionResponse {
    pub shared_secret: Vec<u8>,
    pub verify_token: Vec<u8>,
}

/// A `EncryptionResponse` as contracts see it: texts and byte strings by their
/// contents.
pub struct EncryptionResponseView {
    pub shared_secret: Seq<u8>,
    pub verify_token: Seq<u8>,
}

impl View for EncryptionResponse {
    type V = EncryptionResponseView;

    open spec fn view(&self) -> EncryptionResponseView {
        EncryptionResponseView {
            shared_secret: self.shared_secret@,
            verify_token: self.verify_token@,
        }
    }
}

impl Packet for EncryptionResponse {
    open spec fn spec_packet_id() -> i32 {
        1
    }

    open spec fn spec_get(data: Seq<u8>) -> (Result<EncryptionResponseView, VarIntError>, Seq<u8>) {
        match spec_get_byte_array(data) {
            (Err(e), rest) => (Err(e), rest),
            (Ok(shared_secret), rest) => match spec_get_byte_array(rest) {
                (Err(e), rest) => (Err(e), rest),
                (Ok(verify_token), rest) => (
                    Ok(EncryptionResponseView { shared_secret, verify_token }),
                    rest,
                ),
            },
        }
    }

    open spec fn spec_body(v: EncryptionResponseView) -> Seq<u8> {
        spec_convert_byte_array(v.shared_secret) + spec_convert_byte_array(v.verify_token)
    }

    open spec fn spec_fits(v: EncryptionResponseView) -> bool {
        v.shared_secret.len() <= i32::MAX && v.verify_token.len() <= i32::MAX
    }

    fn packet_id() -> (id: i32) {
        1
    }

    fn get(data: &mut Vec<u8>) -> (r: Result<Self, VarIntError>) {
        let shared_secret = match get_byte_array(data) {
            Ok(v) => v,
            Err(e) => {
                return Err(e);
            },
        };
        let verify_token = match get_byte_array(data) {
            Ok(v) => v,
            Err(e) => {
                return Err(e);
            },
        };
        Ok(Self { shared_secret, verify_token })
    }

    fn convert(&self) -> (data: Vec<u8>) {
        let mut data: Vec<u8> = Vec::new();
        data.append(&mut convert_var_int(Self::packet_id()));
        data.append(&mut convert_byte_array(&self.shared_secret));
        data.append(&mut convert_byte_array(&self.verify_token));
        proof {
            assert(data@ =~= spec_convert_var_int(Self::spec_packet_id()) + Self::spec_body(
                self@,
            ));
        }
        data
    }

    proof fn lemma_round_trip(v: EncryptionResponseView, rest: Seq<u8>) {
        let r1 = spec_convert_byte_array(v.verify_token) + rest;
        assert(Self::spec_body(v) + rest =~= spec_convert_byte_array(v.shared_secret) + r1);
        lemma_byte_array_round_trip(v.shared_secret, r1);
        lemma_byte_array_round_trip(v.verify_token, rest);
    }
}

} // verus!
