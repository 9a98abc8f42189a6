//! Login packets sent to the client.

use crate::mc_types::{
    convert_bool, convert_byte_array, convert_string, convert_uuid, convert_var, convert_var_int,
    get_byte_array, get_packet, get_string, get_var_int, lemma_byte_array_round_trip,
    lemma_string_round_trip, lemma_try_bool_round_trip, lemma_try_uuid_round_trip,
    lemma_var_int_round_trip, read_frame_id, spec_convert_bool, spec_convert_byte_array,
    spec_convert_string, spec_convert_uuid, spec_convert_var_int, spec_get_byte_array,
    spec_get_packet, spec_get_string, spec_get_var_int, spec_length_prefix, spec_read_frame_id,
    spec_string_fits, spec_try_get_bool, spec_try_get_uuid, try_get_bool, try_get_uuid, Packet,
    PacketError, ProtocolError, VarIntError,
};
use vstd::prelude::*;

verus! {

/// The packets that a server may send in the login phase.
pub enum Login {
    Disconnect(Disconnect),
    EncryptionRequest(EncryptionRequest),
    LoginSuccess(LoginSuccess),
}

impl Login {
    /// Takes one frame off the stream and reads it as a packet of the
    /// login phase: id 0 ends the connection, id 1 asks for encryption,
    /// id 2 completes the login. A frame led by any other id is refused
    /// with `InvalidPacketId`; the frames behind it stay in the stream.
    pub fn read(stream: &mut Vec<u8>) -> (r: Result<Self, ProtocolError>)
        ensures
            final(stream)@ == spec_read_frame_id(old(stream)@).1,
            match spec_read_frame_id(old(stream)@).0 {
                Err(e) => r matches Err(f) && f == ProtocolError::VarInt(e),
                Ok((id, body)) => if id == Disconnect::spec_packet_id() {
                    match r {
                        Ok(Login::Disconnect(p)) => spec_get_packet::<Disconnect>(body) == Ok::<
                            Seq<char>,
                            ProtocolError,
                        >(p@),
                        Ok(_) => false,
                        Err(e) => spec_get_packet::<Disconnect>(body) == Err::<
                            Seq<char>,
                            ProtocolError,
                        >(e),
                    }
                } else if id == EncryptionRequest::spec_packet_id() {
                    match r {
                        Ok(Login::EncryptionRequest(p)) => spec_get_packet::<EncryptionRequest>(
                            body,
                        ) == Ok::<EncryptionRequestView, ProtocolError>(p@),
                        Ok(_) => false,
                        Err(e) => spec_get_packet::<EncryptionRequest>(body) == Err::<
                            EncryptionRequestView,
                            ProtocolError,
                        >(e),
                    }
                } else if id == LoginSuccess::spec_packet_id() {
                    match r {
                        Ok(Login::LoginSuccess(p)) => spec_get_packet::<LoginSuccess>(body) == Ok::<
                            LoginSuccessView,
                            ProtocolError,
                        >(p@),
                        Ok(_) => false,
                        Err(e) => spec_get_packet::<LoginSuccess>(body) == Err::<
                            LoginSuccessView,
                            ProtocolError,
                        >(e),
                    }
                } else {
                    r matches Err(f) && f == ProtocolError::Packet(PacketError::InvalidPacketId)
                },
            },
    {
        let (packet_id, mut data) = match read_frame_id(stream) {
            Ok(found) => found,
            Err(e) => {
                return Err(ProtocolError::VarInt(e));
            },
        };
        if packet_id == Disconnect::packet_id() {
            match get_packet::<Disconnect>(&mut data) {
                Ok(p) => Ok(Login::Disconnect(p)),
                Err(e) => Err(e),
            }
        } else if packet_id == EncryptionRequest::packet_id() {
            match get_packet::<EncryptionRequest>(&mut data) {
                Ok(p) => Ok(Login::EncryptionRequest(p)),
                Err(e) => Err(e),
            }
        } else if packet_id == LoginSuccess::packet_id() {
            match get_packet::<LoginSuccess>(&mut data) {
                Ok(p) => Ok(Login::LoginSuccess(p)),
                Err(e) => Err(e),
            }
        } else {
            Err(ProtocolError::Packet(PacketError::InvalidPacketId))
        }
    }
}

/// The end of a login that is refused: the reason, a JSON chat component.
pub struct Disconnect {
    pub reason: String,
}

impl View for Disconnect {
    type V = Seq<char>;

    open spec fn view(&self) -> Seq<char> {
        self.reason@
    }
}

impl Packet for Disconnect {
    open spec fn spec_packet_id() -> i32 {
        0
    }

    open spec fn spec_get(data: Seq<u8>) -> (Result<Seq<char>, VarIntError>, Seq<u8>) {
        spec_get_string(data)
    }

    open spec fn spec_body(v: Seq<char>) -> Seq<u8> {
        spec_convert_string(v)
    }

    open spec fn spec_fits(v: Seq<char>) -> bool {
        spec_string_fits(v)
    }

    fn packet_id() -> (id: i32) {
        0
    }

    fn get(data: &mut Vec<u8>) -> (r: Result<Self, VarIntError>) {
        match get_string(data) {
            Ok(reason) => Ok(Self { reason }),
            Err(e) => Err(e),
        }
    }

    fn convert(&self) -> (data: Vec<u8>) {
        let mut data: Vec<u8> = Vec::new();
        data.append(&mut convert_var_int(Self::packet_id()));
        data.append(&mut convert_string(self.reason.as_str()));
        proof {
            assert(data@ =~= spec_convert_var_int(Self::spec_packet_id()) + Self::spec_body(
                self@,
            ));
        }
        data
    }

    proof fn lemma_round_trip(v: Seq<char>, rest: Seq<u8>) {
        lemma_string_round_trip(v, rest);
    }
}

/// The request to encrypt the connection: the server's id, its public key
/// in DER form, and a token for the client to send back.
pub struct EncryptionRequest {
    pub server_id: String,
    pub public_key: Vec<u8>,
    pub verify_token: Vec<u8>,
}

/// A `EncryptionRequest` as contracts see it: texts and byte strings by their
/// contents.
pub struct EncryptionRequestView {
    pub server_id: Seq<char>,
    pub public_key: Seq<u8>,
    pub verify_token: Seq<u8>,
}

impl View for EncryptionRequest {
    type V = EncryptionRequestView;

    open spec fn view(&self) -> EncryptionRequestView {
        EncryptionRequestView {
            server_id: self.server_id@,
            public_key: self.public_key@,
            verify_token: self.verify_token@,
        }
    }
}

impl Packet for EncryptionRequest {
    open spec fn spec_packet_id() -> i32 {
        1
    }

    open spec fn spec_get(data: Seq<u8>) -> (Result<EncryptionRequestView, VarIntError>, Seq<u8>) {
        match spec_get_string(data) {
            (Err(e), rest) => (Err(e), rest),
            (Ok(server_id), rest) => match spec_get_byte_array(rest) {
                (Err(e), rest) => (Err(e), rest),
                (Ok(public_key), rest) => match spec_get_byte_array(rest) {
                    (Err(e), rest) => (Err(e), rest),
                    (Ok(verify_token), rest) => (
                        Ok(EncryptionRequestView { server_id, public_key, verify_token }),
                        rest,
                    ),
                },
            },
        }
    }

    open spec fn spec_body(v: EncryptionRequestView) -> Seq<u8> {
        spec_convert_string(v.server_id) + spec_convert_byte_array(v.public_key)
            + spec_convert_byte_array(v.verify_token)
    }

    open spec fn spec_fits(v: EncryptionRequestView) -> bool {
        spec_string_fits(v.server_id) && v.public_key.len() <= i32::MAX && v.verify_token.len()
            <= i32::MAX
    }

    fn packet_id() -> (id: i32) {
        1
    }

    fn get(data: &mut Vec<u8>) -> (r: Result<Self, VarIntError>) {
        let server_id = match get_string(data) {
            Ok(v) => v,
            Err(e) => {
                return Err(e);
            },
        };
        let public_key = match get_byte_array(data) {
            Ok(v) => v,
            Err(e) => {
                return Err(e);
            },
        };
        let verify_token = match get_byte_array(data) {
            Ok(v) => v,
            Err(e) => {
                return Err(e);
            },
        };
        Ok(Self { server_id, public_key, verify_token })
    }

    fn convert(&self) -> (data: Vec<u8>) {
        let mut data: Vec<u8> = Vec::new();
        data.append(&mut convert_var_int(Self::packet_id()));
        data.append(&mut convert_string(self.server_id.as_str()));
        data.append(&mut convert_byte_array(&self.public_key));
        data.append(&mut convert_byte_array(&self.verify_token));
        proof {
            assert(data@ =~= spec_convert_var_int(Self::spec_packet_id()) + Self::spec_body(
                self@,
            ));
        }
        data
    }

    proof fn lemma_round_trip(v: EncryptionRequestView, rest: Seq<u8>) {
        let r2 = spec_convert_byte_array(v.verify_token) + rest;
        let r1 = spec_convert_byte_array(v.public_key) + r2;
        assert(Self::spec_body(v) + rest =~= spec_convert_string(v.server_id) + r1);
        lemma_string_round_trip(v.server_id, r1);
        lemma_byte_array_round_trip(v.public_key, r2);
        lemma_byte_array_round_trip(v.verify_token, rest);
    }
}

/// One property of a player, as the backend gave it: a name, a value, and
/// a signature if the value is signed.
pub struct LoginSuccessProperty {
    pub name: String,
    pub value: String,
    pub signature: Option<String>,
}

/// A `LoginSuccessProperty` as contracts see it: texts and byte strings by their
/// contents.
pub struct LoginSuccessPropertyView {
    pub name: Seq<char>,
    pub value: Seq<char>,
    pub signature: Option<Seq<char>>,
}

impl View for LoginSuccessProperty {
    type V = LoginSuccessPropertyView;

    open spec fn view(&self) -> LoginSuccessPropertyView {
        LoginSuccessPropertyView {
            name: self.name@,
            value: self.value@,
            signature: match self.signature {
                Some(s) => Some(s@),
                None => None,
            },
        }
    }
}

impl Clone for LoginSuccessProperty {
    fn clone(&self) -> (r: Self)
        ensures
            r@ == self@,
    {
        Self {
            name: self.name.clone(),
            value: self.value.clone(),
            signature: match &self.signature {
                Some(s) => Some(s.clone()),
                None => None,
            },
        }
    }
}

/// The views of a run of properties, in order.
pub open spec fn property_views(properties: Seq<LoginSuccessProperty>) -> Seq<
    LoginSuccessPropertyView,
> {
    properties.map_values(|p: LoginSuccessProperty| p@)
}

/// What `LoginSuccessProperty::get` returns and leaves in the buffer.
#[verifier::opaque]
pub open spec fn spec_get_property(data: Seq<u8>) -> (
    Result<LoginSuccessPropertyView, VarIntError>,
    Seq<u8>,
) {
    match spec_get_string(data) {
        (Err(e), rest) => (Err(e), rest),
        (Ok(name), rest) => match spec_get_string(rest) {
            (Err(e), rest) => (Err(e), rest),
            (Ok(value), rest) => match spec_try_get_bool(rest) {
                (Err(e), rest) => (Err(e), rest),
                (Ok(is_signed), rest) => if is_signed {
                    match spec_get_string(rest) {
                        (Err(e), rest) => (Err(e), rest),
                        (Ok(signature), rest) => (
                            Ok(LoginSuccessPropertyView { name, value, signature: Some(signature) }),
                            rest,
                        ),
                    }
                } else {
                    (Ok(LoginSuccessPropertyView { name, value, signature: None }), rest)
                },
            },
        },
    }
}

/// The wire bytes of one property.
pub open spec fn spec_convert_property(v: LoginSuccessPropertyView) -> Seq<u8> {
    spec_convert_string(v.name) + spec_convert_string(v.value) + match v.signature {
        Some(s) => spec_convert_bool(true) + spec_convert_string(s),
        None => spec_convert_bool(false),
    }
}

/// Whether the texts of a property fit their length prefixes.
pub open spec fn spec_property_fits(v: LoginSuccessPropertyView) -> bool {
    spec_string_fits(v.name) && spec_string_fits(v.value) && match v.signature {
        Some(s) => spec_string_fits(s),
        None => true,
    }
}

/// What reading `count` properties in a row gives.
pub open spec fn spec_get_properties(data: Seq<u8>, count: nat) -> (
    Result<Seq<LoginSuccessPropertyView>, VarIntError>,
    Seq<u8>,
)
    decreases count,
{
    if count == 0 {
        (Ok(Seq::empty()), data)
    } else {
        match spec_get_property(data) {
            (Err(e), rest) => (Err(e), rest),
            (Ok(first), rest) => spec_after(seq![first], spec_get_properties(rest, (count - 1) as nat)),
        }
    }
}

/// The outcome `later` of reading more properties, with those already
/// read put in front.
pub open spec fn spec_after(
    read: Seq<LoginSuccessPropertyView>,
    later: (Result<Seq<LoginSuccessPropertyView>, VarIntError>, Seq<u8>),
) -> (Result<Seq<LoginSuccessPropertyView>, VarIntError>, Seq<u8>) {
    match later {
        (Ok(more), rest) => (Ok(read + more), rest),
        (Err(e), rest) => (Err(e), rest),
    }
}

/// What `LoginSuccessProperty::get_array` returns and leaves in the
/// buffer: a VarInt count, then that many properties. A negative count is
/// an error that leaves what followed it.
pub open spec fn spec_get_property_array(data: Seq<u8>) -> (
    Result<Seq<LoginSuccessPropertyView>, VarIntError>,
    Seq<u8>,
) {
    match spec_get_var_int(data) {
        (Err(e), rest) => (Err(e), rest),
        (Ok(count), rest) => if count < 0 {
            (Err(VarIntError::RanOutOfBytes), rest)
        } else {
            spec_get_properties(rest, count as nat)
        },
    }
}

/// The wire bytes of a run of properties, without their count.
pub open spec fn spec_convert_properties(vs: Seq<LoginSuccessPropertyView>) -> Seq<u8>
    decreases vs.len(),
{
    if vs.len() == 0 {
        Seq::empty()
    } else {
        spec_convert_properties(vs.drop_last()) + spec_convert_property(vs.last())
    }
}

/// The wire bytes of an array of properties.
pub open spec fn spec_convert_property_array(vs: Seq<LoginSuccessPropertyView>) -> Seq<u8> {
    spec_length_prefix(vs.len()) + spec_convert_properties(vs)
}

/// Reading one more property either fails, and the whole read with it,
/// or moves the property to those already read.
pub proof fn lemma_get_properties_next(
    read: Seq<LoginSuccessPropertyView>,
    data: Seq<u8>,
    count: nat,
)
    requires
        count > 0,
    ensures
        match spec_get_property(data) {
            (Err(e), rest) => spec_after(read, spec_get_properties(data, count)) == (
                Err::<Seq<LoginSuccessPropertyView>, VarIntError>(e),
                rest,
            ),
            (Ok(first), rest) => spec_after(read, spec_get_properties(data, count)) == spec_after(
                read.push(first),
                spec_get_properties(rest, (count - 1) as nat),
            ),
        },
{
    match spec_get_property(data) {
        (Err(e), rest) => {},
        (Ok(first), rest) => {
            match spec_get_properties(rest, (count - 1) as nat) {
                (Ok(more), left) => {
                    assert(read + (seq![first] + more) =~= read.push(first) + more);
                },
                (Err(e), left) => {},
            }
        },
    }
}

impl LoginSuccessProperty {
    /// Reads one property from the front of `data`.
    pub fn get(data: &mut Vec<u8>) -> (r: Result<Self, VarIntError>)
        ensures
            match r {
                Ok(p) => spec_get_property(old(data)@).0 == Ok::<
                    LoginSuccessPropertyView,
                    VarIntError,
                >(p@),
                Err(e) => spec_get_property(old(data)@).0 == Err::<
                    LoginSuccessPropertyView,
                    VarIntError,
                >(e),
            },
            final(data)@ == spec_get_property(old(data)@).1,
    {
        proof {
            reveal(spec_get_property);
        }
        let name = match get_string(data) {
            Ok(v) => v,
            Err(e) => {
                return Err(e);
            },
        };
        let value = match get_string(data) {
            Ok(v) => v,
            Err(e) => {
                return Err(e);
            },
        };
        let is_signed: bool = match try_get_bool(data) {
            Ok(v) => v,
            Err(e) => {
                return Err(e);
            },
        };
        let mut signature: Option<String> = None;
        if is_signed {
            match get_string(data) {
                Ok(v) => {
                    signature = Some(v);
                },
                Err(e) => {
                    return Err(e);
                },
            }
        }
        Ok(Self { name, value, signature })
    }

    /// Writes one property.
    pub fn convert(&self) -> (data: Vec<u8>)
        ensures
            data@ == spec_convert_property(self@),
    {
        let mut data: Vec<u8> = Vec::new();
        data.append(&mut convert_string(self.name.as_str()));
        data.append(&mut convert_string(self.value.as_str()));
        match &self.signature {
            Some(value) => {
                data.append(&mut convert_bool(true));
                data.append(&mut convert_string(value.as_str()));
            },
            None => {
                data.append(&mut convert_bool(false));
            },
        }
        proof {
            assert(data@ =~= spec_convert_property(self@));
        }
        data
    }

    /// Reads a count and then that many properties.
    pub fn get_array(data: &mut Vec<u8>) -> (r: Result<Vec<Self>, VarIntError>)
        ensures
            match r {
                Ok(ps) => spec_get_property_array(old(data)@).0 == Ok::<
                    Seq<LoginSuccessPropertyView>,
                    VarIntError,
                >(property_views(ps@)),
                Err(e) => spec_get_property_array(old(data)@).0 == Err::<
                    Seq<LoginSuccessPropertyView>,
                    VarIntError,
                >(e),
            },
            final(data)@ == spec_get_property_array(old(data)@).1,
    {
        let count: i32 = match get_var_int(data) {
            Ok(v) => v,
            Err(e) => {
                return Err(e);
            },
        };
        if count < 0 {
            return Err(VarIntError::RanOutOfBytes);
        }
        let ghost start = data@;
        let mut out: Vec<Self> = Vec::new();
        let mut i: i32 = 0;
        proof {
            let whole = spec_get_properties(start, count as nat);
            assert(property_views(out@) =~= Seq::<LoginSuccessPropertyView>::empty());
            match whole {
                (Ok(more), rest) => {
                    assert(Seq::<LoginSuccessPropertyView>::empty() + more =~= more);
                },
                (Err(e), rest) => {},
            }
        }
        while i < count
            invariant
                0 <= i <= count,
                spec_get_property_array(old(data)@) == spec_get_properties(start, count as nat),
                spec_get_properties(start, count as nat) == spec_after(
                    property_views(out@),
                    spec_get_properties(data@, (count - i) as nat),
                ),
            decreases count - i,
        {
            let ghost before = data@;
            let ghost read = property_views(out@);
            proof {
                lemma_get_properties_next(read, before, (count - i) as nat);
            }
            match Self::get(data) {
                Ok(p) => {
                    out.push(p);
                    proof {
                        assert(property_views(out@) =~= read.push(p@));
                    }
                },
                Err(e) => {
                    return Err(e);
                },
            }
            i = i + 1;
        }
        proof {
            assert(property_views(out@) + Seq::<LoginSuccessPropertyView>::empty()
                =~= property_views(out@));
        }
        Ok(out)
    }

    /// Writes the count of the properties and then each of them.
    pub fn convert_array(properties: &Vec<Self>) -> (data: Vec<u8>)
        ensures
            data@ == spec_convert_property_array(property_views(properties@)),
    {
        let mut data: Vec<u8> = convert_var(
            ((properties.len() as u64) % 0x1_0000_0000),
        );
        let ghost prefix = data@;
        let mut i: usize = 0;
        proof {
            assert(property_views(properties@).take(0) =~= Seq::<
                LoginSuccessPropertyView,
            >::empty());
            assert(data@ =~= prefix + spec_convert_properties(
                property_views(properties@).take(0),
            ));
        }
        while i < properties.len()
            invariant
                i <= properties@.len(),
                prefix == spec_length_prefix(properties@.len()),
                data@ == prefix + spec_convert_properties(
                    property_views(properties@).take(i as int),
                ),
            decreases properties@.len() - i,
        {
            let mut one: Vec<u8> = properties[i].convert();
            data.append(&mut one);
            proof {
                let views = property_views(properties@);
                assert(views.take(i + 1).drop_last() =~= views.take(i as int));
                assert(views.take(i + 1).last() == properties@[i as int]@);
                assert(data@ =~= prefix + spec_convert_properties(views.take(i + 1)));
            }
            i = i + 1;
        }
        proof {
            let views = property_views(properties@);
            assert(views.take(properties@.len() as int) =~= views);
        }
        data
    }
}

/// One property that fits, written and read back, is unchanged, and what
/// followed it stays in the buffer.
pub proof fn lemma_property_round_trip(v: LoginSuccessPropertyView, rest: Seq<u8>)
    requires
        spec_property_fits(v),
    ensures
        spec_get_property(spec_convert_property(v) + rest) == (
            Ok::<LoginSuccessPropertyView, VarIntError>(v),
            rest,
        ),
{
    reveal(spec_get_property);
    match v.signature {
        Some(s) => {
            let r3 = spec_convert_string(s) + rest;
            let r2 = spec_convert_bool(true) + r3;
            let r1 = spec_convert_string(v.value) + r2;
            assert(spec_convert_property(v) + rest =~= spec_convert_string(v.name) + r1);
            lemma_string_round_trip(v.name, r1);
            lemma_string_round_trip(v.value, r2);
            lemma_try_bool_round_trip(true, r3);
            lemma_string_round_trip(s, rest);
        },
        None => {
            let r2 = spec_convert_bool(false) + rest;
            let r1 = spec_convert_string(v.value) + r2;
            assert(spec_convert_property(v) + rest =~= spec_convert_string(v.name) + r1);
            lemma_string_round_trip(v.name, r1);
            lemma_string_round_trip(v.value, r2);
            lemma_try_bool_round_trip(false, rest);
        },
    }
}

/// The bytes of a run of properties start with those of its first.
pub proof fn lemma_convert_properties_front(vs: Seq<LoginSuccessPropertyView>)
    requires
        vs.len() > 0,
    ensures
        spec_convert_properties(vs) == spec_convert_property(vs[0]) + spec_convert_properties(
            vs.skip(1),
        ),
    decreases vs.len(),
{
    if vs.len() == 1 {
        assert(vs.drop_last() =~= Seq::<LoginSuccessPropertyView>::empty());
        assert(vs.skip(1) =~= Seq::<LoginSuccessPropertyView>::empty());
        assert(spec_convert_properties(vs) =~= spec_convert_property(vs[0])
            + spec_convert_properties(vs.skip(1)));
    } else {
        lemma_convert_properties_front(vs.drop_last());
        assert(vs.drop_last().skip(1) =~= vs.skip(1).drop_last());
        assert(vs.skip(1).last() == vs.last());
        assert(spec_convert_properties(vs) =~= spec_convert_property(vs[0])
            + spec_convert_properties(vs.skip(1)));
    }
}

/// A run of properties that fit, written and read back, is unchanged, and
/// what followed it stays in the buffer.
pub proof fn lemma_properties_round_trip(vs: Seq<LoginSuccessPropertyView>, rest: Seq<u8>)
    requires
        forall|i: int| 0 <= i < vs.len() ==> spec_property_fits(#[trigger] vs[i]),
    ensures
        spec_get_properties(spec_convert_properties(vs) + rest, vs.len()) == (
            Ok::<Seq<LoginSuccessPropertyView>, VarIntError>(vs),
            rest,
        ),
    decreases vs.len(),
{
    if vs.len() == 0 {
        assert(spec_convert_properties(vs) + rest =~= rest);
        assert(vs =~= Seq::<LoginSuccessPropertyView>::empty());
    } else {
        let tail = vs.skip(1);
        let after = spec_convert_properties(tail) + rest;
        lemma_convert_properties_front(vs);
        assert(spec_convert_properties(vs) + rest =~= spec_convert_property(vs[0]) + after);
        lemma_property_round_trip(vs[0], after);
        assert forall|i: int| 0 <= i < tail.len() implies spec_property_fits(
            #[trigger] tail[i],
        ) by {
            assert(tail[i] == vs[i + 1]);
        }
        lemma_properties_round_trip(tail, rest);
        assert(seq![vs[0]] + tail =~= vs);
    }
}

/// The completion of a login: the player's UUID, name and properties.
pub struct LoginSuccess {
    pub uuid: u128,
    pub username: String,
    pub properties: Vec<LoginSuccessProperty>,
}

/// A `LoginSuccess` as contracts see it: texts and byte strings by their
/// contents.
pub struct LoginSuccessView {
    pub uuid: u128,
    pub username: Seq<char>,
    pub properties: Seq<LoginSuccessPropertyView>,
}

impl View for LoginSuccess {
    type V = LoginSuccessView;

    open spec fn view(&self) -> LoginSuccessView {
        LoginSuccessView {
            uuid: self.uuid,
            username: self.username@,
            properties: property_views(self.properties@),
        }
    }
}

impl Packet for LoginSuccess {
    open spec fn spec_packet_id() -> i32 {
        2
    }

    open spec fn spec_get(data: Seq<u8>) -> (Result<LoginSuccessView, VarIntError>, Seq<u8>) {
        match spec_try_get_uuid(data) {
            (Err(e), rest) => (Err(e), rest),
            (Ok(uuid), rest) => match spec_get_string(rest) {
                (Err(e), rest) => (Err(e), rest),
                (Ok(username), rest) => match spec_get_property_array(rest) {
                    (Err(e), rest) => (Err(e), rest),
                    (Ok(properties), rest) => (
                        Ok(LoginSuccessView { uuid, username, properties }),
                        rest,
                    ),
                },
            },
        }
    }

    open spec fn spec_body(v: LoginSuccessView) -> Seq<u8> {
        spec_convert_uuid(v.uuid) + spec_convert_string(v.username) + spec_convert_property_array(
            v.properties,
        )
    }

    open spec fn spec_fits(v: LoginSuccessView) -> bool {
        &&& spec_string_fits(v.username)
        &&& v.properties.len() <= i32::MAX
        &&& forall|i: int| 0 <= i < v.properties.len() ==> spec_property_fits(
            #[trigger] v.properties[i],
        )
    }

    fn packet_id() -> (id: i32) {
        2
    }

    fn get(data: &mut Vec<u8>) -> (r: Result<Self, VarIntError>) {
        let uuid: u128 = match try_get_uuid(data) {
            Ok(v) => v,
            Err(e) => {
                return Err(e);
            },
        };
        let username = match get_string(data) {
            Ok(v) => v,
            Err(e) => {
                return Err(e);
            },
        };
        let properties = match LoginSuccessProperty::get_array(data) {
            Ok(v) => v,
            Err(e) => {
                return Err(e);
            },
        };
        Ok(Self { uuid, username, properties })
    }

    fn convert(&self) -> (data: Vec<u8>) {
        let mut data: Vec<u8> = Vec::new();
        data.append(&mut convert_var_int(Self::packet_id()));
        data.append(&mut convert_uuid(self.uuid));
        data.append(&mut convert_string(self.username.as_str()));
        data.append(&mut LoginSuccessProperty::convert_array(&self.properties));
        proof {
            assert(data@ =~= spec_convert_var_int(Self::spec_packet_id()) + Self::spec_body(
                self@,
            ));
        }
        data
    }

    proof fn lemma_round_trip(v: LoginSuccessView, rest: Seq<u8>) {
        let count = v.properties.len() as i32;
        let r3 = spec_convert_properties(v.properties) + rest;
        let r2 = spec_convert_property_array(v.properties) + rest;
        let r1 = spec_convert_string(v.username) + r2;
        assert(Self::spec_body(v) + rest =~= spec_convert_uuid(v.uuid) + r1);
        lemma_try_uuid_round_trip(v.uuid, r1);
        lemma_string_round_trip(v.username, r2);
        assert(((count as u32) as nat) == v.properties.len()) by {
            assert(count >= 0 ==> (count as u32) == count) by (bit_vector);
        }
        assert(r2 =~= spec_convert_var_int(count) + r3);
        lemma_var_int_round_trip(count, r3);
        lemma_properties_round_trip(v.properties, rest);
    }
}

} // verus!
