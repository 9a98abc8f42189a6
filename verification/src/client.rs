//! The first decisions on a connection: which phase the client asks for,
//! and whether it is let into it.

use crate::handshake::serverbound::{Handshake, HandshakeEnum, HandshakeView};
use crate::info_messages;
use crate::login::clientbound::Disconnect;
use crate::login_handle::{denial, spec_denial_reason};
use crate::status_handle::{respond_legacy_status, spec_legacy_status, spec_legacy_text};
use crate::mc_types::{
    spec_read_frame_id, spec_read_packet, spec_write_packet, write_packet, ProtocolError,
    VERSION_NAME, VERSION_PROTOCOL,
};
use vstd::prelude::*;
use vstd::string::StringExecFns;

verus! {

/// The byte that opens a legacy status request.
pub const LEGACY_PING: u8 = 0xFE;

/// Where a connection goes after its first bytes.
#[derive(Copy, Clone, PartialEq, Eq, Structural)]
pub enum Route {
    /// The client sent a legacy status request: it is answered, and the
    /// connection is closed.
    LegacyStatus,
    /// The client asks for the status phase.
    Status,
    /// The client asks to log in, speaks the proxy's protocol, and the
    /// backend is there.
    Login,
    /// The client asks to log in and the backend is not there: tell it
    /// so and close.
    BackendDown,
    /// The client asks to log in and speaks an older protocol: tell it so
    /// and close.
    Outdated,
    /// The client asks to log in and speaks a newer protocol: tell it so
    /// and close.
    Future,
    /// Anything else: close.
    Closed,
}

/// What the proxy does first on a connection.
pub enum ClientAction {
    /// Follow the route; the bytes, if there are any, go to the client
    /// first.
    Go(Route, Vec<u8>),
    /// The handshake could not be read: close.
    Failed(ProtocolError),
}

/// The route of a connection whose handshake is `handshake`.
pub open spec fn spec_route(handshake: HandshakeView, backend_up: bool) -> Route {
    if handshake.next_state == 1 {
        Route::Status
    } else if handshake.next_state == 2 {
        if handshake.protocol_version == VERSION_PROTOCOL {
            if backend_up {
                Route::Login
            } else {
                Route::BackendDown
            }
        } else if handshake.protocol_version < VERSION_PROTOCOL {
            Route::Outdated
        } else {
            Route::Future
        }
    } else {
        Route::Closed
    }
}

/// The reason that a client is given when its login ends on `route`
/// before it began.
pub open spec fn spec_route_reason(route: Route) -> Option<Seq<char>> {
    match route {
        Route::BackendDown => Some(spec_denial_reason(info_messages::BACKEND_DOWN_DISCONNECT@)),
        Route::Outdated => Some(
            "\"Client Error: Outdated Version (I'm on "@ + VERSION_NAME@ + ")\""@,
        ),
        Route::Future => Some("\"Client Error: Future Version (I'm on "@ + VERSION_NAME@ + ")\""@),
        _ => None,
    }
}

/// The bytes that go to the client before a route is followed: the
/// answer to a legacy status request, a disconnect packet with the
/// route's reason, or nothing.
pub open spec fn spec_route_bytes(route: Route) -> Seq<u8> {
    if route == Route::LegacyStatus {
        spec_legacy_status(spec_legacy_text())
    } else {
        match spec_route_reason(route) {
            Some(reason) => spec_write_packet::<Disconnect>(reason),
            None => Seq::empty(),
        }
    }
}

/// Whether the first byte of a connection opens a legacy status request.
pub fn is_legacy_ping(first_byte: u8) -> (r: bool)
    ensures
        r == (first_byte == LEGACY_PING),
{
    first_byte == LEGACY_PING
}

/// Picks the route of a connection from its handshake.
pub fn route_handshake(handshake: &Handshake, backend_up: bool) -> (r: Route)
    ensures
        r == spec_route(handshake@, backend_up),
{
    if handshake.next_state == 1 {
        Route::Status
    } else if handshake.next_state == 2 {
        if handshake.protocol_version == VERSION_PROTOCOL {
            if backend_up {
                Route::Login
            } else {
                Route::BackendDown
            }
        } else if handshake.protocol_version < VERSION_PROTOCOL {
            Route::Outdated
        } else {
            Route::Future
        }
    } else {
        Route::Closed
    }
}

/// The disconnect packet that ends a login on `route` before it began,
/// if the route has one.
pub fn route_disconnect(route: Route) -> (r: Option<Disconnect>)
    ensures
        match r {
            Some(packet) => spec_route_reason(route) == Some(packet@),
            None => spec_route_reason(route) == None::<Seq<char>>,
        },
{
    match route {
        Route::BackendDown => Some(denial(info_messages::BACKEND_DOWN_DISCONNECT)),
        Route::Outdated => {
            let mut reason = String::from_str("\"Client Error: Outdated Version (I'm on ");
            reason.append(VERSION_NAME);
            reason.append(")\"");
            Some(Disconnect { reason })
        },
        Route::Future => {
            let mut reason = String::from_str("\"Client Error: Future Version (I'm on ");
            reason.append(VERSION_NAME);
            reason.append(")\"");
            Some(Disconnect { reason })
        },
        _ => None,
    }
}

/// Decides what to do with a new connection. `first_byte` is the first
/// byte that the client sent, and `received` holds what the client sent,
/// that byte included. A legacy status request is left in `received` and
/// answered; else one frame is taken off it and read as the handshake.
/// Nothing is sent where the frame cannot be read, or is led by an id
/// that the handshake phase does not know.
pub fn handle_client(first_byte: u8, received: &mut Vec<u8>, backend_up: bool) -> (r: ClientAction)
    ensures
        first_byte == LEGACY_PING ==> final(received)@ == old(received)@ && (r matches ClientAction::Go(
            route,
            bytes,
        ) && route == Route::LegacyStatus && bytes@ == spec_route_bytes(route)),
        first_byte != LEGACY_PING ==> final(received)@ == spec_read_frame_id(old(received)@).1
            && match spec_read_packet::<Handshake>(old(received)@) {
            Ok(handshake) => r matches ClientAction::Go(route, bytes) && route == spec_route(
                handshake,
                backend_up,
            ) && bytes@ == spec_route_bytes(route),
            Err(e) => r matches ClientAction::Failed(f) && f == e,
        },
{
    if is_legacy_ping(first_byte) {
        return ClientAction::Go(Route::LegacyStatus, respond_legacy_status());
    }
    let handshake_packet = match HandshakeEnum::read(received) {
        Ok(HandshakeEnum::Handshake(packet)) => packet,
        Err(e) => {
            return ClientAction::Failed(e);
        },
    };
    let route = route_handshake(&handshake_packet, backend_up);
    let mut bytes: Vec<u8> = Vec::new();
    match route_disconnect(route) {
        Some(packet) => {
            write_packet(&packet, &mut bytes);
            proof {
                assert(bytes@ =~= spec_route_bytes(route));
            }
        },
        None => {},
    }
    ClientAction::Go(route, bytes)
}

} // verus!
