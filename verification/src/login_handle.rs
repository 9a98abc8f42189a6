//! The decisions of the login phase.

use crate::encrypt::{hex_digit_text, spec_hex_digit};
use crate::handshake::serverbound::{Handshake, HandshakeView};
use crate::info_messages;
use crate::listener::{AuthenticationMethod, OnlineStatus, ProxyInfo};
use crate::login::clientbound::{Disconnect, LoginSuccess, LoginSuccessProperty, property_views};
use crate::login::serverbound::{LoginStart, LoginStartView};
use crate::mc_types::{spec_write_packet, write_packet, VERSION_PROTOCOL};
use crate::whitelist::{spec_answers, Player, PlayerAllowed, PlayerView};
use vstd::prelude::*;
use vstd::string::{StrSliceExecFns, StringExecFns};

verus! {

/// What follows the decision on a player.
pub enum LoginOutcome {
    /// The player is let in: these bytes go to the backend, which then
    /// answers with the completion of the login.
    Allowed(Vec<u8>),
    /// The player is turned away: these bytes go to the client, and the
    /// connection is closed.
    Denied(Vec<u8>),
}

/// Whether the client's leg is encrypted before the player is decided on.
pub open spec fn spec_needs_encryption(online_status: OnlineStatus) -> bool {
    online_status == OnlineStatus::Online
}

/// Whether the session server is asked about the player.
pub open spec fn spec_needs_attestation(
    online_status: OnlineStatus,
    authentication_method: AuthenticationMethod,
) -> bool {
    online_status == OnlineStatus::Online && authentication_method == AuthenticationMethod::Mojang
}

/// One character as it stands inside a JSON string: a quotation mark and
/// a backslash behind a backslash, a line feed, a carriage return and a
/// tab by their letter, any other control character by its number, and
/// every other character as it is.
pub open spec fn spec_json_escape_char(c: char) -> Seq<char> {
    let v = c as u32;
    if v == 0x22 {
        seq!['\\', '"']
    } else if v == 0x5C {
        seq!['\\', '\\']
    } else if v == 0x0A {
        seq!['\\', 'n']
    } else if v == 0x0D {
        seq!['\\', 'r']
    } else if v == 0x09 {
        seq!['\\', 't']
    } else if v < 0x20 {
        seq!['\\', 'u', '0', '0', spec_hex_digit((v / 16) as nat), spec_hex_digit((v % 16) as nat)]
    } else {
        seq![c]
    }
}

/// A text as it stands inside a JSON string.
pub open spec fn spec_json_escape(text: Seq<char>) -> Seq<char>
    decreases text.len(),
{
    if text.len() == 0 {
        Seq::empty()
    } else {
        spec_json_escape(text.drop_last()) + spec_json_escape_char(text.last())
    }
}

/// The reason of a disconnect packet that carries `message`: a JSON chat
/// component, an object with the message as its text.
pub open spec fn spec_denial_reason(message: Seq<char>) -> Seq<char> {
    "{\"text\":\""@ + spec_json_escape(message) + "\"}"@
}

/// The handshake that opens the login on the backend.
pub open spec fn spec_backend_handshake(backend_addr: Seq<char>, backend_port: u16) -> HandshakeView {
    HandshakeView {
        protocol_version: VERSION_PROTOCOL,
        server_address: backend_addr,
        server_port: backend_port,
        next_state: 2,
    }
}

/// The bytes that open the login of `player` on the backend: a handshake
/// for the login phase, then the start of the login.
pub open spec fn spec_backend_login(
    backend_addr: Seq<char>,
    backend_port: u16,
    player: PlayerView,
) -> Seq<u8> {
    spec_write_packet::<Handshake>(spec_backend_handshake(backend_addr, backend_port))
        + spec_write_packet::<LoginStart>(
        LoginStartView { name: player.name, player_uuid: player.player_uuid },
    )
}

/// What is decided on `player`: a player whom the session server was
/// asked about and did not attest is turned away; every other player is
/// up to the whitelist.
pub open spec fn spec_check_player(
    proxy_info: &ProxyInfo,
    player: PlayerView,
    attested: bool,
    r: PlayerAllowed,
) -> bool {
    if spec_needs_attestation(proxy_info.online_status, proxy_info.authentication_method)
        && !attested {
        r matches PlayerAllowed::False(message) && message@
            == info_messages::AUTHENTICATION_FAILED_DISCONNECT@
    } else {
        spec_answers(r, proxy_info.whitelist.spec_check(player), player)
    }
}

/// Whether the client's leg is encrypted before the player is decided on.
pub fn needs_encryption(proxy_info: &ProxyInfo) -> (r: bool)
    ensures
        r == spec_needs_encryption(proxy_info.online_status),
{
    match proxy_info.online_status {
        OnlineStatus::Online => true,
        OnlineStatus::Offline => false,
    }
}

/// Whether the session server is asked about the player.
pub fn needs_attestation(proxy_info: &ProxyInfo) -> (r: bool)
    ensures
        r == spec_needs_attestation(proxy_info.online_status, proxy_info.authentication_method),
{
    match proxy_info.online_status {
        OnlineStatus::Online => match proxy_info.authentication_method {
            AuthenticationMethod::Mojang => true,
            AuthenticationMethod::NoAuthentication => false,
        },
        OnlineStatus::Offline => false,
    }
}

/// The player that starts a login: the name and the UUID of the packet,
/// and active.
pub fn login_to_proxy(start_packet: LoginStart) -> (player: Player)
    ensures
        player@ == (PlayerView {
            name: start_packet@.name,
            player_uuid: start_packet@.player_uuid,
            active: true,
        }),
{
    Player { name: start_packet.name, player_uuid: start_packet.player_uuid, active: true }
}

/// Decides on `player`. `attested` says whether the session server
/// attested the player; it counts only where the listener asks the
/// session server.
pub fn check_player(proxy_info: &ProxyInfo, player: Player, attested: bool) -> (r: PlayerAllowed)
    ensures
        spec_check_player(proxy_info, player@, attested, r),
{
    if needs_attestation(proxy_info) && !attested {
        PlayerAllowed::False(info_messages::AUTHENTICATION_FAILED_DISCONNECT.to_owned())
    } else {
        proxy_info.whitelist.check_player_whitelist(player)
    }
}

/// Writes a text as it stands inside a JSON string.
pub fn json_escape(text: &str) -> (r: String)
    ensures
        r@ == spec_json_escape(text@),
{
    let mut out = String::new();
    let count: usize = text.unicode_len();
    let mut i: usize = 0;
    proof {
        reveal_strlit("\\\"");
        reveal_strlit("\\\\");
        reveal_strlit("\\n");
        reveal_strlit("\\r");
        reveal_strlit("\\t");
        reveal_strlit("\\u00");
        assert(text@.take(0) =~= Seq::<char>::empty());
    }
    while i < count
        invariant
            i <= count,
            count == text@.len(),
            out@ == spec_json_escape(text@.take(i as int)),
            "\\\""@ =~= seq!['\\', '"'],
            "\\\\"@ =~= seq!['\\', '\\'],
            "\\n"@ =~= seq!['\\', 'n'],
            "\\r"@ =~= seq!['\\', 'r'],
            "\\t"@ =~= seq!['\\', 't'],
            "\\u00"@ =~= seq!['\\', 'u', '0', '0'],
        decreases count - i,
    {
        let c: char = text.get_char(i);
        let v: u32 = c as u32;
        let ghost before = out@;
        proof {
            assert(text@.take(i + 1).drop_last() =~= text@.take(i as int));
            assert(text@.take(i + 1).last() == c);
        }
        if v == 0x22 {
            out.append("\\\"");
        } else if v == 0x5C {
            out.append("\\\\");
        } else if v == 0x0A {
            out.append("\\n");
        } else if v == 0x0D {
            out.append("\\r");
        } else if v == 0x09 {
            out.append("\\t");
        } else if v < 0x20 {
            out.append("\\u00");
            out.append(hex_digit_text((v / 16) as u8));
            out.append(hex_digit_text((v % 16) as u8));
        } else {
            out.append(text.substring_char(i, i + 1));
            proof {
                assert(text@.subrange(i as int, i + 1) =~= seq![c]);
            }
        }
        proof {
            assert(out@ =~= before + spec_json_escape_char(c));
        }
        i = i + 1;
    }
    proof {
        assert(text@.take(count as int) =~= text@);
    }
    out
}

/// The disconnect packet that tells a client `message`: its reason is a
/// JSON chat component with the message as its text.
pub fn denial(message: &str) -> (packet: Disconnect)
    ensures
        packet@ == spec_denial_reason(message@),
{
    let mut reason = String::from_str("{\"text\":\"");
    reason.append(json_escape(message).as_str());
    reason.append("\"}");
    Disconnect { reason }
}

/// The bytes that open the login of `player` on the backend.
pub fn login_to_backend(proxy_info: &ProxyInfo, player: Player) -> (bytes: Vec<u8>)
    ensures
        bytes@ == spec_backend_login(proxy_info.backend_addr@, proxy_info.backend_port, player@),
{
    let mut bytes: Vec<u8> = Vec::new();
    let handshake = Handshake {
        protocol_version: VERSION_PROTOCOL,
        server_address: proxy_info.backend_addr.clone(),
        server_port: proxy_info.backend_port,
        next_state: 2,
    };
    write_packet(&handshake, &mut bytes);
    let start = LoginStart { name: player.name, player_uuid: player.player_uuid };
    write_packet(&start, &mut bytes);
    proof {
        assert(bytes@ =~= spec_backend_login(
            proxy_info.backend_addr@,
            proxy_info.backend_port,
            player@,
        ));
    }
    bytes
}

/// Turns the decision on a player into what is sent next: to the backend
/// the opening of the login, or to the client the reason why not.
pub fn respond_login(proxy_info: &ProxyInfo, proxy_login: PlayerAllowed) -> (r: LoginOutcome)
    ensures
        match proxy_login {
            PlayerAllowed::True(player) => r matches LoginOutcome::Allowed(bytes) && bytes@
                == spec_backend_login(
                proxy_info.backend_addr@,
                proxy_info.backend_port,
                player@,
            ),
            PlayerAllowed::False(message) => r matches LoginOutcome::Denied(bytes) && bytes@
                == spec_write_packet::<Disconnect>(spec_denial_reason(message@)),
        },
{
    match proxy_login {
        PlayerAllowed::True(player) => LoginOutcome::Allowed(login_to_backend(proxy_info, player)),
        PlayerAllowed::False(message) => {
            let mut bytes: Vec<u8> = Vec::new();
            write_packet(&denial(message.as_str()), &mut bytes);
            proof {
                assert(bytes@ =~= spec_write_packet::<Disconnect>(spec_denial_reason(message@)));
            }
            LoginOutcome::Denied(bytes)
        },
    }
}

/// The completion of the login that goes to the client: the one that the
/// backend sent, field for field.
pub fn mirror_login_success(packet: &LoginSuccess) -> (r: LoginSuccess)
    ensures
        r@ == packet@,
{
    let mut properties: Vec<LoginSuccessProperty> = Vec::new();
    let mut i: usize = 0;
    while i < packet.properties.len()
        invariant
            i <= packet.properties@.len(),
            property_views(properties@) == property_views(packet.properties@).take(i as int),
        decreases packet.properties@.len() - i,
    {
        let ghost before = property_views(properties@);
        let property = packet.properties[i].clone();
        proof {
            assert(property@ == packet.properties@[i as int]@);
        }
        properties.push(property);
        i = i + 1;
        proof {
            assert(property_views(properties@) =~= before.push(property@));
            assert(property_views(properties@) =~= property_views(packet.properties@).take(
                i as int,
            ));
        }
    }
    proof {
        assert(property_views(packet.properties@).take(packet.properties@.len() as int)
            =~= property_views(packet.properties@));
    }
    LoginSuccess { uuid: packet.uuid, username: packet.username.clone(), properties }
}

} // verus!
