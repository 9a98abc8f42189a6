//! The texts that the proxy sends to clients.

use vstd::prelude::*;

verus! {

pub const BACKEND_DOWN_PING: &'static str =
    "Server Error (Server may be starting)\nPurple Cello Server";

pub const BACKEND_DOWN_DISCONNECT: &'static str =
    "Server Error (Server is down or restarting)\nPlease contact the admins if the issue persists:\npurplecelloserver@gmail.com";

pub const UUID_MISSING_DISCONNECT: &'static str = "Invalid UUID! (UUID Missing)";

pub const WHITELIST_STATUS_INACTIVE_DISCONNECT: &'static str =
    "Whitelist Status Inactive!\nPlease contact the admins to reactivate:\npurplecelloserver@gmail.com";

pub const USERNAME_INVALID_DISCONNECT: &'static str =
    "Invalid Username!\nPlease contact the admins to update your username:\npurplecelloserver@gmail.com";

pub const UUID_INVALID_DISCONNECT: &'static str = "Invalid UUID!";

pub const NOT_WHITELISTED_DISCONNECT: &'static str =
    "Not whitelisted on this server.\nPlease direct whitelist requests to the admins:\npurplecelloserver@gmail.com";

pub const AUTHENTICATION_FAILED_DISCONNECT: &'static str = "Mojang Authentication Failed";

pub const DEFAULT_MOTD: &'static str = "A Minecraft Server Proxy";

} // verus!
