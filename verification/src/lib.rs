//! A protocol-aware reverse proxy core for a block-game wire protocol:
//! the wire codec, the packet tables of each connection phase, the
//! per-connection routing decisions and the whitelist policy.

pub mod mc_types;
pub mod handshake;
pub mod status;
pub mod login;
pub mod info_messages;
pub mod json;
pub mod whitelist;
pub mod client;
pub mod listener;
pub mod login_handle;
pub mod motd;
pub mod status_handle;
pub mod encrypt;
