//! The packets of the handshake phase.

pub mod serverbound;
