//! The packets of the status phase.

pub mod clientbound;
pub mod serverbound;
