//! The protocol layer: variable-length integers, wire types and packets.

pub mod base128;
pub mod connection;
pub mod decode;
pub mod fixed;
pub mod framing;
pub mod messages;
pub mod nbt;
pub mod packets;
pub mod serverbound;
pub mod types;
