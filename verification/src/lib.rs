//! A Minecraft protocol client library: the wire types and packet codec of the
//! protocol, chunk decoding, world coordinates, resource names and the client's input
//! state machine.

pub mod chat;
pub mod generators;
pub mod json;
pub mod network;
pub mod players;
pub mod resources;
pub mod session;
pub mod state;
pub mod world;
