//! The older protocol, in which a host speaks to the room.

pub mod ws;
