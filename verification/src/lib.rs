//! Peer discovery for a small card-game mesh: the wire codec, the roster, the
//! handshake decisions of both sides, and the card model that rides on top.

pub mod error;
pub mod textsafe;
pub mod wire;
pub mod net;
pub mod message;
pub mod cards;
pub mod deck;
pub mod translation;
