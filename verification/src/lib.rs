//! A small multi-room chat service: the wire vocabulary, the room and user
//! registry of the server, the command dispatcher, and the decisions of the
//! client's network bridge.

pub mod chat;
pub mod client;
pub mod names;
pub mod numerals;
pub mod paging;
pub mod protocol;
pub mod screen;
pub mod server;
pub mod ui;
