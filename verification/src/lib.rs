//! A line-oriented text chat: the message model and its wire format, the
//! rules of a client's input line and transcript, the life cycle of a server
//! session, and the hub that fans every message out to the other sessions.

pub mod channel;
pub mod cli;
pub mod client;
pub mod clock;
pub mod hub;
pub mod input;
pub mod json;
pub mod message;
pub mod render;
pub mod session;
pub mod text;
pub mod theme;
pub mod wire;
