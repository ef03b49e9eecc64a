//! Verified core of a small group chat and voice service: the signalling
//! and membership rules of the voice relay, the client's call life cycle,
//! the audio pipeline's bookkeeping, and the chat timeline's ordering rules.

pub mod auth;
pub mod capture;
pub mod channel_list;
pub mod chat;
pub mod config;
pub mod connection;
pub mod convert;
pub mod devices;
pub mod domain;
pub mod ffi;
pub mod framing;
pub mod input;
pub mod navigation;
pub mod negotiation;
pub mod playout;
pub mod posts;
pub mod room;
pub mod routing;
pub mod server_api;
pub mod sockets;
pub mod text;
pub mod timeline;
pub mod tokens;
pub mod typing;
pub mod voice_actor;
pub mod voice_link;
