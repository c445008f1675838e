//! The binary protocol: frames of requests and replies, the bodies of
//! replies, and the handlers of single commands.

pub mod handlers;
pub mod mapper;
pub mod sender;
