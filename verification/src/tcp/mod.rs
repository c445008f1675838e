//! The TCP side of the broker, as far as it decides anything.

pub mod tcp_server;
