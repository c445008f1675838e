//! Handlers of single commands: each runs the operation of its command and
//! returns the frame of the reply.

pub mod consumer_groups;
pub mod users;
