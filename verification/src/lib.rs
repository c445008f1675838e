//! Command framing, routing and shard-side execution for a partitioned
//! message-streaming broker.
//!
//! The crate covers the binary wire form of every command, the identifier
//! codec shared by them, the in-memory index of one shard (streams, topics,
//! partitions, consumer groups, users and tokens) and the dispatcher that
//! turns a decoded command into a reply.

pub mod binary;
pub mod buffer;
pub mod command;
pub mod consumer;
pub mod consumer_groups;
pub mod consumer_offsets;
pub mod error;
pub mod identifier;
pub mod messages;
pub mod partitioner;
pub mod partitioning;
pub mod partitions;
pub mod payload;
pub mod permissions;
pub mod personal_access_tokens;
pub mod polling;
pub mod send_messages;
pub mod shard;
pub mod streaming;
pub mod streams;
pub mod system;
pub mod tcp;
pub mod topics;
pub mod users;
pub mod wire;
