//! The in-memory index of a shard: streams, topics, partitions, consumer
//! groups, users, tokens, clients and sessions.

pub mod consumer_group;
pub mod partition;
pub mod polling_consumer;
pub mod registry;
pub mod session;
pub mod stream;
pub mod topic;
pub mod user;
