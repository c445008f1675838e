//! Handlers of commands on consumer groups.

pub mod join_consumer_group_handler;
