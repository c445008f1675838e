//! Handlers of commands on users.

pub mod create_user_handler;
pub mod update_permissions_handler;
