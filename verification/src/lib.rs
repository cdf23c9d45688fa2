//! Anonymous relay bot: the membership store, the relay-target registry and
//! the router that decides what to send for each inbound update.

pub mod api;
pub mod callback_data_as_string;
pub mod callback_data_as_string_opt;
pub mod chats;
pub mod config;
pub mod entities;
pub mod headers;
pub mod state;
