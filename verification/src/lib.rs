//! Incremental synchronisation for a chat homeserver: the decisions that turn
//! two room-state snapshots and a position counter into the delta one client
//! is shown, together with the request cache and the per-room lock table that
//! surround them.

pub mod cache;
pub mod delta;
pub mod devices;
pub mod error;
pub mod event;
pub mod locks;
pub mod presence;
pub mod redact;
pub mod response;
pub mod rooms;
pub mod state;
pub mod strings;
pub mod summary;
pub mod table;
pub mod timeline;
pub mod token;
pub mod users;
