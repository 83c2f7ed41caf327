//! Emote synchronization: channel lists, asset resolution, the token-to-path
//! mapping and the per-channel, per-emote decisions of a sync run.

pub mod catalog;
pub mod channels;
pub mod error;
pub mod laws;
pub mod mapping;
pub mod names;
pub mod resolve;
pub mod sync;
