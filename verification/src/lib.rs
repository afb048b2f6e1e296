//! The control-plane authorization core of a multi-protocol proxy: named
//! groups of authorized users built from static configuration plus a
//! periodically refreshed external credential feed, and the per-session
//! routing notes filled in once a session is authorized.

pub mod credset;
pub mod datetime;
pub mod errors;
pub mod feed;
pub mod group;
pub mod registry;
pub mod task_notes;
pub mod text;
pub mod user;
pub mod value;
