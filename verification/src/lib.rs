//! Fetching of web specifications: what to fetch, when a cached index may be
//! served, and in which order an index is rebuilt.

pub mod digest;
pub mod encode;
pub mod error;
pub mod github;
pub mod live;
pub mod merge;
pub mod model;
pub mod pr;
pub mod preview;
pub mod preview_commands;
pub mod preview_laws;
pub mod protocol;
pub mod sync;
pub mod sync_commands;
pub mod sync_laws;
pub mod tc39;
pub mod text;
pub mod time;
pub mod update;
