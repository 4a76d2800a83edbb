//! A command-output cache: the cache key, the entry layout, the binary
//! info record and the decisions taken around running a command.

pub mod bytes;
pub mod entry;
pub mod error;
pub mod key;
pub mod record;
pub mod session;
pub mod strings;
pub mod timestamp;
