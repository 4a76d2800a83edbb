use vstd::prelude::*;

verus! {

/// The ways a cache operation fails.
#[derive(Debug, Clone, Copy, PartialEq, Eq, Structural)]
pub enum CacheError {
    /// A file, entry or directory that was looked for is absent.
    NotFound,
    /// An info record is present but its bytes do not decode.
    CorruptRecord,
    /// A command holds a string that the record format cannot hold.
    EncodingError,
    /// A path names no file from which a key can be taken.
    InvalidPath,
    /// The cache directory does not exist.
    CacheDirectoryNotFound,
}

} // verus!
