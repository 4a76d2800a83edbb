use vstd::prelude::*;
use crate::error::CacheError;
use crate::key::{cache_key, key_of};
use crate::record::CacheEntryInfo;
use crate::strings::{OsString, strings_view};
use crate::timestamp::SystemTime;

verus! {

/// The path that std's `Path::join` gives for `name` inside `dir`.
pub uninterp spec fn joined_of(dir: Seq<char>, name: Seq<char>) -> Seq<char>;

/// The path that std's `Path::with_extension` gives for `p` and `ext`.
pub uninterp spec fn with_extension_of(p: Seq<char>, ext: Seq<char>) -> Seq<char>;

/// The last component that std's `Path::file_name` finds in `p`.
pub uninterp spec fn file_name_of(p: Seq<char>) -> Option<Seq<char>>;

/// Relies on std's Path::join: the path of `name` inside `dir`, a function
/// of the two texts alone.
#[verifier::external_body]
fn path_join(dir: &str, name: &str) -> (r: String)
    ensures
        r@ == joined_of(dir@, name@),
{
    std::path::Path::new(dir).join(name).to_string_lossy().into_owned()
}

/// Relies on std's Path::with_extension: `p` with its extension set to `ext`,
/// a function of the two texts alone. It panics where `ext` holds a path
/// separator, which `requires` leaves out.
#[verifier::external_body]
fn path_with_extension(p: &str, ext: &str) -> (r: String)
    requires
        !ext@.contains('/'),
    ensures
        r@ == with_extension_of(p@, ext@),
{
    std::path::Path::new(p).with_extension(ext).to_string_lossy().into_owned()
}

/// Relies on std's Path::file_name: the last component of `p`, absent where
/// `p` is empty, a root, or ends in `..`.
#[verifier::external_body]
fn path_file_name(p: &str) -> (r: Option<String>)
    ensures
        match r {
            Some(n) => file_name_of(p@) == Some(n@),
            None => file_name_of(p@) is None,
        },
{
    match std::path::Path::new(p).file_name() {
        Some(n) => Some(n.to_string_lossy().into_owned()),
        None => None,
    }
}

/// Relies on std's Path::exists: whether a file stands at `p` now. What is on
/// disk decides, so nothing is stated of the result.
#[verifier::external_body]
fn path_exists(p: &str) -> (r: bool) {
    std::path::Path::new(p).exists()
}

/// The three files of one cache entry: the info record, the captured
/// standard output and the captured standard error, named by the key.
#[derive(Debug, Clone)]
pub struct CacheEntry {
    pub id: String,
    pub info_path: String,
    pub stdout_path: String,
    pub stderr_path: String,
}

impl CacheEntry {
    /// The companion paths follow from the info path.
    pub open spec fn wf(&self) -> bool {
        &&& self.stdout_path@ == with_extension_of(self.info_path@, "stdout"@)
        &&& self.stderr_path@ == with_extension_of(self.info_path@, "stderr"@)
    }

    /// The entry of `command` inside the cache directory `dir`.
    pub fn new(dir: &str, command: &Vec<OsString>) -> (r: CacheEntry)
        ensures
            r.id@ == key_of(strings_view(command@)),
            r.info_path@ == joined_of(dir@, r.id@),
            r.wf(),
    {
        proof {
            reveal_strlit("stdout");
            reveal_strlit("stderr");
        }
        let id = cache_key(command);
        let info_path = path_join(dir, id.as_str());
        let stdout_path = path_with_extension(info_path.as_str(), "stdout");
        let stderr_path = path_with_extension(info_path.as_str(), "stderr");
        CacheEntry { id, info_path, stdout_path, stderr_path }
    }

    /// The entry whose info record stands at `info_path`; its key is the
    /// path's file name.
    pub fn load(info_path: &str) -> (r: Result<CacheEntry, CacheError>)
        ensures
            match r {
                Ok(e) => file_name_of(info_path@) == Some(e.id@) && e.info_path@ == info_path@
                    && e.wf(),
                Err(err) => file_name_of(info_path@) is None && err == CacheError::InvalidPath,
            },
    {
        match path_file_name(info_path) {
            None => Err(CacheError::InvalidPath),
            Some(id) => {
                proof {
                    reveal_strlit("stdout");
                    reveal_strlit("stderr");
                }
                let info = info_path.to_owned();
                let stdout_path = path_with_extension(info_path, "stdout");
                let stderr_path = path_with_extension(info_path, "stderr");
                Ok(CacheEntry { id, info_path: info, stdout_path, stderr_path })
            },
        }
    }

    /// Whether the info record is on disk.
    pub fn info_exists(&self) -> (r: bool) {
        path_exists(self.info_path.as_str())
    }
}

impl CacheEntryInfo {
    /// Whether the entry is still valid now. An entry without expiry always
    /// is; so is every entry while the clock stands before the epoch, since
    /// every expiry lies at or after it.
    pub fn valid(&self) -> (r: bool)
        ensures
            self.expiry is None ==> r,
    {
        let clock = SystemTime::now();
        self.valid_on(&clock)
    }
}

} // verus!
