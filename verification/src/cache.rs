//! The content-addressed repository cache.
//!
//! A cache lives in one root directory shared by every process on the
//! machine. Opening it takes a cross-process advisory lock, held for the
//! cache's whole lifetime and released when it is dropped, so at most one
//! process works inside the root at a time. Each key is mapped to a
//! subdirectory named by the lower-case hexadecimal SHA3-256 digest of the
//! key: a pure function of the key, so the same key names the same
//! directory in every process and at every time. `repo` pins a remote
//! repository at a commit inside such a directory, fetching at most once
//! per cold cache.

use vstd::prelude::*;

use sha3::Digest;
use vstd::string::StrSliceExecFns;
use vstd::string::StringExecFns;
use vstd::string::StringSliceAdditionalSpecFns;

use crate::bytes;
use crate::error::EngineError;
use crate::gitio;
use crate::gitio::GitError;
use crate::hex;
use crate::repo;
use crate::repo::git_err;

verus! {

/// The SHA3-256 digest of a byte string, as the sha3 crate computes it: a
/// function of the input alone.
pub uninterp spec fn sha3_256_of(data: Seq<u8>) -> Seq<u8>;

/// Relies on the sha3 crate's `Sha3_256`: the digest of `data`, always 32
/// bytes, depending on `data` alone.
#[verifier::external_body]
fn sha3_256(data: &[u8]) -> (r: Vec<u8>)
    ensures
        r@ == sha3_256_of(data@),
        r@.len() == 32,
{
    sha3::Sha3_256::digest(data).to_vec()
}

#[verifier::external_type_specification]
#[verifier::external_body]
pub struct ExLockFile(fslock::LockFile);

/// Relies on fslock's `LockFile`: opens the lock file at `path` and takes
/// the lock, blocking while another process holds it (`try_lock_with_pid`
/// first, then the blocking `lock_with_pid`, which fslock documents to wait
/// until the lock is free). Those calls panic only on a handle that already
/// holds the lock; this handle is freshly opened, and after a failed try
/// it still holds nothing, so neither call can panic here.
#[verifier::external_body]
fn acquire_lock(path: &str) -> (r: Result<fslock::LockFile, String>) {
    let mut lock = match fslock::LockFile::open(path) {
        Ok(l) => l,
        Err(e) => return Err(e.to_string()),
    };
    match lock.try_lock_with_pid() {
        Ok(true) => Ok(lock),
        Ok(false) => match lock.lock_with_pid() {
            Ok(()) => Ok(lock),
            Err(e) => Err(e.to_string()),
        },
        Err(e) => Err(e.to_string()),
    }
}

/// Relies on the directories crate's `ProjectDirs::from` and `cache_dir`:
/// the platform cache directory for this application, or `None` when no
/// home directory is known or the path is not unicode.
#[verifier::external_body]
fn platform_cache_root() -> (r: Option<String>) {
    match directories::ProjectDirs::from("org.ethereum", "eips", "eips-build") {
        Some(dirs) => dirs.cache_dir().to_str().map(|s| s.to_string()),
        None => None,
    }
}

/// The path of the cache entry for a key: the cache root, a separator, and
/// the digest of the key in lower-case hexadecimal.
pub open spec fn dir_path_spec(root: Seq<char>, key: Seq<u8>) -> Seq<char> {
    root + seq!['/'] + hex::hex_chars(sha3_256_of(key))
}

/// Law: the cache directory of a key is deterministic. Equal cache roots
/// and equal keys name equal paths, however often and in whichever process
/// the computation runs.
pub proof fn lemma_dir_deterministic(
    root1: Seq<char>,
    key1: Seq<u8>,
    root2: Seq<char>,
    key2: Seq<u8>,
)
    requires
        root1 == root2,
        key1 == key2,
    ensures
        dir_path_spec(root1, key1) == dir_path_spec(root2, key2),
{
}

/// The key under which a remote repository is cached: a fixed tag, a NUL,
/// and the URL.
pub open spec fn cache_key_spec(url: Seq<u8>) -> Seq<u8> {
    seq![103u8, 105u8, 116u8, 0u8] + url
}

/// The cache key for a repository URL.
fn cache_key(url: &str) -> (r: Vec<u8>)
    ensures
        r@ == cache_key_spec(url.spec_bytes()),
{
    let mut prefix: Vec<u8> = Vec::new();
    prefix.push(103);
    prefix.push(105);
    prefix.push(116);
    prefix.push(0);
    let url_bytes = url.as_bytes_vec();
    let r = bytes::concat(&prefix, &url_bytes);
    proof {
        assert(prefix@ =~= seq![103u8, 105u8, 116u8, 0u8]);
    }
    r
}

/// An open, locked cache root. The advisory lock is held for as long as
/// the value lives and released when it is dropped.
pub struct Cache {
    root: String,
    lock: fslock::LockFile,
}

impl View for Cache {
    type V = Seq<char>;

    closed spec fn view(&self) -> Seq<char> {
        self.root@
    }
}

impl Cache {
    /// Open the cache at the platform cache directory, which must exist,
    /// taking the cross-process lock; blocks while another process holds
    /// it.
    pub fn open() -> (r: Result<Cache, EngineError>)
        ensures
            r is Err ==> r->Err_0 is Directories || r->Err_0 is Fs,
    {
        let root = match platform_cache_root() {
            Some(root) => root,
            None => return Err(EngineError::Directories),
        };
        Self::open_at(root)
    }

    /// Open the cache rooted at `root`, which must exist, taking the
    /// cross-process lock; blocks while another process holds it.
    pub fn open_at(root: String) -> (r: Result<Cache, EngineError>)
        ensures
            r is Ok ==> r->Ok_0@ == root@,
            r is Err ==> r->Err_0 is Fs,
    {
        let mut lock_path = root.clone();
        lock_path.append("/.lock");
        match acquire_lock(lock_path.as_str()) {
            Ok(lock) => Ok(Cache { root, lock }),
            Err(message) => Err(EngineError::Fs { path: lock_path, message }),
        }
    }

    /// The directory for `key`: the digest-named subdirectory of the cache
    /// root. A pure computation — the same key always names the same
    /// directory, and asking again changes nothing. The directory itself
    /// comes into being at first use: `repo` creates it by initialising the
    /// entry's repository; a caller putting anything else there creates it
    /// itself.
    pub fn dir(&self, key: &str) -> (r: String)
        ensures
            r@ == dir_path_spec(self@, key.spec_bytes()),
    {
        let key_bytes = key.as_bytes_vec();
        self.dir_bytes(&key_bytes)
    }

    /// The directory for a byte-string key.
    fn dir_bytes(&self, key: &Vec<u8>) -> (r: String)
        ensures
            r@ == dir_path_spec(self@, key@),
    {
        let digest = sha3_256(key.as_slice());
        let digits = hex::hex_string(&digest);
        let mut r = self.root.clone();
        r.append("/");
        r.append(digits.as_str());
        proof {
            reveal_strlit("/");
            assert("/"@ =~= seq!['/']);
        }
        r
    }

    /// A checked-out copy of the repository at `url`, pinned at `commit`,
    /// inside this cache: opens or initialises the entry's repository,
    /// resolves `commit`, fetching `master` from `url` once only when the
    /// commit is not yet present, and force-checks the commit out with a
    /// detached HEAD. Returns the entry's directory.
    pub fn repo(&self, url: &str, commit: &str) -> (r: Result<String, EngineError>)
        ensures
            r is Ok ==> r->Ok_0@ == dir_path_spec(self@, cache_key_spec(url.spec_bytes())),
            r is Err ==> r->Err_0 is Git,
    {
        let key = cache_key(url);
        let dir = self.dir_bytes(&key);
        let cached = match repo::open_or_init(dir.as_str()) {
            Ok(repository) => repository,
            Err(e) => return Err(e),
        };
        let obj = match gitio::revparse_object(&cached, commit) {
            Ok(o) => o,
            Err(GitError::NotFound { message: _ }) => {
                match repo::fetch(&cached, url, "master") {
                    Ok(_) => {},
                    Err(e) => return Err(e),
                }
                match gitio::revparse_object(&cached, commit) {
                    Ok(o) => o,
                    Err(e) => return Err(git_err("revparse cached commit", e)),
                }
            },
            Err(e) => return Err(git_err("revparse cached commit", e)),
        };
        match gitio::checkout_tree_force(&cached, &obj) {
            Ok(()) => {},
            Err(e) => return Err(git_err("checkout cached commit", e)),
        }
        let id = gitio::object_id(&obj);
        match gitio::set_head_detached(&cached, &id) {
            Ok(()) => {},
            Err(e) => return Err(git_err("set detached head", e)),
        }
        Ok(dir)
    }
}

} // verus!
