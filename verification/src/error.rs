//! Error taxonomy of the merge engine and the cache.

use vstd::prelude::*;

verus! {

/// Which part of a tree entry clashed during a merge.
#[derive(Debug, Clone, Copy, PartialEq, Eq, Structural)]
pub enum ConflictReason {
    /// The entry exists at the same path with a different file mode.
    Mode,
    /// The entry exists at the same path with a different object kind.
    Kind,
    /// The entry exists at the same path with different content.
    Content,
}

/// A failure while walking the incoming tree or checking it against the
/// base tree. A merge aborts on the first such failure; no partial result
/// escapes.
#[derive(Debug)]
pub enum MergeError {
    /// A tree entry inside the content subtree has no readable name.
    /// `parent` is the path of the directory holding the entry.
    UnnamedEntry { parent: Vec<u8> },
    /// A tree entry inside the content subtree is neither a blob nor a
    /// subtree.
    UnknownEntryKind { path: Vec<u8> },
    /// The base tree already holds a different entry at `path`.
    Conflict { path: Vec<u8>, reason: ConflictReason },
}

/// Everything the engine can fail with.
#[derive(Debug)]
pub enum EngineError {
    /// A call into the version-control library failed; `what` names the
    /// operation, `message` carries the library's own words.
    Git { what: String, message: String },
    /// A local path could not be expressed as a URL.
    PathUrl { path: String },
    /// The repository did not resolve exactly one of the known fingerprint
    /// commits: the flags say which ones resolved.
    Identify { eips: bool, ercs: bool },
    /// The working tree or index has uncommitted modifications.
    Dirty,
    /// Folding a secondary tree into the working tree failed.
    Merge { source: MergeError },
    /// The repository uses submodules, which are not supported.
    Submodules,
    /// No platform cache directory could be determined.
    Directories,
    /// A filesystem-level operation failed at `path`.
    Fs { path: String, message: String },
}

} // verus!
