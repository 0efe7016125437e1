//! Core engine for building a merged working copy of the EIP and ERC
//! document repositories.
//!
//! The library verifies the logic that decides what happens: identifying
//! which document family a repository belongs to, checking for uncommitted
//! changes, folding one repository's content subtree into another with
//! conflict detection, computing the changed-file delta against upstream,
//! and maintaining a locked, content-addressed cache of secondary
//! repositories. Calls into the underlying version-control library and the
//! filesystem stand behind small trusted wrappers whose contracts state only
//! what the called crates document.

pub mod annotate;
pub mod bytes;
pub mod cache;
pub mod error;
pub mod gitio;
pub mod hex;
pub mod merge;
pub mod paths;
pub mod repo;
pub mod tree;
