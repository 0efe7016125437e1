//! Trusted boundary to the `git2` library.
//!
//! Each wrapper makes one operation against an on-disk repository and
//! converts between the engine's plain values and `git2`'s types. What a
//! repository holds depends on the machine, so the contracts state only
//! what `git2`'s source shows of every outcome: object identifiers are 20
//! bytes of raw SHA-1, and paths handed out of a tree walk are NUL-free,
//! having come out of C strings.

use vstd::prelude::*;

use crate::bytes::no_nul;
use crate::merge::WalkEntry;
use crate::tree::EntryKind;
use crate::tree::ObjectId;

verus! {

/// A failed `git2` call: either "not found", which several callers treat
/// as an expected outcome, or anything else.
#[derive(Debug)]
pub enum GitError {
    NotFound { message: String },
    Other { message: String },
}

impl GitError {
    /// The message, whichever variant holds it.
    pub open spec fn message_view(&self) -> Seq<char> {
        match self {
            GitError::NotFound { message } => message@,
            GitError::Other { message } => message@,
        }
    }

    /// Surrender the message.
    pub fn into_message(self) -> (r: String)
        ensures
            r@ == self.message_view(),
    {
        match self {
            GitError::NotFound { message } => message,
            GitError::Other { message } => message,
        }
    }
}

#[verifier::external_type_specification]
#[verifier::external_body]
pub struct ExGitError(git2::Error);

#[verifier::external_type_specification]
#[verifier::external_body]
pub struct ExRepository(git2::Repository);

#[verifier::external_type_specification]
#[verifier::external_body]
pub struct ExRemote<'a>(git2::Remote<'a>);

#[verifier::external_type_specification]
#[verifier::external_body]
pub struct ExObject<'a>(git2::Object<'a>);

#[verifier::external_type_specification]
#[verifier::external_body]
pub struct ExGitTree<'a>(git2::Tree<'a>);

#[verifier::external_type_specification]
#[verifier::external_body]
pub struct ExCommit<'a>(git2::Commit<'a>);

#[verifier::external_type_specification]
#[verifier::external_body]
pub struct ExBranch<'a>(git2::Branch<'a>);

#[verifier::external_type_specification]
#[verifier::external_body]
pub struct ExSignature<'a>(git2::Signature<'a>);

#[verifier::external_type_specification]
#[verifier::external_body]
pub struct ExTreeUpdateBuilder(git2::build::TreeUpdateBuilder);

/// Relies on git2's `Error::code` and `Error::message`: sorts the error by
/// its code and keeps its message.
#[verifier::external_body]
fn convert_error(e: git2::Error) -> GitError {
    match e.code() {
        git2::ErrorCode::NotFound => GitError::NotFound { message: e.message().to_string() },
        _ => GitError::Other { message: e.message().to_string() },
    }
}

/// Relies on git2's `Repository::open_ext` with `NO_SEARCH`: opens the
/// repository at exactly `path`, never a parent directory.
#[verifier::external_body]
pub fn repo_open_no_search(path: &str) -> (r: Result<git2::Repository, GitError>) {
    git2::Repository::open_ext(
        path,
        git2::RepositoryOpenFlags::NO_SEARCH,
        core::iter::empty::<&str>(),
    ).map_err(convert_error)
}

/// Relies on git2's `Repository::open`: opens the repository at `path`.
#[verifier::external_body]
pub fn repo_open(path: &str) -> (r: Result<git2::Repository, GitError>) {
    git2::Repository::open(path).map_err(convert_error)
}

/// Relies on git2's `Repository::init`: creates a repository at `path`,
/// creating the directory itself when it is missing.
#[verifier::external_body]
pub fn repo_init(path: &str) -> (r: Result<git2::Repository, GitError>) {
    git2::Repository::init(path).map_err(convert_error)
}

/// Relies on git2's `Repository::revparse_single`: whether `rev` resolves
/// to an object in this repository.
#[verifier::external_body]
pub fn revparse_resolves(repo: &git2::Repository, rev: &str) -> (r: bool) {
    repo.revparse_single(rev).is_ok()
}

/// Relies on git2's `Repository::revparse_single`: the object `rev`
/// resolves to.
#[verifier::external_body]
pub fn revparse_object<'r>(repo: &'r git2::Repository, rev: &str) -> (r: Result<
    git2::Object<'r>,
    GitError,
>) {
    repo.revparse_single(rev).map_err(convert_error)
}

/// Relies on git2's `Object::id`: the object's identifier, 20 raw SHA-1
/// bytes.
#[verifier::external_body]
pub fn object_id(obj: &git2::Object) -> (r: ObjectId)
    ensures
        r@.len() == 20,
{
    ObjectId { bytes: obj.id().as_bytes().to_vec() }
}

/// Relies on git2's `Object::peel_to_commit`: the commit the object peels
/// to; its identifier is 20 raw SHA-1 bytes.
#[verifier::external_body]
pub fn object_peel_commit_id(obj: &git2::Object) -> (r: Result<ObjectId, GitError>)
    ensures
        r is Ok ==> r->Ok_0@.len() == 20,
{
    match obj.peel_to_commit() {
        Ok(c) => Ok(ObjectId { bytes: c.id().as_bytes().to_vec() }),
        Err(e) => Err(convert_error(e)),
    }
}

/// Relies on git2's `Repository::remote_anonymous`: an in-memory remote
/// for `url`.
#[verifier::external_body]
pub fn remote_anonymous<'r>(repo: &'r git2::Repository, url: &str) -> (r: Result<
    git2::Remote<'r>,
    GitError,
>) {
    repo.remote_anonymous(url).map_err(convert_error)
}

/// Relies on git2's `Remote::fetch`: fetches `refspec` from the remote
/// into the repository's object store.
#[verifier::external_body]
pub fn remote_fetch(remote: &mut git2::Remote, refspec: &str) -> (r: Result<(), GitError>) {
    remote.fetch(&[refspec], None, None).map_err(convert_error)
}

/// Relies on git2's `Repository::statuses` with untracked files included,
/// and `StatusEntry::path`: one element per status entry, `None` where the
/// path is not UTF-8.
#[verifier::external_body]
pub fn status_paths(repo: &git2::Repository) -> (r: Result<Vec<Option<Vec<u8>>>, GitError>) {
    let mut options = git2::StatusOptions::default();
    options.include_untracked(true);
    let statuses = match repo.statuses(Some(&mut options)) {
        Ok(s) => s,
        Err(e) => return Err(convert_error(e)),
    };
    Ok(statuses.iter().map(|x| x.path().ok().map(|p| p.as_bytes().to_vec())).collect())
}

/// Relies on git2's `Repository::submodules`: how many submodules the
/// repository configures.
#[verifier::external_body]
pub fn submodule_count(repo: &git2::Repository) -> (r: Result<usize, GitError>) {
    match repo.submodules() {
        Ok(v) => Ok(v.len()),
        Err(e) => Err(convert_error(e)),
    }
}

/// Relies on git2's `Repository::set_head_detached`: points HEAD directly
/// at the given commit.
#[verifier::external_body]
pub fn set_head_detached(repo: &git2::Repository, id: &ObjectId) -> (r: Result<(), GitError>)
    requires
        id@.len() == 20,
{
    let oid = git2::Oid::from_bytes(id.bytes.as_slice()).unwrap();
    repo.set_head_detached(oid).map_err(convert_error)
}

/// Relies on git2's `Repository::set_head`: points HEAD at the named
/// reference.
#[verifier::external_body]
pub fn set_head(repo: &git2::Repository, refname: &str) -> (r: Result<(), GitError>) {
    repo.set_head(refname).map_err(convert_error)
}

/// Relies on git2's `Repository::find_commit`: the commit with the given
/// identifier.
#[verifier::external_body]
pub fn find_commit<'r>(repo: &'r git2::Repository, id: &ObjectId) -> (r: Result<
    git2::Commit<'r>,
    GitError,
>)
    requires
        id@.len() == 20,
{
    let oid = git2::Oid::from_bytes(id.bytes.as_slice()).unwrap();
    repo.find_commit(oid).map_err(convert_error)
}

/// Relies on git2's `Commit::tree_id`: the identifier of the commit's
/// tree, 20 raw SHA-1 bytes.
#[verifier::external_body]
pub fn commit_tree_id(commit: &git2::Commit) -> (r: ObjectId)
    ensures
        r@.len() == 20,
{
    ObjectId { bytes: commit.tree_id().as_bytes().to_vec() }
}

/// Relies on git2's `Repository::branch` with `force`: creates or moves
/// the named branch to the commit.
#[verifier::external_body]
pub fn branch_force(
    repo: &git2::Repository,
    name: &str,
    target: &git2::Commit,
) -> (r: Result<(), GitError>) {
    match repo.branch(name, target, true) {
        Ok(_) => Ok(()),
        Err(e) => Err(convert_error(e)),
    }
}

/// Relies on git2's `Repository::find_branch`: the named local branch.
#[verifier::external_body]
pub fn find_local_branch<'r>(repo: &'r git2::Repository, name: &str) -> (r: Result<
    git2::Branch<'r>,
    GitError,
>) {
    repo.find_branch(name, git2::BranchType::Local).map_err(convert_error)
}

/// Relies on git2's `Branch::delete`: removes the branch reference.
#[verifier::external_body]
pub fn branch_delete(branch: &mut git2::Branch) -> (r: Result<(), GitError>) {
    branch.delete().map_err(convert_error)
}

/// Relies on git2's `Repository::checkout_head` with force, removing
/// untracked and ignored files: makes the working tree match HEAD exactly.
#[verifier::external_body]
pub fn checkout_head_clean(repo: &git2::Repository) -> (r: Result<(), GitError>) {
    repo.checkout_head(
        Some(
            git2::build::CheckoutBuilder::default().remove_ignored(true).remove_untracked(
                true,
            ).force(),
        ),
    ).map_err(convert_error)
}

/// Relies on git2's `Repository::checkout_head` with force: makes the
/// working tree match HEAD, discarding local drift.
#[verifier::external_body]
pub fn checkout_head_force(repo: &git2::Repository) -> (r: Result<(), GitError>) {
    repo.checkout_head(Some(git2::build::CheckoutBuilder::default().force())).map_err(
        convert_error,
    )
}

/// Relies on git2's `Repository::checkout_tree` with force: makes the
/// working tree match the given object.
#[verifier::external_body]
pub fn checkout_tree_force(repo: &git2::Repository, obj: &git2::Object) -> (r: Result<
    (),
    GitError,
>) {
    repo.checkout_tree(obj, Some(git2::build::CheckoutBuilder::new().force())).map_err(
        convert_error,
    )
}

/// Relies on git2's `Repository::find_tree`: the tree with the given
/// identifier.
#[verifier::external_body]
pub fn find_tree<'r>(repo: &'r git2::Repository, id: &ObjectId) -> (r: Result<
    git2::Tree<'r>,
    GitError,
>)
    requires
        id@.len() == 20,
{
    let oid = git2::Oid::from_bytes(id.bytes.as_slice()).unwrap();
    repo.find_tree(oid).map_err(convert_error)
}

/// Relies on git2's `Tree::walk` in pre-order, and on `TreeEntry`'s
/// `name`, `kind`, `filemode` and `id`: one record per visited entry, in
/// visiting order. Directory paths and names come out of C strings, so
/// they hold no NUL byte; identifiers are 20 raw SHA-1 bytes; a name that
/// is not UTF-8 is `None`.
#[verifier::external_body]
pub fn tree_walk_entries(tree: &git2::Tree) -> (r: Result<Vec<WalkEntry>, GitError>)
    ensures
        r is Ok ==> forall|i: int|
            0 <= i < r->Ok_0@.len() ==> (#[trigger] r->Ok_0@[i]).id@.len() == 20 && no_nul(
                r->Ok_0@[i].dir@,
            ) && (r->Ok_0@[i].name matches Some(n) ==> no_nul(n@)),
{
    let mut out: Vec<WalkEntry> = Vec::new();
    let result = tree.walk(git2::TreeWalkMode::PreOrder, |dir, entry| {
        let kind = match entry.kind() {
            Some(git2::ObjectType::Blob) => EntryKind::Blob,
            Some(git2::ObjectType::Tree) => EntryKind::Dir,
            _ => EntryKind::Other,
        };
        let name = entry.name().ok().map(|n| n.as_bytes().to_vec());
        let id = ObjectId { bytes: entry.id().as_bytes().to_vec() };
        out.push(WalkEntry { dir: dir.as_bytes().to_vec(), name, kind, mode: entry.filemode(), id });
        git2::TreeWalkResult::Ok
    });
    result.map(|_| out).map_err(convert_error)
}

/// Relies on git2's `TreeUpdateBuilder::new`.
#[verifier::external_body]
pub fn tub_new() -> (r: git2::build::TreeUpdateBuilder) {
    git2::build::TreeUpdateBuilder::new()
}

/// Relies on git2's `TreeUpdateBuilder::upsert` with the regular blob
/// file mode. The path must be NUL-free, as every path of a tree walk is:
/// the builder converts it to a C string.
#[verifier::external_body]
pub fn tub_upsert_blob(
    builder: &mut git2::build::TreeUpdateBuilder,
    path: &Vec<u8>,
    id: &ObjectId,
)
    requires
        id@.len() == 20,
        no_nul(path@),
{
    let oid = git2::Oid::from_bytes(id.bytes.as_slice()).unwrap();
    builder.upsert(path.as_slice(), oid, git2::FileMode::Blob);
}

/// Relies on git2's `TreeUpdateBuilder::create_updated`: writes the
/// updated tree into the repository and returns its identifier, 20 raw
/// SHA-1 bytes.
#[verifier::external_body]
pub fn tub_create_updated(
    builder: &mut git2::build::TreeUpdateBuilder,
    repo: &git2::Repository,
    baseline: &git2::Tree,
) -> (r: Result<ObjectId, GitError>)
    ensures
        r is Ok ==> r->Ok_0@.len() == 20,
{
    match builder.create_updated(repo, baseline) {
        Ok(oid) => Ok(ObjectId { bytes: oid.as_bytes().to_vec() }),
        Err(e) => Err(convert_error(e)),
    }
}

/// Relies on git2's `Signature::now`: a signature for the given committer
/// name and email, stamped with the current time.
#[verifier::external_body]
pub fn signature_now(name: &str, email: &str) -> (r: Result<
    git2::Signature<'static>,
    GitError,
>) {
    git2::Signature::now(name, email).map_err(convert_error)
}

/// Relies on git2's `Repository::commit` updating `HEAD`: writes a commit
/// with the two parents, first the prior local head, and returns its
/// identifier, 20 raw SHA-1 bytes.
#[verifier::external_body]
pub fn commit_merge(
    repo: &git2::Repository,
    sig: &git2::Signature,
    message: &String,
    tree: &git2::Tree,
    first_parent: &git2::Commit,
    second_parent: &git2::Commit,
) -> (r: Result<ObjectId, GitError>)
    ensures
        r is Ok ==> r->Ok_0@.len() == 20,
{
    match repo.commit(
        Some("HEAD"),
        sig,
        sig,
        message.as_str(),
        tree,
        &[first_parent, second_parent],
    ) {
        Ok(oid) => Ok(ObjectId { bytes: oid.as_bytes().to_vec() }),
        Err(e) => Err(convert_error(e)),
    }
}

/// Relies on git2's `Repository::merge_base`: the best common ancestor of
/// the two commits, 20 raw SHA-1 bytes.
#[verifier::external_body]
pub fn merge_base(repo: &git2::Repository, one: &ObjectId, two: &ObjectId) -> (r: Result<
    ObjectId,
    GitError,
>)
    requires
        one@.len() == 20,
        two@.len() == 20,
    ensures
        r is Ok ==> r->Ok_0@.len() == 20,
{
    let a = git2::Oid::from_bytes(one.bytes.as_slice()).unwrap();
    let b = git2::Oid::from_bytes(two.bytes.as_slice()).unwrap();
    match repo.merge_base(a, b) {
        Ok(oid) => Ok(ObjectId { bytes: oid.as_bytes().to_vec() }),
        Err(e) => Err(convert_error(e)),
    }
}

/// Relies on git2's `Repository::diff_tree_to_tree` and `DiffFile`'s
/// `path_bytes`: the new-file path of each delta between the two trees,
/// `None` where the delta carries no path.
#[verifier::external_body]
pub fn diff_new_paths(
    repo: &git2::Repository,
    old_tree: &git2::Tree,
    new_tree: &git2::Tree,
) -> (r: Result<Vec<Option<Vec<u8>>>, GitError>) {
    let diff = match repo.diff_tree_to_tree(Some(old_tree), Some(new_tree), None) {
        Ok(d) => d,
        Err(e) => return Err(convert_error(e)),
    };
    Ok(diff.deltas().map(|d| d.new_file().path_bytes().map(|p| p.to_vec())).collect())
}

} // verus!
