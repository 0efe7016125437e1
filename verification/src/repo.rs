//! The merge engine: family identification, dirty-state checking, fetching,
//! and the state machine that folds every other family's content subtree
//! into the working repository.
//!
//! A run moves Fresh -> SourceOnly -> SourceWithUpstream. `Fresh::new`
//! opens the build repository once the source working copy is clean and its
//! family known; `clone_src` establishes the local head from the source;
//! `fetch_upstream` learns the canonical remote's head; from there
//! `changed_files` is a pure query and `merge` is the terminal write.

use vstd::prelude::*;

use vstd::string::StringExecFns;

use crate::bytes;
use crate::error::EngineError;
use crate::gitio;
use crate::gitio::GitError;
use crate::merge;
use crate::merge::SLASH;
use crate::tree::ObjectId;

verus! {

/// The content subtree's root directory name, `content`.
pub open spec fn content_root_bytes() -> Seq<u8> {
    seq![99u8, 111u8, 110u8, 116u8, 101u8, 110u8, 116u8]
}

/// The content subtree's root directory name, as bytes.
pub fn content_root() -> (r: Vec<u8>)
    ensures
        r@ == content_root_bytes(),
{
    let mut r: Vec<u8> = Vec::new();
    r.push(99);
    r.push(111);
    r.push(110);
    r.push(116);
    r.push(101);
    r.push(110);
    r.push(116);
    proof {
        assert(r@ =~= content_root_bytes());
    }
    r
}

/// The build scratch directory name, `build`.
pub open spec fn build_dir_bytes() -> Seq<u8> {
    seq![98u8, 117u8, 105u8, 108u8, 100u8]
}

/// The build scratch directory name, as bytes.
pub fn build_dir() -> (r: Vec<u8>)
    ensures
        r@ == build_dir_bytes(),
{
    let mut r: Vec<u8> = Vec::new();
    r.push(98);
    r.push(117);
    r.push(105);
    r.push(108);
    r.push(100);
    proof {
        assert(r@ =~= build_dir_bytes());
    }
    r
}

/// Wrap a failed library call with the operation it belonged to.
pub fn git_err(what: &str, e: GitError) -> (r: EngineError)
    ensures
        r matches EngineError::Git { what: w, message: m } && w@ == what@ && m@
            == e.message_view(),
{
    EngineError::Git { what: what.to_owned(), message: e.into_message() }
}

/// Which document family a repository holds.
#[derive(Debug, Clone, Copy, PartialEq, Eq, Structural)]
pub enum RepositoryUse {
    Eips,
    Ercs,
}

/// The canonical remote of a family.
pub open spec fn repo_url_spec(u: RepositoryUse) -> Seq<char> {
    match u {
        RepositoryUse::Eips => "https://github.com/eips-wg/EIPs.git"@,
        RepositoryUse::Ercs => "https://github.com/eips-wg/ERCs.git"@,
    }
}

/// Where a family's rendered pages live.
pub open spec fn base_url_spec(u: RepositoryUse) -> Seq<char> {
    match u {
        RepositoryUse::Eips => "https://eips-wg.github.io/EIPs/"@,
        RepositoryUse::Ercs => "https://eips-wg.github.io/ERCs/"@,
    }
}

/// Commit known to exist only in the EIPs history.
fn eip_fingerprint() -> &'static str {
    "0f44e2b94df4e504bb7b912f56ebd712db2ad396"
}

/// Commit known to exist only in the ERCs history.
fn erc_fingerprint() -> &'static str {
    "8dd085d159cb123f545c272c0d871a5339550e79"
}

impl RepositoryUse {
    /// The one other family.
    pub open spec fn spec_other(self) -> RepositoryUse {
        match self {
            RepositoryUse::Eips => RepositoryUse::Ercs,
            RepositoryUse::Ercs => RepositoryUse::Eips,
        }
    }

    /// The one other family.
    pub fn other(self) -> (r: RepositoryUse)
        ensures
            r == self.spec_other(),
    {
        match self {
            RepositoryUse::Eips => RepositoryUse::Ercs,
            RepositoryUse::Ercs => RepositoryUse::Eips,
        }
    }

    /// The family's name as shown to people.
    pub fn display_name(self) -> (r: &'static str)
        ensures
            self is Eips ==> r@ == "EIPs"@,
            self is Ercs ==> r@ == "ERCs"@,
    {
        match self {
            RepositoryUse::Eips => "EIPs",
            RepositoryUse::Ercs => "ERCs",
        }
    }

    /// The family's canonical remote URL.
    pub fn url(self) -> (r: &'static str)
        ensures
            r@ == repo_url_spec(self),
    {
        match self {
            RepositoryUse::Eips => "https://github.com/eips-wg/EIPs.git",
            RepositoryUse::Ercs => "https://github.com/eips-wg/ERCs.git",
        }
    }

    /// Where the family's rendered pages live.
    pub fn base_url(self) -> (r: &'static str)
        ensures
            r@ == base_url_spec(self),
    {
        match self {
            RepositoryUse::Eips => "https://eips-wg.github.io/EIPs/",
            RepositoryUse::Ercs => "https://eips-wg.github.io/ERCs/",
        }
    }

    /// Every family but this one, with its canonical remote: the
    /// repositories a merge run folds in.
    pub fn other_repos(self) -> (r: Vec<(RepositoryUse, &'static str)>)
        ensures
            r@.len() == 1,
            r@[0].0 == self.spec_other(),
            r@[0].1@ == repo_url_spec(self.spec_other()),
    {
        let other = self.other();
        let mut r: Vec<(RepositoryUse, &'static str)> = Vec::new();
        r.push((other, other.url()));
        r
    }

    /// Decide the family from which fingerprint commits resolved: exactly
    /// one must, and the failure records which ones did.
    pub fn classify(eips: bool, ercs: bool) -> (r: Result<RepositoryUse, EngineError>)
        ensures
            r is Ok <==> eips != ercs,
            (eips && !ercs) ==> r is Ok && r->Ok_0 == RepositoryUse::Eips,
            (!eips && ercs) ==> r is Ok && r->Ok_0 == RepositoryUse::Ercs,
            r is Err ==> (r->Err_0 matches EngineError::Identify { eips: e, ercs: c } && e == eips
                && c == ercs),
    {
        if eips && !ercs {
            Ok(RepositoryUse::Eips)
        } else if !eips && ercs {
            Ok(RepositoryUse::Ercs)
        } else {
            Err(EngineError::Identify { eips, ercs })
        }
    }

    /// Probe the repository at `path` for the two fingerprint commits and
    /// decide its family; no side effects.
    pub fn identify(path: &str) -> (r: Result<RepositoryUse, EngineError>)
        ensures
            r is Err ==> r->Err_0 is Git || r->Err_0 is Identify,
    {
        let repo = match gitio::repo_open_no_search(path) {
            Ok(repo) => repo,
            Err(e) => return Err(git_err("identify open", e)),
        };
        let eips = gitio::revparse_resolves(&repo, eip_fingerprint());
        let ercs = gitio::revparse_resolves(&repo, erc_fingerprint());
        Self::classify(eips, ercs)
    }
}

/// Whether a status path lies outside the build scratch directory: with
/// its trailing slashes removed, its final path segment is not the build
/// directory name.
pub open spec fn outside_build(p: Seq<u8>) -> bool {
    let t = bytes::trim_end_spec(p, SLASH);
    let b = build_dir_bytes();
    !(b.is_suffix_of(t) && (t.len() == b.len() || t[t.len() - b.len() - 1] == SLASH))
}

/// Whether any status entry reports a change outside the build directory;
/// entries with unreadable paths do not count.
pub fn any_dirty(paths: &Vec<Option<Vec<u8>>>) -> (r: bool)
    ensures
        r == exists|i: int|
            0 <= i < paths@.len() && ((#[trigger] paths@[i]) matches Some(p) && outside_build(p@)),
{
    let build = build_dir();
    let n: usize = paths.len();
    let mut i: usize = 0;
    while i < n
        invariant
            i <= n,
            n == paths@.len(),
            build@ == build_dir_bytes(),
            forall|j: int|
                0 <= j < i ==> !((#[trigger] paths@[j]) matches Some(p) && outside_build(p@)),
        decreases n - i,
    {
        match &paths[i] {
            Some(p) => {
                let trimmed = bytes::trim_end(p, SLASH);
                let excluded = bytes::ends_with(&trimmed, &build) && (trimmed.len() == build.len()
                    || trimmed[trimmed.len() - build.len() - 1] == SLASH);
                if !excluded {
                    return true;
                }
            },
            None => {},
        }
        i = i + 1;
    }
    false
}

/// Verify that the working tree and index at `path` are clean: any change,
/// tracked or untracked, outside the build scratch directory fails with
/// `Dirty`. Runs before anything writes near the source repository.
pub fn check_dirty(path: &str) -> (r: Result<(), EngineError>)
    ensures
        r is Err ==> r->Err_0 is Git || r->Err_0 is Dirty,
{
    let repo = match gitio::repo_open(path) {
        Ok(repo) => repo,
        Err(e) => return Err(git_err("open root repository", e)),
    };
    let paths = match gitio::status_paths(&repo) {
        Ok(paths) => paths,
        Err(e) => return Err(git_err("get root repository status", e)),
    };
    if any_dirty(&paths) {
        Err(EngineError::Dirty)
    } else {
        Ok(())
    }
}

/// Gate on a repository's submodule count: the merge supports none, and a
/// working copy that configures any fails loudly.
pub fn submodule_gate(count: usize) -> (r: Result<(), EngineError>)
    ensures
        r is Ok <==> count == 0,
        r is Err ==> r->Err_0 is Submodules,
{
    if count == 0 {
        Ok(())
    } else {
        Err(EngineError::Submodules)
    }
}

/// Open the repository at `dir`, initialising one only when none is there;
/// any other failure to open is reported as it is.
pub fn open_or_init(dir: &str) -> (r: Result<git2::Repository, EngineError>)
    ensures
        r is Err ==> r->Err_0 is Git,
{
    match gitio::repo_open_no_search(dir) {
        Ok(repo) => Ok(repo),
        Err(GitError::NotFound { message: _ }) => match gitio::repo_init(dir) {
            Ok(repo) => Ok(repo),
            Err(e) => Err(git_err("init repo", e)),
        },
        Err(e) => Err(git_err("open repo", e)),
    }
}

/// Fetch `refspec` from `url` into the repository's object store and
/// resolve the fetched head to its commit.
pub fn fetch(repo: &git2::Repository, url: &str, refspec: &str) -> (r: Result<
    ObjectId,
    EngineError,
>)
    ensures
        r is Ok ==> r->Ok_0@.len() == 20,
        r is Err ==> r->Err_0 is Git,
{
    let mut remote = match gitio::remote_anonymous(repo, url) {
        Ok(remote) => remote,
        Err(e) => return Err(git_err("creating remote", e)),
    };
    match gitio::remote_fetch(&mut remote, refspec) {
        Ok(()) => {},
        Err(e) => return Err(git_err("fetching repo", e)),
    }
    let obj = match gitio::revparse_object(repo, "FETCH_HEAD") {
        Ok(obj) => obj,
        Err(e) => return Err(git_err("revparse FETCH_HEAD", e)),
    };
    match gitio::object_peel_commit_id(&obj) {
        Ok(id) => Ok(id),
        Err(e) => Err(git_err("peel FETCH_HEAD", e)),
    }
}

/// Relies on the url crate's `Url::from_directory_path` and `Url::as_str`:
/// the `file:` URL of an absolute directory path, or `None` where the path
/// is relative or not representable.
#[verifier::external_body]
fn dir_url(path: &str) -> (r: Option<String>) {
    url::Url::from_directory_path(path).ok().map(|u| u.as_str().to_string())
}

/// A build repository just opened: the source working copy is clean and
/// its family identified.
pub struct Fresh {
    src_repo_use: RepositoryUse,
    src_repo_url: String,
    working_repo: git2::Repository,
}

impl Fresh {
    /// Check the source working copy at `root_path` for uncommitted
    /// changes, identify its family, and open or initialise the build
    /// repository at `build_path`.
    pub fn new(root_path: &str, build_path: &str) -> (r: Result<Fresh, EngineError>)
        ensures
            r is Err ==> r->Err_0 is Git || r->Err_0 is Dirty || r->Err_0 is Identify
                || r->Err_0 is PathUrl,
    {
        match check_dirty(root_path) {
            Ok(()) => {},
            Err(e) => return Err(e),
        }
        let src_repo_use = match RepositoryUse::identify(root_path) {
            Ok(u) => u,
            Err(e) => return Err(e),
        };
        let src_repo_url = match dir_url(root_path) {
            Some(u) => u,
            None => return Err(EngineError::PathUrl { path: root_path.to_owned() }),
        };
        let working_repo = match open_or_init(build_path) {
            Ok(repo) => repo,
            Err(e) => return Err(e),
        };
        Ok(Fresh { src_repo_use, src_repo_url, working_repo })
    }

    /// Assemble the state directly, for a source reachable at any URL.
    pub fn with_source(
        src_repo_use: RepositoryUse,
        src_repo_url: String,
        working_repo: git2::Repository,
    ) -> (r: Fresh) {
        Fresh { src_repo_use, src_repo_url, working_repo }
    }

    /// Fetch the source working copy into the build repository, point the
    /// `master` branch and HEAD at its head, and check out a clean working
    /// tree. Fails with `Submodules` when the source configures any.
    pub fn clone_src(self) -> (r: Result<SourceOnly, EngineError>)
        ensures
            r is Ok ==> r->Ok_0.wf(),
            r is Err ==> r->Err_0 is Git || r->Err_0 is Submodules,
    {
        let master = match fetch(&self.working_repo, self.src_repo_url.as_str(), "HEAD") {
            Ok(id) => id,
            Err(e) => return Err(e),
        };
        match gitio::set_head_detached(&self.working_repo, &master) {
            Ok(()) => {},
            Err(e) => return Err(git_err("detach", e)),
        }
        {
            let head_commit = match gitio::find_commit(&self.working_repo, &master) {
                Ok(c) => c,
                Err(e) => return Err(git_err("branch master", e)),
            };
            match gitio::branch_force(&self.working_repo, "master", &head_commit) {
                Ok(()) => {},
                Err(e) => return Err(git_err("branch master", e)),
            }
        }
        match gitio::set_head(&self.working_repo, "refs/heads/master") {
            Ok(()) => {},
            Err(e) => return Err(git_err("set head", e)),
        }
        match gitio::checkout_head_clean(&self.working_repo) {
            Ok(()) => {},
            Err(e) => return Err(git_err("checkout local", e)),
        }
        let submodules = match gitio::submodule_count(&self.working_repo) {
            Ok(n) => n,
            Err(e) => return Err(git_err("list submodules", e)),
        };
        match submodule_gate(submodules) {
            Ok(()) => {},
            Err(e) => return Err(e),
        }
        Ok(
            SourceOnly {
                src_repo_use: self.src_repo_use,
                working_repo: self.working_repo,
                local_head: master,
            },
        )
    }
}

/// The local head is established from the source working copy.
pub struct SourceOnly {
    src_repo_use: RepositoryUse,
    working_repo: git2::Repository,
    local_head: ObjectId,
}

impl SourceOnly {
    /// The state carries a real object identifier as its local head.
    pub closed spec fn wf(&self) -> bool {
        self.local_head@.len() == 20
    }

    /// Fetch the `master` branch of the source family's canonical remote;
    /// its head becomes the upstream head.
    pub fn fetch_upstream(self) -> (r: Result<SourceWithUpstream, EngineError>)
        requires
            self.wf(),
        ensures
            r is Ok ==> r->Ok_0.wf(),
            r is Err ==> r->Err_0 is Git,
    {
        let url = self.src_repo_use.url();
        self.fetch_upstream_from(url)
    }

    /// The same, fetching the upstream from an explicit URL.
    pub fn fetch_upstream_from(self, url: &str) -> (r: Result<SourceWithUpstream, EngineError>)
        requires
            self.wf(),
        ensures
            r is Ok ==> r->Ok_0.wf(),
            r is Err ==> r->Err_0 is Git,
    {
        let latest = match fetch(&self.working_repo, url, "master") {
            Ok(id) => id,
            Err(e) => return Err(e),
        };
        Ok(
            SourceWithUpstream {
                src_repo_use: self.src_repo_use,
                working_repo: self.working_repo,
                local_head: self.local_head,
                upstream_head: latest,
            },
        )
    }
}

/// The path of each delta that carries one.
pub open spec fn present_paths(s: Seq<Option<Vec<u8>>>) -> Seq<Seq<u8>>
    decreases s.len(),
{
    if s.len() == 0 {
        Seq::empty()
    } else {
        let rest = present_paths(s.drop_first());
        match s.first() {
            Some(p) => seq![p@] + rest,
            None => rest,
        }
    }
}

/// Keep, in order, each path that is present.
pub fn collect_paths(v: &Vec<Option<Vec<u8>>>) -> (r: Vec<Vec<u8>>)
    ensures
        r@.map_values(|p: Vec<u8>| p@) == present_paths(v@),
{
    let mut r: Vec<Vec<u8>> = Vec::new();
    let n: usize = v.len();
    proof {
        assert(v@.skip(0) =~= v@);
        assert(r@.map_values(|p: Vec<u8>| p@) =~= Seq::<Seq<u8>>::empty());
    }
    let mut i: usize = 0;
    while i < n
        invariant
            i <= n,
            n == v@.len(),
            present_paths(v@) == r@.map_values(|p: Vec<u8>| p@) + present_paths(
                v@.skip(i as int),
            ),
        decreases n - i,
    {
        proof {
            assert(v@.skip(i as int).first() == v@[i as int]);
            assert(v@.skip(i as int).drop_first() =~= v@.skip(i as int + 1));
        }
        match &v[i] {
            Some(p) => {
                let ghost before = r@;
                r.push(bytes::copy(p));
                proof {
                    assert(r@.map_values(|p: Vec<u8>| p@) =~= before.map_values(
                        |p: Vec<u8>| p@,
                    ).push(v@[i as int]->0@));
                    assert(before.map_values(|p: Vec<u8>| p@).push(v@[i as int]->0@) =~= before.map_values(
                        |p: Vec<u8>| p@,
                    ) + seq![v@[i as int]->0@]);
                    assert(before.map_values(|p: Vec<u8>| p@) + (seq![v@[i as int]->0@]
                        + present_paths(v@.skip(i as int + 1))) =~= (before.map_values(
                        |p: Vec<u8>| p@,
                    ) + seq![v@[i as int]->0@]) + present_paths(v@.skip(i as int + 1)));
                }
            },
            None => {},
        }
        i = i + 1;
    }
    proof {
        assert(v@.skip(n as int) =~= Seq::<Option<Vec<u8>>>::empty());
        assert(r@.map_values(|p: Vec<u8>| p@) + present_paths(v@.skip(n as int)) =~= r@.map_values(
            |p: Vec<u8>| p@,
        ));
    }
    r
}

/// Both the local head and the canonical remote's head are known.
pub struct SourceWithUpstream {
    src_repo_use: RepositoryUse,
    working_repo: git2::Repository,
    local_head: ObjectId,
    upstream_head: ObjectId,
}

impl SourceWithUpstream {
    /// The state carries real object identifiers as its heads.
    pub closed spec fn wf(&self) -> bool {
        self.local_head@.len() == 20 && self.upstream_head@.len() == 20
    }

    /// Assemble the state directly from known heads.
    pub fn with_heads(
        src_repo_use: RepositoryUse,
        working_repo: git2::Repository,
        local_head: ObjectId,
        upstream_head: ObjectId,
    ) -> (r: SourceWithUpstream)
        requires
            local_head@.len() == 20,
            upstream_head@.len() == 20,
        ensures
            r.wf(),
    {
        SourceWithUpstream { src_repo_use, working_repo, local_head, upstream_head }
    }

    /// The tree of the local head commit.
    fn local_head_tree<'r>(&'r self) -> (r: Result<git2::Tree<'r>, EngineError>)
        requires
            self.wf(),
        ensures
            r is Err ==> r->Err_0 is Git,
    {
        let commit = match gitio::find_commit(&self.working_repo, &self.local_head) {
            Ok(c) => c,
            Err(e) => return Err(git_err("local commit from id", e)),
        };
        let tree_id = gitio::commit_tree_id(&commit);
        match gitio::find_tree(&self.working_repo, &tree_id) {
            Ok(t) => Ok(t),
            Err(e) => Err(git_err("getting master tree", e)),
        }
    }

    /// The paths that changed between the merge base of the two heads and
    /// the local head: the deltas of that diff, each path kept as the
    /// version-control library reports it. Diffing against the merge base
    /// isolates what the local branch introduced since it diverged from
    /// upstream. A pure query; callable any number of times.
    pub fn changed_files(&self) -> (r: Result<Vec<Vec<u8>>, EngineError>)
        requires
            self.wf(),
        ensures
            r is Err ==> r->Err_0 is Git,
    {
        let base = match gitio::merge_base(&self.working_repo, &self.local_head, &self.upstream_head)
            {
            Ok(id) => id,
            Err(e) => return Err(git_err("merge base", e)),
        };
        let base_commit = match gitio::find_commit(&self.working_repo, &base) {
            Ok(c) => c,
            Err(e) => return Err(git_err("getting merge base commit", e)),
        };
        let base_tree_id = gitio::commit_tree_id(&base_commit);
        let base_tree = match gitio::find_tree(&self.working_repo, &base_tree_id) {
            Ok(t) => t,
            Err(e) => return Err(git_err("getting merge base tree", e)),
        };
        let master_tree = match self.local_head_tree() {
            Ok(t) => t,
            Err(e) => return Err(e),
        };
        let deltas = match gitio::diff_new_paths(&self.working_repo, &base_tree, &master_tree) {
            Ok(d) => d,
            Err(e) => return Err(git_err("comparing merge base to master", e)),
        };
        Ok(collect_paths(&deltas))
    }

    /// Fold every other family into the working repository: one fetch, one
    /// conflict-checked tree merge and one two-parent merge commit per
    /// family, the first parent always the prior local head. A clash
    /// anywhere aborts the run before anything is committed for that
    /// family.
    pub fn merge(&self) -> (r: Result<(), EngineError>)
        requires
            self.wf(),
        ensures
            r is Err ==> r->Err_0 is Git || r->Err_0 is Merge,
    {
        let others = self.src_repo_use.other_repos();
        let mut urls: Vec<String> = Vec::new();
        let n: usize = others.len();
        let mut i: usize = 0;
        while i < n
            invariant
                i <= n,
                n == others@.len(),
            decreases n - i,
        {
            urls.push(others[i].1.to_owned());
            i = i + 1;
        }
        self.merge_from(&urls)
    }

    /// The same, folding in the repositories at the given URLs.
    pub fn merge_from(&self, others: &Vec<String>) -> (r: Result<(), EngineError>)
        requires
            self.wf(),
        ensures
            others@.len() == 0 ==> r is Ok,
            r is Err ==> r->Err_0 is Git || r->Err_0 is Merge,
    {
        let content = content_root();
        let mut local_head = self.local_head.duplicate();
        let n: usize = others.len();
        let mut i: usize = 0;
        while i < n
            invariant
                self.wf(),
                n == others@.len(),
                i <= n,
                local_head@.len() == 20,
            decreases n - i,
        {
            let url = &others[i];
            let other_head = match fetch(&self.working_repo, url.as_str(), "master:master-other") {
                Ok(id) => id,
                Err(e) => return Err(e),
            };
            let other_commit = match gitio::find_commit(&self.working_repo, &other_head) {
                Ok(c) => c,
                Err(e) => return Err(git_err("getting other tree", e)),
            };
            let other_tree_id = gitio::commit_tree_id(&other_commit);
            let other_tree = match gitio::find_tree(&self.working_repo, &other_tree_id) {
                Ok(t) => t,
                Err(e) => return Err(git_err("getting other tree", e)),
            };
            let other_walk = match gitio::tree_walk_entries(&other_tree) {
                Ok(w) => w,
                Err(e) => return Err(git_err("traverse tree", e)),
            };
            let local_commit = match gitio::find_commit(&self.working_repo, &local_head) {
                Ok(c) => c,
                Err(e) => return Err(git_err("find local head commit", e)),
            };
            let local_tree_id = gitio::commit_tree_id(&local_commit);
            let local_tree = match gitio::find_tree(&self.working_repo, &local_tree_id) {
                Ok(t) => t,
                Err(e) => return Err(git_err("getting master tree", e)),
            };
            let base_walk = match gitio::tree_walk_entries(&local_tree) {
                Ok(w) => w,
                Err(e) => return Err(git_err("traverse tree", e)),
            };
            let base_model = merge::tree_from_walk(&base_walk);
            let ups = match merge::plan_merge(&base_model, &other_walk, &content) {
                Ok(u) => u,
                Err(source) => return Err(EngineError::Merge { source }),
            };
            proof {
                let wv = merge::walk_view(other_walk@);
                assert forall|k: int| 0 <= k < wv.len() implies bytes::no_nul(
                    (#[trigger] wv[k]).dir,
                ) && (wv[k].name matches Some(nm) ==> bytes::no_nul(nm)) && wv[k].id.len()
                    == 20 by {
                    assert(wv[k] == other_walk@[k]@);
                }
                merge::lemma_plan_wellformed(base_model@, wv, content@);
                let uv = merge::upserts_view(ups@);
                let pl = merge::plan_spec(base_model@, wv, content@);
                assert(pl == merge::PlanResult::Planned(uv));
                assert(uv.len() == ups@.len());
                assert forall|k: int| 0 <= k < ups@.len() implies bytes::no_nul(
                    (#[trigger] ups@[k]).path@,
                ) && ups@[k].id@.len() == 20 by {
                    assert(bytes::no_nul((pl->Planned_0)[k].path) && (pl->Planned_0)[k].id.len()
                        == 20);
                    assert(uv[k] == ups@[k]@);
                }
            }
            let mut builder = gitio::tub_new();
            let m: usize = ups.len();
            let mut j: usize = 0;
            while j < m
                invariant
                    j <= m,
                    m == ups@.len(),
                    forall|k: int|
                        0 <= k < ups@.len() ==> bytes::no_nul((#[trigger] ups@[k]).path@)
                            && ups@[k].id@.len() == 20,
                decreases m - j,
            {
                gitio::tub_upsert_blob(&mut builder, &ups[j].path, &ups[j].id);
                j = j + 1;
            }
            let merged_tree_id = match gitio::tub_create_updated(
                &mut builder,
                &self.working_repo,
                &local_tree,
            ) {
                Ok(id) => id,
                Err(e) => return Err(git_err("build tree", e)),
            };
            let merged_tree = match gitio::find_tree(&self.working_repo, &merged_tree_id) {
                Ok(t) => t,
                Err(e) => return Err(git_err("build tree", e)),
            };
            let sig = match gitio::signature_now("eips-build", "eips-build@eips-build.invalid") {
                Ok(s) => s,
                Err(e) => return Err(git_err("commit signature", e)),
            };
            let mut message = String::new();
            message.append("Merge ");
            message.append(url.as_str());
            let new_head = match gitio::commit_merge(
                &self.working_repo,
                &sig,
                &message,
                &merged_tree,
                &local_commit,
                &other_commit,
            ) {
                Ok(id) => id,
                Err(e) => return Err(git_err("committing", e)),
            };
            local_head = new_head;
            match gitio::checkout_head_force(&self.working_repo) {
                Ok(()) => {},
                Err(e) => return Err(git_err("checkout merged", e)),
            }
            let mut scratch = match gitio::find_local_branch(&self.working_repo, "master-other") {
                Ok(b) => b,
                Err(e) => return Err(git_err("find master-other", e)),
            };
            match gitio::branch_delete(&mut scratch) {
                Ok(()) => {},
                Err(e) => return Err(git_err("delete master-other", e)),
            }
            i = i + 1;
        }
        Ok(())
    }
}

} // verus!
