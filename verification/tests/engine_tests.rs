//! End-to-end scenarios for the merge engine, on real repositories under
//! temporary directories, fetched over local paths.

use eips_build::error::ConflictReason;
use eips_build::error::EngineError;
use eips_build::error::MergeError;
use eips_build::paths::is_proposal_path;
use eips_build::repo::open_or_init;
use eips_build::repo::submodule_gate;
use eips_build::repo::Fresh;
use eips_build::repo::RepositoryUse;
use eips_build::repo::SourceWithUpstream;
use eips_build::tree::ObjectId;

fn commit_files(
    repo: &git2::Repository,
    files: &[(&str, &[u8])],
    parents: &[&git2::Commit],
) -> git2::Oid {
    let mut content = repo.treebuilder(None).unwrap();
    let mut root = repo.treebuilder(None).unwrap();
    let mut have_content = false;
    for (path, bytes) in files {
        let blob = repo.blob(bytes).unwrap();
        if let Some(name) = path.strip_prefix("content/") {
            content.insert(name, blob, 0o100644).unwrap();
            have_content = true;
        } else {
            root.insert(*path, blob, 0o100644).unwrap();
        }
    }
    if have_content {
        let tree = content.write().unwrap();
        root.insert("content", tree, 0o040000).unwrap();
    }
    let tree_oid = root.write().unwrap();
    let tree = repo.find_tree(tree_oid).unwrap();
    let sig = git2::Signature::now("tester", "tester@example.com").unwrap();
    let oid = repo.commit(Some("refs/heads/master"), &sig, &sig, "step", &tree, parents).unwrap();
    repo.set_head("refs/heads/master").unwrap();
    oid
}

#[test]
fn merge_folds_other_family_with_two_parent_commit() {
    let dir_a = tempfile::tempdir().unwrap();
    let dir_b = tempfile::tempdir().unwrap();
    let dir_build = tempfile::tempdir().unwrap();
    let a_path = dir_a.path().to_str().unwrap().to_string();
    let b_path = dir_b.path().to_str().unwrap().to_string();
    let build_path = dir_build.path().to_str().unwrap().to_string();

    let repo_a = git2::Repository::init(&a_path).unwrap();
    let a_head = commit_files(&repo_a, &[("content/00001.md", b"one")], &[]);
    let repo_b = git2::Repository::init(&b_path).unwrap();
    let b_head = commit_files(&repo_b, &[("content/00002.md", b"two")], &[]);

    let working = open_or_init(&build_path).unwrap();
    let fresh = Fresh::with_source(RepositoryUse::Eips, a_path.clone(), working);
    let source_only = fresh.clone_src().unwrap();
    let with_upstream = source_only.fetch_upstream_from(&a_path).unwrap();

    let changed = with_upstream.changed_files().unwrap();
    assert!(changed.is_empty());

    with_upstream.merge_from(&vec![b_path]).unwrap();

    let merged = git2::Repository::open(&build_path).unwrap();
    let head = merged.head().unwrap().peel_to_commit().unwrap();
    assert_eq!(head.parent_count(), 2);
    assert_eq!(head.parent_id(0).unwrap(), a_head);
    assert_eq!(head.parent_id(1).unwrap(), b_head);
    let tree = head.tree().unwrap();
    assert!(tree.get_path(std::path::Path::new("content/00001.md")).is_ok());
    assert!(tree.get_path(std::path::Path::new("content/00002.md")).is_ok());
    assert!(merged.find_branch("master-other", git2::BranchType::Local).is_err());
}

#[test]
fn merge_conflicting_content_aborts_and_keeps_prior_head() {
    let dir_a = tempfile::tempdir().unwrap();
    let dir_b = tempfile::tempdir().unwrap();
    let dir_build = tempfile::tempdir().unwrap();
    let a_path = dir_a.path().to_str().unwrap().to_string();
    let b_path = dir_b.path().to_str().unwrap().to_string();
    let build_path = dir_build.path().to_str().unwrap().to_string();

    let repo_a = git2::Repository::init(&a_path).unwrap();
    let a_head = commit_files(&repo_a, &[("content/00003.md", b"from a")], &[]);
    let repo_b = git2::Repository::init(&b_path).unwrap();
    commit_files(&repo_b, &[("content/00003.md", b"from b")], &[]);

    let working = open_or_init(&build_path).unwrap();
    let fresh = Fresh::with_source(RepositoryUse::Ercs, a_path.clone(), working);
    let with_upstream = fresh.clone_src().unwrap().fetch_upstream_from(&a_path).unwrap();

    let err = with_upstream.merge_from(&vec![b_path]).unwrap_err();
    match err {
        EngineError::Merge { source: MergeError::Conflict { path, reason } } => {
            assert_eq!(path, b"content/00003.md".to_vec());
            assert!(matches!(reason, ConflictReason::Content));
        }
        other => panic!("unexpected error: {:?}", other),
    }

    let merged = git2::Repository::open(&build_path).unwrap();
    assert_eq!(merged.head().unwrap().target().unwrap(), a_head);
}

#[test]
fn submodules_fail_loudly() {
    assert!(submodule_gate(0).is_ok());
    let err = submodule_gate(2).unwrap_err();
    assert!(matches!(err, EngineError::Submodules));
}

#[test]
fn identify_without_fingerprints_reports_both_flags() {
    let dir = tempfile::tempdir().unwrap();
    let path = dir.path().to_str().unwrap().to_string();
    let repo = git2::Repository::init(&path).unwrap();
    commit_files(&repo, &[("content/00001.md", b"one")], &[]);

    let err = RepositoryUse::identify(&path).unwrap_err();
    match err {
        EngineError::Identify { eips, ercs } => {
            assert!(!eips);
            assert!(!ercs);
        }
        other => panic!("unexpected error: {:?}", other),
    }
}

#[test]
fn changed_files_excludes_paths_unchanged_since_merge_base() {
    let dir = tempfile::tempdir().unwrap();
    let path = dir.path().to_str().unwrap().to_string();
    let repo = git2::Repository::init(&path).unwrap();
    let base = commit_files(&repo, &[("content/00001.md", b"same")], &[]);
    let local = {
        let base_commit = repo.find_commit(base).unwrap();
        commit_files(
            &repo,
            &[("content/00001.md", b"same"), ("content/00004.md", b"new")],
            &[&base_commit],
        )
    };

    let state = SourceWithUpstream::with_heads(
        RepositoryUse::Eips,
        repo,
        ObjectId { bytes: local.as_bytes().to_vec() },
        ObjectId { bytes: base.as_bytes().to_vec() },
    );
    let changed = state.changed_files().unwrap();
    assert_eq!(changed, vec![b"content/00004.md".to_vec()]);
    assert!(changed.iter().all(|p| p != &b"content/00001.md".to_vec()));
    assert!(changed.iter().all(|p| is_proposal_path(p)));
}
