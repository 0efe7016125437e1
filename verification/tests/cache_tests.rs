//! Scenario tests for the locked, content-addressed cache.

use sha3::Digest;

use eips_build::cache::Cache;

fn expected_dir(root: &str, key: &str) -> String {
    let digest = sha3::Sha3_256::digest(key.as_bytes());
    let mut hex = String::new();
    for byte in digest.iter() {
        hex.push_str(&format!("{:02x}", byte));
    }
    format!("{}/{}", root, hex)
}

#[test]
fn dir_matches_digest_of_key() {
    let tmp = tempfile::tempdir().unwrap();
    let root = tmp.path().to_str().unwrap().to_string();
    let cache = Cache::open_at(root.clone()).unwrap();
    let dir = cache.dir("some-key");
    assert_eq!(dir, expected_dir(&root, "some-key"));
}

#[test]
fn dir_is_deterministic_and_idempotent() {
    let tmp = tempfile::tempdir().unwrap();
    let root = tmp.path().to_str().unwrap().to_string();
    let cache = Cache::open_at(root.clone()).unwrap();
    let first = cache.dir("theme");
    let second = cache.dir("theme");
    assert_eq!(first, second);
    let other = cache.dir("theme2");
    assert_ne!(first, other);
    drop(cache);
    let reopened = Cache::open_at(root).unwrap();
    assert_eq!(reopened.dir("theme"), first);
}

fn source_repo_with_one_file(path: &str) -> git2::Oid {
    let repo = git2::Repository::init(path).unwrap();
    let blob = repo.blob(b"pinned bytes").unwrap();
    let mut builder = repo.treebuilder(None).unwrap();
    builder.insert("pinned.txt", blob, 0o100644).unwrap();
    let tree_oid = builder.write().unwrap();
    let tree = repo.find_tree(tree_oid).unwrap();
    let sig = git2::Signature::now("tester", "tester@example.com").unwrap();
    let commit = repo.commit(Some("refs/heads/master"), &sig, &sig, "pin", &tree, &[]).unwrap();
    repo.set_head("refs/heads/master").unwrap();
    commit
}

#[test]
fn repo_fetches_once_and_serves_from_cache() {
    let source = tempfile::tempdir().unwrap();
    let source_path = source.path().to_str().unwrap().to_string();
    let commit = source_repo_with_one_file(&source_path);
    let commit_hex = commit.to_string();

    let cache_tmp = tempfile::tempdir().unwrap();
    let cache_root = cache_tmp.path().to_str().unwrap().to_string();
    let cache = Cache::open_at(cache_root.clone()).unwrap();

    let first = cache.repo(&source_path, &commit_hex).unwrap();
    assert!(first.starts_with(&cache_root));
    let pinned = git2::Repository::open(&first).unwrap();
    assert_eq!(pinned.head().unwrap().target().unwrap(), commit);
    assert!(pinned.head_detached().unwrap());
    drop(pinned);

    // With the source gone, only a cache that never fetches again can
    // still resolve the same pin.
    drop(source);
    let second = cache.repo(&source_path, &commit_hex).unwrap();
    assert_eq!(first, second);
}

#[test]
fn repo_reports_unresolvable_commit() {
    let source = tempfile::tempdir().unwrap();
    let source_path = source.path().to_str().unwrap().to_string();
    source_repo_with_one_file(&source_path);

    let cache_tmp = tempfile::tempdir().unwrap();
    let cache = Cache::open_at(cache_tmp.path().to_str().unwrap().to_string()).unwrap();
    let missing = "0123456789abcdef0123456789abcdef01234567";
    assert!(cache.repo(&source_path, missing).is_err());
}
