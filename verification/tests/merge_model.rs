//! Scenario tests for the tree model and the content-subtree merge.

use eips_build::error::ConflictReason;
use eips_build::error::MergeError;
use eips_build::merge::merge_into;
use eips_build::merge::plan_merge;
use eips_build::merge::WalkEntry;
use eips_build::tree::EntryKind;
use eips_build::tree::ObjectId;
use eips_build::tree::TreeEntryData;
use eips_build::tree::TreeModel;
use eips_build::tree::BLOB_MODE;

fn oid(n: u8) -> ObjectId {
    ObjectId { bytes: vec![n; 20] }
}

fn blob_data(id: u8) -> TreeEntryData {
    TreeEntryData { mode: BLOB_MODE, kind: EntryKind::Blob, id: oid(id) }
}

fn blob_entry(dir: &str, name: &str, id: u8) -> WalkEntry {
    WalkEntry {
        dir: dir.as_bytes().to_vec(),
        name: Some(name.as_bytes().to_vec()),
        kind: EntryKind::Blob,
        mode: BLOB_MODE,
        id: oid(id),
    }
}

fn dir_entry(dir: &str, name: &str) -> WalkEntry {
    WalkEntry {
        dir: dir.as_bytes().to_vec(),
        name: Some(name.as_bytes().to_vec()),
        kind: EntryKind::Dir,
        mode: 0o040000,
        id: oid(200),
    }
}

fn root() -> Vec<u8> {
    b"content".to_vec()
}

fn base_one_file() -> TreeModel {
    let mut base = TreeModel::new();
    base.upsert(b"content/00001.md".to_vec(), blob_data(1));
    base
}

#[test]
fn merge_empty_incoming_is_identity() {
    let base = base_one_file();
    let merged = merge_into(&base, &Vec::new(), &root()).unwrap();
    assert_eq!(merged.len(), base.len());
    let entry = merged.lookup(&b"content/00001.md".to_vec()).unwrap();
    assert_eq!(entry.id.bytes, vec![1; 20]);
    assert_eq!(entry.mode, BLOB_MODE);
}

#[test]
fn merge_without_content_root_is_identity() {
    let base = base_one_file();
    let walk = vec![
        dir_entry("", "assets"),
        blob_entry("assets/", "logo.svg", 7),
        blob_entry("", "README.md", 8),
    ];
    let merged = merge_into(&base, &walk, &root()).unwrap();
    assert_eq!(merged.len(), 1);
    assert!(merged.lookup(&b"assets/logo.svg".to_vec()).is_none());
    assert!(merged.lookup(&b"README.md".to_vec()).is_none());
}

#[test]
fn merge_disjoint_paths_is_union() {
    let base = base_one_file();
    let walk = vec![
        dir_entry("", "content"),
        blob_entry("content/", "00002.md", 2),
        dir_entry("content/", "00005"),
        blob_entry("content/00005/", "index.md", 5),
        blob_entry("", "README.md", 9),
    ];
    let merged = merge_into(&base, &walk, &root()).unwrap();
    assert_eq!(merged.len(), 3);
    let kept = merged.lookup(&b"content/00001.md".to_vec()).unwrap();
    assert_eq!(kept.id.bytes, vec![1; 20]);
    let two = merged.lookup(&b"content/00002.md".to_vec()).unwrap();
    assert_eq!(two.id.bytes, vec![2; 20]);
    assert_eq!(two.mode, BLOB_MODE);
    assert!(matches!(two.kind, EntryKind::Blob));
    let five = merged.lookup(&b"content/00005/index.md".to_vec()).unwrap();
    assert_eq!(five.id.bytes, vec![5; 20]);
    assert!(merged.lookup(&b"README.md".to_vec()).is_none());
}

#[test]
fn merge_content_clash_fails_and_leaves_base() {
    let mut base = TreeModel::new();
    base.upsert(b"content/00003.md".to_vec(), blob_data(3));
    let walk = vec![blob_entry("content/", "00003.md", 4)];
    let err = merge_into(&base, &walk, &root()).unwrap_err();
    match err {
        MergeError::Conflict { path, reason } => {
            assert_eq!(path, b"content/00003.md".to_vec());
            assert!(matches!(reason, ConflictReason::Content));
        }
        other => panic!("unexpected error: {:?}", other),
    }
    let untouched = base.lookup(&b"content/00003.md".to_vec()).unwrap();
    assert_eq!(untouched.id.bytes, vec![3; 20]);
}

#[test]
fn merge_identical_entry_is_no_clash() {
    let base = base_one_file();
    let walk = vec![blob_entry("content/", "00001.md", 1)];
    let merged = merge_into(&base, &walk, &root()).unwrap();
    assert_eq!(merged.len(), 1);
    let entry = merged.lookup(&b"content/00001.md".to_vec()).unwrap();
    assert_eq!(entry.id.bytes, vec![1; 20]);
}

#[test]
fn merge_mode_clash_reported_before_content() {
    let base = base_one_file();
    let mut incoming = blob_entry("content/", "00001.md", 4);
    incoming.mode = 0o100755;
    let err = merge_into(&base, &vec![incoming], &root()).unwrap_err();
    match err {
        MergeError::Conflict { path, reason } => {
            assert_eq!(path, b"content/00001.md".to_vec());
            assert!(matches!(reason, ConflictReason::Mode));
        }
        other => panic!("unexpected error: {:?}", other),
    }
}

#[test]
fn merge_kind_clash() {
    let mut base = TreeModel::new();
    base.upsert(
        b"content/00001.md".to_vec(),
        TreeEntryData { mode: BLOB_MODE, kind: EntryKind::Dir, id: oid(1) },
    );
    let walk = vec![blob_entry("content/", "00001.md", 2)];
    let err = merge_into(&base, &walk, &root()).unwrap_err();
    match err {
        MergeError::Conflict { path, reason } => {
            assert_eq!(path, b"content/00001.md".to_vec());
            assert!(matches!(reason, ConflictReason::Kind));
        }
        other => panic!("unexpected error: {:?}", other),
    }
}

#[test]
fn merge_unnamed_entry_inside_content_fails() {
    let base = TreeModel::new();
    let walk = vec![WalkEntry {
        dir: b"content/".to_vec(),
        name: None,
        kind: EntryKind::Blob,
        mode: BLOB_MODE,
        id: oid(6),
    }];
    let err = merge_into(&base, &walk, &root()).unwrap_err();
    match err {
        MergeError::UnnamedEntry { parent } => assert_eq!(parent, b"content/".to_vec()),
        other => panic!("unexpected error: {:?}", other),
    }
}

#[test]
fn merge_unnamed_entry_outside_content_is_skipped() {
    let base = base_one_file();
    let walk = vec![WalkEntry {
        dir: b"assets/".to_vec(),
        name: None,
        kind: EntryKind::Blob,
        mode: BLOB_MODE,
        id: oid(6),
    }];
    let merged = merge_into(&base, &walk, &root()).unwrap();
    assert_eq!(merged.len(), 1);
}

#[test]
fn merge_unknown_kind_inside_content_fails() {
    let base = TreeModel::new();
    let walk = vec![WalkEntry {
        dir: b"content/".to_vec(),
        name: Some(b"weird".to_vec()),
        kind: EntryKind::Other,
        mode: 0o160000,
        id: oid(6),
    }];
    let err = merge_into(&base, &walk, &root()).unwrap_err();
    match err {
        MergeError::UnknownEntryKind { path } => assert_eq!(path, b"content/weird".to_vec()),
        other => panic!("unexpected error: {:?}", other),
    }
}

#[test]
fn merge_stops_at_first_failure() {
    let mut base = TreeModel::new();
    base.upsert(b"content/a".to_vec(), blob_data(1));
    let walk = vec![
        blob_entry("content/", "a", 2),
        WalkEntry {
            dir: b"content/".to_vec(),
            name: None,
            kind: EntryKind::Blob,
            mode: BLOB_MODE,
            id: oid(6),
        },
    ];
    let err = merge_into(&base, &walk, &root()).unwrap_err();
    assert!(matches!(err, MergeError::Conflict { .. }));
}

#[test]
fn merge_accepts_root_level_blob_named_like_content_root() {
    let base = TreeModel::new();
    let walk = vec![blob_entry("", "content", 9)];
    let merged = merge_into(&base, &walk, &root()).unwrap();
    assert_eq!(merged.len(), 1);
    let entry = merged.lookup(&b"content".to_vec()).unwrap();
    assert_eq!(entry.id.bytes, vec![9; 20]);
}

#[test]
fn plan_lists_upserts_in_walk_order() {
    let base = TreeModel::new();
    let walk = vec![
        blob_entry("content/", "b.md", 2),
        blob_entry("", "skipped.md", 9),
        blob_entry("content/", "a.md", 1),
    ];
    let ups = plan_merge(&base, &walk, &root()).unwrap();
    assert_eq!(ups.len(), 2);
    assert_eq!(ups[0].path, b"content/b.md".to_vec());
    assert_eq!(ups[0].id.bytes, vec![2; 20]);
    assert_eq!(ups[1].path, b"content/a.md".to_vec());
    assert_eq!(ups[1].id.bytes, vec![1; 20]);
}

#[test]
fn later_walk_entry_overrides_earlier_at_same_path() {
    let base = TreeModel::new();
    let walk = vec![blob_entry("content/", "x.md", 1), blob_entry("content/", "x.md", 2)];
    let merged = merge_into(&base, &walk, &root()).unwrap();
    assert_eq!(merged.len(), 1);
    let entry = merged.lookup(&b"content/x.md".to_vec()).unwrap();
    assert_eq!(entry.id.bytes, vec![2; 20]);
}
