//! Model of version-control trees and the content-subtree merge.
//!
//! A tree is modelled as a finite map from full entry paths (byte strings)
//! to entry data: file mode, entry kind, and the content-derived object
//! identifier. The merge walks the entries of an incoming tree, keeps only
//! those under the content root, checks each kept blob against the base
//! tree, and either aborts on the first clash or produces the list of
//! upserts whose application yields the merged tree.

use vstd::prelude::*;

use crate::error::ConflictReason;
use crate::error::MergeError;

verus! {

/// File mode recorded for every merged blob (a regular file).
pub const BLOB_MODE: i32 = 0o100644;

/// What a tree entry points at.
#[derive(Debug, Clone, Copy, PartialEq, Eq, Structural)]
pub enum EntryKind {
    /// File content.
    Blob,
    /// A subtree.
    Dir,
    /// Anything else (a submodule link, for example); the merge rejects it.
    Other,
}

/// A content-derived identifier of a commit, tree or blob. Equal
/// identifiers mean equal content.
#[derive(Debug)]
pub struct ObjectId {
    pub bytes: Vec<u8>,
}

impl View for ObjectId {
    type V = Seq<u8>;

    open spec fn view(&self) -> Seq<u8> {
        self.bytes@
    }
}

impl ObjectId {
    /// An owned copy with the same bytes.
    pub fn duplicate(&self) -> (r: ObjectId)
        ensures
            r@ == self@,
    {
        ObjectId { bytes: crate::bytes::copy(&self.bytes) }
    }

    /// Whether the two identifiers name the same object.
    pub fn same(&self, other: &ObjectId) -> (r: bool)
        ensures
            r == (self@ == other@),
    {
        crate::bytes::eq(&self.bytes, &other.bytes)
    }
}

/// What a tree records about one entry, keyed elsewhere by its path.
#[derive(Debug)]
pub struct TreeEntryData {
    pub mode: i32,
    pub kind: EntryKind,
    pub id: ObjectId,
}

/// Ghost form of [`TreeEntryData`].
pub struct EntrySpec {
    pub mode: int,
    pub kind: EntryKind,
    pub id: Seq<u8>,
}

impl View for TreeEntryData {
    type V = EntrySpec;

    open spec fn view(&self) -> EntrySpec {
        EntrySpec { mode: self.mode as int, kind: self.kind, id: self.id@ }
    }
}

impl TreeEntryData {
    /// An owned copy with the same fields.
    pub fn duplicate(&self) -> (r: TreeEntryData)
        ensures
            r@ == self@,
    {
        TreeEntryData { mode: self.mode, kind: self.kind, id: self.id.duplicate() }
    }
}

/// Whether no two pairs share a path.
pub open spec fn distinct_paths(s: Seq<(Vec<u8>, TreeEntryData)>) -> bool {
    forall|i: int, j: int| 0 <= i < j < s.len() ==> s[i].0@ != s[j].0@
}

/// The map a sequence of path/data pairs denotes; a later pair overrides
/// an earlier one at the same path.
pub open spec fn entries_map(s: Seq<(Vec<u8>, TreeEntryData)>) -> Map<Seq<u8>, EntrySpec>
    decreases s.len(),
{
    if s.len() == 0 {
        Map::empty()
    } else {
        entries_map(s.drop_last()).insert(s.last().0@, s.last().1@)
    }
}

/// A path is in the map exactly when some pair holds it.
proof fn lemma_entries_map_dom(s: Seq<(Vec<u8>, TreeEntryData)>, p: Seq<u8>)
    ensures
        entries_map(s).dom().contains(p) <==> exists|i: int| 0 <= i < s.len() && s[i].0@ == p,
    decreases s.len(),
{
    if s.len() > 0 {
        lemma_entries_map_dom(s.drop_last(), p);
        if s.last().0@ == p {
            assert(s[s.len() - 1].0@ == p);
        } else if entries_map(s).dom().contains(p) {
            let i = choose|i: int| 0 <= i < s.drop_last().len() && s.drop_last()[i].0@ == p;
            assert(s[i].0@ == p);
        } else {
            assert forall|i: int| 0 <= i < s.len() implies s[i].0@ != p by {
                if i < s.len() - 1 {
                    assert(s.drop_last()[i].0@ == s[i].0@);
                }
            }
        }
    }
}

/// Under distinct paths, the map sends each pair's path to its data.
proof fn lemma_entries_map_index(s: Seq<(Vec<u8>, TreeEntryData)>, i: int)
    requires
        distinct_paths(s),
        0 <= i < s.len(),
    ensures
        entries_map(s).dom().contains(s[i].0@),
        entries_map(s)[s[i].0@] == s[i].1@,
    decreases s.len(),
{
    if i == s.len() - 1 {
    } else {
        assert(distinct_paths(s.drop_last())) by {
            assert(forall|a: int, b: int|
                0 <= a < b < s.drop_last().len() ==> s.drop_last()[a].0@ == s[a].0@
                    && s.drop_last()[b].0@ == s[b].0@);
        }
        lemma_entries_map_index(s.drop_last(), i);
        assert(s.drop_last()[i] == s[i]);
        assert(s[i].0@ != s.last().0@);
    }
}

/// Under distinct paths, the map has exactly one element per pair.
proof fn lemma_entries_map_len(s: Seq<(Vec<u8>, TreeEntryData)>)
    requires
        distinct_paths(s),
    ensures
        entries_map(s).dom().finite(),
        entries_map(s).dom().len() == s.len(),
    decreases s.len(),
{
    if s.len() > 0 {
        assert(distinct_paths(s.drop_last())) by {
            assert(forall|a: int, b: int|
                0 <= a < b < s.drop_last().len() ==> s.drop_last()[a].0@ == s[a].0@
                    && s.drop_last()[b].0@ == s[b].0@);
        }
        lemma_entries_map_len(s.drop_last());
        lemma_entries_map_dom(s.drop_last(), s.last().0@);
        assert(forall|i: int| 0 <= i < s.drop_last().len() ==> s.drop_last()[i].0@ == s[i].0@);
        assert(!entries_map(s.drop_last()).dom().contains(s.last().0@));
    }
}

/// An immutable tree: a finite set of entries with pairwise distinct paths.
#[derive(Debug)]
pub struct TreeModel {
    entries: Vec<(Vec<u8>, TreeEntryData)>,
}

impl View for TreeModel {
    type V = Map<Seq<u8>, EntrySpec>;

    closed spec fn view(&self) -> Map<Seq<u8>, EntrySpec> {
        entries_map(self.entries@)
    }
}

impl TreeModel {
    /// Well-formedness: no path occurs twice.
    pub closed spec fn wf(&self) -> bool {
        distinct_paths(self.entries@)
    }

    /// The empty tree.
    pub fn new() -> (t: TreeModel)
        ensures
            t@ == Map::<Seq<u8>, EntrySpec>::empty(),
            t.wf(),
    {
        TreeModel { entries: Vec::new() }
    }

    /// How many entries the tree holds.
    pub fn len(&self) -> (n: usize)
        requires
            self.wf(),
        ensures
            n == self@.dom().len(),
            self@.dom().finite(),
    {
        proof {
            lemma_entries_map_len(self.entries@);
        }
        self.entries.len()
    }

    /// The entry at `path`, if any.
    pub fn lookup(&self, path: &Vec<u8>) -> (r: Option<&TreeEntryData>)
        requires
            self.wf(),
        ensures
            match r {
                Some(d) => self@.dom().contains(path@) && self@[path@] == d@,
                None => !self@.dom().contains(path@),
            },
    {
        let n: usize = self.entries.len();
        let mut i: usize = 0;
        while i < n
            invariant
                self.wf(),
                i <= n,
                n == self.entries@.len(),
                forall|j: int| 0 <= j < i ==> self.entries@[j].0@ != path@,
            decreases n - i,
        {
            if crate::bytes::eq(&self.entries[i].0, path) {
                proof {
                    lemma_entries_map_index(self.entries@, i as int);
                }
                return Some(&self.entries[i].1);
            }
            i = i + 1;
        }
        proof {
            lemma_entries_map_dom(self.entries@, path@);
        }
        None
    }

    /// Insert `data` at `path`, replacing whatever was there.
    pub fn upsert(&mut self, path: Vec<u8>, data: TreeEntryData)
        requires
            old(self).wf(),
        ensures
            final(self)@ == old(self)@.insert(path@, data@),
            final(self).wf(),
    {
        let n: usize = self.entries.len();
        let mut i: usize = 0;
        while i < n
            invariant
                self.wf(),
                self.entries@ == old(self).entries@,
                i <= n,
                n == self.entries@.len(),
                forall|j: int| 0 <= j < i ==> self.entries@[j].0@ != path@,
            decreases n - i,
        {
            if crate::bytes::eq(&self.entries[i].0, &path) {
                proof {
                    lemma_update_is_insert(self.entries@, i as int, path@, data@);
                }
                self.entries.set(i, (path, data));
                return;
            }
            i = i + 1;
        }
        proof {
            let s = self.entries@;
            let x = (path, data);
            assert(s.push(x).drop_last() =~= s);
            assert(s.push(x).last() == x);
            assert(entries_map(s.push(x)) == entries_map(s).insert(path@, data@));
            assert(distinct_paths(s.push(x))) by {
                assert(forall|j: int| 0 <= j < s.len() ==> s.push(x)[j] == s[j]);
                assert(s.push(x)[s.len() as int] == x);
            }
        }
        self.entries.push((path, data));
    }

    /// An owned copy denoting the same map.
    pub fn duplicate(&self) -> (t: TreeModel)
        requires
            self.wf(),
        ensures
            t@ == self@,
            t.wf(),
    {
        let n: usize = self.entries.len();
        let mut entries: Vec<(Vec<u8>, TreeEntryData)> = Vec::new();
        let mut i: usize = 0;
        while i < n
            invariant
                i <= n,
                n == self.entries@.len(),
                entries@.len() == i,
                forall|j: int|
                    0 <= j < i ==> entries@[j].0@ == self.entries@[j].0@ && entries@[j].1@
                        == self.entries@[j].1@,
            decreases n - i,
        {
            let p = crate::bytes::copy(&self.entries[i].0);
            let d = self.entries[i].1.duplicate();
            entries.push((p, d));
            i = i + 1;
        }
        proof {
            lemma_entries_map_congruent(entries@, self.entries@);
        }
        TreeModel { entries }
    }
}

/// Replacing the pair at `i` denotes inserting at its path.
proof fn lemma_update_is_insert(
    s: Seq<(Vec<u8>, TreeEntryData)>,
    i: int,
    path: Seq<u8>,
    data: EntrySpec,
)
    requires
        distinct_paths(s),
        0 <= i < s.len(),
        s[i].0@ == path,
    ensures
        forall|x: (Vec<u8>, TreeEntryData)|
            x.0@ == path && x.1@ == data ==> entries_map(#[trigger] s.update(i, x)) == entries_map(
                s,
            ).insert(path, data) && distinct_paths(s.update(i, x)),
    decreases s.len(),
{
    assert forall|x: (Vec<u8>, TreeEntryData)| x.0@ == path && x.1@ == data implies entries_map(
        s.update(i, x),
    ) == entries_map(s).insert(path, data) && distinct_paths(s.update(i, x)) by {
        let su = s.update(i, x);
        assert(distinct_paths(su)) by {
            assert(forall|a: int| 0 <= a < s.len() ==> su[a].0@ == s[a].0@);
        }
        if i == s.len() - 1 {
            assert(su.drop_last() =~= s.drop_last());
            assert(su.last() == x);
            assert(entries_map(su) == entries_map(s.drop_last()).insert(path, data));
            assert(entries_map(s).insert(path, data) =~= entries_map(s.drop_last()).insert(
                path,
                data,
            ));
        } else {
            assert(distinct_paths(s.drop_last())) by {
                assert(forall|a: int, b: int|
                    0 <= a < b < s.drop_last().len() ==> s.drop_last()[a].0@ == s[a].0@
                        && s.drop_last()[b].0@ == s[b].0@);
            }
            assert(s.drop_last()[i] == s[i]);
            lemma_update_is_insert(s.drop_last(), i, path, data);
            assert(su.drop_last() =~= s.drop_last().update(i, x));
            assert(su.last() == s.last());
            assert(entries_map(su) == entries_map(s.drop_last()).insert(path, data).insert(
                s.last().0@,
                s.last().1@,
            ));
            assert(s.last().0@ != path);
            assert(entries_map(s.drop_last()).insert(path, data).insert(s.last().0@, s.last().1@)
                =~= entries_map(s.drop_last()).insert(s.last().0@, s.last().1@).insert(path, data));
        }
    }
}

/// Two pairwise view-equal pair sequences denote the same map.
proof fn lemma_entries_map_congruent(
    a: Seq<(Vec<u8>, TreeEntryData)>,
    b: Seq<(Vec<u8>, TreeEntryData)>,
)
    requires
        a.len() == b.len(),
        forall|j: int| 0 <= j < a.len() ==> a[j].0@ == b[j].0@ && a[j].1@ == b[j].1@,
    ensures
        entries_map(a) == entries_map(b),
        distinct_paths(b) ==> distinct_paths(a),
    decreases a.len(),
{
    if a.len() > 0 {
        lemma_entries_map_congruent(a.drop_last(), b.drop_last());
        assert(entries_map(a) =~= entries_map(b));
    } else {
        assert(entries_map(a) =~= entries_map(b));
    }
}

} // verus!
