//! The content-subtree merge: filtering a walked incoming tree, conflict
//! detection against a base tree, and the application of the resulting
//! upserts.
//!
//! The incoming tree arrives as its pre-order walk: one record per entry,
//! carrying the directory path, the entry name (absent when the name is not
//! readable), the kind, the file mode and the object identifier. Only
//! entries under the content root are considered; everything else in the
//! incoming tree is discarded without inspection, exactly as a walk that
//! prunes skipped subtrees would leave them uninspected.

use vstd::prelude::*;

use crate::bytes;
use crate::error::ConflictReason;
use crate::error::MergeError;
use crate::tree::BLOB_MODE;
use crate::tree::EntryKind;
use crate::tree::EntrySpec;
use crate::tree::ObjectId;
use crate::tree::TreeModel;
use crate::tree::TreeEntryData;

verus! {

/// The path separator.
pub const SLASH: u8 = 47;

/// One record of a pre-order tree walk.
#[derive(Debug)]
pub struct WalkEntry {
    /// Path of the directory holding the entry, empty or ending in `/`.
    pub dir: Vec<u8>,
    /// The entry's name; `None` when it cannot be read.
    pub name: Option<Vec<u8>>,
    pub kind: EntryKind,
    pub mode: i32,
    pub id: ObjectId,
}

/// Ghost form of [`WalkEntry`].
pub struct WalkEntryV {
    pub dir: Seq<u8>,
    pub name: Option<Seq<u8>>,
    pub kind: EntryKind,
    pub mode: int,
    pub id: Seq<u8>,
}

impl View for WalkEntry {
    type V = WalkEntryV;

    open spec fn view(&self) -> WalkEntryV {
        WalkEntryV {
            dir: self.dir@,
            name: match self.name {
                Some(n) => Some(n@),
                None => None,
            },
            kind: self.kind,
            mode: self.mode as int,
            id: self.id@,
        }
    }
}

/// The ghost form of a walk.
pub open spec fn walk_view(s: Seq<WalkEntry>) -> Seq<WalkEntryV> {
    s.map_values(|e: WalkEntry| e@)
}

/// One recorded update: put the blob `id` at `path`.
#[derive(Debug)]
pub struct Upsert {
    pub path: Vec<u8>,
    pub id: ObjectId,
}

/// Ghost form of [`Upsert`].
pub struct UpsertV {
    pub path: Seq<u8>,
    pub id: Seq<u8>,
}

impl View for Upsert {
    type V = UpsertV;

    open spec fn view(&self) -> UpsertV {
        UpsertV { path: self.path@, id: self.id@ }
    }
}

/// The ghost form of an upsert list.
pub open spec fn upserts_view(s: Seq<Upsert>) -> Seq<UpsertV> {
    s.map_values(|u: Upsert| u@)
}

/// What planning a merge yields: the upserts in walk order, or the first
/// failure.
pub enum PlanResult {
    Planned(Seq<UpsertV>),
    Unnamed(Seq<u8>),
    Unknown(Seq<u8>),
    Clash(Seq<u8>, ConflictReason),
}

/// `root` followed by the path separator.
pub open spec fn content_prefix(root: Seq<u8>) -> Seq<u8> {
    root + seq![SLASH]
}

/// Whether the walk entry lies under the content root: its directory is
/// inside the root, or it is the root-level entry named like the root.
pub open spec fn included(e: WalkEntryV, root: Seq<u8>) -> bool {
    content_prefix(root).is_prefix_of(e.dir) || (e.dir.len() == 0 && e.name == Some(root))
}

/// The full path of a named walk entry.
pub open spec fn entry_path(e: WalkEntryV) -> Seq<u8> {
    match e.name {
        Some(n) => e.dir + n,
        None => e.dir,
    }
}

/// The first clash, if any, between the base entry at `path` and an
/// incoming blob with mode `mode` and content `id`: the mode is compared
/// first, then the kind, then the content.
pub open spec fn conflict_check(
    base: Map<Seq<u8>, EntrySpec>,
    path: Seq<u8>,
    mode: int,
    id: Seq<u8>,
) -> Option<ConflictReason> {
    if !base.dom().contains(path) {
        None
    } else if base[path].mode != mode {
        Some(ConflictReason::Mode)
    } else if base[path].kind != EntryKind::Blob {
        Some(ConflictReason::Kind)
    } else if base[path].id != id {
        Some(ConflictReason::Content)
    } else {
        None
    }
}

/// The merge plan: walk the entries in order, discard those outside the
/// content root, fail on the first unnamed or unrecognised entry and on the
/// first clash, and record an upsert for every accepted blob.
pub open spec fn plan_spec(
    base: Map<Seq<u8>, EntrySpec>,
    walk: Seq<WalkEntryV>,
    root: Seq<u8>,
) -> PlanResult
    decreases walk.len(),
{
    if walk.len() == 0 {
        PlanResult::Planned(Seq::empty())
    } else {
        let e = walk.first();
        let rest = walk.drop_first();
        if !included(e, root) {
            plan_spec(base, rest, root)
        } else {
            match e.name {
                None => PlanResult::Unnamed(e.dir),
                Some(n) => {
                    let path = e.dir + n;
                    match e.kind {
                        EntryKind::Dir => plan_spec(base, rest, root),
                        EntryKind::Other => PlanResult::Unknown(path),
                        EntryKind::Blob => match conflict_check(base, path, e.mode, e.id) {
                            Some(reason) => PlanResult::Clash(path, reason),
                            None => match plan_spec(base, rest, root) {
                                PlanResult::Planned(ups) => PlanResult::Planned(
                                    seq![UpsertV { path, id: e.id }] + ups,
                                ),
                                err => err,
                            },
                        },
                    }
                },
            }
        }
    }
}

/// Prepend already-collected upserts to a plan's outcome.
pub open spec fn plan_combine(pre: Seq<UpsertV>, p: PlanResult) -> PlanResult {
    match p {
        PlanResult::Planned(v) => PlanResult::Planned(pre + v),
        _ => p,
    }
}

/// Whether a returned error is the one the plan names.
pub open spec fn err_view_matches(e: MergeError, p: PlanResult) -> bool {
    match e {
        MergeError::UnnamedEntry { parent } => p == PlanResult::Unnamed(parent@),
        MergeError::UnknownEntryKind { path } => p == PlanResult::Unknown(path@),
        MergeError::Conflict { path, reason } => p == PlanResult::Clash(path@, reason),
    }
}

/// The tree that results from writing each upsert, in order, into `base`;
/// every upsert records a blob with the standard blob mode.
pub open spec fn apply_spec(base: Map<Seq<u8>, EntrySpec>, ups: Seq<UpsertV>) -> Map<
    Seq<u8>,
    EntrySpec,
>
    decreases ups.len(),
{
    if ups.len() == 0 {
        base
    } else {
        apply_spec(base, ups.drop_last()).insert(
            ups.last().path,
            EntrySpec { mode: BLOB_MODE as int, kind: EntryKind::Blob, id: ups.last().id },
        )
    }
}

/// `root` followed by `/`, as an owned byte string.
pub fn content_prefix_vec(root: &Vec<u8>) -> (r: Vec<u8>)
    ensures
        r@ == content_prefix(root@),
{
    let mut r = bytes::copy(root);
    r.push(SLASH);
    proof {
        assert(r@ =~= content_prefix(root@));
    }
    r
}

/// Whether the walk entry lies under the content root.
fn is_included(e: &WalkEntry, prefix: &Vec<u8>, root: &Vec<u8>) -> (r: bool)
    requires
        prefix@ == content_prefix(root@),
    ensures
        r == included(e@, root@),
{
    if bytes::starts_with(&e.dir, prefix) {
        return true;
    }
    if e.dir.len() == 0 {
        match &e.name {
            Some(n) => bytes::eq(n, root),
            None => false,
        }
    } else {
        false
    }
}

/// Compute the merge plan for one walked incoming tree against `base`.
///
/// On success the returned upserts are exactly those the plan names; on
/// failure the returned error is exactly the plan's first failure, and
/// nothing has been written anywhere.
pub fn plan_merge(base: &TreeModel, walk: &Vec<WalkEntry>, root: &Vec<u8>) -> (r: Result<
    Vec<Upsert>,
    MergeError,
>)
    requires
        base.wf(),
    ensures
        match r {
            Ok(ups) => plan_spec(base@, walk_view(walk@), root@) == PlanResult::Planned(
                upserts_view(ups@),
            ),
            Err(e) => err_view_matches(e, plan_spec(base@, walk_view(walk@), root@)),
        },
{
    let ghost wv = walk_view(walk@);
    let ghost full = plan_spec(base@, wv, root@);
    let mut ups: Vec<Upsert> = Vec::new();
    let prefix = content_prefix_vec(root);
    let n: usize = walk.len();
    proof {
        assert(wv.skip(0) =~= wv);
        assert(upserts_view(ups@) =~= Seq::<UpsertV>::empty());
        match full {
            PlanResult::Planned(v) => {
                assert(Seq::<UpsertV>::empty() + v =~= v);
            },
            _ => {},
        }
    }
    let mut i: usize = 0;
    while i < n
        invariant
            base.wf(),
            n == walk@.len(),
            i <= n,
            wv == walk_view(walk@),
            full == plan_spec(base@, wv, root@),
            prefix@ == content_prefix(root@),
            plan_combine(upserts_view(ups@), plan_spec(base@, wv.skip(i as int), root@)) == full,
        decreases n - i,
    {
        proof {
            assert(wv[i as int] == walk@[i as int]@);
            assert(wv.skip(i as int).first() == wv[i as int]);
            assert(wv.skip(i as int).drop_first() =~= wv.skip(i as int + 1));
        }
        let ghost pre = upserts_view(ups@);
        let ghost rest = plan_spec(base@, wv.skip(i as int), root@);
        let ghost rest_next = plan_spec(base@, wv.skip(i as int + 1), root@);
        let e = &walk[i];
        if !is_included(e, &prefix, root) {
            proof {
                assert(rest == rest_next);
            }
            i = i + 1;
        } else {
            match &e.name {
                None => {
                    proof {
                        assert(rest == PlanResult::Unnamed(e.dir@));
                        assert(full == rest);
                    }
                    return Err(MergeError::UnnamedEntry { parent: bytes::copy(&e.dir) });
                },
                Some(name) => {
                    let path = bytes::concat(&e.dir, name);
                    match e.kind {
                        EntryKind::Dir => {
                            proof {
                                assert(rest == rest_next);
                            }
                            i = i + 1;
                        },
                        EntryKind::Other => {
                            proof {
                                assert(rest == PlanResult::Unknown(path@));
                                assert(full == rest);
                            }
                            return Err(MergeError::UnknownEntryKind { path });
                        },
                        EntryKind::Blob => {
                            let clash: Option<ConflictReason> = match base.lookup(&path) {
                                None => None,
                                Some(d) => {
                                    if d.mode != e.mode {
                                        Some(ConflictReason::Mode)
                                    } else if !(d.kind == EntryKind::Blob) {
                                        Some(ConflictReason::Kind)
                                    } else if !d.id.same(&e.id) {
                                        Some(ConflictReason::Content)
                                    } else {
                                        None
                                    }
                                },
                            };
                            proof {
                                assert(clash == conflict_check(
                                    base@,
                                    path@,
                                    e@.mode,
                                    e@.id,
                                ));
                            }
                            match clash {
                                Some(reason) => {
                                    proof {
                                        assert(rest == PlanResult::Clash(path@, reason));
                                        assert(full == rest);
                                    }
                                    return Err(MergeError::Conflict { path, reason });
                                },
                                None => {
                                    let u = Upsert { path, id: e.id.duplicate() };
                                    proof {
                                        let uv = u@;
                                        assert(upserts_view(ups@.push(u)) =~= pre.push(uv));
                                        match rest_next {
                                            PlanResult::Planned(v) => {
                                                assert(rest == PlanResult::Planned(
                                                    seq![uv] + v,
                                                ));
                                                assert(pre + (seq![uv] + v) =~= pre.push(uv) + v);
                                            },
                                            _ => {
                                                assert(rest == rest_next);
                                            },
                                        }
                                    }
                                    ups.push(u);
                                    i = i + 1;
                                },
                            }
                        },
                    }
                },
            }
        }
    }
    proof {
        assert(wv.skip(n as int) =~= Seq::<WalkEntryV>::empty());
        assert(plan_spec(base@, wv.skip(n as int), root@) == PlanResult::Planned(
            Seq::<UpsertV>::empty(),
        ));
        assert(upserts_view(ups@) + Seq::<UpsertV>::empty() =~= upserts_view(ups@));
    }
    Ok(ups)
}

/// Write each upsert into a copy of `base`, in order.
pub fn apply_upserts(base: &TreeModel, ups: &Vec<Upsert>) -> (t: TreeModel)
    requires
        base.wf(),
    ensures
        t.wf(),
        t@ == apply_spec(base@, upserts_view(ups@)),
{
    let ghost uv = upserts_view(ups@);
    let mut t = base.duplicate();
    let n: usize = ups.len();
    proof {
        assert(uv.take(0) =~= Seq::<UpsertV>::empty());
    }
    let mut i: usize = 0;
    while i < n
        invariant
            t.wf(),
            n == ups@.len(),
            i <= n,
            uv == upserts_view(ups@),
            t@ == apply_spec(base@, uv.take(i as int)),
        decreases n - i,
    {
        let path = bytes::copy(&ups[i].path);
        let data = TreeEntryData {
            mode: BLOB_MODE,
            kind: EntryKind::Blob,
            id: ups[i].id.duplicate(),
        };
        proof {
            assert(uv.take(i as int + 1).drop_last() =~= uv.take(i as int));
            assert(uv.take(i as int + 1).last() == uv[i as int]);
            assert(uv[i as int] == ups@[i as int]@);
        }
        t.upsert(path, data);
        i = i + 1;
    }
    proof {
        assert(uv.take(n as int) =~= uv);
    }
    t
}

/// Merge the walked incoming tree into `base`: compute the plan and, when
/// it succeeds, the tree with all upserts applied. The base tree is never
/// modified; a failed merge yields only the plan's first failure.
pub fn merge_into(base: &TreeModel, walk: &Vec<WalkEntry>, root: &Vec<u8>) -> (r: Result<
    TreeModel,
    MergeError,
>)
    requires
        base.wf(),
    ensures
        match r {
            Ok(t) => plan_spec(base@, walk_view(walk@), root@) is Planned && t.wf() && t@ == apply_spec(
                base@,
                plan_spec(base@, walk_view(walk@), root@)->Planned_0,
            ),
            Err(e) => err_view_matches(e, plan_spec(base@, walk_view(walk@), root@)),
        },
{
    match plan_merge(base, walk, root) {
        Ok(ups) => Ok(apply_upserts(base, &ups)),
        Err(e) => Err(e),
    }
}

/// Splitting a walk splits its plan: the combined walk fails exactly where
/// the first part fails, or where the second part fails after the first
/// part's upserts.
pub proof fn lemma_plan_append(
    base: Map<Seq<u8>, EntrySpec>,
    a: Seq<WalkEntryV>,
    b: Seq<WalkEntryV>,
    root: Seq<u8>,
)
    ensures
        plan_spec(base, a + b, root) == (match plan_spec(base, a, root) {
            PlanResult::Planned(u) => plan_combine(u, plan_spec(base, b, root)),
            err => err,
        }),
    decreases a.len(),
{
    if a.len() == 0 {
        assert(a + b =~= b);
        match plan_spec(base, b, root) {
            PlanResult::Planned(v) => {
                assert(Seq::<UpsertV>::empty() + v =~= v);
            },
            _ => {},
        }
    } else {
        let adf = a.drop_first();
        assert((a + b).first() == a.first());
        assert((a + b).drop_first() =~= adf + b);
        lemma_plan_append(base, adf, b, root);
        let e = a.first();
        if included(e, root) && e.name is Some && e.kind == EntryKind::Blob && conflict_check(
            base,
            entry_path(e),
            e.mode,
            e.id,
        ) is None {
            let u = UpsertV { path: entry_path(e), id: e.id };
            match plan_spec(base, adf, root) {
                PlanResult::Planned(up) => {
                    match plan_spec(base, b, root) {
                        PlanResult::Planned(v) => {
                            assert(seq![u] + (up + v) =~= (seq![u] + up) + v);
                        },
                        _ => {},
                    }
                },
                _ => {},
            }
        }
    }
}

/// Every upsert of a successful plan keeps the walk's guarantees: its path
/// is the concatenation of a NUL-free directory and a NUL-free name, and
/// its identifier is the entry's, 20 bytes.
pub proof fn lemma_plan_wellformed(
    base: Map<Seq<u8>, EntrySpec>,
    walk: Seq<WalkEntryV>,
    root: Seq<u8>,
)
    requires
        forall|i: int|
            0 <= i < walk.len() ==> crate::bytes::no_nul((#[trigger] walk[i]).dir) && (walk[i].name
                matches Some(n) ==> crate::bytes::no_nul(n)) && walk[i].id.len() == 20,
    ensures
        plan_spec(base, walk, root) matches PlanResult::Planned(ups) ==> forall|j: int|
            0 <= j < ups.len() ==> crate::bytes::no_nul((#[trigger] ups[j]).path) && ups[j].id.len()
                == 20,
    decreases walk.len(),
{
    if walk.len() > 0 {
        let e = walk.first();
        let rest = walk.drop_first();
        assert(e == walk[0]);
        assert(forall|j: int| 0 <= j < rest.len() ==> rest[j] == walk[j + 1]);
        lemma_plan_wellformed(base, rest, root);
        if included(e, root) && e.name is Some && e.kind == EntryKind::Blob && conflict_check(
            base,
            entry_path(e),
            e.mode,
            e.id,
        ) is None {
            match plan_spec(base, rest, root) {
                PlanResult::Planned(v) => {
                    let u = UpsertV { path: entry_path(e), id: e.id };
                    let n = e.name->0;
                    assert(crate::bytes::no_nul(e.dir + n));
                    assert forall|j: int| 0 <= j < (seq![u] + v).len() implies crate::bytes::no_nul(
                        (#[trigger] (seq![u] + v)[j]).path,
                    ) && (seq![u] + v)[j].id.len() == 20 by {
                        if j > 0 {
                            assert((seq![u] + v)[j] == v[j - 1]);
                        }
                    }
                },
                _ => {},
            }
        }
    }
}

/// The content blobs an incoming walk contributes: each included, named
/// blob entry at its full path, recorded with the standard blob mode; a
/// later entry at the same path overrides an earlier one.
pub open spec fn incoming_blobs(walk: Seq<WalkEntryV>, root: Seq<u8>) -> Map<Seq<u8>, EntrySpec>
    decreases walk.len(),
{
    if walk.len() == 0 {
        Map::empty()
    } else {
        let e = walk.first();
        let rest = incoming_blobs(walk.drop_first(), root);
        if included(e, root) && e.name is Some && e.kind == EntryKind::Blob {
            Map::empty().insert(
                entry_path(e),
                EntrySpec { mode: BLOB_MODE as int, kind: EntryKind::Blob, id: e.id },
            ).union_prefer_right(rest)
        } else {
            rest
        }
    }
}

/// Law: an incoming tree with nothing under the content root merges to an
/// empty plan, and applying an empty plan returns the base tree unchanged.
/// In particular, merging an empty incoming tree is the identity.
pub proof fn lemma_merge_identity(
    base: Map<Seq<u8>, EntrySpec>,
    walk: Seq<WalkEntryV>,
    root: Seq<u8>,
)
    requires
        forall|i: int| 0 <= i < walk.len() ==> !included(#[trigger] walk[i], root),
    ensures
        plan_spec(base, walk, root) == PlanResult::Planned(Seq::<UpsertV>::empty()),
        apply_spec(base, Seq::<UpsertV>::empty()) == base,
    decreases walk.len(),
{
    if walk.len() > 0 {
        let rest = walk.drop_first();
        assert(forall|j: int| 0 <= j < rest.len() ==> rest[j] == walk[j + 1]);
        assert(!included(walk.first(), root)) by {
            assert(walk.first() == walk[0]);
        }
        lemma_merge_identity(base, rest, root);
    }
}

/// Helper for the union law, generalised over the tree the upserts are
/// applied to: the plan of a clash-free walk succeeds against `base`, and
/// applying its upserts to any tree overlays that tree with the walk's
/// content blobs.
proof fn lemma_plan_union_general(
    base: Map<Seq<u8>, EntrySpec>,
    b0: Map<Seq<u8>, EntrySpec>,
    walk: Seq<WalkEntryV>,
    root: Seq<u8>,
)
    requires
        forall|i: int|
            0 <= i < walk.len() && included(#[trigger] walk[i], root) ==> walk[i].name is Some
                && walk[i].kind != EntryKind::Other,
        forall|i: int|
            0 <= i < walk.len() && included(#[trigger] walk[i], root) && walk[i].kind
                == EntryKind::Blob ==> !base.dom().contains(entry_path(walk[i])),
    ensures
        plan_spec(base, walk, root) is Planned,
        apply_spec(b0, plan_spec(base, walk, root)->Planned_0) == b0.union_prefer_right(
            incoming_blobs(walk, root),
        ),
    decreases walk.len(),
{
    if walk.len() == 0 {
        assert(b0.union_prefer_right(incoming_blobs(walk, root)) =~= b0);
    } else {
        let e = walk.first();
        let rest = walk.drop_first();
        assert(e == walk[0]);
        assert(forall|j: int| 0 <= j < rest.len() ==> rest[j] == walk[j + 1]);
        if included(e, root) && e.kind == EntryKind::Blob {
            let p = entry_path(e);
            let s = EntrySpec { mode: BLOB_MODE as int, kind: EntryKind::Blob, id: e.id };
            assert(conflict_check(base, p, e.mode, e.id) is None);
            lemma_plan_union_general(base, b0.insert(p, s), rest, root);
            let v = plan_spec(base, rest, root)->Planned_0;
            let u = UpsertV { path: p, id: e.id };
            assert(plan_spec(base, walk, root) == PlanResult::Planned(seq![u] + v));
            lemma_apply_prepend(b0, u, v);
            assert(b0.insert(p, s).union_prefer_right(incoming_blobs(rest, root))
                =~= b0.union_prefer_right(incoming_blobs(walk, root)));
        } else {
            lemma_plan_union_general(base, b0, rest, root);
            assert(incoming_blobs(walk, root) == incoming_blobs(rest, root));
        }
    }
}

/// Applying an upsert sequence that starts with `u` first writes `u`.
proof fn lemma_apply_prepend(b0: Map<Seq<u8>, EntrySpec>, u: UpsertV, v: Seq<UpsertV>)
    ensures
        apply_spec(b0, seq![u] + v) == apply_spec(
            b0.insert(u.path, EntrySpec { mode: BLOB_MODE as int, kind: EntryKind::Blob, id: u.id }),
            v,
        ),
    decreases v.len(),
{
    let s = EntrySpec { mode: BLOB_MODE as int, kind: EntryKind::Blob, id: u.id };
    let w = seq![u] + v;
    if v.len() == 0 {
        assert(w =~= seq![u]);
        assert(w.last() == u);
        assert(w.drop_last().len() == 0);
        assert(apply_spec(b0, w) == apply_spec(b0, w.drop_last()).insert(u.path, s));
        assert(apply_spec(b0, w.drop_last()) == b0);
        assert(apply_spec(b0.insert(u.path, s), v) == b0.insert(u.path, s));
    } else {
        assert(w.drop_last() =~= seq![u] + v.drop_last());
        assert(w.last() == v.last());
        lemma_apply_prepend(b0, u, v.drop_last());
        assert(apply_spec(b0, w) == apply_spec(b0, w.drop_last()).insert(
            w.last().path,
            EntrySpec { mode: BLOB_MODE as int, kind: EntryKind::Blob, id: w.last().id },
        ));
        assert(apply_spec(b0.insert(u.path, s), v) == apply_spec(
            b0.insert(u.path, s),
            v.drop_last(),
        ).insert(
            v.last().path,
            EntrySpec { mode: BLOB_MODE as int, kind: EntryKind::Blob, id: v.last().id },
        ));
    }
}

/// Law: merging an incoming tree whose content blobs all sit at paths
/// absent from the base tree succeeds, raising no clash, and the merged
/// tree is the base tree overlaid with exactly those blobs.
pub proof fn lemma_merge_disjoint_union(
    base: Map<Seq<u8>, EntrySpec>,
    walk: Seq<WalkEntryV>,
    root: Seq<u8>,
)
    requires
        forall|i: int|
            0 <= i < walk.len() && included(#[trigger] walk[i], root) ==> walk[i].name is Some
                && walk[i].kind != EntryKind::Other,
        forall|i: int|
            0 <= i < walk.len() && included(#[trigger] walk[i], root) && walk[i].kind
                == EntryKind::Blob ==> !base.dom().contains(entry_path(walk[i])),
    ensures
        plan_spec(base, walk, root) is Planned,
        apply_spec(base, plan_spec(base, walk, root)->Planned_0) == base.union_prefer_right(
            incoming_blobs(walk, root),
        ),
{
    lemma_plan_union_general(base, base, walk, root);
}

/// Law: if the first troublesome entry of the incoming walk is a content
/// blob whose path already exists in the base tree with the same mode and
/// kind but different content, the whole merge fails with a content clash
/// at that path, whatever follows in the walk.
pub proof fn lemma_content_conflict(
    base: Map<Seq<u8>, EntrySpec>,
    walk: Seq<WalkEntryV>,
    root: Seq<u8>,
    i: int,
)
    requires
        0 <= i < walk.len(),
        plan_spec(base, walk.take(i), root) is Planned,
        included(walk[i], root),
        walk[i].name is Some,
        walk[i].kind == EntryKind::Blob,
        base.dom().contains(entry_path(walk[i])),
        base[entry_path(walk[i])].mode == walk[i].mode,
        base[entry_path(walk[i])].kind == EntryKind::Blob,
        base[entry_path(walk[i])].id != walk[i].id,
    ensures
        plan_spec(base, walk, root) == PlanResult::Clash(
            entry_path(walk[i]),
            ConflictReason::Content,
        ),
{
    let a = walk.take(i);
    let b = walk.skip(i);
    assert(walk =~= a + b);
    lemma_plan_append(base, a, b, root);
    let e = b.first();
    assert(e == walk[i]);
    assert(conflict_check(base, entry_path(e), e.mode, e.id) == Some(ConflictReason::Content));
    assert(plan_spec(base, b, root) == PlanResult::Clash(entry_path(e), ConflictReason::Content));
}

/// The tree a full pre-order walk denotes: each named entry at its full
/// path; entries without a readable name are not addressable and are left
/// out.
pub open spec fn walk_map(walk: Seq<WalkEntryV>) -> Map<Seq<u8>, EntrySpec>
    decreases walk.len(),
{
    if walk.len() == 0 {
        Map::empty()
    } else {
        let e = walk.last();
        let m = walk_map(walk.drop_last());
        match e.name {
            Some(n) => m.insert(
                e.dir + n,
                EntrySpec { mode: e.mode, kind: e.kind, id: e.id },
            ),
            None => m,
        }
    }
}

/// Build the tree model of a fully walked tree.
pub fn tree_from_walk(walk: &Vec<WalkEntry>) -> (t: TreeModel)
    ensures
        t.wf(),
        t@ == walk_map(walk_view(walk@)),
{
    let ghost wv = walk_view(walk@);
    let mut t = TreeModel::new();
    let n: usize = walk.len();
    proof {
        assert(wv.take(0) =~= Seq::<WalkEntryV>::empty());
    }
    let mut i: usize = 0;
    while i < n
        invariant
            t.wf(),
            n == walk@.len(),
            i <= n,
            wv == walk_view(walk@),
            t@ == walk_map(wv.take(i as int)),
        decreases n - i,
    {
        proof {
            assert(wv.take(i as int + 1).drop_last() =~= wv.take(i as int));
            assert(wv.take(i as int + 1).last() == wv[i as int]);
            assert(wv[i as int] == walk@[i as int]@);
        }
        let e = &walk[i];
        match &e.name {
            Some(name) => {
                let path = bytes::concat(&e.dir, name);
                let data = TreeEntryData { mode: e.mode, kind: e.kind, id: e.id.duplicate() };
                t.upsert(path, data);
            },
            None => {},
        }
        i = i + 1;
    }
    proof {
        assert(wv.take(n as int) =~= wv);
    }
    t
}

} // verus!
