//! Receipts of the mounts this tool created, by which a live mount whose
//! source shows under another name can still be recognised as ours.
//!
//! Recording a receipt sorts the receipts by repo id, repo path and context
//! path; receipts read from the receipt file are kept as they were written.
//! Reading and writing the file happen outside the library.
use vstd::prelude::*;

use crate::shared::error::Error;
use crate::shared::mount_spec::{MountSpec, MountSpecView};
use crate::shared::order::{
    compare_text, lemma_text_lt_irreflexive, lemma_text_lt_transitive, text_lt,
};
use crate::shared::paths::{paths_equal, same_path};
use crate::shared::text::{append_str, push_decimal};
use crate::shared::types::{RelativePath, RepoId};

verus! {

/// Current version of the receipt file format.
pub const MOUNT_OWNERSHIP_STATE_VERSION: u32 = 1;

/// A receipt of one bind mount this tool created.
#[derive(Debug)]
pub struct OwnedMountRecord {
    pub repo_id: RepoId,
    pub context: RelativePath,
    pub repo: RelativePath,
    pub mount_id: u64,
    pub source_root: String,
    pub filesystem_type: String,
}

pub struct OwnedMountView {
    pub repo_id: Seq<char>,
    pub context: Seq<char>,
    pub repo: Seq<char>,
    pub mount_id: u64,
    pub source_root: Seq<char>,
    pub filesystem_type: Seq<char>,
}

impl View for OwnedMountRecord {
    type V = OwnedMountView;

    open spec fn view(&self) -> OwnedMountView {
        OwnedMountView {
            repo_id: self.repo_id@,
            context: self.context@,
            repo: self.repo@,
            mount_id: self.mount_id,
            source_root: self.source_root@,
            filesystem_type: self.filesystem_type@,
        }
    }
}

impl PartialEq for OwnedMountRecord {
    fn eq(&self, other: &Self) -> (r: bool) {
        self.repo_id == other.repo_id && self.context == other.context && self.repo == other.repo
            && self.mount_id == other.mount_id && self.source_root == other.source_root
            && self.filesystem_type == other.filesystem_type
    }
}

impl Eq for OwnedMountRecord {

}

impl vstd::std_specs::cmp::PartialEqSpecImpl for OwnedMountRecord {
    open spec fn obeys_eq_spec() -> bool {
        true
    }

    open spec fn eq_spec(&self, other: &OwnedMountRecord) -> bool {
        self@ == other@
    }
}

impl Clone for OwnedMountRecord {
    fn clone(&self) -> (r: Self)
        ensures
            r@ == self@,
    {
        OwnedMountRecord {
            repo_id: self.repo_id.clone(),
            context: self.context.clone(),
            repo: self.repo.clone(),
            mount_id: self.mount_id,
            source_root: self.source_root.clone(),
            filesystem_type: self.filesystem_type.clone(),
        }
    }
}

pub open spec fn record_views(s: Seq<OwnedMountRecord>) -> Seq<OwnedMountView> {
    s.map_values(|r: OwnedMountRecord| r@)
}

/// The record is the receipt of mount `spec` of repo `id`.
pub open spec fn record_for(r: OwnedMountView, id: Seq<char>, spec: MountSpecView) -> bool {
    r.repo_id == id && r.context == spec.context && r.repo == spec.repo
}

/// The record describes the live mount with this id, source (as a path)
/// and type.
pub open spec fn record_matches_live(r: OwnedMountView, mount_id: u64, source_root: Seq<char>, filesystem_type: Seq<char>) -> bool {
    r.mount_id == mount_id && same_path(r.source_root, source_root) && r.filesystem_type == filesystem_type
}

/// Receipts are ordered by repo id, then repo path, then context path.
pub open spec fn record_lt(a: OwnedMountView, b: OwnedMountView) -> bool {
    ||| text_lt(a.repo_id, b.repo_id)
    ||| (a.repo_id == b.repo_id && text_lt(a.repo, b.repo))
    ||| (a.repo_id == b.repo_id && a.repo == b.repo && text_lt(a.context, b.context))
}

/// Each receipt comes strictly before every later one, so no mount has two
/// receipts.
pub open spec fn records_sorted(s: Seq<OwnedMountView>) -> bool {
    forall|i: int, j: int| 0 <= i < j < s.len() ==> record_lt(#[trigger] s[i], #[trigger] s[j])
}

/// Receipts that are not ordered either way are for the same mount.
pub proof fn lemma_record_lt_total(a: OwnedMountView, b: OwnedMountView)
    ensures
        record_lt(a, b) || record_lt(b, a) || record_for(b, a.repo_id, MountSpecView { context: a.context, repo: a.repo }),
{
    crate::shared::order::lemma_text_lt_total(a.repo_id, b.repo_id);
    crate::shared::order::lemma_text_lt_total(a.repo, b.repo);
    crate::shared::order::lemma_text_lt_total(a.context, b.context);
}

/// Receipts for the same mount are not ordered.
pub proof fn lemma_record_lt_same_key(a: OwnedMountView, b: OwnedMountView)
    requires
        record_for(b, a.repo_id, MountSpecView { context: a.context, repo: a.repo }),
    ensures
        !record_lt(a, b),
        !record_lt(b, a),
{
    lemma_text_lt_irreflexive(a.repo_id);
    lemma_text_lt_irreflexive(a.repo);
    lemma_text_lt_irreflexive(a.context);
}

/// The order of receipts is transitive.
pub proof fn lemma_record_lt_transitive(a: OwnedMountView, b: OwnedMountView, c: OwnedMountView)
    requires
        record_lt(a, b),
        record_lt(b, c),
    ensures
        record_lt(a, c),
{
    if text_lt(a.repo_id, b.repo_id) && text_lt(b.repo_id, c.repo_id) {
        lemma_text_lt_transitive(a.repo_id, b.repo_id, c.repo_id);
    }
    if a.repo_id == b.repo_id && b.repo_id == c.repo_id {
        if text_lt(a.repo, b.repo) && text_lt(b.repo, c.repo) {
            lemma_text_lt_transitive(a.repo, b.repo, c.repo);
        }
        if a.repo == b.repo && b.repo == c.repo && text_lt(a.context, b.context) && text_lt(
            b.context,
            c.context,
        ) {
            lemma_text_lt_transitive(a.context, b.context, c.context);
        }
    }
}

/// The index of the first receipt at or after `i` for mount `spec` of `id`.
pub open spec fn find_record_from(s: Seq<OwnedMountView>, id: Seq<char>, spec: MountSpecView, i: int) -> Option<int>
    decreases s.len() - i,
{
    if i < 0 || i >= s.len() {
        None
    } else if record_for(s[i], id, spec) {
        Some(i)
    } else {
        find_record_from(s, id, spec, i + 1)
    }
}

/// The index of the first receipt for mount `spec` of `id`.
pub open spec fn find_record(s: Seq<OwnedMountView>, id: Seq<char>, spec: MountSpecView) -> Option<int> {
    find_record_from(s, id, spec, 0)
}

/// What the search for a receipt finds is a receipt for that mount, and no earlier one is.
pub proof fn lemma_find_record_from(s: Seq<OwnedMountView>, id: Seq<char>, spec: MountSpecView, i: int)
    requires
        0 <= i,
    ensures
        match find_record_from(s, id, spec, i) {
            Some(k) => i <= k < s.len() && record_for(s[k], id, spec) && forall|j: int|
                i <= j < k ==> !record_for(#[trigger] s[j], id, spec),
            None => forall|j: int| i <= j < s.len() ==> !record_for(#[trigger] s[j], id, spec),
        },
    decreases s.len() - i,
{
    if i < s.len() && !record_for(s[i], id, spec) {
        lemma_find_record_from(s, id, spec, i + 1);
    }
}

/// A receipt for mount `spec` of `id` describes this live mount.
pub open spec fn verifies_live(
    s: Seq<OwnedMountView>,
    id: Seq<char>,
    spec: MountSpecView,
    mount_id: u64,
    source_root: Seq<char>,
    filesystem_type: Seq<char>,
) -> bool {
    match find_record(s, id, spec) {
        Some(k) => record_matches_live(s[k], mount_id, source_root, filesystem_type),
        None => false,
    }
}

/// The receipts with the one for `(id, spec)` removed, if any.
pub open spec fn without_record(s: Seq<OwnedMountView>, id: Seq<char>, spec: MountSpecView) -> Seq<OwnedMountView> {
    match find_record(s, id, spec) {
        Some(k) => s.remove(k),
        None => s,
    }
}

/// The receipts of every repo but `id`, in order.
pub open spec fn records_without_repo(s: Seq<OwnedMountView>, id: Seq<char>) -> Seq<OwnedMountView>
    decreases s.len(),
{
    if s.len() == 0 {
        Seq::empty()
    } else {
        let prev = records_without_repo(s.drop_last(), id);
        if s.last().repo_id == id {
            prev
        } else {
            prev.push(s.last())
        }
    }
}

/// The first position at which `r` can go: after every receipt that does
/// not come after it.
pub open spec fn insert_position_from(s: Seq<OwnedMountView>, r: OwnedMountView, i: int) -> int
    decreases s.len() - i,
{
    if i < 0 || i >= s.len() {
        s.len() as int
    } else if record_lt(r, s[i]) {
        i
    } else {
        insert_position_from(s, r, i + 1)
    }
}

pub open spec fn insert_position(s: Seq<OwnedMountView>, r: OwnedMountView) -> int {
    insert_position_from(s, r, 0)
}

/// `r` put after every receipt of `s` up to the first one it comes before.
pub open spec fn insert_stable(s: Seq<OwnedMountView>, r: OwnedMountView) -> Seq<OwnedMountView> {
    s.insert(insert_position(s, r), r)
}

/// The receipts sorted by repo id, repo path and context path, receipts
/// for the same mount keeping their order: each in turn is put after the
/// sorted earlier ones that it does not come before.
pub open spec fn sorted_records(s: Seq<OwnedMountView>) -> Seq<OwnedMountView>
    decreases s.len(),
{
    if s.len() == 0 {
        Seq::empty()
    } else {
        insert_stable(sorted_records(s.drop_last()), s.last())
    }
}

/// The receipts after recording `r`: the first receipt for the same mount
/// is dropped, `r` is added at the end, and all are sorted.
pub open spec fn upserted(s: Seq<OwnedMountView>, r: OwnedMountView) -> Seq<OwnedMountView> {
    sorted_records(without_record(s, r.repo_id, record_key(r)).push(r))
}

/// No two receipts are for the same mount.
pub open spec fn keys_unique(s: Seq<OwnedMountView>) -> bool {
    forall|i: int, j: int|
        #![trigger s[i], s[j]]
        0 <= i < s.len() && 0 <= j < s.len() && i != j ==> !record_for(s[j], s[i].repo_id, record_key(s[i]))
}

/// No receipt comes before an earlier one.
pub open spec fn records_ordered(s: Seq<OwnedMountView>) -> bool {
    forall|i: int, j: int| 0 <= i < j < s.len() ==> !record_lt(#[trigger] s[j], #[trigger] s[i])
}

/// The receipts of mounts this tool created.
#[derive(Debug)]
pub struct MountOwnershipState {
    records: Vec<OwnedMountRecord>,
}

impl View for MountOwnershipState {
    type V = Seq<OwnedMountView>;

    closed spec fn view(&self) -> Seq<OwnedMountView> {
        record_views(self.records@)
    }
}

impl MountOwnershipState {
    /// No receipts.
    pub fn new() -> (r: MountOwnershipState)
        ensures
            r@ == Seq::<OwnedMountView>::empty(),
    {
        let r = MountOwnershipState { records: Vec::new() };
        proof {
            assert(record_views(r.records@) =~= Seq::<OwnedMountView>::empty());
        }
        r
    }

    /// The receipts, in order.
    pub fn records(&self) -> (r: &Vec<OwnedMountRecord>)
        ensures
            record_views(r@) == self@,
    {
        &self.records
    }

    /// The first receipt for mount `mount_spec` of `repo_id`.
    pub fn owned_mount(&self, repo_id: &RepoId, mount_spec: &MountSpec) -> (r: Option<&OwnedMountRecord>)
        ensures
            match find_record(self@, repo_id@, mount_spec@) {
                Some(k) => r matches Some(x) && x@ == self@[k],
                None => r is None,
            },
    {
        match self.find(repo_id, mount_spec) {
            Some(i) => Some(&self.records[i]),
            None => None,
        }
    }

    fn find(&self, repo_id: &RepoId, mount_spec: &MountSpec) -> (r: Option<usize>)
        ensures
            match (r, find_record(self@, repo_id@, mount_spec@)) {
                (Some(a), Some(b)) => a == b && a < self.records@.len(),
                (None, None) => true,
                _ => false,
            },
    {
        let ghost s = self@;
        let mut i: usize = 0;
        while i < self.records.len()
            invariant
                s == record_views(self.records@),
                i <= self.records.len(),
                find_record(s, repo_id@, mount_spec@) == find_record_from(
                    s,
                    repo_id@,
                    mount_spec@,
                    i as int,
                ),
            decreases self.records.len() - i,
        {
            let r = &self.records[i];
            proof {
                assert(s[i as int] == r@);
            }
            if compare_text(r.repo_id.as_str(), repo_id.as_str()) == 0 && compare_text(
                r.context.as_str(),
                mount_spec.context.as_str(),
            ) == 0 && compare_text(r.repo.as_str(), mount_spec.repo.as_str()) == 0 {
                return Some(i);
            }
            i = i + 1;
        }
        None
    }

    /// Whether the first receipt for mount `mount_spec` of `repo_id`
    /// describes the live mount with this id, source and file system type.
    pub fn verifies_live_mount(
        &self,
        repo_id: &RepoId,
        mount_spec: &MountSpec,
        mount_id: u64,
        source_root: &str,
        filesystem_type: &str,
    ) -> (r: bool)
        ensures
            r == verifies_live(self@, repo_id@, mount_spec@, mount_id, source_root@, filesystem_type@),
    {
        match self.owned_mount(repo_id, mount_spec) {
            Some(record) => record.matches_live_mount(mount_id, source_root, filesystem_type),
            None => false,
        }
    }

    /// Drops the first receipt for mount `mount_spec` of `repo_id`,
    /// returning it.
    pub fn remove_mount(&mut self, repo_id: &RepoId, mount_spec: &MountSpec) -> (r: Option<OwnedMountRecord>)
        ensures
            final(self)@ == without_record(old(self)@, repo_id@, mount_spec@),
            match find_record(old(self)@, repo_id@, mount_spec@) {
                Some(k) => r matches Some(x) && x@ == old(self)@[k],
                None => r is None,
            },
    {
        let ghost s = self@;
        match self.find(repo_id, mount_spec) {
            Some(i) => {
                let removed = self.records.remove(i);
                proof {
                    assert(record_views(self.records@) =~= s.remove(i as int));
                }
                Some(removed)
            },
            None => None,
        }
    }

    /// Drops every receipt of `repo_id`.
    pub fn remove_repo(&mut self, repo_id: &RepoId)
        ensures
            final(self)@ == records_without_repo(old(self)@, repo_id@),
    {
        let ghost s = self@;
        let mut kept: Vec<OwnedMountRecord> = Vec::new();
        let mut i: usize = 0;
        proof {
            assert(s.take(0) =~= Seq::<OwnedMountView>::empty());
            assert(record_views(kept@) =~= Seq::<OwnedMountView>::empty());
        }
        while i < self.records.len()
            invariant
                s == record_views(self.records@),
                i <= self.records.len(),
                record_views(kept@) == records_without_repo(s.take(i as int), repo_id@),
            decreases self.records.len() - i,
        {
            proof {
                assert(s.take(i + 1).drop_last() =~= s.take(i as int));
                assert(s.take(i + 1).last() == s[i as int]);
            }
            if compare_text(self.records[i].repo_id.as_str(), repo_id.as_str()) != 0 {
                let ghost before = record_views(kept@);
                kept.push(self.records[i].clone());
                proof {
                    assert(record_views(kept@) =~= before.push(s[i as int]));
                }
            }
            i = i + 1;
        }
        proof {
            assert(s.take(self.records.len() as int) =~= s);
        }
        self.records = kept;
    }

    /// Records a receipt: drops the first one for the same mount, adds this
    /// one and sorts the receipts by repo id, repo path and context path,
    /// receipts for the same mount keeping their order.
    pub fn upsert(&mut self, record: OwnedMountRecord)
        ensures
            final(self)@ == upserted(old(self)@, record@),
    {
        let spec = record.mount_spec();
        let repo_id = record.repo_id.clone();
        let ghost rv = record@;
        let _ = self.remove_mount(&repo_id, &spec);
        let ghost rest = self@;
        self.records.push(record);
        let ghost s = self@;
        proof {
            assert(s =~= rest.push(rv));
        }
        let mut sorted: Vec<OwnedMountRecord> = Vec::new();
        let mut i: usize = 0;
        proof {
            assert(s.take(0) =~= Seq::<OwnedMountView>::empty());
            assert(record_views(sorted@) =~= Seq::<OwnedMountView>::empty());
        }
        while i < self.records.len()
            invariant
                s == record_views(self.records@),
                i <= self.records.len(),
                record_views(sorted@) == sorted_records(s.take(i as int)),
            decreases self.records.len() - i,
        {
            proof {
                assert(s.take(i + 1).drop_last() =~= s.take(i as int));
                assert(s.take(i + 1).last() == s[i as int]);
            }
            let item = self.records[i].clone();
            let p = position_for(&sorted, &item);
            let ghost before = record_views(sorted@);
            sorted.insert(p, item);
            proof {
                assert(record_views(sorted@) =~= before.insert(p as int, s[i as int]));
            }
            i = i + 1;
        }
        proof {
            assert(s.take(self.records.len() as int) =~= s);
        }
        self.records = sorted;
    }
}

fn position_for(records: &Vec<OwnedMountRecord>, record: &OwnedMountRecord) -> (r: usize)
    ensures
        r <= records@.len(),
        r as int == insert_position(record_views(records@), record@),
        forall|j: int| 0 <= j < r ==> !record_lt(record@, #[trigger] record_views(records@)[j]),
        r < records@.len() ==> record_lt(record@, record_views(records@)[r as int]),
{
    let ghost s = record_views(records@);
    let mut i: usize = 0;
    while i < records.len()
        invariant
            s == record_views(records@),
            i <= records.len(),
            insert_position(s, record@) == insert_position_from(s, record@, i as int),
            forall|j: int| 0 <= j < i ==> !record_lt(record@, #[trigger] s[j]),
        decreases records.len() - i,
    {
        proof {
            assert(s[i as int] == records@[i as int]@);
        }
        if record_less(record, &records[i]) {
            return i;
        }
        i = i + 1;
    }
    i
}

fn record_less(a: &OwnedMountRecord, b: &OwnedMountRecord) -> (r: bool)
    ensures
        r == record_lt(a@, b@),
{
    let c = compare_text(a.repo_id.as_str(), b.repo_id.as_str());
    if c != 0 {
        return c == -1;
    }
    let c = compare_text(a.repo.as_str(), b.repo.as_str());
    if c != 0 {
        return c == -1;
    }
    compare_text(a.context.as_str(), b.context.as_str()) == -1
}

impl OwnedMountRecord {
    /// The mount this is the receipt of.
    pub fn mount_spec(&self) -> (r: MountSpec)
        ensures
            r@ == (MountSpecView { context: self.context@, repo: self.repo@ }),
    {
        MountSpec { context: self.context.clone(), repo: self.repo.clone() }
    }

    /// Whether this receipt describes the live mount with this id, source
    /// and file system type.
    pub fn matches_live_mount(&self, mount_id: u64, source_root: &str, filesystem_type: &str) -> (r: bool)
        ensures
            r == record_matches_live(self@, mount_id, source_root@, filesystem_type@),
    {
        self.mount_id == mount_id && paths_equal(self.source_root.as_str(), source_root)
            && compare_text(self.filesystem_type.as_str(), filesystem_type) == 0
    }
}

/// The key of a receipt as a mount specification.
pub open spec fn record_key(r: OwnedMountView) -> MountSpecView {
    MountSpecView { context: r.context, repo: r.repo }
}

proof fn lemma_find_record_at(s: Seq<OwnedMountView>, id: Seq<char>, spec: MountSpecView, k: int)
    requires
        0 <= k < s.len(),
        record_for(s[k], id, spec),
        forall|j: int| 0 <= j < k ==> !record_for(#[trigger] s[j], id, spec),
    ensures
        find_record(s, id, spec) == Some(k),
{
    lemma_find_record_from(s, id, spec, 0);
    match find_record(s, id, spec) {
        Some(k2) => {
            if k2 < k {
                assert(!record_for(s[k2], id, spec));
            }
            if k2 > k {
                assert(!record_for(s[k], id, spec));
            }
        },
        None => {
            assert(!record_for(s[k], id, spec));
        },
    }
}

/// Where `r` goes among `s`: after every receipt from `i` on that it does
/// not come before, and before the first one it comes before.
proof fn lemma_insert_position_from(s: Seq<OwnedMountView>, r: OwnedMountView, i: int)
    requires
        0 <= i <= s.len(),
    ensures
        i <= insert_position_from(s, r, i) <= s.len(),
        forall|k: int| i <= k < insert_position_from(s, r, i) ==> !record_lt(r, #[trigger] s[k]),
        insert_position_from(s, r, i) < s.len() ==> record_lt(r, s[insert_position_from(s, r, i)]),
    decreases s.len() - i,
{
    if i < s.len() && !record_lt(r, s[i]) {
        lemma_insert_position_from(s, r, i + 1);
    }
}

/// Sorting keeps the receipts: the same number, each one of the input and
/// every input one present.
proof fn lemma_sorted_records_members(s: Seq<OwnedMountView>)
    ensures
        sorted_records(s).len() == s.len(),
        forall|k: int| 0 <= k < s.len() ==> s.contains(#[trigger] sorted_records(s)[k]),
        forall|k: int| 0 <= k < s.len() ==> sorted_records(s).contains(#[trigger] s[k]),
    decreases s.len(),
{
    if s.len() > 0 {
        let d = s.drop_last();
        let x = s.last();
        let q = sorted_records(d);
        lemma_sorted_records_members(d);
        let p = insert_position(q, x);
        lemma_insert_position_from(q, x, 0);
        q.insert_ensures(p, x);
        let n = sorted_records(s);
        assert(n == q.insert(p, x));
        assert forall|k: int| 0 <= k < s.len() implies s.contains(#[trigger] n[k]) by {
            if k != p {
                let k2 = if k < p { k } else { k - 1 };
                assert(n[k] == q[k2]);
                assert(d.contains(q[k2]));
                let j = choose|j: int| 0 <= j < d.len() && d[j] == q[k2];
                assert(s[j] == d[j]);
            } else {
                assert(s[s.len() - 1] == x);
            }
        }
        assert forall|k: int| 0 <= k < s.len() implies n.contains(#[trigger] s[k]) by {
            if k < s.len() - 1 {
                assert(s[k] == d[k]);
                assert(q.contains(d[k]));
                let j = choose|j: int| 0 <= j < q.len() && q[j] == d[k];
                if j < p {
                    assert(n[j] == q[j]);
                } else {
                    assert(n[j + 1] == q[j]);
                }
            } else {
                assert(n[p] == x);
            }
        }
    }
}

/// The order of receipts is irreflexive.
proof fn lemma_record_lt_irreflexive(a: OwnedMountView)
    ensures
        !record_lt(a, a),
{
    lemma_record_lt_same_key(a, a);
}

/// Sorted receipts never have one come before an earlier one.
proof fn lemma_sorted_records_ordered(s: Seq<OwnedMountView>)
    ensures
        records_ordered(sorted_records(s)),
    decreases s.len(),
{
    if s.len() > 0 {
        let d = s.drop_last();
        let x = s.last();
        let q = sorted_records(d);
        lemma_sorted_records_ordered(d);
        let p = insert_position(q, x);
        lemma_insert_position_from(q, x, 0);
        q.insert_ensures(p, x);
        let n = sorted_records(s);
        assert(n == q.insert(p, x));
        assert forall|i: int, j: int| 0 <= i < j < n.len() implies !record_lt(#[trigger] n[j], #[trigger] n[i]) by {
            if j < p {
                assert(n[i] == q[i] && n[j] == q[j]);
            } else if j == p {
                assert(n[i] == q[i]);
            } else if i > p {
                assert(n[i] == q[i - 1] && n[j] == q[j - 1]);
            } else if i == p {
                assert(n[j] == q[j - 1]);
                assert(record_lt(x, q[p]));
                if record_lt(q[j - 1], x) {
                    lemma_record_lt_transitive(q[j - 1], x, q[p]);
                    if j - 1 == p {
                        lemma_record_lt_irreflexive(q[p]);
                    }
                }
            } else {
                assert(n[i] == q[i] && n[j] == q[j - 1]);
            }
        }
    }
}

/// Sorting receipts no two of which are for the same mount keeps them so.
proof fn lemma_sorted_records_unique(s: Seq<OwnedMountView>)
    requires
        keys_unique(s),
    ensures
        keys_unique(sorted_records(s)),
    decreases s.len(),
{
    if s.len() > 0 {
        let d = s.drop_last();
        let x = s.last();
        let q = sorted_records(d);
        assert forall|i: int, j: int| 0 <= i < d.len() && 0 <= j < d.len() && i != j implies !record_for(
            #[trigger] d[j],
            d[i].repo_id,
            record_key(#[trigger] d[i]),
        ) by {
            assert(d[i] == s[i] && d[j] == s[j]);
        }
        lemma_sorted_records_unique(d);
        lemma_sorted_records_members(d);
        let p = insert_position(q, x);
        lemma_insert_position_from(q, x, 0);
        q.insert_ensures(p, x);
        let n = sorted_records(s);
        assert(n == q.insert(p, x));
        assert forall|k: int| 0 <= k < q.len() implies !record_for(#[trigger] q[k], x.repo_id, record_key(x)) by {
            assert(d.contains(q[k]));
            let j = choose|j: int| 0 <= j < d.len() && d[j] == q[k];
            assert(s[j] == q[k] && s[s.len() - 1] == x);
        }
        assert forall|i: int, j: int| 0 <= i < n.len() && 0 <= j < n.len() && i != j implies !record_for(
            #[trigger] n[j],
            n[i].repo_id,
            record_key(#[trigger] n[i]),
        ) by {
            let i2 = if i < p { i } else { i - 1 };
            let j2 = if j < p { j } else { j - 1 };
            if i != p && j != p {
                assert(n[i] == q[i2] && n[j] == q[j2]);
            } else if i == p {
                assert(n[j] == q[j2]);
            } else {
                assert(n[i] == q[i2]);
            }
        }
    }
}

/// Under receipts no two of which are for the same mount, dropping the
/// receipt of a mount leaves none for it, keeps the others and adds nothing.
proof fn lemma_without_record_unique(s: Seq<OwnedMountView>, id: Seq<char>, spec: MountSpecView)
    requires
        keys_unique(s),
    ensures
        keys_unique(without_record(s, id, spec)),
        forall|j: int| 0 <= j < without_record(s, id, spec).len() ==> !record_for(#[trigger] without_record(s, id, spec)[j], id, spec),
        forall|j: int| 0 <= j < without_record(s, id, spec).len() ==> s.contains(#[trigger] without_record(s, id, spec)[j]),
        forall|y: OwnedMountView| s.contains(y) && !record_for(y, id, spec) ==> #[trigger] without_record(s, id, spec).contains(y),
{
    let t = without_record(s, id, spec);
    lemma_find_record_from(s, id, spec, 0);
    match find_record(s, id, spec) {
        Some(k) => {
            s.remove_ensures(k);
            assert(t == s.remove(k));
            assert forall|j: int| 0 <= j < t.len() implies !record_for(#[trigger] t[j], id, spec) && s.contains(t[j]) by {
                let j2 = if j < k { j } else { j + 1 };
                assert(t[j] == s[j2]);
                assert(j2 != k);
            }
            assert forall|i: int, j: int| 0 <= i < t.len() && 0 <= j < t.len() && i != j implies !record_for(
                #[trigger] t[j],
                t[i].repo_id,
                record_key(#[trigger] t[i]),
            ) by {
                let i2 = if i < k { i } else { i + 1 };
                let j2 = if j < k { j } else { j + 1 };
                assert(t[i] == s[i2] && t[j] == s[j2]);
            }
            assert forall|y: OwnedMountView| s.contains(y) && !record_for(y, id, spec) implies #[trigger] t.contains(y) by {
                let m = choose|m: int| 0 <= m < s.len() && s[m] == y;
                assert(m != k);
                if m < k {
                    assert(t[m] == y);
                } else {
                    assert(t[m - 1] == y);
                }
            }
        },
        None => {
            assert forall|j: int| 0 <= j < t.len() implies !record_for(#[trigger] t[j], id, spec) && s.contains(t[j]) by {
                assert(t[j] == s[j]);
            }
        },
    }
}

/// Recording a receipt into receipts no two of which are for the same
/// mount leaves exactly one receipt for its mount, the new one; keeps every
/// receipt of another mount and adds nothing else; and leaves the receipts
/// strictly ordered by repo id, repo path and context path, so that again
/// no two are for the same mount.
pub proof fn law_upsert_keeps_one_receipt_per_mount(s: Seq<OwnedMountView>, r: OwnedMountView)
    requires
        keys_unique(s),
    ensures
        upserted(s, r).contains(r),
        forall|k: int|
            0 <= k < upserted(s, r).len() && record_for(#[trigger] upserted(s, r)[k], r.repo_id, record_key(r))
                ==> upserted(s, r)[k] == r,
        forall|y: OwnedMountView| s.contains(y) && !record_for(y, r.repo_id, record_key(r)) ==> #[trigger] upserted(s, r).contains(y),
        forall|x: OwnedMountView| #[trigger] upserted(s, r).contains(x) ==> x == r || s.contains(x),
        records_sorted(upserted(s, r)),
        keys_unique(upserted(s, r)),
{
    let key = record_key(r);
    let t = without_record(s, r.repo_id, key);
    lemma_without_record_unique(s, r.repo_id, key);
    let tp = t.push(r);
    let q = sorted_records(t);
    let n = upserted(s, r);
    assert(tp.drop_last() =~= t);
    assert(n == insert_stable(q, r));
    lemma_sorted_records_members(t);
    lemma_sorted_records_members(tp);
    lemma_sorted_records_ordered(tp);
    assert forall|i: int, j: int| 0 <= i < tp.len() && 0 <= j < tp.len() && i != j implies !record_for(
        #[trigger] tp[j],
        tp[i].repo_id,
        record_key(#[trigger] tp[i]),
    ) by {
        if i < t.len() {
            assert(tp[i] == t[i]);
        }
        if j < t.len() {
            assert(tp[j] == t[j]);
        }
    }
    lemma_sorted_records_unique(tp);
    assert(tp[tp.len() - 1] == r);
    assert(n.contains(r));
    assert forall|x: OwnedMountView| #[trigger] n.contains(x) implies x == r || s.contains(x) by {
        let m = choose|m: int| 0 <= m < n.len() && n[m] == x;
        assert(tp.contains(n[m]));
        let j = choose|j: int| 0 <= j < tp.len() && tp[j] == n[m];
        if j < t.len() {
            assert(tp[j] == t[j]);
        }
    }
    assert forall|k: int| 0 <= k < n.len() && record_for(#[trigger] n[k], r.repo_id, key) implies n[k] == r by {
        assert(n.contains(n[k]));
        if n[k] != r {
            assert(s.contains(n[k]));
            let j = choose|j: int| 0 <= j < tp.len() && tp[j] == n[k];
            if j < t.len() {
                assert(tp[j] == t[j]);
            }
        }
    }
    assert forall|y: OwnedMountView| s.contains(y) && !record_for(y, r.repo_id, key) implies #[trigger] n.contains(y) by {
        assert(t.contains(y));
        let j = choose|j: int| 0 <= j < t.len() && t[j] == y;
        assert(tp[j] == y);
    }
    assert forall|i: int, j: int| 0 <= i < j < n.len() implies record_lt(#[trigger] n[i], #[trigger] n[j]) by {
        assert(!record_lt(n[j], n[i]));
        lemma_record_lt_total(n[i], n[j]);
    }
}

/// A receipt just recorded, into receipts no two of which are for the same
/// mount, is the one found for its mount, and it verifies the live mount it
/// describes.
pub proof fn law_upsert_then_verifies(s: Seq<OwnedMountView>, r: OwnedMountView)
    requires
        keys_unique(s),
    ensures
        verifies_live(upserted(s, r), r.repo_id, record_key(r), r.mount_id, r.source_root, r.filesystem_type),
{
    law_upsert_keeps_one_receipt_per_mount(s, r);
    let n = upserted(s, r);
    let key = record_key(r);
    lemma_find_record_from(n, r.repo_id, key, 0);
    let m = choose|m: int| 0 <= m < n.len() && n[m] == r;
    assert(record_for(n[m], r.repo_id, key));
}

/// After dropping the receipts of a repo, none of its mounts is verified.
pub proof fn law_remove_repo_forgets(
    s: Seq<OwnedMountView>,
    id: Seq<char>,
    spec: MountSpecView,
    mount_id: u64,
    source_root: Seq<char>,
    filesystem_type: Seq<char>,
)
    ensures
        !verifies_live(records_without_repo(s, id), id, spec, mount_id, source_root, filesystem_type),
{
    lemma_records_without_repo(s, id);
    let n = records_without_repo(s, id);
    lemma_find_record_from(n, id, spec, 0);
}

/// No receipt of the dropped repo remains.
pub proof fn lemma_records_without_repo(s: Seq<OwnedMountView>, id: Seq<char>)
    ensures
        forall|j: int| 0 <= j < records_without_repo(s, id).len() ==> (#[trigger] records_without_repo(s, id)[j]).repo_id != id,
    decreases s.len(),
{
    if s.len() > 0 {
        lemma_records_without_repo(s.drop_last(), id);
        let prev = records_without_repo(s.drop_last(), id);
        assert forall|j: int| 0 <= j < records_without_repo(s, id).len() implies (#[trigger] records_without_repo(s, id)[j]).repo_id != id by {
            if j < prev.len() {
                assert(records_without_repo(s, id)[j] == prev[j]);
            }
        }
    }
}

impl MountOwnershipState {
    /// The state holding these receipts as they are, in this order.
    pub fn from_records(records: Vec<OwnedMountRecord>) -> (r: MountOwnershipState)
        ensures
            r@ == record_views(records@),
    {
        MountOwnershipState { records }
    }
}

/// The receipts as read from the receipt file, or the unsupported version.
pub fn state_from_persisted(version: u32, records: Vec<OwnedMountRecord>, path: &str) -> (r: Result<MountOwnershipState, Error>)
    ensures
        version == MOUNT_OWNERSHIP_STATE_VERSION ==> (r matches Ok(st) && st@ == record_views(records@)),
        version != MOUNT_OWNERSHIP_STATE_VERSION ==> (r matches Err(Error::IoPath { path: p, message })
            && p@ == path@ && message@ == "unsupported mount ownership state version "@ + crate::shared::text::decimal(
            version as nat,
        ) + "; expected 1"@),
{
    if version != MOUNT_OWNERSHIP_STATE_VERSION {
        let mut message = String::new();
        append_str(&mut message, "unsupported mount ownership state version ");
        push_decimal(&mut message, version as u64);
        append_str(&mut message, "; expected 1");
        proof {
            assert(message@ =~= "unsupported mount ownership state version "@ + crate::shared::text::decimal(
                version as nat,
            ) + "; expected 1"@);
        }
        return Err(Error::io_path(path.to_owned(), message));
    }
    Ok(MountOwnershipState::from_records(records))
}

/// The state to use when the receipt file is only advisory: what was read,
/// or no receipts if reading failed.
pub fn load_advisory(loaded: Result<MountOwnershipState, Error>) -> (r: MountOwnershipState)
    ensures
        match loaded {
            Ok(st) => r@ == st@,
            Err(_) => r@ == Seq::<OwnedMountView>::empty(),
        },
{
    match loaded {
        Ok(state) => state,
        Err(_) => MountOwnershipState::new(),
    }
}

/// The state to write after recording a receipt on top of what was read.
pub fn record_best_effort(loaded: Result<MountOwnershipState, Error>, record: OwnedMountRecord) -> (r: MountOwnershipState)
    ensures
        match loaded {
            Ok(st) => r@ == upserted(st@, record@),
            Err(_) => r@ == upserted(Seq::empty(), record@),
        },
{
    let mut state = load_advisory(loaded);
    state.upsert(record);
    state
}

/// The state to write after dropping the receipt of a mount; nothing is
/// written when the receipts could not be read.
pub fn remove_mount_best_effort(loaded: Result<MountOwnershipState, Error>, repo_id: &RepoId, mount_spec: &MountSpec) -> (r: Option<MountOwnershipState>)
    ensures
        match loaded {
            Ok(st) => r matches Some(n) && n@ == without_record(st@, repo_id@, mount_spec@),
            Err(_) => r is None,
        },
{
    match loaded {
        Ok(mut state) => {
            let _ = state.remove_mount(repo_id, mount_spec);
            Some(state)
        },
        Err(_) => None,
    }
}

/// The state to write after dropping every receipt of a repo; nothing is
/// written when the receipts could not be read.
pub fn remove_repo_best_effort(loaded: Result<MountOwnershipState, Error>, repo_id: &RepoId) -> (r: Option<MountOwnershipState>)
    ensures
        match loaded {
            Ok(st) => r matches Some(n) && n@ == records_without_repo(st@, repo_id@),
            Err(_) => r is None,
        },
{
    match loaded {
        Ok(mut state) => {
            state.remove_repo(repo_id);
            Some(state)
        },
        Err(_) => None,
    }
}

} // verus!
