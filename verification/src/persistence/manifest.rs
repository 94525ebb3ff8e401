//! The workspace manifest (`agentbox.toml`): registered repos, the template
//! applied to each, and the mounts registered for each.
//!
//! The manifest is a value: workflows take the manifest that was read,
//! compute the next one, and the caller writes it back only on success.
use vstd::prelude::*;

use crate::registry::store::id_views;
use crate::shared::error::{Error, ValidationError};
use crate::shared::keyed::{
    contains_key, find_key, insert_sorted, keys_of, lemma_map_of_dom, lemma_map_of_entry, map_of,
    remove_key, sorted_keys,
};
use crate::shared::order::{lemma_text_lt_irreflexive, lemma_text_lt_transitive, text_lt};
use crate::shared::mount_spec::{
    conflict_free, mount_spec_error, validate_mount_specs, MountSpec, MountSpecOwner,
    MountSpecView,
};
use crate::shared::types::{CloneSource, RelativePath, RepoId, TemplateId};

verus! {

/// Workspace manifest format version.
pub const MANIFEST_VERSION: u32 = 1;

/// Persisted registration record for a repo.
#[derive(Debug)]
pub struct PersistedRepoRegistration {
    pub source: CloneSource,
}

impl View for PersistedRepoRegistration {
    type V = Seq<char>;

    open spec fn view(&self) -> Seq<char> {
        self.source@
    }
}

impl Clone for PersistedRepoRegistration {
    fn clone(&self) -> (r: Self)
        ensures
            r@ == self@,
    {
        PersistedRepoRegistration { source: self.source.clone() }
    }
}

/// Persisted template binding for a registered repo.
#[derive(Debug)]
pub struct PersistedTemplateBinding {
    pub template: TemplateId,
}

impl View for PersistedTemplateBinding {
    type V = Seq<char>;

    open spec fn view(&self) -> Seq<char> {
        self.template@
    }
}

/// Persisted mount row for a registered repo.
#[derive(Debug)]
pub struct PersistedRepoMount {
    pub repo_id: RepoId,
    pub context: RelativePath,
    pub repo: RelativePath,
}

pub struct RepoMountView {
    pub repo_id: Seq<char>,
    pub context: Seq<char>,
    pub repo: Seq<char>,
}

impl View for PersistedRepoMount {
    type V = RepoMountView;

    open spec fn view(&self) -> RepoMountView {
        RepoMountView { repo_id: self.repo_id@, context: self.context@, repo: self.repo@ }
    }
}

pub open spec fn mount_row_views(s: Seq<PersistedRepoMount>) -> Seq<RepoMountView> {
    s.map_values(|m: PersistedRepoMount| m@)
}

/// What a manifest holds: its version, the registered repos (id to clone
/// source) and their ids in ascending order, the applied templates (repo id
/// to template id), and the mount rows in order.
pub struct ManifestView {
    pub version: u32,
    pub repo_ids: Seq<Seq<char>>,
    pub repos: Map<Seq<char>, Seq<char>>,
    pub templates: Map<Seq<char>, Seq<char>>,
    pub mounts: Seq<RepoMountView>,
}

/// `ids` lists the keys of `m` in strictly ascending order.
pub open spec fn lists_keys(ids: Seq<Seq<char>>, m: Map<Seq<char>, Seq<char>>) -> bool {
    &&& sorted_keys(ids)
    &&& forall|k: Seq<char>| #[trigger] m.contains_key(k) <==> ids.contains(k)
}

pub open spec fn view_wf(v: ManifestView) -> bool {
    lists_keys(v.repo_ids, v.repos)
}

// ---------------------------------------------------------------------------
// Operations on the abstract manifest
// ---------------------------------------------------------------------------

/// The mounts registered for repo `id`, in manifest order.
pub open spec fn mounts_of(rows: Seq<RepoMountView>, id: Seq<char>) -> Seq<MountSpecView>
    decreases rows.len(),
{
    if rows.len() == 0 {
        Seq::empty()
    } else {
        let prev = mounts_of(rows.drop_last(), id);
        if rows.last().repo_id == id {
            prev.push(MountSpecView { context: rows.last().context, repo: rows.last().repo })
        } else {
            prev
        }
    }
}

/// The rows of every repo but `id`, in order.
pub open spec fn rows_without(rows: Seq<RepoMountView>, id: Seq<char>) -> Seq<RepoMountView>
    decreases rows.len(),
{
    if rows.len() == 0 {
        Seq::empty()
    } else {
        let prev = rows_without(rows.drop_last(), id);
        if rows.last().repo_id == id {
            prev
        } else {
            prev.push(rows.last())
        }
    }
}

/// Mount specifications as rows of repo `id`.
pub open spec fn rows_for(id: Seq<char>, ms: Seq<MountSpecView>) -> Seq<RepoMountView> {
    ms.map_values(|m: MountSpecView| RepoMountView { repo_id: id, context: m.context, repo: m.repo })
}

/// The manifest with the mounts of `id` replaced by `ms` (appended after the
/// rows of the other repos).
pub open spec fn with_repo_mounts(m: ManifestView, id: Seq<char>, ms: Seq<MountSpecView>) -> ManifestView {
    ManifestView { mounts: rows_without(m.mounts, id) + rows_for(id, ms), ..m }
}

/// The manifest with its mount rows replaced.
pub open spec fn with_rows(m: ManifestView, rows: Seq<RepoMountView>) -> ManifestView {
    ManifestView { mounts: rows, ..m }
}

/// The manifest with its template bindings replaced.
pub open spec fn with_templates(m: ManifestView, t: Map<Seq<char>, Seq<char>>) -> ManifestView {
    ManifestView { templates: t, ..m }
}

proof fn lemma_take_to_set(s: Seq<Seq<char>>, n: int)
    requires
        0 <= n < s.len(),
    ensures
        s.take(n + 1).to_set() == s.take(n).to_set().insert(s[n]),
{
    assert forall|x: Seq<char>| #[trigger] s.take(n + 1).to_set().contains(x) <==> s.take(n).to_set().insert(
        s[n],
    ).contains(x) by {
        let a = s.take(n + 1);
        let b = s.take(n);
        if a.contains(x) {
            let i = choose|i: int| 0 <= i < a.len() && #[trigger] a[i] == x;
            if i < n {
                assert(b[i] == x);
            }
        }
        if b.contains(x) {
            let i = choose|i: int| 0 <= i < b.len() && #[trigger] b[i] == x;
            assert(a[i] == x);
        }
        if x == s[n] {
            assert(a[n] == x);
        }
    }
    assert(s.take(n + 1).to_set() =~= s.take(n).to_set().insert(s[n]));
}

/// The repos bound to template `t`.
pub open spec fn bound_to(templates: Map<Seq<char>, Seq<char>>, t: Seq<char>) -> Set<Seq<char>> {
    Set::new(|k: Seq<char>| templates.contains_key(k) && templates[k] == t)
}

/// Binding again the repos whose bindings to a template were cleared gives
/// back the bindings as they were.
pub proof fn law_restore_undoes_clear(templates: Map<Seq<char>, Seq<char>>, t: Seq<char>, ids: Seq<Seq<char>>)
    requires
        ids.to_set() == bound_to(templates, t),
    ensures
        templates.remove_keys(bound_to(templates, t)).union_prefer_right(
            Map::new(|k: Seq<char>| ids.contains(k), |k: Seq<char>| t),
        ) == templates,
{
    let restored = templates.remove_keys(bound_to(templates, t)).union_prefer_right(
        Map::new(|k: Seq<char>| ids.contains(k), |k: Seq<char>| t),
    );
    assert forall|k: Seq<char>| #[trigger] ids.contains(k) <==> bound_to(templates, t).contains(k) by {
        assert(ids.to_set().contains(k) == ids.contains(k));
    }
    assert(restored =~= templates);
}

/// The manifest with `id` registered from `source`.
pub open spec fn with_repo(m: ManifestView, id: Seq<char>, source: Seq<char>) -> ManifestView {
    ManifestView {
        repos: m.repos.insert(id, source),
        repo_ids: sorted_listing(m.repos.insert(id, source)),
        ..m
    }
}

/// The manifest with `id` no longer registered.
pub open spec fn without_repo(m: ManifestView, id: Seq<char>) -> ManifestView {
    ManifestView { repos: m.repos.remove(id), repo_ids: sorted_listing(m.repos.remove(id)), ..m }
}

/// The keys of a map in strictly ascending order.
pub open spec fn sorted_listing(m: Map<Seq<char>, Seq<char>>) -> Seq<Seq<char>> {
    choose|r: Seq<Seq<char>>| lists_keys(r, m)
}

/// The source `id` is registered from, if it is.
pub open spec fn repo_lookup(m: ManifestView, id: Seq<char>) -> Option<Seq<char>> {
    if m.repos.contains_key(id) {
        Some(m.repos[id])
    } else {
        None
    }
}

/// Every template binding and every mount row names a registered repo.
pub open spec fn references_registered(m: ManifestView) -> bool {
    &&& forall|k: Seq<char>| #[trigger] m.templates.contains_key(k) ==> m.repos.contains_key(k)
    &&& forall|i: int| 0 <= i < m.mounts.len() ==> m.repos.contains_key(#[trigger] m.mounts[i].repo_id)
}

/// The manifest is valid: right version, no dangling reference, and the
/// mounts of each repo free of conflicts.
pub open spec fn manifest_valid(m: ManifestView) -> bool {
    &&& m.version == MANIFEST_VERSION
    &&& references_registered(m)
    &&& forall|k: Seq<char>| #[trigger] m.repos.contains_key(k) ==> conflict_free(mounts_of(m.mounts, k))
}

// ---------------------------------------------------------------------------
// Lemmas on rows
// ---------------------------------------------------------------------------

/// The mounts of a repo in two row lists are those of each list, in order.
pub proof fn lemma_mounts_of_append(a: Seq<RepoMountView>, b: Seq<RepoMountView>, id: Seq<char>)
    ensures
        mounts_of(a + b, id) == mounts_of(a, id) + mounts_of(b, id),
    decreases b.len(),
{
    if b.len() == 0 {
        assert(a + b =~= a);
        assert(mounts_of(b, id) =~= Seq::<MountSpecView>::empty());
        assert(mounts_of(a, id) + mounts_of(b, id) =~= mounts_of(a, id));
    } else {
        lemma_mounts_of_append(a, b.drop_last(), id);
        assert((a + b).drop_last() =~= a + b.drop_last());
        assert((a + b).last() == b.last());
        if b.last().repo_id == id {
            assert(mounts_of(a + b, id) =~= mounts_of(a, id) + mounts_of(b, id));
        } else {
            assert(mounts_of(a + b, id) =~= mounts_of(a, id) + mounts_of(b, id));
        }
    }
}

/// Dropping the rows of a repo leaves it no mounts and keeps the others'.
pub proof fn lemma_mounts_of_rows_without(rows: Seq<RepoMountView>, id: Seq<char>, other: Seq<char>)
    ensures
        mounts_of(rows_without(rows, id), other) == if other == id {
            Seq::<MountSpecView>::empty()
        } else {
            mounts_of(rows, other)
        },
    decreases rows.len(),
{
    if rows.len() > 0 {
        lemma_mounts_of_rows_without(rows.drop_last(), id, other);
        if rows.last().repo_id != id {
            let prev = rows_without(rows.drop_last(), id);
            assert(prev.push(rows.last()).drop_last() =~= prev);
        }
    }
}

/// The rows made for a repo give back its mounts, and no other repo's.
pub proof fn lemma_mounts_of_rows_for(id: Seq<char>, ms: Seq<MountSpecView>, other: Seq<char>)
    ensures
        mounts_of(rows_for(id, ms), other) == if other == id {
            ms
        } else {
            Seq::<MountSpecView>::empty()
        },
    decreases ms.len(),
{
    if ms.len() > 0 {
        lemma_mounts_of_rows_for(id, ms.drop_last(), other);
        assert(rows_for(id, ms).drop_last() =~= rows_for(id, ms.drop_last()));
        if other == id {
            assert(ms.drop_last().push(ms.last()) =~= ms);
        }
    } else {
        assert(rows_for(id, ms) =~= Seq::<RepoMountView>::empty());
    }
}

/// The rows kept after dropping a repo's all belong to other repos.
pub proof fn lemma_rows_without_ids(rows: Seq<RepoMountView>, id: Seq<char>)
    ensures
        forall|i: int|
            0 <= i < rows_without(rows, id).len() ==> {
                &&& (#[trigger] rows_without(rows, id)[i]).repo_id != id
                &&& exists|j: int| 0 <= j < rows.len() && rows[j] == rows_without(rows, id)[i]
            },
    decreases rows.len(),
{
    if rows.len() > 0 {
        lemma_rows_without_ids(rows.drop_last(), id);
        let prev = rows_without(rows.drop_last(), id);
        assert forall|i: int| 0 <= i < rows_without(rows, id).len() implies {
            &&& (#[trigger] rows_without(rows, id)[i]).repo_id != id
            &&& exists|j: int| 0 <= j < rows.len() && rows[j] == rows_without(rows, id)[i]
        } by {
            if i < prev.len() {
                assert(rows_without(rows, id)[i] == prev[i]);
                let j = choose|j: int| 0 <= j < rows.drop_last().len() && rows.drop_last()[j] == prev[i];
                assert(rows[j] == prev[i]);
            } else {
                assert(rows[rows.len() - 1] == rows_without(rows, id)[i]);
            }
        }
    }
}

// ---------------------------------------------------------------------------
// Laws
// ---------------------------------------------------------------------------

/// Reading the mounts of a repo gives back what was last written for it,
/// and the mounts of every other repo are untouched by the write.
pub proof fn law_replace_then_read_mounts(
    m: ManifestView,
    id: Seq<char>,
    ms: Seq<MountSpecView>,
    other: Seq<char>,
)
    ensures
        mounts_of(with_repo_mounts(m, id, ms).mounts, id) == ms,
        other != id ==> mounts_of(with_repo_mounts(m, id, ms).mounts, other) == mounts_of(
            m.mounts,
            other,
        ),
{
    lemma_mounts_of_append(rows_without(m.mounts, id), rows_for(id, ms), id);
    lemma_mounts_of_rows_without(m.mounts, id, id);
    lemma_mounts_of_rows_for(id, ms, id);
    assert(Seq::<MountSpecView>::empty() + ms =~= ms);
    lemma_mounts_of_append(rows_without(m.mounts, id), rows_for(id, ms), other);
    lemma_mounts_of_rows_without(m.mounts, id, other);
    lemma_mounts_of_rows_for(id, ms, other);
    if other != id {
        assert(mounts_of(m.mounts, other) + Seq::<MountSpecView>::empty() =~= mounts_of(
            m.mounts,
            other,
        ));
    }
}

/// Replacing the mounts of a registered repo with conflict-free mounts
/// keeps a valid manifest valid.
pub proof fn law_replace_mounts_keeps_valid(m: ManifestView, id: Seq<char>, ms: Seq<MountSpecView>)
    requires
        manifest_valid(m),
        m.repos.contains_key(id),
        conflict_free(ms),
    ensures
        manifest_valid(with_repo_mounts(m, id, ms)),
{
    let n = with_repo_mounts(m, id, ms);
    lemma_rows_without_ids(m.mounts, id);
    assert forall|i: int| 0 <= i < n.mounts.len() implies n.repos.contains_key(
        #[trigger] n.mounts[i].repo_id,
    ) by {
        let w = rows_without(m.mounts, id);
        if i < w.len() {
            assert(n.mounts[i] == w[i]);
            let j = choose|j: int| 0 <= j < m.mounts.len() && m.mounts[j] == w[i];
            assert(m.repos.contains_key(m.mounts[j].repo_id));
        } else {
            assert(n.mounts[i] == rows_for(id, ms)[i - w.len()]);
        }
    }
    assert forall|k: Seq<char>| #[trigger] n.repos.contains_key(k) implies conflict_free(
        mounts_of(n.mounts, k),
    ) by {
        law_replace_then_read_mounts(m, id, ms, k);
    }
}

/// Registering a repo and then looking it up gives back its source;
/// the other registrations are unchanged.
pub proof fn law_register_then_lookup(m: ManifestView, id: Seq<char>, source: Seq<char>, other: Seq<char>)
    ensures
        repo_lookup(with_repo(m, id, source), id) == Some(source),
        other != id ==> repo_lookup(with_repo(m, id, source), other) == repo_lookup(m, other),
{
}

/// Registering a repo that was not registered, then removing it, leaves the
/// registrations as they were.
pub proof fn law_register_then_remove(m: ManifestView, id: Seq<char>, source: Seq<char>)
    requires
        !m.repos.contains_key(id),
    ensures
        with_repo(m, id, source).repos.remove(id) == m.repos,
{
    assert(m.repos.insert(id, source).remove(id) =~= m.repos);
}

// ---------------------------------------------------------------------------
// The manifest value
// ---------------------------------------------------------------------------

/// Top-level workspace manifest (`agentbox.toml`).
#[derive(Debug)]
pub struct PersistedManifest {
    version: u32,
    repos: Vec<(RepoId, PersistedRepoRegistration)>,
    repo_templates: Vec<(RepoId, PersistedTemplateBinding)>,
    repo_mounts: Vec<PersistedRepoMount>,
}

impl View for PersistedManifest {
    type V = ManifestView;

    closed spec fn view(&self) -> ManifestView {
        ManifestView {
            version: self.version,
            repo_ids: keys_of(self.repos@),
            repos: map_of(self.repos@),
            templates: map_of(self.repo_templates@),
            mounts: mount_row_views(self.repo_mounts@),
        }
    }
}

proof fn lemma_lists_keys<V: View<V = Seq<char>>>(s: Seq<(RepoId, V)>)
    requires
        sorted_keys(keys_of(s)),
    ensures
        lists_keys(keys_of(s), map_of(s)),
{
    assert forall|k: Seq<char>| #[trigger] map_of(s).contains_key(k) <==> keys_of(s).contains(k) by {
        lemma_map_of_dom(s, k);
        if keys_of(s).contains(k) {
            let i = choose|i: int| 0 <= i < keys_of(s).len() && keys_of(s)[i] == k;
            assert(s[i].0@ == k);
        }
    }
}

proof fn lemma_sorted_listing(r: Seq<Seq<char>>, m: Map<Seq<char>, Seq<char>>)
    requires
        lists_keys(r, m),
    ensures
        sorted_listing(m) == r,
{
    let c = sorted_listing(m);
    assert(lists_keys(c, m));
    assert forall|k: Seq<char>| #[trigger] c.contains(k) <==> r.contains(k) by {
        assert(m.contains_key(k) <==> c.contains(k));
        assert(m.contains_key(k) <==> r.contains(k));
    }
    lemma_sorted_same_elements(c, r);
}

/// Two strictly ascending lists with the same elements are equal.
pub proof fn lemma_sorted_same_elements(a: Seq<Seq<char>>, b: Seq<Seq<char>>)
    requires
        sorted_keys(a),
        sorted_keys(b),
        forall|k: Seq<char>| #[trigger] a.contains(k) <==> b.contains(k),
    ensures
        a == b,
    decreases a.len() + b.len(),
{
    if a.len() == 0 || b.len() == 0 {
        if b.len() > 0 {
            assert(b.contains(b[0]));
            assert(!a.contains(b[0]));
        }
        if a.len() > 0 {
            assert(a.contains(a[0]));
        }
        assert(a =~= b);
    } else {
        let x = a.last();
        let y = b.last();
        assert(a.contains(x));
        assert(b.contains(y));
        assert(a.contains(y));
        assert(b.contains(x));
        let i = choose|i: int| 0 <= i < b.len() && b[i] == x;
        let j = choose|j: int| 0 <= j < a.len() && a[j] == y;
        if x != y {
            assert(i != b.len() - 1);
            assert(j != a.len() - 1);
            assert(text_lt(b[i], b[b.len() - 1]));
            assert(text_lt(a[j], a[a.len() - 1]));
            lemma_text_lt_transitive(x, y, x);
            lemma_text_lt_irreflexive(x);
        }
        let a2 = a.drop_last();
        let b2 = b.drop_last();
        assert forall|k: Seq<char>| #[trigger] a2.contains(k) <==> b2.contains(k) by {
            if a2.contains(k) {
                let p = choose|p: int| 0 <= p < a2.len() && a2[p] == k;
                assert(text_lt(a[p], a[a.len() - 1]));
                assert(a.contains(k));
                let q = choose|q: int| 0 <= q < b.len() && b[q] == k;
                if q == b.len() - 1 {
                    lemma_text_lt_irreflexive(k);
                }
                assert(b2[q] == k);
            }
            if b2.contains(k) {
                let q = choose|q: int| 0 <= q < b2.len() && b2[q] == k;
                assert(text_lt(b[q], b[b.len() - 1]));
                assert(b.contains(k));
                assert(a.contains(k));
                let p = choose|p: int| 0 <= p < a.len() && a[p] == k;
                if p == a.len() - 1 {
                    lemma_text_lt_irreflexive(k);
                }
                assert(a2[p] == k);
            }
        }
        lemma_sorted_same_elements(a2, b2);
        assert(a =~= a2.push(x));
        assert(b =~= b2.push(y));
    }
}

impl PersistedManifest {
    #[verifier::type_invariant]
    spec fn inv(&self) -> bool {
        &&& sorted_keys(keys_of(self.repos@))
        &&& sorted_keys(keys_of(self.repo_templates@))
    }

    /// The ids of the registered repos ascend and list exactly the
    /// registered repos.
    pub fn check_wf(&self)
        ensures
            view_wf(self@),
    {
        proof {
            use_type_invariant(self);
            lemma_lists_keys(self.repos@);
        }
    }

    /// An empty manifest of the current version.
    pub fn new() -> (r: PersistedManifest)
        ensures
            r@.version == MANIFEST_VERSION,
            r@.repos == Map::<Seq<char>, Seq<char>>::empty(),
            r@.repo_ids == Seq::<Seq<char>>::empty(),
            r@.templates == Map::<Seq<char>, Seq<char>>::empty(),
            r@.mounts == Seq::<RepoMountView>::empty(),
    {
        let r = PersistedManifest {
            version: MANIFEST_VERSION,
            repos: Vec::new(),
            repo_templates: Vec::new(),
            repo_mounts: Vec::new(),
        };
        proof {
            assert(map_of(r.repos@) =~= Map::<Seq<char>, Seq<char>>::empty());
            assert(map_of(r.repo_templates@) =~= Map::<Seq<char>, Seq<char>>::empty());
            assert(keys_of(r.repos@) =~= Seq::<Seq<char>>::empty());
            assert(mount_row_views(r.repo_mounts@) =~= Seq::<RepoMountView>::empty());
        }
        r
    }

    /// A manifest from its decoded parts; a repeated id keeps its last entry.
    pub fn from_parts(
        version: u32,
        repos: Vec<(RepoId, PersistedRepoRegistration)>,
        repo_templates: Vec<(RepoId, PersistedTemplateBinding)>,
        repo_mounts: Vec<PersistedRepoMount>,
    ) -> (r: PersistedManifest)
        ensures
            r@.version == version,
            r@.repos == pairs_map(repos@),
            r@.templates == pairs_map(repo_templates@),
            r@.mounts == mount_row_views(repo_mounts@),
    {
        let sorted_repos = collect_sorted(repos);
        let sorted_templates = collect_sorted(repo_templates);
        PersistedManifest {
            version,
            repos: sorted_repos,
            repo_templates: sorted_templates,
            repo_mounts,
        }
    }

    /// The manifest format version.
    pub fn version(&self) -> (r: u32)
        ensures
            r == self@.version,
    {
        self.version
    }

    /// The registered repos in ascending id order.
    pub fn repos(&self) -> (r: &Vec<(RepoId, PersistedRepoRegistration)>)
        ensures
            keys_of(r@) == self@.repo_ids,
            map_of(r@) == self@.repos,
            sorted_keys(keys_of(r@)),
    {
        proof {
            use_type_invariant(self);
        }
        &self.repos
    }

    /// The template bindings in ascending repo id order.
    pub fn repo_templates(&self) -> (r: &Vec<(RepoId, PersistedTemplateBinding)>)
        ensures
            map_of(r@) == self@.templates,
            sorted_keys(keys_of(r@)),
    {
        proof {
            use_type_invariant(self);
        }
        &self.repo_templates
    }

    /// The mount rows in order.
    pub fn repo_mounts(&self) -> (r: &Vec<PersistedRepoMount>)
        ensures
            mount_row_views(r@) == self@.mounts,
    {
        &self.repo_mounts
    }

    /// Whether `repo_id` is registered.
    pub fn contains_repo(&self, repo_id: &RepoId) -> (r: bool)
        ensures
            r == self@.repos.contains_key(repo_id@),
    {
        contains_key(&self.repos, repo_id)
    }

    /// The registration of `repo_id`, if it is registered.
    pub fn repo(&self, repo_id: &RepoId) -> (r: Option<&PersistedRepoRegistration>)
        ensures
            match repo_lookup(self@, repo_id@) {
                Some(s) => r matches Some(x) && x@ == s,
                None => r is None,
            },
    {
        proof {
            use_type_invariant(self);
            lemma_map_of_dom(self.repos@, repo_id@);
        }
        match find_key(&self.repos, repo_id) {
            Some(i) => {
                proof {
                    lemma_map_of_entry(self.repos@, i as int);
                }
                Some(&self.repos[i].1)
            },
            None => {
                proof {
                    if exists|i: int| 0 <= i < self.repos@.len() && (#[trigger] self.repos@[i]).0@
                        == repo_id@ {
                        let i = choose|i: int|
                            0 <= i < self.repos@.len() && (#[trigger] self.repos@[i]).0@ == repo_id@;
                        assert(keys_of(self.repos@)[i] == repo_id@);
                    }
                }
                None
            },
        }
    }

    /// Registers (or re-registers) `repo_id`.
    pub fn insert_repo(&mut self, repo_id: RepoId, repo: PersistedRepoRegistration)
        ensures
            final(self)@ == with_repo(old(self)@, repo_id@, repo@),
    {
        proof {
            use_type_invariant(&*self);
        }
        let ghost old_v = self@;
        proof {
            lemma_lists_keys(self.repos@);
        }
        let ghost id = repo_id@;
        let ghost src = repo@;
        let mut repos = Vec::new();
        std::mem::swap(&mut repos, &mut self.repos);
        insert_sorted(&mut repos, repo_id, repo);
        self.repos = repos;
        proof {
            use_type_invariant(&*self);
            lemma_lists_keys(self.repos@);
            lemma_sorted_listing(self@.repo_ids, self@.repos);
            assert(self@ =~= with_repo(old_v, id, src));
        }
    }
}

/// Pairs as a map, a later pair overriding an earlier one with the same key.
pub open spec fn pairs_map<V: View>(s: Seq<(RepoId, V)>) -> Map<Seq<char>, V::V>
    decreases s.len(),
{
    if s.len() == 0 {
        Map::empty()
    } else {
        pairs_map(s.drop_last()).insert(s.last().0@, s.last().1@)
    }
}

fn collect_sorted<V: View>(pairs: Vec<(RepoId, V)>) -> (r: Vec<(RepoId, V)>)
    ensures
        sorted_keys(keys_of(r@)),
        map_of(r@) == pairs_map(pairs@),
{
    let mut out: Vec<(RepoId, V)> = Vec::new();
    let ghost input = pairs@;
    let n = pairs.len();
    let mut rest = pairs;
    proof {
        assert(map_of(out@) =~= Map::<Seq<char>, V::V>::empty());
        assert(keys_of(out@) =~= Seq::<Seq<char>>::empty());
        assert(input.skip(0) =~= input);
        assert(input.take(0) =~= Seq::<(RepoId, V)>::empty());
    }
    let mut i: usize = 0;
    while rest.len() > 0
        invariant
            i + rest@.len() == input.len(),
            n == input.len(),
            rest@ == input.skip(i as int),
            sorted_keys(keys_of(out@)),
            map_of(out@) == pairs_map(input.take(i as int)),
        decreases rest@.len(),
    {
        let ghost before = rest@;
        let (k, v) = rest.remove(0);
        proof {
            assert((k, v) == input[i as int]);
            assert(rest@ =~= input.skip(i + 1));
            assert(input.take(i + 1).drop_last() =~= input.take(i as int));
            assert(input.take(i + 1).last() == input[i as int]);
        }
        insert_sorted(&mut out, k, v);
        i = i + 1;
    }
    proof {
        assert(input.take(i as int) =~= input);
    }
    out
}

/// A copy of a mount row.
pub fn clone_row(row: &PersistedRepoMount) -> (r: PersistedRepoMount)
    ensures
        r@ == row@,
{
    PersistedRepoMount {
        repo_id: row.repo_id.clone(),
        context: row.context.clone(),
        repo: row.repo.clone(),
    }
}

fn rows_keeping_others(rows: &Vec<PersistedRepoMount>, repo_id: &RepoId) -> (r: Vec<PersistedRepoMount>)
    ensures
        mount_row_views(r@) == rows_without(mount_row_views(rows@), repo_id@),
{
    let mut out: Vec<PersistedRepoMount> = Vec::new();
    let mut i: usize = 0;
    proof {
        assert(mount_row_views(rows@).take(0) =~= Seq::<RepoMountView>::empty());
        assert(mount_row_views(out@) =~= Seq::<RepoMountView>::empty());
    }
    while i < rows.len()
        invariant
            i <= rows.len(),
            mount_row_views(out@) == rows_without(mount_row_views(rows@).take(i as int), repo_id@),
        decreases rows.len() - i,
    {
        let ghost vs = mount_row_views(rows@);
        proof {
            assert(vs.take(i + 1).drop_last() =~= vs.take(i as int));
            assert(vs.take(i + 1).last() == rows@[i as int]@);
        }
        if crate::shared::order::compare_text(rows[i].repo_id.as_str(), repo_id.as_str()) != 0 {
            let row = clone_row(&rows[i]);
            let ghost before = out@;
            out.push(row);
            proof {
                assert(mount_row_views(out@) =~= mount_row_views(before).push(rows@[i as int]@));
            }
        }
        i = i + 1;
    }
    proof {
        assert(mount_row_views(rows@).take(rows.len() as int) =~= mount_row_views(rows@));
    }
    out
}

/// The mount specifications of the rows of `repo_id`, in order.
pub fn mounts_in_rows(rows: &Vec<PersistedRepoMount>, repo_id: &RepoId) -> (r: Vec<MountSpec>)
    ensures
        crate::shared::mount_spec::spec_views(r@) == mounts_of(mount_row_views(rows@), repo_id@),
{
    let mut out: Vec<MountSpec> = Vec::new();
    let mut i: usize = 0;
    proof {
        assert(mount_row_views(rows@).take(0) =~= Seq::<RepoMountView>::empty());
        assert(crate::shared::mount_spec::spec_views(out@) =~= Seq::<MountSpecView>::empty());
    }
    while i < rows.len()
        invariant
            i <= rows.len(),
            crate::shared::mount_spec::spec_views(out@) == mounts_of(
                mount_row_views(rows@).take(i as int),
                repo_id@,
            ),
        decreases rows.len() - i,
    {
        let ghost vs = mount_row_views(rows@);
        proof {
            assert(vs.take(i + 1).drop_last() =~= vs.take(i as int));
            assert(vs.take(i + 1).last() == rows@[i as int]@);
        }
        if crate::shared::order::compare_text(rows[i].repo_id.as_str(), repo_id.as_str()) == 0 {
            let m = MountSpec { context: rows[i].context.clone(), repo: rows[i].repo.clone() };
            let ghost before = out@;
            out.push(m);
            proof {
                assert(crate::shared::mount_spec::spec_views(out@) =~= crate::shared::mount_spec::spec_views(
                    before,
                ).push(MountSpecView { context: rows@[i as int].context@, repo: rows@[i as int].repo@ }));
            }
        }
        i = i + 1;
    }
    proof {
        assert(mount_row_views(rows@).take(rows.len() as int) =~= mount_row_views(rows@));
    }
    out
}

/// The first template binding (in id order) whose repo is not registered.
pub open spec fn first_dangling_template(m: ManifestView) -> Option<Seq<char>> {
    let ids = sorted_listing(m.templates);
    if exists|i: int| 0 <= i < ids.len() && !m.repos.contains_key(#[trigger] ids[i]) {
        Some(
            ids[choose|i: int|
                0 <= i < ids.len() && !m.repos.contains_key(#[trigger] ids[i]) && forall|j: int|
                    0 <= j < i ==> m.repos.contains_key(#[trigger] ids[j])],
        )
    } else {
        None
    }
}

/// The first mount row whose repo is not registered.
pub open spec fn first_dangling_mount(m: ManifestView) -> Option<Seq<char>> {
    if exists|i: int| 0 <= i < m.mounts.len() && !m.repos.contains_key(#[trigger] m.mounts[i].repo_id) {
        Some(
            m.mounts[choose|i: int|
                0 <= i < m.mounts.len() && !m.repos.contains_key(#[trigger] m.mounts[i].repo_id)
                    && forall|j: int| 0 <= j < i ==> m.repos.contains_key(#[trigger] m.mounts[j].repo_id)].repo_id,
        )
    } else {
        None
    }
}

/// How `validate` reports an invalid manifest: a wrong version first, then
/// the first dangling template binding, then the first dangling mount row,
/// then the first conflicting pair of mounts of the first repo (in id order)
/// whose mounts conflict.
pub open spec fn validation_error(m: ManifestView, e: Error) -> bool {
    if m.version != MANIFEST_VERSION {
        e matches Error::Validation(ValidationError::InvalidManifestVersion { actual, expected })
            && actual == m.version && expected == MANIFEST_VERSION
    } else if first_dangling_template(m) is Some {
        e matches Error::Validation(ValidationError::RepoTemplateUnknownRepo { repo_id })
            && first_dangling_template(m) == Some(repo_id@)
    } else if first_dangling_mount(m) is Some {
        e matches Error::Validation(ValidationError::RepoMountUnknownRepo { repo_id })
            && first_dangling_mount(m) == Some(repo_id@)
    } else {
        exists|k: int, i: int, j: int|
            #![trigger m.repo_ids[k], mounts_of(m.mounts, m.repo_ids[k])[i], mounts_of(m.mounts, m.repo_ids[k])[j]]
            0 <= k < m.repo_ids.len() && (forall|k2: int|
                0 <= k2 < k ==> conflict_free(mounts_of(m.mounts, #[trigger] m.repo_ids[k2])))
                && crate::shared::mount_spec::first_conflicting_pair(
                mounts_of(m.mounts, m.repo_ids[k]),
                i,
                j,
            ) && mount_spec_error(
                e,
                Some(m.repo_ids[k]),
                mounts_of(m.mounts, m.repo_ids[k])[j],
                mounts_of(m.mounts, m.repo_ids[k])[i],
            )
    }
}

impl PersistedManifest {
    /// Removes the registration of `repo_id`, returning it.
    pub fn remove_repo(&mut self, repo_id: &RepoId) -> (r: Option<PersistedRepoRegistration>)
        ensures
            final(self)@ == without_repo(old(self)@, repo_id@),
            match repo_lookup(old(self)@, repo_id@) {
                Some(s) => r matches Some(x) && x@ == s,
                None => r is None,
            },
    {
        proof {
            use_type_invariant(&*self);
        }
        let ghost old_v = self@;
        let mut repos = Vec::new();
        std::mem::swap(&mut repos, &mut self.repos);
        let r = remove_key(&mut repos, repo_id);
        self.repos = repos;
        proof {
            use_type_invariant(&*self);
            lemma_lists_keys(self.repos@);
            lemma_sorted_listing(self@.repo_ids, self@.repos);
            assert(self@ =~= without_repo(old_v, repo_id@));
        }
        r
    }

    /// Replaces the mount rows of `repo_id` by `rows`, appended after the
    /// rows of the other repos.
    pub fn replace_repo_mounts(&mut self, repo_id: &RepoId, rows: Vec<PersistedRepoMount>)
        ensures
            final(self)@ == with_rows(
                old(self)@,
                rows_without(old(self)@.mounts, repo_id@) + mount_row_views(rows@),
            ),
    {
        proof {
            use_type_invariant(&*self);
        }
        let ghost old_v = self@;
        let mut kept = rows_keeping_others(&self.repo_mounts, repo_id);
        let mut rows = rows;
        let ghost added = rows@;
        kept.append(&mut rows);
        self.repo_mounts = kept;
        proof {
            assert(mount_row_views(self.repo_mounts@) =~= rows_without(old_v.mounts, repo_id@)
                + mount_row_views(added));
            assert(self@ =~= ManifestView {
                mounts: rows_without(old_v.mounts, repo_id@) + mount_row_views(added),
                ..old_v
            });
        }
    }

    /// Drops the mount rows of `repo_id`.
    pub fn clear_repo_mounts(&mut self, repo_id: &RepoId)
        ensures
            final(self)@ == with_rows(old(self)@, rows_without(old(self)@.mounts, repo_id@)),
    {
        proof {
            use_type_invariant(&*self);
        }
        let ghost old_v = self@;
        let kept = rows_keeping_others(&self.repo_mounts, repo_id);
        self.repo_mounts = kept;
        proof {
            assert(self@ =~= ManifestView { mounts: rows_without(old_v.mounts, repo_id@), ..old_v });
        }
    }

    /// Binds `repo_id` to a template.
    pub fn replace_applied_template(&mut self, repo_id: RepoId, binding: PersistedTemplateBinding)
        ensures
            final(self)@ == with_templates(
                old(self)@,
                old(self)@.templates.insert(repo_id@, binding@),
            ),
    {
        proof {
            use_type_invariant(&*self);
        }
        let ghost old_v = self@;
        let ghost id = repo_id@;
        let ghost b = binding@;
        let mut templates = Vec::new();
        std::mem::swap(&mut templates, &mut self.repo_templates);
        insert_sorted(&mut templates, repo_id, binding);
        self.repo_templates = templates;
        proof {
            assert(self@ =~= ManifestView { templates: old_v.templates.insert(id, b), ..old_v });
        }
    }

    /// Drops the template binding of `repo_id`.
    pub fn clear_applied_template(&mut self, repo_id: &RepoId)
        ensures
            final(self)@ == with_templates(old(self)@, old(self)@.templates.remove(repo_id@)),
    {
        proof {
            use_type_invariant(&*self);
        }
        let ghost old_v = self@;
        let mut templates = Vec::new();
        std::mem::swap(&mut templates, &mut self.repo_templates);
        let _ = remove_key(&mut templates, repo_id);
        self.repo_templates = templates;
        proof {
            assert(self@ =~= ManifestView { templates: old_v.templates.remove(repo_id@), ..old_v });
        }
    }

    /// Drops every binding to `template_id`, returning the repos that had
    /// one.
    pub fn clear_applied_template_bindings(&mut self, template_id: &TemplateId) -> (r: Vec<RepoId>)
        ensures
            final(self)@ == with_templates(
                old(self)@,
                old(self)@.templates.remove_keys(bound_to(old(self)@.templates, template_id@)),
            ),
            id_views(r@).to_set() == bound_to(old(self)@.templates, template_id@),
    {
        proof {
            use_type_invariant(&*self);
        }
        let ghost old_v = self@;
        let ghost rt = self.repo_templates@;
        let mut ids: Vec<RepoId> = Vec::new();
        let mut i: usize = 0;
        while i < self.repo_templates.len()
            invariant
                i <= self.repo_templates.len(),
                self.repo_templates@ == rt,
                forall|k: Seq<char>|
                    #[trigger] id_views(ids@).contains(k) <==> exists|j: int|
                        0 <= j < i && rt[j].0@ == k && rt[j].1@ == template_id@,
            decreases self.repo_templates.len() - i,
        {
            let ghost before = id_views(ids@);
            if self.repo_templates[i].1.template == *template_id {
                ids.push(self.repo_templates[i].0.clone());
                proof {
                    assert(id_views(ids@) =~= before.push(rt[i as int].0@));
                }
            }
            proof {
                let after = id_views(ids@);
                assert forall|k: Seq<char>|
                    #[trigger] after.contains(k) <==> exists|j: int|
                        0 <= j < i + 1 && rt[j].0@ == k && rt[j].1@ == template_id@ by {
                    if after.contains(k) && !before.contains(k) {
                        let idx = choose|idx: int| 0 <= idx < after.len() && #[trigger] after[idx] == k;
                        if idx < before.len() {
                            assert(before[idx] == k);
                        }
                    }
                    if exists|j: int| 0 <= j < i + 1 && rt[j].0@ == k && rt[j].1@ == template_id@ {
                        let j = choose|j: int| 0 <= j < i + 1 && rt[j].0@ == k && rt[j].1@ == template_id@;
                        if j == i {
                            assert(after[before.len() as int] == k);
                        } else {
                            assert(before.contains(k));
                            let idx = choose|idx: int| 0 <= idx < before.len() && #[trigger] before[idx] == k;
                            assert(after[idx] == k);
                        }
                    }
                }
            }
            i = i + 1;
        }
        let ghost all = id_views(ids@);
        proof {
            assert forall|k: Seq<char>| #[trigger] all.to_set().contains(k) <==> bound_to(old_v.templates, template_id@).contains(k) by {
                lemma_map_of_dom(rt, k);
                if all.contains(k) {
                    let j = choose|j: int| 0 <= j < rt.len() && rt[j].0@ == k && rt[j].1@ == template_id@;
                    lemma_map_of_entry(rt, j);
                }
                if bound_to(old_v.templates, template_id@).contains(k) {
                    let j = choose|j: int| 0 <= j < rt.len() && (#[trigger] rt[j]).0@ == k;
                    lemma_map_of_entry(rt, j);
                }
            }
            assert(all.to_set() =~= bound_to(old_v.templates, template_id@));
            assert(all.take(0).to_set() =~= Set::<Seq<char>>::empty());
            assert(old_v.templates.remove_keys(Set::empty()) =~= old_v.templates);
            assert(self@ =~= with_templates(old_v, old_v.templates.remove_keys(all.take(0).to_set())));
        }
        let mut n: usize = 0;
        while n < ids.len()
            invariant
                n <= ids.len(),
                all == id_views(ids@),
                self@ == with_templates(old_v, old_v.templates.remove_keys(all.take(n as int).to_set())),
            decreases ids.len() - n,
        {
            self.clear_applied_template(&ids[n]);
            proof {
                lemma_take_to_set(all, n as int);
                assert(old_v.templates.remove_keys(all.take(n as int).to_set()).remove(all[n as int])
                    =~= old_v.templates.remove_keys(all.take(n + 1).to_set()));
            }
            n = n + 1;
        }
        proof {
            assert(all.take(ids.len() as int) =~= all);
        }
        ids
    }

    /// Binds each of `repo_ids` to `template_id` again.
    pub fn restore_applied_template_bindings(&mut self, template_id: &TemplateId, repo_ids: Vec<RepoId>)
        ensures
            final(self)@ == with_templates(
                old(self)@,
                old(self)@.templates.union_prefer_right(
                    Map::new(
                        |k: Seq<char>| id_views(repo_ids@).contains(k),
                        |k: Seq<char>| template_id@,
                    ),
                ),
            ),
    {
        let ghost old_v = self@;
        let ghost all = id_views(repo_ids@);
        let ghost bind = |s: Set<Seq<char>>| Map::new(|k: Seq<char>| s.contains(k), |k: Seq<char>| template_id@);
        proof {
            assert(old_v.templates.union_prefer_right(bind(all.take(0).to_set())) =~= old_v.templates);
        }
        let mut n: usize = 0;
        while n < repo_ids.len()
            invariant
                n <= repo_ids.len(),
                all == id_views(repo_ids@),
                bind == (|s: Set<Seq<char>>| Map::new(|k: Seq<char>| s.contains(k), |k: Seq<char>| template_id@)),
                self@ == with_templates(old_v, old_v.templates.union_prefer_right(bind(all.take(n as int).to_set()))),
            decreases repo_ids.len() - n,
        {
            self.replace_applied_template(
                repo_ids[n].clone(),
                PersistedTemplateBinding { template: template_id.clone() },
            );
            proof {
                lemma_take_to_set(all, n as int);
                assert(old_v.templates.union_prefer_right(bind(all.take(n as int).to_set())).insert(
                    all[n as int],
                    template_id@,
                ) =~= old_v.templates.union_prefer_right(bind(all.take(n + 1).to_set())));
            }
            n = n + 1;
        }
        proof {
            assert(all.take(repo_ids.len() as int) =~= all);
            assert(all.to_set() =~= Set::new(|k: Seq<char>| all.contains(k)));
            assert(bind(all.to_set()) =~= Map::new(|k: Seq<char>| all.contains(k), |k: Seq<char>| template_id@));
        }
    }

    /// The ids of the registered repos, in ascending order.
    pub fn repo_ids(&self) -> (r: Vec<RepoId>)
        ensures
            r@.map_values(|id: RepoId| id@) == self@.repo_ids,
    {
        let mut out: Vec<RepoId> = Vec::new();
        let mut i: usize = 0;
        while i < self.repos.len()
            invariant
                i <= self.repos.len(),
                out@.len() == i,
                forall|j: int| 0 <= j < i ==> (#[trigger] out@[j])@ == self.repos@[j].0@,
            decreases self.repos.len() - i,
        {
            out.push(self.repos[i].0.clone());
            i = i + 1;
        }
        proof {
            assert(out@.map_values(|id: RepoId| id@) =~= keys_of(self.repos@));
        }
        out
    }

    /// Checks the version, that every binding and mount row names a
    /// registered repo, and that no repo has conflicting mounts.
    pub fn validate(&self) -> (r: Result<(), Error>)
        ensures
            r is Ok <==> manifest_valid(self@),
            r matches Err(e) ==> validation_error(self@, e),
    {
        proof {
            use_type_invariant(self);
            lemma_lists_keys(self.repos@);
            lemma_lists_keys(self.repo_templates@);
            lemma_sorted_listing(keys_of(self.repo_templates@), map_of(self.repo_templates@));
        }
        let ghost m = self@;
        if self.version != MANIFEST_VERSION {
            return Err(Error::Validation(ValidationError::InvalidManifestVersion {
                actual: self.version,
                expected: MANIFEST_VERSION,
            }));
        }
        let ghost tids = keys_of(self.repo_templates@);
        let mut t: usize = 0;
        while t < self.repo_templates.len()
            invariant
                m == self@,
                m.version == MANIFEST_VERSION,
                tids == keys_of(self.repo_templates@),
                tids == sorted_listing(m.templates),
                t <= self.repo_templates.len(),
                forall|j: int| 0 <= j < t ==> m.repos.contains_key(#[trigger] tids[j]),
            decreases self.repo_templates.len() - t,
        {
            if !self.contains_repo(&self.repo_templates[t].0) {
                proof {
                    assert(!m.repos.contains_key(tids[t as int]));
                    assert(tids.contains(tids[t as int]));
                    assert(m.templates.contains_key(tids[t as int]));
                    assert(0 <= t < tids.len() && !m.repos.contains_key(tids[t as int]) && forall|j: int|
                        0 <= j < t ==> m.repos.contains_key(#[trigger] tids[j]));
                    let c = choose|i: int|
                        0 <= i < tids.len() && !m.repos.contains_key(#[trigger] tids[i]) && forall|j: int|
                            0 <= j < i ==> m.repos.contains_key(#[trigger] tids[j]);
                    if c < t {
                        assert(m.repos.contains_key(tids[c]));
                    }
                    if c > t {
                        assert(m.repos.contains_key(tids[t as int]));
                    }
                    assert(c == t);
                    assert(first_dangling_template(m) == Some(tids[t as int]));
                    assert(self.repo_templates@[t as int].0@ == tids[t as int]);
                }
                return Err(Error::Validation(ValidationError::RepoTemplateUnknownRepo {
                    repo_id: self.repo_templates[t].0.clone(),
                }));
            }
            t = t + 1;
        }
        proof {
            assert forall|k: Seq<char>| #[trigger] m.templates.contains_key(k) implies m.repos.contains_key(k) by {
                assert(tids.contains(k));
                let j = choose|j: int| 0 <= j < tids.len() && tids[j] == k;
                assert(m.repos.contains_key(tids[j]));
            }
            assert(first_dangling_template(m) is None);
        }
        let mut u: usize = 0;
        while u < self.repo_mounts.len()
            invariant
                m == self@,
                m.version == MANIFEST_VERSION,
                first_dangling_template(m) is None,
                u <= self.repo_mounts.len(),
                m.mounts.len() == self.repo_mounts.len(),
                forall|j: int| 0 <= j < u ==> m.repos.contains_key(#[trigger] m.mounts[j].repo_id),
            decreases self.repo_mounts.len() - u,
        {
            proof {
                assert(m.mounts[u as int] == self.repo_mounts@[u as int]@);
            }
            if !self.contains_repo(&self.repo_mounts[u].repo_id) {
                proof {
                    assert(!m.repos.contains_key(m.mounts[u as int].repo_id));
                    assert(0 <= u < m.mounts.len() && !m.repos.contains_key(m.mounts[u as int].repo_id)
                        && forall|j: int| 0 <= j < u ==> m.repos.contains_key(#[trigger] m.mounts[j].repo_id));
                    let c = choose|i: int|
                        0 <= i < m.mounts.len() && !m.repos.contains_key(#[trigger] m.mounts[i].repo_id)
                            && forall|j: int| 0 <= j < i ==> m.repos.contains_key(#[trigger] m.mounts[j].repo_id);
                    if c < u {
                        assert(m.repos.contains_key(m.mounts[c].repo_id));
                    }
                    if c > u {
                        assert(m.repos.contains_key(m.mounts[u as int].repo_id));
                    }
                    assert(c == u);
                    assert(first_dangling_mount(m) == Some(m.mounts[u as int].repo_id));
                }
                return Err(Error::Validation(ValidationError::RepoMountUnknownRepo {
                    repo_id: self.repo_mounts[u].repo_id.clone(),
                }));
            }
            u = u + 1;
        }
        proof {
            assert(first_dangling_mount(m) is None);
        }
        let mut k: usize = 0;
        while k < self.repos.len()
            invariant
                m == self@,
                view_wf(m),
                references_registered(m),
                m.version == MANIFEST_VERSION,
                first_dangling_template(m) is None,
                first_dangling_mount(m) is None,
                m.repo_ids == keys_of(self.repos@),
                k <= self.repos.len(),
                forall|k2: int| 0 <= k2 < k ==> conflict_free(mounts_of(m.mounts, #[trigger] m.repo_ids[k2])),
            decreases self.repos.len() - k,
        {
            let id = &self.repos[k].0;
            let ms = mounts_in_rows(&self.repo_mounts, id);
            let owner = MountSpecOwner::Repo(id.clone());
            match validate_mount_specs(&owner, ms.as_slice()) {
                Ok(()) => {},
                Err(e) => {
                    proof {
                        assert(m.repo_ids[k as int] == id@);
                        assert(m.repo_ids.contains(id@));
                        assert(m.repos.contains_key(id@));
                        let (i, j) = choose|i: int, j: int|
                            crate::shared::mount_spec::first_conflicting_pair(
                                crate::shared::mount_spec::spec_views(ms@),
                                i,
                                j,
                            ) && mount_spec_error(e, Some(id@), ms@[j]@, ms@[i]@);
                        let mv = mounts_of(m.mounts, m.repo_ids[k as int]);
                        assert(mv == crate::shared::mount_spec::spec_views(ms@));
                        assert(mv[j] == ms@[j]@);
                        assert(mv[i] == ms@[i]@);
                        assert(validation_error(m, e));
                    }
                    return Err(e);
                },
            }
            k = k + 1;
        }
        proof {
            assert forall|key: Seq<char>| #[trigger] m.repos.contains_key(key) implies conflict_free(
                mounts_of(m.mounts, key),
            ) by {
                assert(m.repo_ids.contains(key));
                let j = choose|j: int| 0 <= j < m.repo_ids.len() && m.repo_ids[j] == key;
                assert(conflict_free(mounts_of(m.mounts, m.repo_ids[j])));
            }
        }
        Ok(())
    }
}

} // verus!
