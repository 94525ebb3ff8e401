//! Maps keyed by repo id, held as vectors of pairs sorted strictly by the
//! id's text: iteration yields the ids in ascending order and no id occurs
//! twice, as with an ordered map.
use vstd::prelude::*;

use crate::shared::order::{
    compare_text, lemma_text_lt_irreflexive, lemma_text_lt_transitive, text_lt,
};
use crate::shared::types::RepoId;

verus! {

/// The key texts of the entries, in order.
pub open spec fn keys_of<V>(s: Seq<(RepoId, V)>) -> Seq<Seq<char>> {
    s.map_values(|p: (RepoId, V)| p.0@)
}

/// Keys ascend strictly, so none repeats.
pub open spec fn sorted_keys(ks: Seq<Seq<char>>) -> bool {
    forall|i: int, j: int| 0 <= i < j < ks.len() ==> text_lt(#[trigger] ks[i], #[trigger] ks[j])
}

/// The entries as a map from key text to the view of the value.
pub open spec fn map_of<V: View>(s: Seq<(RepoId, V)>) -> Map<Seq<char>, V::V> {
    Map::new(
        |k: Seq<char>| keys_of(s).contains(k),
        |k: Seq<char>| s[keys_of(s).index_of(k)].1@,
    )
}

/// In a sorted list each key sits at exactly one index.
pub proof fn lemma_sorted_unique(ks: Seq<Seq<char>>, i: int, j: int)
    requires
        sorted_keys(ks),
        0 <= i < ks.len(),
        0 <= j < ks.len(),
        ks[i] == ks[j],
    ensures
        i == j,
{
    if i < j {
        assert(text_lt(ks[i], ks[j]));
        lemma_text_lt_irreflexive(ks[i]);
    } else if j < i {
        assert(text_lt(ks[j], ks[i]));
        lemma_text_lt_irreflexive(ks[i]);
    }
}

/// The map holds each entry of a sorted list.
pub proof fn lemma_map_of_entry<V: View>(s: Seq<(RepoId, V)>, i: int)
    requires
        sorted_keys(keys_of(s)),
        0 <= i < s.len(),
    ensures
        map_of(s).contains_key(s[i].0@),
        map_of(s)[s[i].0@] == s[i].1@,
{
    let ks = keys_of(s);
    assert(ks[i] == s[i].0@);
    assert(ks.contains(s[i].0@));
    let j = ks.index_of(s[i].0@);
    lemma_sorted_unique(ks, i, j);
}

/// A key is in the map exactly when some entry has it.
pub proof fn lemma_map_of_dom<V: View>(s: Seq<(RepoId, V)>, k: Seq<char>)
    ensures
        map_of(s).contains_key(k) <==> exists|i: int| 0 <= i < s.len() && (#[trigger] s[i]).0@ == k,
{
    let ks = keys_of(s);
    if map_of(s).contains_key(k) {
        let i = ks.index_of(k);
        assert(s[i].0@ == k);
    }
    if exists|i: int| 0 <= i < s.len() && (#[trigger] s[i]).0@ == k {
        let i = choose|i: int| 0 <= i < s.len() && (#[trigger] s[i]).0@ == k;
        assert(ks[i] == k);
    }
}

/// The index of the entry with key `k`.
pub fn find_key<V>(m: &Vec<(RepoId, V)>, k: &RepoId) -> (r: Option<usize>)
    ensures
        r matches Some(i) ==> i < m@.len() && m@[i as int].0@ == k@,
        r is None ==> !keys_of(m@).contains(k@),
{
    let mut i: usize = 0;
    while i < m.len()
        invariant
            i <= m.len(),
            forall|j: int| 0 <= j < i ==> (#[trigger] m@[j]).0@ != k@,
        decreases m.len() - i,
    {
        if compare_text(m[i].0.as_str(), k.as_str()) == 0 {
            return Some(i);
        }
        i = i + 1;
    }
    proof {
        if keys_of(m@).contains(k@) {
            let j = choose|j: int| 0 <= j < keys_of(m@).len() && keys_of(m@)[j] == k@;
            assert(m@[j].0@ == k@);
        }
    }
    None
}

/// Whether an entry has key `k`.
pub fn contains_key<V: View>(m: &Vec<(RepoId, V)>, k: &RepoId) -> (r: bool)
    ensures
        r == map_of(m@).contains_key(k@),
{
    proof {
        lemma_map_of_dom(m@, k@);
    }
    match find_key(m, k) {
        Some(i) => true,
        None => {
            proof {
                if exists|i: int| 0 <= i < m@.len() && (#[trigger] m@[i]).0@ == k@ {
                    let i = choose|i: int| 0 <= i < m@.len() && (#[trigger] m@[i]).0@ == k@;
                    assert(keys_of(m@)[i] == k@);
                }
            }
            false
        },
    }
}

/// The first index whose key is not before `k`; all keys before it are.
fn lower_bound<V>(m: &Vec<(RepoId, V)>, k: &RepoId) -> (r: usize)
    ensures
        r <= m@.len(),
        forall|j: int| 0 <= j < r ==> text_lt((#[trigger] m@[j]).0@, k@),
        r < m@.len() ==> !text_lt(m@[r as int].0@, k@),
{
    let mut i: usize = 0;
    while i < m.len()
        invariant
            i <= m.len(),
            forall|j: int| 0 <= j < i ==> text_lt((#[trigger] m@[j]).0@, k@),
        decreases m.len() - i,
    {
        if compare_text(m[i].0.as_str(), k.as_str()) != -1 {
            return i;
        }
        i = i + 1;
    }
    i
}

/// Inserts or replaces the entry for `k`, keeping the keys sorted.
pub fn insert_sorted<V: View>(m: &mut Vec<(RepoId, V)>, k: RepoId, v: V)
    requires
        sorted_keys(keys_of(old(m)@)),
    ensures
        sorted_keys(keys_of(final(m)@)),
        map_of(final(m)@) == map_of(old(m)@).insert(k@, v@),
{
    let ghost old_s = m@;
    let ghost kv = k@;
    let ghost vv = v@;
    let p = lower_bound(m, &k);
    let replace = p < m.len() && compare_text(m[p].0.as_str(), k.as_str()) == 0;
    if replace {
        m.set(p, (k, v));
        proof {
            let s = m@;
            assert(keys_of(s) =~= keys_of(old_s).update(p as int, kv));
            assert forall|i: int, j: int| 0 <= i < j < keys_of(s).len() implies text_lt(
                #[trigger] keys_of(s)[i],
                #[trigger] keys_of(s)[j],
            ) by {
                assert(text_lt(keys_of(old_s)[i], keys_of(old_s)[j]));
            }
            assert forall|kk: Seq<char>| #[trigger]
                map_of(s).contains_key(kk) == map_of(old_s).insert(kv, vv).contains_key(kk) by {
                lemma_map_of_dom(s, kk);
                lemma_map_of_dom(old_s, kk);
                if exists|i: int| 0 <= i < old_s.len() && (#[trigger] old_s[i]).0@ == kk {
                    let i = choose|i: int| 0 <= i < old_s.len() && (#[trigger] old_s[i]).0@ == kk;
                    if i == p {
                        assert(s[p as int].0@ == kk);
                    } else {
                        assert(s[i].0@ == kk);
                    }
                }
                if exists|i: int| 0 <= i < s.len() && (#[trigger] s[i]).0@ == kk {
                    let i = choose|i: int| 0 <= i < s.len() && (#[trigger] s[i]).0@ == kk;
                    if i != p {
                        assert(old_s[i].0@ == kk);
                    }
                }
            }
            assert forall|kk: Seq<char>| #[trigger] map_of(s).contains_key(kk) implies map_of(s)[kk]
                == map_of(old_s).insert(kv, vv)[kk] by {
                lemma_map_of_dom(s, kk);
                let i = choose|i: int| 0 <= i < s.len() && (#[trigger] s[i]).0@ == kk;
                lemma_map_of_entry(s, i);
                if i != p {
                    assert(old_s[i] == s[i]);
                    lemma_map_of_entry(old_s, i);
                    if kk == kv {
                        lemma_sorted_unique(keys_of(s), i, p as int);
                    }
                } else {
                    assert(s[p as int].1@ == vv);
                }
            }
            assert(map_of(s) =~= map_of(old_s).insert(kv, vv));
        }
    } else {
        m.insert(p, (k, v));
        proof {
            let s = m@;
            assert(s =~= old_s.insert(p as int, (s[p as int].0, s[p as int].1)));
            assert(keys_of(s) =~= keys_of(old_s).insert(p as int, kv));
            assert forall|i: int, j: int| 0 <= i < j < keys_of(s).len() implies text_lt(
                #[trigger] keys_of(s)[i],
                #[trigger] keys_of(s)[j],
            ) by {
                if j < p {
                    assert(text_lt(keys_of(old_s)[i], keys_of(old_s)[j]));
                } else if j == p {
                    assert(text_lt(old_s[i].0@, kv));
                } else if i < p {
                    assert(text_lt(keys_of(old_s)[i], keys_of(old_s)[j - 1]));
                } else if i == p {
                    assert(!text_lt(old_s[p as int].0@, kv));
                    assert(old_s[p as int].0@ != kv);
                    crate::shared::order::lemma_text_lt_total(old_s[p as int].0@, kv);
                    if j - 1 > p {
                        assert(text_lt(keys_of(old_s)[p as int], keys_of(old_s)[j - 1]));
                        lemma_text_lt_transitive(kv, old_s[p as int].0@, old_s[j - 1].0@);
                    }
                } else {
                    assert(text_lt(keys_of(old_s)[i - 1], keys_of(old_s)[j - 1]));
                }
            }
            assert forall|kk: Seq<char>| #[trigger]
                map_of(s).contains_key(kk) == map_of(old_s).insert(kv, vv).contains_key(kk) by {
                lemma_map_of_dom(s, kk);
                lemma_map_of_dom(old_s, kk);
                if exists|i: int| 0 <= i < old_s.len() && (#[trigger] old_s[i]).0@ == kk {
                    let i = choose|i: int| 0 <= i < old_s.len() && (#[trigger] old_s[i]).0@ == kk;
                    if i < p {
                        assert(s[i].0@ == kk);
                    } else {
                        assert(s[i + 1].0@ == kk);
                    }
                }
                if kk == kv {
                    assert(s[p as int].0@ == kk);
                }
                if exists|i: int| 0 <= i < s.len() && (#[trigger] s[i]).0@ == kk {
                    let i = choose|i: int| 0 <= i < s.len() && (#[trigger] s[i]).0@ == kk;
                    if i < p {
                        assert(old_s[i].0@ == kk);
                    } else if i > p {
                        assert(old_s[i - 1].0@ == kk);
                    }
                }
            }
            assert forall|kk: Seq<char>| #[trigger] map_of(s).contains_key(kk) implies map_of(s)[kk]
                == map_of(old_s).insert(kv, vv)[kk] by {
                lemma_map_of_dom(s, kk);
                let i = choose|i: int| 0 <= i < s.len() && (#[trigger] s[i]).0@ == kk;
                lemma_map_of_entry(s, i);
                if i < p {
                    assert(old_s[i] == s[i]);
                    lemma_map_of_entry(old_s, i);
                    if kk == kv {
                        assert(text_lt(old_s[i].0@, kv));
                        lemma_text_lt_irreflexive(kv);
                    }
                } else if i > p {
                    assert(old_s[i - 1] == s[i]);
                    lemma_map_of_entry(old_s, i - 1);
                    if kk == kv {
                        lemma_sorted_unique(keys_of(s), i, p as int);
                    }
                }
            }
            assert(map_of(s) =~= map_of(old_s).insert(kv, vv));
        }
    }
}

/// Removes the entry for `k`, returning its value.
pub fn remove_key<V: View>(m: &mut Vec<(RepoId, V)>, k: &RepoId) -> (r: Option<V>)
    requires
        sorted_keys(keys_of(old(m)@)),
    ensures
        sorted_keys(keys_of(final(m)@)),
        map_of(final(m)@) == map_of(old(m)@).remove(k@),
        r is Some <==> map_of(old(m)@).contains_key(k@),
        r matches Some(v) ==> v@ == map_of(old(m)@)[k@],
{
    let ghost old_s = m@;
    proof {
        lemma_map_of_dom(old_s, k@);
    }
    match find_key(m, k) {
        None => {
            proof {
                if exists|i: int| 0 <= i < old_s.len() && (#[trigger] old_s[i]).0@ == k@ {
                    let i = choose|i: int| 0 <= i < old_s.len() && (#[trigger] old_s[i]).0@ == k@;
                    assert(keys_of(old_s)[i] == k@);
                }
                assert(map_of(old_s).remove(k@) =~= map_of(old_s));
            }
            None
        },
        Some(p) => {
            let (_, v) = m.remove(p);
            proof {
                let s = m@;
                lemma_map_of_entry(old_s, p as int);
                assert(s =~= old_s.remove(p as int));
                assert(keys_of(s) =~= keys_of(old_s).remove(p as int));
                assert forall|i: int, j: int| 0 <= i < j < keys_of(s).len() implies text_lt(
                    #[trigger] keys_of(s)[i],
                    #[trigger] keys_of(s)[j],
                ) by {
                    if j < p {
                        assert(text_lt(keys_of(old_s)[i], keys_of(old_s)[j]));
                    } else if i < p {
                        assert(text_lt(keys_of(old_s)[i], keys_of(old_s)[j + 1]));
                    } else {
                        assert(text_lt(keys_of(old_s)[i + 1], keys_of(old_s)[j + 1]));
                    }
                }
                assert forall|kk: Seq<char>| #[trigger]
                    map_of(s).contains_key(kk) == map_of(old_s).remove(k@).contains_key(kk) by {
                    lemma_map_of_dom(s, kk);
                    lemma_map_of_dom(old_s, kk);
                    if exists|i: int| 0 <= i < old_s.len() && (#[trigger] old_s[i]).0@ == kk {
                        let i = choose|i: int|
                            0 <= i < old_s.len() && (#[trigger] old_s[i]).0@ == kk;
                        if i < p {
                            assert(s[i].0@ == kk);
                        } else if i > p {
                            assert(s[i - 1].0@ == kk);
                        }
                        if kk == k@ {
                            lemma_sorted_unique(keys_of(old_s), i, p as int);
                        }
                    }
                    if exists|i: int| 0 <= i < s.len() && (#[trigger] s[i]).0@ == kk {
                        let i = choose|i: int| 0 <= i < s.len() && (#[trigger] s[i]).0@ == kk;
                        if i < p {
                            assert(old_s[i].0@ == kk);
                            if kk == k@ {
                                lemma_sorted_unique(keys_of(old_s), i, p as int);
                            }
                        } else {
                            assert(old_s[i + 1].0@ == kk);
                            if kk == k@ {
                                lemma_sorted_unique(keys_of(old_s), i + 1, p as int);
                            }
                        }
                    }
                }
                assert forall|kk: Seq<char>| #[trigger] map_of(s).contains_key(kk) implies map_of(
                    s,
                )[kk] == map_of(old_s).remove(k@)[kk] by {
                    lemma_map_of_dom(s, kk);
                    let i = choose|i: int| 0 <= i < s.len() && (#[trigger] s[i]).0@ == kk;
                    lemma_map_of_entry(s, i);
                    if i < p {
                        assert(old_s[i] == s[i]);
                        lemma_map_of_entry(old_s, i);
                    } else {
                        assert(old_s[i + 1] == s[i]);
                        lemma_map_of_entry(old_s, i + 1);
                    }
                }
                assert(map_of(s) =~= map_of(old_s).remove(k@));
            }
            Some(v)
        },
    }
}

} // verus!
