//! The merge engine: the registry of known records, keyed by name.
//!
//! Merging a record into the registry is an upsert.  A new name is appended,
//! so iteration order is order of first appearance.  A known name has its
//! `enabled` flag overwritten unconditionally, while its `url` is overwritten
//! only by an incoming record that carries one: a known URL is never erased.

use vstd::prelude::*;

use crate::record::Repo;
use crate::record::RepoModel;

verus! {

/// The registry a vector of records stands for.
pub open spec fn models(v: Seq<Repo>) -> Seq<RepoModel> {
    v.map_values(|r: Repo| r@)
}

/// The position of the first record named `name`, at or after `i`.
pub open spec fn find_name_from(s: Seq<RepoModel>, name: Seq<char>, i: int) -> Option<int>
    decreases s.len() - i,
{
    if i < 0 || i >= s.len() {
        None
    } else if s[i].name == name {
        Some(i)
    } else {
        find_name_from(s, name, i + 1)
    }
}

/// The record the registry holds under `name`, if any.
pub open spec fn registry_lookup(s: Seq<RepoModel>, name: Seq<char>) -> Option<RepoModel> {
    match find_name_from(s, name, 0) {
        Some(i) => Some(s[i]),
        None => None,
    }
}

/// No two records share a name.
pub open spec fn names_unique(s: Seq<RepoModel>) -> bool {
    forall|i: int, j: int| 0 <= i < j < s.len() ==> s[i].name != s[j].name
}

/// An existing record overridden by an incoming one of the same name: the
/// incoming `enabled` wins; the incoming `url` wins only when it is present.
pub open spec fn merged_record(known: RepoModel, incoming: RepoModel) -> RepoModel {
    RepoModel {
        name: known.name,
        url: if incoming.url is Some {
            incoming.url
        } else {
            known.url
        },
        enabled: incoming.enabled,
    }
}

/// The registry after one record arrives: an upsert keyed by name.
pub open spec fn merge_spec(s: Seq<RepoModel>, r: RepoModel) -> Seq<RepoModel> {
    match find_name_from(s, r.name, 0) {
        None => s.push(r),
        Some(i) => s.update(i, merged_record(s[i], r)),
    }
}

/// What `find_name_from` yields: the first hit, with no record of that name
/// before it, or no hit at all.
pub proof fn lemma_find_name_from(s: Seq<RepoModel>, name: Seq<char>, i: int)
    requires
        0 <= i <= s.len(),
    ensures
        match find_name_from(s, name, i) {
            Some(j) => i <= j < s.len() && s[j].name == name && (forall|k: int|
                i <= k < j ==> s[k].name != name),
            None => forall|k: int| i <= k < s.len() ==> s[k].name != name,
        },
    decreases s.len() - i,
{
    if i < s.len() && s[i].name != name {
        lemma_find_name_from(s, name, i + 1);
    }
}

/// Appending a record moves the search past the old end.
proof fn lemma_find_name_push(s: Seq<RepoModel>, r: RepoModel, name: Seq<char>, i: int)
    requires
        0 <= i <= s.len(),
    ensures
        find_name_from(s.push(r), name, i) == (match find_name_from(s, name, i) {
            Some(j) => Some(j),
            None => if r.name == name {
                Some(s.len() as int)
            } else {
                None::<int>
            },
        }),
    decreases s.len() - i,
{
    assert(s.push(r).len() == s.len() + 1);
    assert(s.push(r)[s.len() as int] == r);
    if i < s.len() {
        assert(s.push(r)[i] == s[i]);
        if s[i].name != name {
            lemma_find_name_push(s, r, name, i + 1);
        }
    }
}

/// Two registries whose records carry the same names position for position
/// are searched alike.
proof fn lemma_find_name_same_names(s1: Seq<RepoModel>, s2: Seq<RepoModel>, name: Seq<char>, i: int)
    requires
        0 <= i <= s1.len(),
        s1.len() == s2.len(),
        forall|j: int| 0 <= j < s1.len() ==> s1[j].name == s2[j].name,
    ensures
        find_name_from(s1, name, i) == find_name_from(s2, name, i),
    decreases s1.len() - i,
{
    if i < s1.len() && s1[i].name != name {
        lemma_find_name_same_names(s1, s2, name, i + 1);
    }
}

/// What one merge does to the registry: the merged name is afterwards bound
/// to a record with the incoming `enabled`, with the incoming `url` when one
/// came, and with the known `url` otherwise; every other position keeps its
/// name, and at most one record is added.
pub proof fn lemma_merge_lookup(s: Seq<RepoModel>, r: RepoModel)
    ensures
        match registry_lookup(merge_spec(s, r), r.name) {
            Some(m) => m.name == r.name && m.enabled == r.enabled && (r.url is Some ==> m.url
                == r.url) && (r.url is None ==> m.url == (match registry_lookup(s, r.name) {
                Some(known) => known.url,
                None => None::<Seq<char>>,
            })),
            None => false,
        },
        registry_lookup(s, r.name) is Some ==> merge_spec(s, r).len() == s.len(),
        registry_lookup(s, r.name) is None ==> merge_spec(s, r).len() == s.len() + 1,
        forall|j: int| 0 <= j < s.len() ==> merge_spec(s, r)[j].name == s[j].name,
{
    lemma_find_name_from(s, r.name, 0);
    match find_name_from(s, r.name, 0) {
        None => {
            lemma_find_name_push(s, r, r.name, 0);
        },
        Some(i) => {
            let s2 = s.update(i, merged_record(s[i], r));
            lemma_find_name_same_names(s, s2, r.name, 0);
        },
    }
}

/// Merging one record leaves every other name bound as it was.
pub proof fn lemma_merge_other_names(s: Seq<RepoModel>, r: RepoModel, name: Seq<char>)
    requires
        name != r.name,
    ensures
        registry_lookup(merge_spec(s, r), name) == registry_lookup(s, name),
{
    lemma_find_name_from(s, r.name, 0);
    match find_name_from(s, r.name, 0) {
        None => {
            lemma_find_name_push(s, r, name, 0);
            lemma_find_name_from(s, name, 0);
            match find_name_from(s, name, 0) {
                Some(j) => {
                    assert(s.push(r)[j] == s[j]);
                },
                None => {},
            }
        },
        Some(i) => {
            let s2 = s.update(i, merged_record(s[i], r));
            lemma_find_name_same_names(s, s2, name, 0);
            lemma_find_name_from(s2, name, 0);
            match find_name_from(s2, name, 0) {
                Some(j) => {
                    assert(s2[j].name == name);
                    assert(j != i);
                    assert(s2[j] == s[j]);
                },
                None => {},
            }
        },
    }
}

/// Merging keeps names unique.
pub proof fn lemma_merge_keeps_unique(s: Seq<RepoModel>, r: RepoModel)
    requires
        names_unique(s),
    ensures
        names_unique(merge_spec(s, r)),
{
    lemma_find_name_from(s, r.name, 0);
    match find_name_from(s, r.name, 0) {
        None => {
            let s2 = s.push(r);
            assert forall|i: int, j: int| 0 <= i < j < s2.len() implies s2[i].name
                != s2[j].name by {
                if j == s.len() {
                    assert(s2[i] == s[i]);
                    assert(s2[j] == r);
                } else {
                    assert(s2[i] == s[i]);
                    assert(s2[j] == s[j]);
                }
            }
        },
        Some(i) => {
            let s2 = s.update(i, merged_record(s[i], r));
            assert forall|a: int, b: int| 0 <= a < b < s2.len() implies s2[a].name
                != s2[b].name by {
                assert(s2[a].name == s[a].name);
                assert(s2[b].name == s[b].name);
            }
        },
    }
}

/// Last writer wins for `enabled`: after two records of one name are merged
/// in sequence, the registry holds the second one's flag, whatever the first
/// said and whatever was there before.
pub proof fn lemma_merge_enabled_last_wins(s: Seq<RepoModel>, a: RepoModel, b: RepoModel)
    requires
        a.name == b.name,
    ensures
        match registry_lookup(merge_spec(merge_spec(s, a), b), b.name) {
            Some(m) => m.enabled == b.enabled,
            None => false,
        },
{
    lemma_merge_lookup(merge_spec(s, a), b);
}

/// A known URL survives an update that supplies none: after a record with a
/// URL and then one of the same name without any are merged, the registry
/// holds the first one's URL and the second one's flag.
pub proof fn lemma_merge_keeps_url(s: Seq<RepoModel>, a: RepoModel, b: RepoModel)
    requires
        a.name == b.name,
        a.url is Some,
        b.url is None,
    ensures
        match registry_lookup(merge_spec(merge_spec(s, a), b), b.name) {
            Some(m) => m.name == a.name && m.url == a.url && m.enabled == b.enabled,
            None => false,
        },
{
    lemma_merge_lookup(s, a);
    lemma_merge_lookup(merge_spec(s, a), b);
}

/// Reconciles a newly parsed record into the registry.
pub fn merge_repo(v: &mut Vec<Repo>, r: Repo)
    ensures
        models(final(v)@) == merge_spec(models(old(v)@), r@),
{
    let n = v.len();
    let mut i: usize = 0;
    while i < n
        invariant
            i <= n,
            n == v.len(),
            v@ == old(v)@,
            find_name_from(models(v@), r@.name, 0) == find_name_from(
                models(v@),
                r@.name,
                i as int,
            ),
        decreases n - i,
    {
        proof {
            assert(models(v@)[i as int] == v@[i as int]@);
        }
        if v[i].name == r.name {
            let name2 = v[i].name.clone();
            let url2 = match r.url {
                Some(u) => Some(u),
                None => match &v[i].url {
                    Some(u) => Some(u.clone()),
                    None => None,
                },
            };
            let merged = Repo { name: name2, url: url2, enabled: r.enabled };
            proof {
                assert(merged@ == merged_record(models(old(v)@)[i as int], r@));
            }
            v[i] = merged;
            proof {
                assert(models(v@) =~= models(old(v)@).update(i as int, merged@));
            }
            return ;
        }
        i = i + 1;
    }
    v.push(r);
    proof {
        assert(models(v@) =~= models(old(v)@).push(r@));
    }
}

} // verus!
