//! The merged overlay list of all sources.
use crate::packages::{lemma_seq_lt_total, lemma_seq_lt_trans};
use crate::text::{chars_eq, chars_lt, lower_text, seq_le, seq_lt, to_chars, to_lowercase};
use crate::types::{spec_repo_id, RemoteRepo, RemoteRepoView};
use vstd::prelude::*;

verus! {

broadcast use vstd::string::group_string_axioms;

/// Cache lifetime in seconds (24 hours).
pub const CACHE_TTL: u64 = 86400;

/// Unified overlay list from all sources with deduplication.
pub struct SourceSet {
    pub repos: Vec<RemoteRepo>,
}

impl SourceSet {
    /// The merged list of the overlays of the official registry and those
    /// found on GitHub: where two share a key the registry's (the earlier
    /// one) is kept, and the list is ordered by name.
    pub fn build(registry: Vec<RemoteRepo>, github: Vec<RemoteRepo>) -> (s: SourceSet)
        ensures
            sorted_by_name(s.repos.deep_view()),
            s.repos.deep_view().to_multiset() == firsts(
                registry.deep_view() + github.deep_view(),
            ).to_multiset(),
            distinct_keys(s.repos.deep_view()),
    {
        let ghost rv = registry.deep_view();
        let ghost gv = github.deep_view();
        let mut all = registry;
        let mut more = github;
        all.append(&mut more);
        assert(all.deep_view() =~= rv + gv);
        SourceSet { repos: dedup(all) }
    }
}

/// Whether a cache of this age (seconds; `None` when unknown) is used:
/// only a cache known to be older than the lifetime is rebuilt.
pub fn cache_is_fresh(age_secs: Option<u64>) -> (r: bool)
    ensures
        r == !(age_secs matches Some(a) && a > CACHE_TTL),
{
    match age_secs {
        Some(a) => a <= CACHE_TTL,
        None => true,
    }
}

/// The deduplication key: the canonical git URL, else the lowercase name.
pub open spec fn dedup_key(r: RemoteRepoView) -> Seq<char> {
    match spec_repo_id(r) {
        Some(id) => id,
        None => lower_text(r.name),
    }
}

/// The first overlay of each key, in list order.
pub open spec fn firsts(rs: Seq<RemoteRepoView>) -> Seq<RemoteRepoView>
    decreases rs.len(),
{
    if rs.len() == 0 {
        Seq::empty()
    } else {
        let prev = firsts(rs.drop_last());
        if exists|j: int| 0 <= j < rs.len() - 1 && dedup_key(#[trigger] rs[j]) == dedup_key(rs.last()) {
            prev
        } else {
            prev.push(rs.last())
        }
    }
}

/// Ascending by name.
pub open spec fn sorted_by_name(rs: Seq<RemoteRepoView>) -> bool {
    forall|i: int, j: int| 0 <= i < j < rs.len() ==> seq_le(#[trigger] rs[i].name, #[trigger] rs[j].name)
}

/// No two overlays share a key.
pub open spec fn distinct_keys(rs: Seq<RemoteRepoView>) -> bool {
    forall|i: int, j: int| 0 <= i < j < rs.len() ==> dedup_key(#[trigger] rs[i]) != dedup_key(#[trigger] rs[j])
}

/// The deduplication key of one overlay.
pub fn key_of(r: &RemoteRepo) -> (k: String)
    ensures
        k@ == dedup_key(r@),
{
    match r.repo_id() {
        Some(id) => id,
        None => {
            proof {
                reveal(crate::text::lower_text);
            }
            to_lowercase(r.name.as_str())
        },
    }
}

proof fn lemma_firsts_prefix(rs: Seq<RemoteRepoView>, i: int)
    requires
        0 <= i < rs.len(),
    ensures
        firsts(rs.subrange(0, i + 1)) == (if exists|j: int|
            0 <= j < i && dedup_key(#[trigger] rs[j]) == dedup_key(rs[i]) {
            firsts(rs.subrange(0, i))
        } else {
            firsts(rs.subrange(0, i)).push(rs[i])
        }),
{
    let s = rs.subrange(0, i + 1);
    assert(s.drop_last() =~= rs.subrange(0, i));
    assert(s.last() == rs[i]);
    if exists|j: int| 0 <= j < i && dedup_key(#[trigger] rs[j]) == dedup_key(rs[i]) {
        let j = choose|j: int| 0 <= j < i && dedup_key(#[trigger] rs[j]) == dedup_key(rs[i]);
        assert(s[j] == rs[j]);
    } else {
        assert forall|j: int| 0 <= j < s.len() - 1 implies dedup_key(#[trigger] s[j]) != dedup_key(s.last()) by {
            assert(s[j] == rs[j]);
        }
    }
}

/// Deduplication by normalized repo_id.
///
/// If two overlays have the same canonical URL (or, without a git
/// source, the same lowercase name), the one that appears earlier in the
/// list is kept; the result is ordered by name.
pub fn dedup(repos: Vec<RemoteRepo>) -> (r: Vec<RemoteRepo>)
    ensures
        sorted_by_name(r.deep_view()),
        r.deep_view().to_multiset() == firsts(repos.deep_view()).to_multiset(),
        distinct_keys(r.deep_view()),
{
    let ghost all = repos.deep_view();
    let mut keys: Vec<Vec<char>> = Vec::new();
    let mut n: usize = 0;
    while n < repos.len()
        invariant
            0 <= n <= repos.len(),
            all == repos.deep_view(),
            keys.len() == n,
            forall|k: int| 0 <= k < n ==> #[trigger] keys[k]@ == dedup_key(all[k]),
        decreases repos.len() - n,
    {
        let k = key_of(&repos[n]);
        keys.push(to_chars(k.as_str()));
        n += 1;
    }
    // keep the first overlay of each key
    let mut kept: Vec<RemoteRepo> = Vec::new();
    let mut i: usize = 0;
    assert(all.subrange(0, 0) =~= Seq::<RemoteRepoView>::empty());
    assert(kept.deep_view() =~= Seq::<RemoteRepoView>::empty());
    while i < repos.len()
        invariant
            0 <= i <= repos.len(),
            all == repos.deep_view(),
            keys.len() == repos.len(),
            forall|k: int| 0 <= k < keys.len() ==> #[trigger] keys[k]@ == dedup_key(all[k]),
            kept.deep_view() == firsts(all.subrange(0, i as int)),
            forall|k: int|
                0 <= k < kept.len() ==> exists|j: int|
                    0 <= j < i && #[trigger] kept.deep_view()[k] == all[j],
            distinct_keys(kept.deep_view()),
        decreases repos.len() - i,
    {
        let mut seen = false;
        let mut j: usize = 0;
        while j < i
            invariant
                0 <= j <= i < keys.len(),
                !seen ==> forall|m: int| 0 <= m < j ==> #[trigger] keys[m]@ != keys[i as int]@,
                seen ==> exists|m: int| 0 <= m < i && #[trigger] keys[m]@ == keys[i as int]@,
            decreases i - j,
        {
            if chars_eq(&keys[j], &keys[i]) {
                seen = true;
            }
            j += 1;
        }
        proof {
            lemma_firsts_prefix(all, i as int);
            if seen {
                let m = choose|m: int| 0 <= m < i && #[trigger] keys[m]@ == keys[i as int]@;
                assert(dedup_key(all[m]) == dedup_key(all[i as int]));
            } else {
                assert forall|m: int| 0 <= m < i implies dedup_key(#[trigger] all[m]) != dedup_key(
                    all[i as int],
                ) by {
                    assert(keys[m]@ != keys[i as int]@);
                }
            }
        }
        if !seen {
            let ghost before = kept.deep_view();
            kept.push(repos[i].duplicate());
            proof {
                assert(kept.deep_view() =~= before.push(all[i as int]));
                assert forall|k2: int| 0 <= k2 < kept.len() implies exists|j2: int|
                    0 <= j2 < i + 1 && #[trigger] kept.deep_view()[k2] == all[j2] by {
                    if k2 < before.len() {
                        let j2 = choose|j2: int| 0 <= j2 < i && #[trigger] before[k2] == all[j2];
                        assert(kept.deep_view()[k2] == all[j2]);
                    } else {
                        assert(kept.deep_view()[k2] == all[i as int]);
                    }
                }
                assert forall|a: int, b: int| 0 <= a < b < kept.len() implies dedup_key(
                    #[trigger] kept.deep_view()[a],
                ) != dedup_key(#[trigger] kept.deep_view()[b]) by {
                    assert(kept.deep_view()[a] == before[a]);
                    if b == before.len() {
                        let j2 = choose|j2: int| 0 <= j2 < i && #[trigger] before[a] == all[j2];
                        assert(kept.deep_view()[b] == all[i as int]);
                        assert(dedup_key(all[j2]) != dedup_key(all[i as int]));
                    } else {
                        assert(kept.deep_view()[b] == before[b]);
                    }
                }
            }
        } else {
            proof {
                assert forall|k2: int| 0 <= k2 < kept.len() implies exists|j2: int|
                    0 <= j2 < i + 1 && #[trigger] kept.deep_view()[k2] == all[j2] by {
                    let j2 = choose|j2: int| 0 <= j2 < i && #[trigger] kept.deep_view()[k2] == all[j2];
                }
            }
        }
        i += 1;
    }
    assert(all.subrange(0, i as int) =~= all);
    sort_by_name(kept)
}

/// Stable sort by name.
#[verifier::spinoff_prover]
#[verifier::rlimit(40)]
pub fn sort_by_name(v: Vec<RemoteRepo>) -> (r: Vec<RemoteRepo>)
    ensures
        sorted_by_name(r.deep_view()),
        r.deep_view().to_multiset() == v.deep_view().to_multiset(),
        distinct_keys(v.deep_view()) ==> distinct_keys(r.deep_view()),
{
    let ghost vv = v.deep_view();
    let mut r: Vec<RemoteRepo> = Vec::new();
    let mut i: usize = 0;
    assert(vv.subrange(0, 0) =~= Seq::<RemoteRepoView>::empty());
    assert(r.deep_view() =~= Seq::<RemoteRepoView>::empty());
    while i < v.len()
        invariant
            0 <= i <= v.len(),
            vv == v.deep_view(),
            sorted_by_name(r.deep_view()),
            r.deep_view().to_multiset() == vv.subrange(0, i as int).to_multiset(),
            forall|k: int| 0 <= k < r.len() ==> exists|j: int| 0 <= j < i && #[trigger] r.deep_view()[k] == vv[j],
            distinct_keys(vv) ==> forall|k: int, j: int| 0 <= k < r.len() && i <= j < vv.len() ==> dedup_key(#[trigger] r.deep_view()[k]) != dedup_key(#[trigger] vv[j]),
            distinct_keys(vv) ==> distinct_keys(r.deep_view()),
        decreases v.len() - i,
    {
        let x = v[i].duplicate();
        let xc = to_chars(x.name.as_str());
        let mut k: usize = r.len();
        while k > 0 && chars_lt(&xc, &to_chars(r[k - 1].name.as_str()))
            invariant
                0 <= k <= r.len(),
                forall|j: int| k <= j < r.len() ==> seq_lt(xc@, #[trigger] r.deep_view()[j].name),
            decreases k,
        {
            k -= 1;
        }
        proof {
            if k > 0 {
                lemma_seq_lt_total(xc@, r.deep_view()[k - 1].name);
            }
        }
        let ghost before = r.deep_view();
        let ghost xv = x@;
        r.insert(k, x);
        proof {
            assert(r.deep_view() =~= before.insert(k as int, xv));
            assert forall|a: int, b: int| 0 <= a < b < r.deep_view().len() implies seq_le(
                #[trigger] r.deep_view()[a].name,
                #[trigger] r.deep_view()[b].name,
            ) by {
                if a < k && b == k {
                    if k > 0 && a < k - 1 {
                        assert(seq_le(before[a].name, before[k - 1].name));
                        if seq_lt(before[a].name, before[k - 1].name) && seq_lt(before[k - 1].name, xc@) {
                            lemma_seq_lt_trans(before[a].name, before[k - 1].name, xc@);
                        }
                    }
                } else if a == k && b > k {
                    assert(seq_lt(xc@, before[b - 1].name));
                } else if a < k && b > k {
                    assert(seq_le(before[a].name, before[b - 1].name));
                } else if a > k {
                    assert(seq_le(before[a - 1].name, before[b - 1].name));
                } else {
                    assert(seq_le(before[a].name, before[b].name));
                }
            }
            assert(vv.subrange(0, i + 1) =~= vv.subrange(0, i as int).push(xv));
            vstd::seq_lib::to_multiset_insert(before, k as int, xv);
            vstd::seq_lib::to_multiset_build(vv.subrange(0, i as int), xv);
            assert forall|k2: int| 0 <= k2 < r.len() implies exists|j: int| 0 <= j < i + 1 && #[trigger] r.deep_view()[k2] == vv[j] by {
                if k2 < k {
                    let j = choose|j: int| 0 <= j < i && #[trigger] before[k2] == vv[j];
                    assert(r.deep_view()[k2] == vv[j]);
                } else if k2 == k {
                    assert(r.deep_view()[k2] == vv[i as int]);
                } else {
                    let j = choose|j: int| 0 <= j < i && #[trigger] before[k2 - 1] == vv[j];
                    assert(r.deep_view()[k2] == vv[j]);
                }
            }
            if distinct_keys(vv) {
                assert forall|k2: int, j: int| 0 <= k2 < r.len() && i + 1 <= j < vv.len() implies dedup_key(#[trigger] r.deep_view()[k2]) != dedup_key(#[trigger] vv[j]) by {
                    if k2 < k {
                        assert(r.deep_view()[k2] == before[k2]);
                    } else if k2 == k {
                        assert(r.deep_view()[k2] == vv[i as int]);
                    } else {
                        assert(r.deep_view()[k2] == before[k2 - 1]);
                    }
                }
                assert forall|a: int, b: int| 0 <= a < b < r.len() implies dedup_key(#[trigger] r.deep_view()[a]) != dedup_key(#[trigger] r.deep_view()[b]) by {
                    if a == k {
                        assert(r.deep_view()[a] == vv[i as int]);
                        assert(r.deep_view()[b] == before[b - 1]);
                    } else if b == k {
                        assert(r.deep_view()[b] == vv[i as int]);
                        assert(r.deep_view()[a] == before[a]);
                    } else if a < k && b > k {
                        assert(r.deep_view()[a] == before[a]);
                        assert(r.deep_view()[b] == before[b - 1]);
                    } else if a > k {
                        assert(r.deep_view()[a] == before[a - 1]);
                        assert(r.deep_view()[b] == before[b - 1]);
                    } else {
                        assert(r.deep_view()[a] == before[a]);
                        assert(r.deep_view()[b] == before[b]);
                    }
                }
            }
        }
        i += 1;
    }
    assert(vv.subrange(0, i as int) =~= vv);
    r
}

} // verus!
