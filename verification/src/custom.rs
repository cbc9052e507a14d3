//! Overlays that the user added by hand (custom.toml).
use crate::types::{RemoteOrigin, RemoteRepo, RemoteRepoView, SyncKind, SyncType};
use vstd::prelude::*;

verus! {

broadcast use vstd::string::group_string_axioms;

/// One entry of custom.toml.
#[derive(Debug)]
pub struct CustomEntry {
    pub name: String,
    pub url: String,
    pub description: Option<String>,
}

/// The overlay that a custom entry describes.
pub open spec fn spec_custom_repo(name: Seq<char>, url: Seq<char>, description: Option<Seq<char>>) -> RemoteRepoView {
    RemoteRepoView {
        name,
        description: match description {
            Some(d) => d,
            None => Seq::empty(),
        },
        homepage: url,
        owner: "user"@,
        sources: seq![(SyncKind::Git, url)],
        quality: "unknown"@,
        status: "unofficial"@,
        origin: RemoteOrigin::Custom,
    }
}

/// An entry as plain values: name, URL and description.
pub open spec fn spec_entry_of(r: RemoteRepoView) -> (Seq<char>, Seq<char>, Option<Seq<char>>) {
    (
        r.name,
        if r.sources.len() > 0 {
            r.sources[0].1
        } else {
            Seq::<char>::empty()
        },
        if r.description.len() == 0 {
            None
        } else {
            Some(r.description)
        },
    )
}

impl CustomEntry {
    /// Name, URL and description.
    pub open spec fn model(&self) -> (Seq<char>, Seq<char>, Option<Seq<char>>) {
        (self.name@, self.url@, self.description.deep_view())
    }

    /// The overlay this entry describes.
    pub fn to_remote(self) -> (r: RemoteRepo)
        ensures
            r@ == spec_custom_repo(self.name@, self.url@, self.description.deep_view()),
    {
        let mut sources: Vec<(SyncType, String)> = Vec::new();
        sources.push((SyncType::Git, self.url.clone()));
        let r = RemoteRepo {
            name: self.name,
            description: match self.description {
                Some(d) => d,
                None => String::new(),
            },
            homepage: self.url,
            owner: String::from_str("user"),
            sources,
            quality: String::from_str("unknown"),
            status: String::from_str("unofficial"),
            origin: RemoteOrigin::Custom,
        };
        assert(r.sources.deep_view() =~= seq![(SyncKind::Git, r.homepage@)]);
        r
    }

    /// The entry that stores an overlay: its name, the url of its first
    /// source (empty without one), and its description unless empty.
    pub fn from_remote(r: &RemoteRepo) -> (e: CustomEntry)
        ensures
            e.model() == spec_entry_of(r@),
    {
        let url = if r.sources.len() > 0 {
            r.sources[0].1.clone()
        } else {
            String::new()
        };
        let description = if r.description.unicode_len() == 0 {
            None
        } else {
            Some(r.description.clone())
        };
        CustomEntry { name: r.name.clone(), url, description }
    }
}

/// The overlays of custom.toml, in file order.
pub fn custom_repos(entries: Vec<CustomEntry>) -> (r: Vec<RemoteRepo>)
    ensures
        r.len() == entries.len(),
        forall|i: int| 0 <= i < r.len() ==> #[trigger] r[i]@ == spec_custom_repo(
            entries[i].name@,
            entries[i].url@,
            entries[i].description.deep_view(),
        ),
{
    let ghost orig = entries@;
    let mut r: Vec<RemoteRepo> = Vec::new();
    let mut rest = entries;
    assert(rest@ =~= orig.subrange(0, orig.len() as int));
    while rest.len() > 0
        invariant
            r.len() <= orig.len(),
            rest@ == orig.subrange(r.len() as int, orig.len() as int),
            forall|i: int| 0 <= i < r.len() ==> #[trigger] r[i]@ == spec_custom_repo(
                orig[i].name@,
                orig[i].url@,
                orig[i].description.deep_view(),
            ),
        decreases rest.len(),
    {
        let ghost k = r.len();
        let e = rest.remove(0);
        assert(e == orig[k as int]);
        r.push(e.to_remote());
        assert(rest@ =~= orig.subrange(r.len() as int, orig.len() as int));
    }
    r
}

/// The entries to write after saving `repo`: the stored overlays and
/// then `repo`; `None` when an overlay of that name is stored already.
pub fn entries_after_save(existing: &Vec<RemoteRepo>, repo: &RemoteRepo) -> (r: Option<Vec<CustomEntry>>)
    ensures
        r is None <==> exists|i: int| 0 <= i < existing.len() && #[trigger] existing[i]@.name == repo@.name,
        r matches Some(es) ==> es.len() == existing.len() + 1 && (forall|i: int|
            0 <= i < existing.len() ==> #[trigger] es[i].model() == spec_entry_of(existing[i]@))
            && es[existing.len() as int].model() == spec_entry_of(repo@),
{
    let mut i: usize = 0;
    while i < existing.len()
        invariant
            0 <= i <= existing.len(),
            forall|j: int| 0 <= j < i ==> #[trigger] existing[j]@.name != repo@.name,
        decreases existing.len() - i,
    {
        if crate::text::str_eq(existing[i].name.as_str(), repo.name.as_str()) {
            assert(existing[i as int]@.name == repo@.name);
            return None;
        }
        i += 1;
    }
    let mut es: Vec<CustomEntry> = Vec::new();
    let mut k: usize = 0;
    while k < existing.len()
        invariant
            0 <= k <= existing.len(),
            es.len() == k,
            forall|j: int| 0 <= j < k ==> #[trigger] es[j].model() == spec_entry_of(existing[j]@),
        decreases existing.len() - k,
    {
        es.push(CustomEntry::from_remote(&existing[k]));
        k += 1;
    }
    es.push(CustomEntry::from_remote(repo));
    Some(es)
}

} // verus!
