use overlay_manager::sources::{cache_is_fresh, dedup, SourceSet};
use overlay_manager::types::{RemoteOrigin, RemoteRepo, SyncType};

fn make_repo(name: &str, url: &str) -> RemoteRepo {
    RemoteRepo {
        name: name.into(),
        description: "".into(),
        homepage: "".into(),
        owner: "".into(),
        sources: vec![(SyncType::Git, url.into())],
        quality: "".into(),
        status: "".into(),
        origin: RemoteOrigin::GentooRegistry,
    }
}

#[test]
fn dedup_same_url() {
    let repos = vec![
        make_repo("a", "https://github.com/x/y.git"),
        make_repo("b", "https://github.com/x/y"),
    ];
    let result = dedup(repos);
    assert_eq!(result.len(), 1);
}

#[test]
fn dedup_different_urls() {
    let repos = vec![
        make_repo("a", "https://github.com/x/a.git"),
        make_repo("b", "https://github.com/x/b.git"),
    ];
    let result = dedup(repos);
    assert_eq!(result.len(), 2);
}

#[test]
fn dedup_keeps_first() {
    let repos = vec![
        make_repo("first", "https://github.com/x/y.git"),
        make_repo("second", "https://github.com/x/y"),
    ];
    let result = dedup(repos);
    assert_eq!(result.len(), 1);
    assert_eq!(result[0].name, "first");
}

#[test]
fn dedup_sorted_result() {
    let repos = vec![make_repo("z", "https://a"), make_repo("a", "https://b")];
    let result = dedup(repos);
    assert_eq!(result[0].name, "a");
    assert_eq!(result[1].name, "z");
}

#[test]
fn dedup_without_git_source_uses_name() {
    let mut a = make_repo("Same", "x");
    a.sources = vec![(SyncType::Rsync, "rsync://a".into())];
    let mut b = make_repo("same", "y");
    b.sources = vec![];
    let c = make_repo("other", "https://c");
    let result = dedup(vec![a, b, c]);
    assert_eq!(result.len(), 2);
    assert_eq!(result[0].name, "Same");
    assert_eq!(result[1].name, "other");
}

#[test]
fn cache_freshness() {
    assert!(cache_is_fresh(None));
    assert!(cache_is_fresh(Some(86400)));
    assert!(!cache_is_fresh(Some(86401)));
}

#[test]
fn build_prefers_registry() {
    let make = |name: &str, url: &str, origin: RemoteOrigin| RemoteRepo {
        name: name.into(),
        description: "".into(),
        homepage: "".into(),
        owner: "".into(),
        sources: vec![(SyncType::Git, url.into())],
        quality: "".into(),
        status: "".into(),
        origin,
    };
    let registry = vec![make("guru", "https://github.com/gentoo/guru.git", RemoteOrigin::GentooRegistry)];
    let github = vec![
        make("guru-mirror", "git@github.com:gentoo/guru.git", RemoteOrigin::Github),
        make("alpha", "https://github.com/x/alpha", RemoteOrigin::Github),
    ];
    let set = SourceSet::build(registry, github);
    assert_eq!(set.repos.len(), 2);
    assert_eq!(set.repos[0].name, "alpha");
    assert_eq!(set.repos[1].name, "guru");
    assert_eq!(set.repos[1].origin, RemoteOrigin::GentooRegistry);
}
