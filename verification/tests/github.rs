use overlay_manager::custom::{custom_repos, entries_after_save, CustomEntry};
use overlay_manager::github::{github_repo, next_page, search_url, MAX_PAGE};
use overlay_manager::types::{RemoteOrigin, SyncType};

#[test]
fn search_urls_by_page() {
    assert_eq!(
        search_url(3),
        "https://api.github.com/search/repositories?q=topic:gentoo-overlay&per_page=100&page=3"
    );
}

#[test]
fn pagination_stops() {
    assert_eq!(next_page(1, 100), Some(2));
    assert_eq!(next_page(1, 99), None);
    assert_eq!(next_page(MAX_PAGE, 100), None);
    assert_eq!(next_page(MAX_PAGE - 1, 100), Some(MAX_PAGE));
}

#[test]
fn github_result_to_overlay() {
    let r = github_repo(
        "my-overlay".into(),
        None,
        "https://github.com/me/my-overlay".into(),
        "https://github.com/me/my-overlay.git".into(),
        "me".into(),
    );
    assert_eq!(r.name, "my-overlay");
    assert_eq!(r.description, "");
    assert_eq!(r.owner, "me");
    assert_eq!(r.homepage, "https://github.com/me/my-overlay");
    assert_eq!(r.sources.len(), 1);
    assert_eq!(r.sources[0].0, SyncType::Git);
    assert_eq!(r.sources[0].1, "https://github.com/me/my-overlay.git");
    assert_eq!(r.quality, "unknown");
    assert_eq!(r.status, "unofficial");
    assert_eq!(r.origin, RemoteOrigin::Github);
}

#[test]
fn custom_entries_to_overlays() {
    let entries = vec![
        CustomEntry { name: "a".into(), url: "https://x/a.git".into(), description: Some("A".into()) },
        CustomEntry { name: "b".into(), url: "https://x/b.git".into(), description: None },
    ];
    let repos = custom_repos(entries);
    assert_eq!(repos.len(), 2);
    assert_eq!(repos[0].description, "A");
    assert_eq!(repos[1].owner, "user");
    assert_eq!(repos[1].homepage, "https://x/b.git");
    assert_eq!(repos[1].origin, RemoteOrigin::Custom);
    let back = CustomEntry::from_remote(&repos[1]);
    assert_eq!(back.url, "https://x/b.git");
    assert!(back.description.is_none());
}

#[test]
fn save_custom_refuses_duplicate() {
    let a = CustomEntry { name: "a".into(), url: "u".into(), description: None }.to_remote();
    let b = CustomEntry { name: "b".into(), url: "v".into(), description: None }.to_remote();
    let existing = vec![a];
    let saved = entries_after_save(&existing, &b).unwrap();
    assert_eq!(saved.len(), 2);
    assert_eq!(saved[1].name, "b");
    let again = CustomEntry { name: "a".into(), url: "w".into(), description: None }.to_remote();
    assert!(entries_after_save(&existing, &again).is_none());
}
