use overlay_manager::types::{canonical_repo_id, RemoteOrigin, RemoteRepo, SyncType};

fn remote(name: &str, sources: Vec<(SyncType, String)>) -> RemoteRepo {
    RemoteRepo {
        name: name.into(),
        description: "".into(),
        homepage: "".into(),
        owner: "".into(),
        sources,
        quality: "".into(),
        status: "".into(),
        origin: RemoteOrigin::GentooRegistry,
    }
}

#[test]
fn canonical_urls_match() {
    let urls = [
        "https://github.com/foo/bar.git",
        "https://github.com/foo/bar",
        "git@github.com:foo/bar.git",
        "git://github.com/foo/bar",
    ];
    let ids: Vec<_> = urls.iter().map(|u| canonical_repo_id(u)).collect();
    let first = &ids[0];
    for id in &ids {
        assert_eq!(id, first);
    }
}

#[test]
fn ssh_git_url() {
    assert_eq!(
        canonical_repo_id("git+ssh://git@git.gentoo.org/repo/proj.git"),
        "git.gentoo.org/repo/proj"
    );
}

#[test]
fn synctype_from_str() {
    assert!(matches!(SyncType::from_str("git"), SyncType::Git));
    assert!(matches!(SyncType::from_str("GIT"), SyncType::Git));
    assert!(matches!(SyncType::from_str("rsync"), SyncType::Rsync));
    assert!(matches!(SyncType::from_str("svn"), SyncType::Svn));
    assert!(matches!(SyncType::from_str("hg"), SyncType::Mercurial));
    assert!(matches!(SyncType::from_str("mercurial"), SyncType::Mercurial));
    assert!(matches!(SyncType::from_str("bzr"), SyncType::Other(_)));
}

#[test]
fn synctype_as_str() {
    assert_eq!(SyncType::Git.as_str(), "git");
    assert_eq!(SyncType::Rsync.as_str(), "rsync");
}

#[test]
fn repo_id_from_sources() {
    let repo = remote(
        "test",
        vec![
            (SyncType::Git, "https://github.com/user/repo.git".into()),
            (SyncType::Git, "git@github.com:user/repo.git".into()),
        ],
    );
    assert_eq!(repo.repo_id(), Some("github.com/user/repo".into()));
}

#[test]
fn repo_id_no_git_source() {
    let repo = remote("test", vec![(SyncType::Rsync, "rsync://example.com/repo".into())]);
    assert_eq!(repo.repo_id(), None);
}

#[test]
fn canonical_lowercases_and_trims() {
    assert_eq!(canonical_repo_id("  HTTPS://GitHub.com/Foo/Bar/  "), "https://github.com/foo/bar");
    assert_eq!(canonical_repo_id("https://github.com/Foo/Bar/"), "github.com/foo/bar");
    assert_eq!(canonical_repo_id("ssh://git@example.org:22/x.git"), "example.org/22/x");
    assert_eq!(canonical_repo_id("https://https://a/b"), "a/b");
    assert_eq!(canonical_repo_id(""), "");
}

#[test]
fn synctype_other_keeps_lowercase_text() {
    match SyncType::from_str("Bzr") {
        SyncType::Other(s) => assert_eq!(s, "bzr"),
        other => panic!("unexpected {:?}", other),
    }
    assert_eq!(SyncType::Other("cvs".into()).as_str(), "cvs");
    assert_eq!(SyncType::Mercurial.as_str(), "mercurial");
    assert_eq!(SyncType::Svn.as_str(), "svn");
}

#[test]
fn repo_id_skips_non_git_sources() {
    let repo = remote(
        "x",
        vec![
            (SyncType::Rsync, "rsync://a/b".into()),
            (SyncType::Git, "https://Example.com/R.git".into()),
        ],
    );
    assert_eq!(repo.repo_id(), Some("example.com/r".into()));
}

#[test]
fn ssh_form_matches_https() {
    assert_eq!(
        canonical_repo_id("ssh://git@github.com/user/repo.git"),
        canonical_repo_id("https://github.com/user/repo")
    );
    assert_eq!(canonical_repo_id("ssh://git@github.com/user/repo.git"), "github.com/user/repo");
}

#[test]
fn git_suffix_keeps_id() {
    for u in ["https://example.org/a/b", "git@example.org:a/b", "", "ssh://git@h/p"] {
        assert_eq!(canonical_repo_id(&format!("{}.git", u)), canonical_repo_id(u));
    }
}
