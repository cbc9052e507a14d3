use overlay_manager::repos_conf::{appended_config, build_repo, format_section, is_installed, parse_conf, remove, Entries};
use overlay_manager::types::{Repo, SyncType};

#[test]
fn parse_single_section() {
    let repos = parse_conf(
        "[my-overlay]\n\
         location = /var/db/repos/my-overlay\n\
         sync-type = git\n\
         sync-uri = https://github.com/me/my-overlay.git\n\
         auto-sync = yes\n\
         priority = 50\n",
    );
    assert_eq!(repos.len(), 1);
    assert_eq!(repos[0].name, "my-overlay");
    assert_eq!(repos[0].sync_uri, "https://github.com/me/my-overlay.git");
    assert!(repos[0].auto_sync);
    assert_eq!(repos[0].priority, Some(50));
    assert!(matches!(repos[0].sync_type, SyncType::Git));
}

#[test]
fn parse_multiple_sections() {
    let repos = parse_conf(
        "[foo]\n\
         location = /a\n\
         sync-type = git\n\
         sync-uri = u\n\
         \n\
         [bar]\n\
         location = /b\n\
         sync-type = rsync\n\
         sync-uri = v\n",
    );
    assert_eq!(repos.len(), 2);
    assert_eq!(repos[0].name, "foo");
    assert_eq!(repos[1].name, "bar");
}

#[test]
fn build_repo_missing_location() {
    let entries = Entries::from_pairs(vec![("sync-type".into(), "git".into())]);
    assert!(build_repo("test", &entries).is_none());
}

#[test]
fn build_repo_defaults() {
    let entries = Entries::from_pairs(vec![
        ("location".into(), "/var/db/repos/x".into()),
        ("sync-uri".into(), "https://example.com".into()),
    ]);
    let repo = build_repo("x", &entries).unwrap();
    assert_eq!(repo.name, "x");
    assert!(!repo.auto_sync);
    assert_eq!(repo.priority, None);
}

#[test]
fn remove_from_file() {
    let content = "[keep]\n\
         location = /a\n\
         sync-type = git\n\
         sync-uri = u\n\
         \n\
         [remove-me]\n\
         location = /b\n\
         sync-type = git\n\
         sync-uri = v\n";
    let result = remove(content, "remove-me");
    assert!(result.is_some());
    let after = result.unwrap();
    assert!(after.contains("[keep]"));
    assert!(!after.contains("[remove-me]"));
}

#[test]
fn remove_nonexistent() {
    let result = remove("[keep]\nlocation = /a\nsync-type = git\nsync-uri = u\n", "nope");
    assert!(result.is_none());
}

#[test]
fn remove_keeps_other_lines_exactly() {
    let after = remove("# top\n[a]\nlocation = /a\n[b]\r\nlocation = /b\n[c]\nlocation = /c\n\n", "b").unwrap();
    assert_eq!(after, "# top\n[a]\nlocation = /a\n[c]\nlocation = /c");
}

#[test]
fn parse_ignores_comments_and_unknown_lines() {
    let repos = parse_conf(
        "# comment\n[x]\n  Location = /x  \nSYNC-TYPE = HG\nauto-sync = true\npriority = +7\nnonsense\n[y]\nsync-uri = z\n",
    );
    assert_eq!(repos.len(), 1);
    assert_eq!(repos[0].name, "x");
    assert_eq!(repos[0].location, "/x");
    assert!(matches!(repos[0].sync_type, SyncType::Mercurial));
    assert!(repos[0].auto_sync);
    assert_eq!(repos[0].priority, Some(7));
    assert_eq!(repos[0].sync_uri, "");
}

#[test]
fn parse_priority_out_of_range_is_none() {
    let repos = parse_conf("[x]\nlocation = /x\npriority = 4294967296\n");
    assert_eq!(repos[0].priority, None);
    let repos = parse_conf("[x]\nlocation = /x\npriority = 4294967295\n");
    assert_eq!(repos[0].priority, Some(4294967295));
    let repos = parse_conf("[x]\nlocation = /x\npriority = -1\n");
    assert_eq!(repos[0].priority, None);
}

#[test]
fn missing_sync_type_is_unknown() {
    let entries = Entries::from_pairs(vec![("location".into(), "/l".into())]);
    let repo = build_repo("n", &entries).unwrap();
    assert!(matches!(repo.sync_type, SyncType::Other(ref s) if s == "unknown"));
}

#[test]
fn later_assignment_wins() {
    let mut entries = Entries::new();
    entries.insert("location".into(), "/a".into());
    entries.insert("location".into(), "/b".into());
    assert_eq!(build_repo("n", &entries).unwrap().location, "/b");
    entries.clear();
    assert!(build_repo("n", &entries).is_none());
}

fn sample_repo() -> Repo {
    Repo {
        name: "guru".into(),
        location: "/var/db/repos/guru".into(),
        sync_type: SyncType::Git,
        sync_uri: "https://github.com/gentoo-mirror/guru.git".into(),
        auto_sync: true,
        priority: None,
    }
}

#[test]
fn section_format() {
    assert_eq!(
        format_section(&sample_repo()),
        "\n[guru]\nlocation = /var/db/repos/guru\nsync-type = git\nsync-uri = https://github.com/gentoo-mirror/guru.git\nauto-sync = yes\npriority = 50\n"
    );
}

#[test]
fn appended_config_new_and_existing() {
    let fresh = appended_config(None, &sample_repo());
    assert!(fresh.starts_with("# Managed by overlay-manager\n\n[guru]\n"));
    let more = appended_config(Some("old\n".into()), &sample_repo());
    assert!(more.starts_with("old\n\n[guru]"));
    // a written section reads back as the same overlay
    let repos = parse_conf(&fresh);
    assert_eq!(repos.len(), 1);
    assert_eq!(repos[0].name, "guru");
    assert_eq!(repos[0].location, "/var/db/repos/guru");
    assert_eq!(repos[0].sync_uri, "https://github.com/gentoo-mirror/guru.git");
    assert!(repos[0].auto_sync);
    assert_eq!(repos[0].priority, Some(50));
}

#[test]
fn installed_lookup() {
    let repos = vec![sample_repo()];
    assert!(is_installed(&repos, "guru"));
    assert!(!is_installed(&repos, "gur"));
}

#[test]
fn append_reads_back_after_existing_sections() {
    // the file ends without a line break and has a section already
    let existing = "[foo]\nlocation = /a\nsync-type = rsync\nsync-uri = u\r";
    let text = appended_config(Some(existing.into()), &sample_repo());
    let repos = parse_conf(&text);
    assert_eq!(repos.len(), 2);
    assert_eq!(repos[0].name, "foo");
    assert_eq!(repos[0].sync_uri, "u");
    assert_eq!(repos[0].priority, None);
    assert_eq!(repos[1].name, "guru");
    assert_eq!(repos[1].priority, Some(50));
}

#[test]
fn remove_reads_back_without_section() {
    let content = "# comment\n[a]\nlocation = /a\n[gone]\nlocation = /g\npriority = 1\n[b]\nlocation = /b\n\n";
    let before = parse_conf(content);
    assert_eq!(before.len(), 3);
    let after = parse_conf(&remove(content, "gone").unwrap());
    let names: Vec<&str> = after.iter().map(|r| r.name.as_str()).collect();
    assert_eq!(names, vec!["a", "b"]);
    assert_eq!(after[1].priority, None);
}

#[test]
fn remove_then_append_round_trip() {
    let first = appended_config(None, &sample_repo());
    let removed = remove(&first, "guru").unwrap();
    assert!(parse_conf(&removed).is_empty());
    let again = appended_config(Some(removed), &sample_repo());
    assert_eq!(parse_conf(&again).len(), 1);
}
