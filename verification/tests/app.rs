use overlay_manager::actions::Action;
use overlay_manager::app::{App, CacheResult, Effect, MessageLevel, RemoveOutcome, View};
use overlay_manager::locale::Language;
use overlay_manager::sync::SyncEvent;
use overlay_manager::types::{RemoteOrigin, RemoteRepo, Repo, SyncType};

fn make_remote(name: &str) -> RemoteRepo {
    RemoteRepo {
        name: name.into(),
        description: "".into(),
        homepage: "".into(),
        owner: "".into(),
        sources: vec![(SyncType::Git, "https://example.com".into())],
        quality: "".into(),
        status: "".into(),
        origin: RemoteOrigin::GentooRegistry,
    }
}

fn make_installed(name: &str) -> Repo {
    Repo {
        name: name.into(),
        location: format!("/var/db/repos/{}", name),
        sync_type: SyncType::Git,
        sync_uri: "https://example.com".into(),
        auto_sync: true,
        priority: Some(50),
    }
}

fn test_app() -> App {
    let available = vec![
        make_remote("alpha"),
        make_remote("beta"),
        make_remote("gamma"),
        make_remote("alphabet"),
    ];
    App::new(Vec::new(), available, true, Language::English)
}

#[test]
fn filter_no_query_shows_all() {
    let mut app = test_app();
    app.apply_filter();
    assert_eq!(app.filtered.len(), 4);
}

#[test]
fn filter_exact_match_first() {
    let mut app = test_app();
    app.search_query = "beta".into();
    app.apply_filter();
    assert_eq!(app.filtered.len(), 1);
    assert_eq!(app.available[app.filtered[0]].name, "beta");
}

#[test]
fn filter_prefix_matches() {
    let mut app = test_app();
    app.search_query = "alp".into();
    app.apply_filter();
    assert_eq!(app.filtered.len(), 2);
}

#[test]
fn filter_no_match() {
    let mut app = test_app();
    app.search_query = "xyz".into();
    app.apply_filter();
    assert_eq!(app.filtered.len(), 0);
}

#[test]
fn filter_handles_empty_list() {
    let mut app = test_app();
    app.available.clear();
    app.filtered.clear();
    app.apply_filter();
    assert_eq!(app.filtered.len(), 0);
}

#[test]
fn handle_move_down() {
    let mut app = test_app();
    app.handle(Action::MoveDown);
    assert_eq!(app.selected, 1);
    app.handle(Action::MoveDown);
    assert_eq!(app.selected, 2);
}

#[test]
fn handle_move_up_clamps() {
    let mut app = test_app();
    app.handle(Action::MoveUp);
    assert_eq!(app.selected, 0);
}

#[test]
fn handle_move_down_clamps() {
    let mut app = test_app();
    app.selected = 3;
    app.handle(Action::MoveDown);
    assert_eq!(app.selected, 3);
}

#[test]
fn handle_move_top_bottom() {
    let mut app = test_app();
    app.handle(Action::MoveBottom);
    assert_eq!(app.selected, 3);
    app.handle(Action::MoveTop);
    assert_eq!(app.selected, 0);
}

#[test]
fn handle_quit_returns_false() {
    let mut app = test_app();
    assert!(!app.handle(Action::Quit));
}

#[test]
fn handle_non_quit_returns_true() {
    let mut app = test_app();
    assert!(app.handle(Action::MoveDown));
}

#[test]
fn view_switch_preserves_selected() {
    let mut app = test_app();
    app.selected = 2;
    app.handle(Action::TabInstalled);
    assert_eq!(app.view, View::Installed);
    app.handle(Action::TabBrowse);
    assert_eq!(app.view, View::Browse);
}

#[test]
fn help_toggles() {
    let mut app = test_app();
    app.handle(Action::ToggleHelp);
    assert_eq!(app.view, View::Help);
    app.handle(Action::ToggleHelp);
    assert_eq!(app.view, View::Browse);
}

// ── further behaviour ──

#[test]
fn new_requests_package_scan() {
    let mut app = test_app();
    assert!(!app.loading);
    let effects = app.take_effects();
    assert_eq!(effects.len(), 1);
    assert!(matches!(effects[0], Effect::ScanPackages));
    assert!(app.take_effects().is_empty());
}

#[test]
fn new_without_overlays_is_loading() {
    let app = App::new(Vec::new(), Vec::new(), true, Language::English);
    assert!(app.loading);
    assert_eq!(app.filtered.len(), 0);
}

#[test]
fn filter_orders_exact_then_prefix_then_rest() {
    let available = vec![
        make_remote("xalp"),
        make_remote("alpha"),
        make_remote("alp"),
    ];
    let mut app = App::new(Vec::new(), available, true, Language::English);
    app.search_query = "ALP".into();
    app.apply_filter();
    assert_eq!(app.filtered, vec![2, 1, 0]);
}

#[test]
fn filter_clamps_selection() {
    let mut app = test_app();
    app.selected = 3;
    app.search_query = "alp".into();
    app.apply_filter();
    assert_eq!(app.selected, 1);
}

#[test]
fn search_typing_filters() {
    let mut app = test_app();
    app.handle(Action::SearchStart);
    assert!(app.search_mode);
    app.handle(Action::SearchChar('g'));
    assert_eq!(app.search_query, "g");
    assert_eq!(app.filtered, vec![2]);
    app.handle(Action::SearchBackspace);
    assert_eq!(app.filtered.len(), 4);
    app.handle(Action::Close);
    assert!(!app.search_mode);
}

#[test]
fn search_char_ignored_outside_search_mode() {
    let mut app = test_app();
    app.handle(Action::SearchChar('z'));
    assert_eq!(app.search_query, "");
    assert_eq!(app.filtered.len(), 4);
}

#[test]
fn clamp_scroll_keeps_selection_visible() {
    let mut app = test_app();
    app.selected = 3;
    app.clamp_scroll(2);
    assert_eq!(app.scroll_offset, 2);
    app.selected = 0;
    app.clamp_scroll(2);
    assert_eq!(app.scroll_offset, 0);
    app.clamp_scroll(0);
    assert_eq!(app.scroll_offset, 0);
}

#[test]
fn clamp_scroll_never_past_end() {
    let mut app = test_app();
    app.scroll_offset = 3;
    app.selected = 3;
    app.clamp_scroll(10);
    assert_eq!(app.scroll_offset, 0);
}

#[test]
fn selected_remote_only_in_browse() {
    let mut app = test_app();
    app.selected = 1;
    assert_eq!(app.selected_remote().unwrap().name, "beta");
    app.handle(Action::TabInstalled);
    assert!(app.selected_remote().is_none());
    assert!(app.selected_installed().is_none());
}

#[test]
fn add_requires_root() {
    let available = vec![make_remote("alpha")];
    let mut app = App::new(Vec::new(), available, false, Language::English);
    app.take_effects();
    app.handle(Action::AddOrSync);
    let msg = app.message.as_ref().unwrap();
    assert_eq!(msg.text, "Root privileges required");
    assert_eq!(msg.level, MessageLevel::Error);
    assert!(app.take_effects().is_empty());
    assert_eq!(app.view, View::Browse);
}

#[test]
fn add_requests_install() {
    let mut app = test_app();
    app.take_effects();
    app.selected = 1;
    app.handle(Action::AddOrSync);
    let effects = app.take_effects();
    assert_eq!(effects.len(), 1);
    match &effects[0] {
        Effect::Install(r) => {
            assert_eq!(r.name, "beta");
            assert_eq!(r.location, "/var/db/repos/beta");
            assert_eq!(r.sync_uri, "https://example.com");
            assert_eq!(r.priority, Some(50));
            assert!(r.auto_sync);
        }
        other => panic!("unexpected effect {:?}", other),
    }
}

#[test]
fn install_finished_starts_sync() {
    let mut app = test_app();
    app.take_effects();
    app.install_finished(make_installed("beta"), None);
    assert_eq!(app.installed.len(), 1);
    assert_eq!(app.view, View::Syncing);
    assert_eq!(app.sync_repo.as_deref(), Some("beta"));
    assert_eq!(app.message.as_ref().unwrap().text, "beta added, syncing...");
    let effects = app.take_effects();
    assert!(matches!(&effects[0], Effect::StartSync(n) if n == "beta"));
}

#[test]
fn install_failure_shows_error() {
    let mut app = test_app();
    app.install_finished(make_installed("beta"), Some("Permission denied (os error 13)".into()));
    assert_eq!(app.installed.len(), 0);
    assert_eq!(app.message.as_ref().unwrap().text, "Root privileges required");
    assert_eq!(app.view, View::Browse);
}

#[test]
fn sync_events_fill_output_and_finish() {
    let mut app = test_app();
    app.install_finished(make_installed("beta"), None);
    assert!(!app.on_sync_event(SyncEvent::Started("beta".into())));
    assert!(!app.on_sync_event(SyncEvent::Output("line".into())));
    assert!(app.on_sync_event(SyncEvent::Finished(Ok(()))));
    assert_eq!(app.sync_output, vec!["▶ Syncing beta...", "line", "✓ Done"]);
    assert_eq!(app.view, View::Browse);
    assert_eq!(app.message.as_ref().unwrap().level, MessageLevel::Success);
}

#[test]
fn sync_failure_reports_error() {
    let mut app = test_app();
    app.handle(Action::SyncAll);
    assert_eq!(app.view, View::Syncing);
    assert_eq!(app.sync_repo.as_deref(), Some("all"));
    assert!(app.on_sync_event(SyncEvent::Finished(Err("boom".into()))));
    assert_eq!(app.view, View::Browse);
    assert_eq!(app.message.as_ref().unwrap().level, MessageLevel::Error);
}

#[test]
fn quit_while_syncing_stops() {
    let mut app = test_app();
    app.handle(Action::SyncAll);
    app.take_effects();
    assert!(app.handle(Action::MoveDown));
    assert!(matches!(app.take_effects()[0], Effect::PollSync));
    assert!(!app.handle(Action::Quit));
}

#[test]
fn remove_asks_for_confirmation() {
    let mut app = App::new(vec![make_installed("one")], Vec::new(), true, Language::English);
    app.take_effects();
    app.handle(Action::TabInstalled);
    app.handle(Action::RemoveRepo);
    assert_eq!(app.view, View::Confirm);
    assert_eq!(app.confirm.as_ref().unwrap().repo_name, "one");
    app.handle(Action::ConfirmYes);
    assert_eq!(app.view, View::Installed);
    let effects = app.take_effects();
    assert!(matches!(&effects[0], Effect::Remove(n) if n == "one"));
    app.remove_finished("one".into(), RemoveOutcome::RemovedWithFiles);
    assert!(app.installed.is_empty());
    assert_eq!(app.message.as_ref().unwrap().text, "one removed (with files)");
}

#[test]
fn remove_cancelled() {
    let mut app = App::new(vec![make_installed("one")], Vec::new(), true, Language::English);
    app.handle(Action::TabInstalled);
    app.handle(Action::RemoveRepo);
    app.handle(Action::Close);
    assert_eq!(app.view, View::Installed);
    assert!(app.confirm.is_none());
    assert_eq!(app.installed.len(), 1);
}

#[test]
fn remove_not_found_keeps_list() {
    let mut app = App::new(vec![make_installed("one")], Vec::new(), true, Language::English);
    app.remove_finished("one".into(), RemoveOutcome::NotFound);
    assert_eq!(app.installed.len(), 1);
    assert_eq!(app.message.as_ref().unwrap().level, MessageLevel::Info);
}

#[test]
fn cache_result_replaces_available() {
    let mut app = App::new(Vec::new(), Vec::new(), true, Language::English);
    app.on_cache_result(CacheResult::Loaded(vec![make_remote("a"), make_remote("b")]));
    assert!(!app.loading);
    assert_eq!(app.available.len(), 2);
    assert_eq!(app.filtered, vec![0, 1]);
    assert_eq!(app.message.as_ref().unwrap().text, "Loaded 2 overlays");
}

#[test]
fn cache_error_shown() {
    let mut app = App::new(Vec::new(), Vec::new(), true, Language::English);
    app.on_cache_result(CacheResult::Failed("offline".into()));
    assert!(!app.loading);
    assert_eq!(app.message.as_ref().unwrap().level, MessageLevel::Error);
}

#[test]
fn refresh_cache_requests_rebuild() {
    let mut app = test_app();
    app.take_effects();
    app.handle(Action::RefreshCache);
    assert!(app.loading);
    assert!(matches!(app.take_effects()[0], Effect::RefreshCache));
}

#[test]
fn message_expires_after_four_seconds() {
    let mut app = test_app();
    app.set_clock(1000);
    app.show_message("hello", MessageLevel::Info);
    app.set_clock(4999);
    app.tick();
    assert!(app.message.is_some());
    app.set_clock(5000);
    app.tick();
    assert!(app.message.is_none());
}

#[test]
fn tick_advances_spinner() {
    let mut app = test_app();
    app.tick();
    app.tick();
    assert_eq!(app.spinner_frame, 2);
}

#[test]
fn open_packages_of_uninstalled_shows_hint() {
    let mut app = test_app();
    app.take_effects();
    app.handle(Action::OpenPackages);
    assert_eq!(app.view, View::Packages("alpha".into()));
    assert_eq!(app.pkg_list.len(), 3);
    assert_eq!(app.pkg_list[0], "not installed");
    app.handle(Action::Close);
    assert_eq!(app.view, View::Browse);
}

#[test]
fn open_packages_of_installed_scans() {
    let mut app = App::new(vec![make_installed("one")], Vec::new(), true, Language::English);
    app.take_effects();
    app.handle(Action::TabInstalled);
    app.handle(Action::OpenPackages);
    let effects = app.take_effects();
    match &effects[0] {
        Effect::ScanOverlay { name, location } => {
            assert_eq!(name, "one");
            assert_eq!(location, "/var/db/repos/one");
        }
        other => panic!("unexpected effect {:?}", other),
    }
    app.packages_scanned(
        "one".into(),
        "/var/db/repos/one".into(),
        vec!["app-misc/a-1".into(), "dev-util/b-2".into()],
    );
    assert_eq!(app.view, View::Packages("one".into()));
    assert_eq!(app.pkg_list.len(), 2);
    let effects = app.take_effects();
    match &effects[0] {
        Effect::LoadPackageDetails { location, package } => {
            assert_eq!(location, "/var/db/repos/one");
            assert_eq!(package, "app-misc/a-1");
        }
        other => panic!("unexpected effect {:?}", other),
    }
    app.handle(Action::SearchStart);
    app.handle(Action::SearchChar('B'));
    assert_eq!(app.pkg_list, vec!["dev-util/b-2"]);
    app.handle(Action::Quit);
    assert_eq!(app.view, View::Installed);
}

#[test]
fn package_details_delivered() {
    let mut app = test_app();
    app.set_package_details("desc".into(), "x y".into());
    assert_eq!(app.pkg_description, "desc");
    assert_eq!(app.pkg_use_flags, "x y");
}

#[test]
fn packages_scan_result() {
    let mut app = test_app();
    let mut map = overlay_manager::packages::PackageMap::new();
    map.add("gentoo".into(), "app-misc/foo".into());
    app.on_packages_scanned(Some(map));
    assert!(app.packages_ready);
    assert_eq!(app.packages.get("gentoo").unwrap().len(), 1);
    let mut other = test_app();
    other.on_packages_scanned(None);
    assert!(other.packages_ready);
}

#[test]
fn tab_switch_keeps_selection_in_range() {
    let installed = vec![make_installed("a"), make_installed("b"), make_installed("c")];
    let available = vec![make_remote("a"), make_remote("b"), make_remote("c")];
    let mut app = App::new(installed, available, true, Language::English);
    app.selected = 2;
    app.handle(Action::TabInstalled);
    assert_eq!(app.selected, 2);
    assert_eq!(app.previous_view, View::Browse);
    let mut lone = App::new(vec![make_installed("a")], vec![make_remote("a"), make_remote("b")], true, Language::English);
    lone.selected = 1;
    lone.handle(Action::TabInstalled);
    assert_eq!(lone.selected, 0);
}

#[test]
fn remove_never_without_confirmation() {
    let mut app = App::new(vec![make_installed("one")], Vec::new(), true, Language::English);
    app.take_effects();
    app.handle(Action::TabInstalled);
    app.handle(Action::RemoveRepo);
    assert!(app.take_effects().is_empty());
    app.handle(Action::MoveDown);
    assert!(app.take_effects().is_empty());
    assert_eq!(app.view, View::Confirm);
}

#[test]
fn finished_sync_filters_browse_list() {
    let available = vec![make_remote("x"), make_remote("y"), make_remote("z")];
    let mut app = App::new(vec![make_installed("a")], available, true, Language::English);
    app.handle(Action::TabInstalled);
    assert_eq!(app.filtered, vec![0]);
    app.handle(Action::AddOrSync);
    assert_eq!(app.view, View::Syncing);
    assert!(app.on_sync_event(SyncEvent::Finished(Ok(()))));
    assert_eq!(app.view, View::Browse);
    assert_eq!(app.filtered, vec![0, 1, 2]);
}
