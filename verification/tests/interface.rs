use overlay_manager::actions::Action;
use overlay_manager::app::View;
use overlay_manager::display::{
    cache_status, effective_list_view, is_hint_list, list_entry, list_title, package_heading,
    package_text, packages_title, spinner_char, sync_indicator, SyncFreshness,
};
use overlay_manager::types::{RemoteOrigin, RemoteRepo, Repo, SyncType};
use overlay_manager::keys::{map_key, Key};
use overlay_manager::locale::{join3, strings, Language};
use overlay_manager::utils::format_age;

#[test]
fn ages_in_units() {
    assert_eq!(format_age(0), "0s ago");
    assert_eq!(format_age(59), "59s ago");
    assert_eq!(format_age(60), "1m ago");
    assert_eq!(format_age(3599), "59m ago");
    assert_eq!(format_age(3600), "1h ago");
    assert_eq!(format_age(86399), "23h ago");
    assert_eq!(format_age(86400), "1d ago");
    assert_eq!(format_age(864000), "10d ago");
}

#[test]
fn keys_in_normal_mode() {
    assert_eq!(map_key(Key::Char('q'), false, &View::Browse), Action::Quit);
    assert_eq!(map_key(Key::Char('j'), false, &View::Browse), Action::MoveDown);
    assert_eq!(map_key(Key::Up, false, &View::Browse), Action::MoveUp);
    assert_eq!(map_key(Key::Char('G'), false, &View::Browse), Action::MoveBottom);
    assert_eq!(map_key(Key::Tab, false, &View::Browse), Action::TabInstalled);
    assert_eq!(map_key(Key::Tab, false, &View::Installed), Action::TabBrowse);
    assert_eq!(map_key(Key::Char('/'), false, &View::Browse), Action::SearchStart);
    assert_eq!(map_key(Key::Char('y'), false, &View::Browse), Action::Noop);
}

#[test]
fn keys_in_search_mode() {
    assert_eq!(map_key(Key::Char('q'), true, &View::Browse), Action::SearchChar('q'));
    assert_eq!(map_key(Key::Char('j'), true, &View::Browse), Action::MoveDown);
    assert_eq!(map_key(Key::Enter, true, &View::Browse), Action::Close);
    assert_eq!(map_key(Key::Backspace, true, &View::Browse), Action::SearchBackspace);
}

#[test]
fn keys_in_confirm() {
    assert_eq!(map_key(Key::Char('Y'), false, &View::Confirm), Action::ConfirmYes);
    assert_eq!(map_key(Key::Char('n'), false, &View::Confirm), Action::Close);
    assert_eq!(map_key(Key::Char('q'), false, &View::Confirm), Action::Noop);
}

#[test]
fn list_view_behind_help() {
    assert_eq!(effective_list_view(&View::Help, &View::Installed), &View::Installed);
    assert_eq!(effective_list_view(&View::Confirm, &View::Installed), &View::Installed);
    assert_eq!(effective_list_view(&View::Browse, &View::Installed), &View::Browse);
}

#[test]
fn sync_markers() {
    assert_eq!(sync_indicator(None), ("[✓]", SyncFreshness::Fresh));
    assert_eq!(sync_indicator(Some(86399)), ("[✓]", SyncFreshness::Fresh));
    assert_eq!(sync_indicator(Some(86400)), ("[~]", SyncFreshness::Stale));
    assert_eq!(sync_indicator(Some(604800)), ("[!]", SyncFreshness::Old));
}

#[test]
fn spinner_cycles() {
    assert_eq!(spinner_char(0), '⠋');
    assert_eq!(spinner_char(11), '⠙');
}

#[test]
fn hint_list_recognised() {
    let hint = vec!["not installed".to_string(), String::new(), "x".to_string()];
    assert!(is_hint_list(&hint));
    assert!(!is_hint_list(&vec!["app-misc/foo".to_string()]));
    assert!(!is_hint_list(&Vec::new()));
}

#[test]
fn language_from_env() {
    assert_eq!(Language::from_lang_var("ru_RU.UTF-8"), Language::Russian);
    assert_eq!(Language::from_lang_var("RU"), Language::Russian);
    assert_eq!(Language::from_lang_var("en_US.UTF-8"), Language::English);
    assert_eq!(Language::from_lang_var(""), Language::English);
}

#[test]
fn formatted_texts() {
    let s = strings(Language::English);
    assert_eq!(s.packages_count(3), "  3 pkg(s)");
    assert_eq!(s.sync_start("guru"), "▶ Syncing guru...");
    assert_eq!(s.cache_loaded(12), "Loaded 12 overlays");
    assert_eq!(join3("a", "b", "c"), "abc");
}

#[test]
fn screen_titles() {
    assert_eq!(list_title(false, "", &View::Browse, 12), " Available (12)");
    assert_eq!(list_title(false, "", &View::Installed, 0), " Installed (0)");
    assert_eq!(list_title(true, "gu", &View::Browse, 3), " Search: gu▌");
    let pkgs = vec!["app-misc/a-1".to_string(), "dev-util/b".to_string()];
    assert_eq!(packages_title(false, "guru", "", &pkgs), " Packages: guru (2 ) ");
    assert_eq!(packages_title(false, "guru", "", &Vec::new()), " Packages: guru (0 no packages) ");
    assert_eq!(packages_title(true, "guru", "b", &pkgs), " Search: guru b▌ (2 ) ");
    let hint = vec!["not installed".to_string(), String::new(), "x".to_string()];
    assert_eq!(packages_title(false, "x", "", &hint), " Packages: x ");
}

#[test]
fn header_and_package_texts() {
    assert_eq!(cache_status(Language::English, false, 0, true, "never"), "");
    assert_eq!(cache_status(Language::English, false, 0, true, "3m ago"), " cache: 3m ago");
    assert_eq!(cache_status(Language::English, true, 11, true, ""), format!(" ⠙ {}", strings(Language::English).loading));
    assert_eq!(cache_status(Language::English, false, 0, false, ""), strings(Language::English).no_root);
    assert_eq!(package_text("", ""), "(no description)");
    assert_eq!(package_text("Tool", "a b"), "Tool\n\nUSE: a b");
    let pkgs = vec!["app-misc/a-1".to_string()];
    assert_eq!(package_heading(&pkgs, 0), " app-misc/a-1 ");
    assert_eq!(package_heading(&pkgs, 1), " — ");
}

#[test]
fn list_rows() {
    let remote = |name: &str, origin: RemoteOrigin| RemoteRepo {
        name: name.into(),
        description: "".into(),
        homepage: "".into(),
        owner: "".into(),
        sources: vec![],
        quality: "".into(),
        status: "".into(),
        origin,
    };
    let repo = |name: &str| Repo {
        name: name.into(),
        location: format!("/var/db/repos/{}", name),
        sync_type: SyncType::Git,
        sync_uri: "".into(),
        auto_sync: true,
        priority: None,
    };
    let available = vec![remote("a", RemoteOrigin::Github), remote("b", RemoteOrigin::GentooRegistry)];
    let installed = vec![repo("b"), repo("c")];
    let (n, i, o) = list_entry(&View::Browse, &available, &installed, 1).unwrap();
    assert_eq!((n.as_str(), i, o), ("b", Some(0), RemoteOrigin::GentooRegistry));
    let (n, i, o) = list_entry(&View::Browse, &available, &installed, 0).unwrap();
    assert_eq!((n.as_str(), i, o), ("a", None, RemoteOrigin::Github));
    let (n, i, o) = list_entry(&View::Installed, &available, &installed, 1).unwrap();
    assert_eq!((n.as_str(), i, o), ("c", Some(1), RemoteOrigin::Custom));
    assert!(list_entry(&View::Help, &available, &installed, 0).is_none());
}
