use overlay_manager::packages::{
    description_from, ebuild_version, extract_ebuild_var, extract_xml_tag, is_ebuild_file,
    is_skipped_category, latest_version, package_atom, package_entry, sort_strings,
    split_pkg_atom, use_flags_from, PackageMap,
};

#[test]
fn split_atom_with_version() {
    assert_eq!(
        split_pkg_atom("app-misc/foo-bar-1.2.3"),
        Some(("app-misc".to_string(), "foo-bar".to_string()))
    );
}

#[test]
fn split_atom_without_version() {
    assert_eq!(
        split_pkg_atom("app-misc/foo-bar"),
        Some(("app-misc".to_string(), "foo-bar".to_string()))
    );
    assert_eq!(split_pkg_atom("no-category"), None);
}

#[test]
fn atom_joins_category_and_name() {
    assert_eq!(package_atom("dev-lang", "rust"), "dev-lang/rust");
}

#[test]
fn ebuild_var_first_non_empty() {
    let ebuild = "EAPI=8\n  DESCRIPTION=\"\"\nDESCRIPTION=\" A tool \"\nIUSE=\"doc +test\"\n";
    assert_eq!(extract_ebuild_var(ebuild, "DESCRIPTION"), Some(" A tool ".to_string()));
    assert_eq!(extract_ebuild_var(ebuild, "IUSE"), Some("doc +test".to_string()));
    assert_eq!(extract_ebuild_var(ebuild, "HOMEPAGE"), None);
}

#[test]
fn xml_tag_text() {
    let xml = "<pkgmetadata><longdescription lang=\"en\">\n  Long text\n</longdescription></pkgmetadata>";
    assert_eq!(extract_xml_tag(xml, "longdescription"), Some("Long text".to_string()));
    assert_eq!(extract_xml_tag("<a></a>", "a"), None);
    assert_eq!(extract_xml_tag("<a>x", "a"), None);
}

#[test]
fn description_prefers_metadata() {
    let xml = "<longdescription>From xml</longdescription>";
    let ebuild = "DESCRIPTION=\"From ebuild\"";
    assert_eq!(description_from(Some(xml), Some(ebuild)), "From xml");
    assert_eq!(description_from(Some("<x/>"), Some(ebuild)), "From ebuild");
    assert_eq!(description_from(None, None), "");
}

#[test]
fn use_flags_from_ebuild() {
    assert_eq!(use_flags_from(Some("IUSE=\"a b\"")), "a b");
    assert_eq!(use_flags_from(Some("EAPI=8")), "");
    assert_eq!(use_flags_from(None), "");
}

#[test]
fn ebuild_files() {
    assert!(is_ebuild_file("foo-1.0.ebuild"));
    assert!(!is_ebuild_file("metadata.xml"));
    assert!(is_skipped_category("metadata"));
    assert!(is_skipped_category("profiles"));
    assert!(is_skipped_category(".git"));
    assert!(!is_skipped_category("app-misc"));
}

#[test]
fn versions_of_ebuilds() {
    assert_eq!(ebuild_version("foo-1.2.ebuild", "foo"), Some("1.2".to_string()));
    assert_eq!(ebuild_version("bar-1.2.ebuild", "foo"), None);
    assert_eq!(ebuild_version("foo-1.2.tar", "foo"), None);
    let files = vec![
        "foo-1.2.ebuild".to_string(),
        "metadata.xml".to_string(),
        "foo-1.10.ebuild".to_string(),
        "foo-9999.ebuild".to_string(),
    ];
    assert_eq!(latest_version(&files, "foo"), "9999");
    assert_eq!(latest_version(&vec!["Manifest".to_string()], "foo"), "");
}

#[test]
fn entries_of_packages() {
    assert_eq!(package_entry("app-misc", "foo", "1.0"), "app-misc/foo-1.0");
    assert_eq!(package_entry("app-misc", "foo", ""), "app-misc/foo");
}

#[test]
fn strings_sorted() {
    let v = vec!["b".to_string(), "a".to_string(), "c".to_string(), "a".to_string()];
    assert_eq!(sort_strings(v), vec!["a", "a", "b", "c"]);
}

#[test]
fn package_map_groups_by_repo() {
    let mut m = PackageMap::new();
    assert!(m.get("gentoo").is_none());
    m.add("gentoo".into(), "app-misc/a".into());
    m.add("guru".into(), "dev-util/b".into());
    m.add("gentoo".into(), "app-misc/c".into());
    assert_eq!(m.get("gentoo").unwrap(), &vec!["app-misc/a".to_string(), "app-misc/c".to_string()]);
    assert_eq!(m.get("guru").unwrap().len(), 1);
}
