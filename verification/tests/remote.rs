use overlay_manager::remote::{parse, parse_events, RegistryParser, XmlEvent};
use overlay_manager::types::SyncType;

#[test]
fn parse_minimal_xml() {
    let xml = r#"<?xml version="1.0"?>
<repositories version="1.0">
  <repo quality="experimental" status="unofficial">
    <name>test-overlay</name>
    <description lang="en">A test overlay</description>
    <homepage>https://github.com/test/overlay</homepage>
    <owner type="person">
      <email>test@example.com</email>
      <name>Test Owner</name>
    </owner>
    <source type="git">https://github.com/test/overlay.git</source>
  </repo>
</repositories>"#;

    let repos = parse(xml).unwrap();
    assert_eq!(repos.len(), 1);
    let r = &repos[0];
    assert_eq!(r.name, "test-overlay");
    assert_eq!(r.description, "A test overlay");
    assert_eq!(r.homepage, "https://github.com/test/overlay");
    assert_eq!(r.owner, "Test Owner");
    assert_eq!(r.quality, "experimental");
    assert_eq!(r.status, "unofficial");
    assert_eq!(r.sources.len(), 1);
    assert_eq!(r.sources[0].1, "https://github.com/test/overlay.git");
}

#[test]
fn parse_multiple_repos() {
    let xml = r#"<?xml version="1.0"?>
<repositories>
  <repo><name>a</name><source type="git">u1</source></repo>
  <repo><name>b</name><source type="git">u2</source></repo>
</repositories>"#;

    let repos = parse(xml).unwrap();
    assert_eq!(repos.len(), 2);
}

#[test]
fn parse_multiple_sources() {
    let xml = r#"<?xml version="1.0"?>
<repositories>
  <repo>
    <name>multi</name>
    <source type="git">https://github.com/x/y.git</source>
    <source type="git">git@github.com:x/y.git</source>
  </repo>
</repositories>"#;

    let repos = parse(xml).unwrap();
    assert_eq!(repos[0].sources.len(), 2);
}

#[test]
fn parse_reports_malformed_xml() {
    let err = parse("<repositories><repo></other></repositories>").unwrap_err();
    assert!(err.starts_with("XML parsing error: "));
}

#[test]
fn owner_email_is_fallback() {
    let xml = "<r><repo><owner><email>e@x</email></owner><source type=\"rsync\">rsync://h/p</source></repo></r>";
    let repos = parse(xml).unwrap();
    assert_eq!(repos[0].owner, "e@x");
    assert!(matches!(repos[0].sources[0].0, SyncType::Rsync));
}

#[test]
fn step_by_step_events() {
    let mut p = RegistryParser::new();
    p.step(&XmlEvent::Start(
        "repo".into(),
        vec![("quality".into(), "core".into()), ("quality".into(), "experimental".into())],
    ));
    p.step(&XmlEvent::Text(String::new()));
    p.step(&XmlEvent::Start("name".into(), vec![]));
    p.step(&XmlEvent::Text("n".into()));
    p.step(&XmlEvent::End("name".into()));
    p.step(&XmlEvent::End("repo".into()));
    assert_eq!(p.repos.len(), 1);
    assert_eq!(p.repos[0].name, "n");
    assert_eq!(p.repos[0].quality, "experimental");
    assert!(p.repo.is_none());
    // an unbalanced end tag leaves the depths at zero
    p.step(&XmlEvent::End("source".into()));
    assert_eq!(p.depth_source, 0);
}

#[test]
fn events_to_overlays() {
    let evs = vec![
        XmlEvent::Other,
        XmlEvent::Start("repo".into(), vec![]),
        XmlEvent::Start("source".into(), vec![("type".into(), "git".into()), ("type".into(), "svn".into())]),
        XmlEvent::Text("u".into()),
        XmlEvent::End("source".into()),
        XmlEvent::End("repo".into()),
    ];
    let repos = parse_events(&evs);
    assert_eq!(repos.len(), 1);
    assert!(matches!(repos[0].sources[0].0, SyncType::Git));
    assert_eq!(repos[0].sources[0].1, "u");
}

#[test]
fn parse_minimal_xml_compact() {
    let xml = r#"<repositories><repo quality="experimental" status="unofficial"><name>test-overlay</name><source type="git">https://github.com/test/overlay.git</source></repo></repositories>"#;
    let repos = parse(xml).unwrap();
    assert_eq!(repos.len(), 1);
    assert_eq!(repos[0].status, "unofficial");
}
