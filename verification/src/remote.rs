//! The official overlay registry, repositories.xml.
use crate::text::{lower_text, str_eq};
use crate::types::{sync_kind_of, RemoteOrigin, RemoteRepo, RemoteRepoView, SyncKind, SyncType};
use quick_xml::events::Event;
use quick_xml::events::Event::Eof;
use quick_xml::Reader;
use vstd::prelude::*;
use XmlEvent::{End, Other, Start, Text};

verus! {

broadcast use vstd::string::group_string_axioms;

/// Address of the official registry.
pub const REPOSITORIES_URL: &'static str = "https://api.gentoo.org/overlays/repositories.xml";

// ───────────────────────── events ─────────────────────────

/// One event of the XML reader, as plain values.
#[derive(Debug)]
pub enum XmlEvent {
    /// Start tag: element name and its readable attributes, as
    /// (key, value) pairs in document order.
    Start(String, Vec<(String, String)>),
    /// End tag: element name.
    End(String),
    /// Text, unescaped; empty when unescaping failed.
    Text(String),
    /// Any other event (declaration, comment, empty element, ...).
    Other,
}

/// The value of an [`XmlEvent`].
pub enum XmlEventView {
    Start(Seq<char>, Seq<(Seq<char>, Seq<char>)>),
    End(Seq<char>),
    Text(Seq<char>),
    Other,
}

impl DeepView for XmlEvent {
    type V = XmlEventView;

    open spec fn deep_view(&self) -> XmlEventView {
        match self {
            XmlEvent::Start(n, attrs) => XmlEventView::Start(n@, attrs.deep_view()),
            XmlEvent::End(n) => XmlEventView::End(n@),
            XmlEvent::Text(t) => XmlEventView::Text(t@),
            XmlEvent::Other => XmlEventView::Other,
        }
    }
}

/// The events that quick-xml's reader, with text trimmed, delivers for a
/// document before its end, or the message of the error that stops it.
pub uninterp spec fn xml_events(xml: Seq<char>) -> Result<Seq<XmlEventView>, Seq<char>>;

/// `quick_xml::Reader::from_str` with `Config::trim_text(true)`, then
/// `Reader::read_event` until `Event::Eof`, each event converted to an
/// [`XmlEvent`]: names, attribute keys and values are decoded lossily as
/// UTF-8, attributes that the reader reports as errors are left out, text
/// is unescaped (empty where that fails), and a reader error ends the
/// reading with its message. The events depend on the document alone;
/// they are named by [`xml_events`], and nothing more is stated of them.
#[verifier::external_body]
fn read_xml_events(xml: &str) -> (r: Result<Vec<XmlEvent>, String>)
    ensures
        (match r {
            Ok(evs) => Ok::<Seq<XmlEventView>, Seq<char>>(evs.deep_view()),
            Err(e) => Err::<Seq<XmlEventView>, Seq<char>>(e@),
        }) == xml_events(xml@),
{
    let mut reader = Reader::from_str(xml);
    reader.config_mut().trim_text(true);
    let s = |b: &[u8]| String::from_utf8_lossy(b).into_owned();
    let mut evs = vec![];
    loop {
        evs.push(match reader.read_event().map_err(|e| e.to_string())? {
            Event::Start(e) => Start(s(e.name().0), e.attributes().flatten().map(|a| (s(a.key.0), s(&a.value))).collect()),
            Event::End(e) => End(s(e.name().0)),
            Event::Text(e) => Text(e.unescape().unwrap_or_default().into()),
            Eof => return Ok(evs),
            _ => Other,
        });
    }
}

// ───────────────────────── the registry reader ─────────────────────────

/// An overlay entry before its fields are read.
pub open spec fn spec_empty_repo() -> RemoteRepoView {
    RemoteRepoView {
        name: Seq::empty(),
        description: Seq::empty(),
        homepage: Seq::empty(),
        owner: Seq::empty(),
        sources: Seq::empty(),
        quality: Seq::empty(),
        status: Seq::empty(),
        origin: RemoteOrigin::GentooRegistry,
    }
}

pub fn empty_repo() -> (r: RemoteRepo)
    ensures
        r@ == spec_empty_repo(),
{
    let r = RemoteRepo {
        name: String::new(),
        description: String::new(),
        homepage: String::new(),
        owner: String::new(),
        sources: Vec::new(),
        quality: String::new(),
        status: String::new(),
        origin: RemoteOrigin::GentooRegistry,
    };
    assert(r.sources.deep_view() =~= Seq::<(SyncKind, Seq<char>)>::empty());
    r
}

/// The value of the last attribute `key`, or empty.
pub open spec fn last_attr(attrs: Seq<(Seq<char>, Seq<char>)>, key: Seq<char>) -> Seq<char>
    decreases attrs.len(),
{
    if attrs.len() == 0 {
        Seq::empty()
    } else if attrs.last().0 == key {
        attrs.last().1
    } else {
        last_attr(attrs.drop_last(), key)
    }
}

/// The value of the first attribute `key`, or empty.
pub open spec fn first_attr(attrs: Seq<(Seq<char>, Seq<char>)>, key: Seq<char>) -> Seq<char>
    decreases attrs.len(),
{
    if attrs.len() == 0 {
        Seq::empty()
    } else if attrs[0].0 == key {
        attrs[0].1
    } else {
        first_attr(attrs.drop_first(), key)
    }
}

/// Reading position of the registry reader.
#[verifier::ext_equal]
pub struct ParserModel {
    pub repos: Seq<RemoteRepoView>,
    pub repo: Option<RemoteRepoView>,
    pub tag: Seq<char>,
    pub source_type: Seq<char>,
    pub depth_repo: usize,
    pub depth_owner: usize,
    pub depth_source: usize,
}

pub open spec fn initial_parser() -> ParserModel {
    ParserModel {
        repos: Seq::empty(),
        repo: None,
        tag: Seq::empty(),
        source_type: Seq::empty(),
        depth_repo: 0,
        depth_owner: 0,
        depth_source: 0,
    }
}

/// The entry with a field set by text inside it.
pub open spec fn text_into_repo(st: ParserModel, r: RemoteRepoView, text: Seq<char>) -> RemoteRepoView {
    if st.depth_source > 0 {
        if text.len() > 0 {
            RemoteRepoView {
                sources: r.sources.push((sync_kind_of(lower_text(st.source_type)), text)),
                ..r
            }
        } else {
            r
        }
    } else if st.depth_owner > 0 {
        if st.tag == "name"@ {
            RemoteRepoView { owner: text, ..r }
        } else if st.tag == "email"@ && r.owner.len() == 0 {
            RemoteRepoView { owner: text, ..r }
        } else {
            r
        }
    } else if st.depth_repo > 0 {
        if st.tag == "name"@ {
            RemoteRepoView { name: text, ..r }
        } else if st.tag == "description"@ {
            RemoteRepoView { description: text, ..r }
        } else if st.tag == "homepage"@ {
            RemoteRepoView { homepage: text, ..r }
        } else {
            r
        }
    } else {
        r
    }
}

/// The reading position after one event. Depths never go below zero.
pub open spec fn xml_step(st: ParserModel, ev: XmlEventView) -> ParserModel {
    match ev {
        XmlEventView::Start(name, attrs) => {
            let st = ParserModel { tag: name, ..st };
            if name == "repo"@ {
                ParserModel {
                    depth_repo: st.depth_repo.saturating_add(1),
                    repo: Some(
                        RemoteRepoView {
                            quality: last_attr(attrs, "quality"@),
                            status: last_attr(attrs, "status"@),
                            ..spec_empty_repo()
                        },
                    ),
                    ..st
                }
            } else if name == "owner"@ && st.depth_repo > 0 {
                ParserModel { depth_owner: st.depth_owner.saturating_add(1), ..st }
            } else if name == "source"@ && st.depth_repo > 0 {
                ParserModel {
                    depth_source: st.depth_source.saturating_add(1),
                    source_type: first_attr(attrs, "type"@),
                    ..st
                }
            } else {
                st
            }
        },
        XmlEventView::End(name) => {
            let st = ParserModel { tag: name, ..st };
            if name == "repo"@ {
                let d = st.depth_repo.saturating_sub(1);
                if d == 0 && st.repo is Some {
                    ParserModel { depth_repo: d, repos: st.repos.push(st.repo->0), repo: None, ..st }
                } else {
                    ParserModel { depth_repo: d, ..st }
                }
            } else if name == "owner"@ {
                ParserModel { depth_owner: st.depth_owner.saturating_sub(1), ..st }
            } else if name == "source"@ {
                ParserModel {
                    depth_source: st.depth_source.saturating_sub(1),
                    source_type: Seq::empty(),
                    ..st
                }
            } else {
                st
            }
        },
        XmlEventView::Text(text) => {
            match st.repo {
                None => st,
                Some(r) => ParserModel { repo: Some(text_into_repo(st, r, text)), ..st },
            }
        },
        _ => st,
    }
}

/// The reading position after a sequence of events.
pub open spec fn xml_steps(evs: Seq<XmlEventView>) -> ParserModel
    decreases evs.len(),
{
    if evs.len() == 0 {
        initial_parser()
    } else {
        xml_step(xml_steps(evs.drop_last()), evs.last())
    }
}

/// The registry reader: overlays read so far and the current position.
pub struct RegistryParser {
    pub repos: Vec<RemoteRepo>,
    pub repo: Option<RemoteRepo>,
    pub tag: String,
    pub source_type: String,
    pub depth_repo: usize,
    pub depth_owner: usize,
    pub depth_source: usize,
}

impl RegistryParser {
    pub open spec fn model(&self) -> ParserModel {
        ParserModel {
            repos: self.repos.deep_view(),
            repo: self.repo.deep_view(),
            tag: self.tag@,
            source_type: self.source_type@,
            depth_repo: self.depth_repo,
            depth_owner: self.depth_owner,
            depth_source: self.depth_source,
        }
    }

    pub fn new() -> (p: RegistryParser)
        ensures
            p.model() == initial_parser(),
    {
        let p = RegistryParser {
            repos: Vec::new(),
            repo: None,
            tag: String::new(),
            source_type: String::new(),
            depth_repo: 0,
            depth_owner: 0,
            depth_source: 0,
        };
        assert(p.repos.deep_view() =~= Seq::<RemoteRepoView>::empty());
        p
    }

    fn apply_text(&mut self, text: String)
        requires
            old(self).repo is Some,
        ensures
            final(self).model() == (ParserModel {
                repo: Some(text_into_repo(old(self).model(), old(self).model().repo->0, text@)),
                ..old(self).model()
            }),
    {
        let mut r = self.repo.take().unwrap();
        let ghost rv = r@;
        if self.depth_source > 0 {
            if text.unicode_len() > 0 {
                let t = SyncType::from_str(self.source_type.as_str());
                let ghost before = r.sources.deep_view();
                let ghost item = (t@, text@);
                r.sources.push((t, text));
                assert(r.sources.deep_view() =~= before.push(item));
            }
        } else if self.depth_owner > 0 {
            if str_eq(self.tag.as_str(), "name") {
                r.owner = text;
            } else if str_eq(self.tag.as_str(), "email") && r.owner.unicode_len() == 0 {
                r.owner = text;
            }
        } else if self.depth_repo > 0 {
            if str_eq(self.tag.as_str(), "name") {
                r.name = text;
            } else if str_eq(self.tag.as_str(), "description") {
                r.description = text;
            } else if str_eq(self.tag.as_str(), "homepage") {
                r.homepage = text;
            }
        }
        self.repo = Some(r);
    }

    /// Read one event.
    pub fn step(&mut self, ev: &XmlEvent)
        ensures
            final(self).model() == xml_step(old(self).model(), ev.deep_view()),
    {
        match ev {
            XmlEvent::Start(name, attrs) => {
                let is_repo = str_eq(name.as_str(), "repo");
                let is_owner = str_eq(name.as_str(), "owner");
                let is_source = str_eq(name.as_str(), "source");
                self.tag = name.clone();
                if is_repo {
                    self.depth_repo = self.depth_repo.saturating_add(1);
                    let mut r = empty_repo();
                    r.quality = last_attr_exec(attrs, "quality");
                    r.status = last_attr_exec(attrs, "status");
                    self.repo = Some(r);
                } else if is_owner && self.depth_repo > 0 {
                    self.depth_owner = self.depth_owner.saturating_add(1);
                } else if is_source && self.depth_repo > 0 {
                    self.depth_source = self.depth_source.saturating_add(1);
                    self.source_type = first_attr_exec(attrs, "type");
                }
            },
            XmlEvent::End(name) => {
                let is_repo = str_eq(name.as_str(), "repo");
                let is_owner = str_eq(name.as_str(), "owner");
                let is_source = str_eq(name.as_str(), "source");
                self.tag = name.clone();
                if is_repo {
                    self.depth_repo = self.depth_repo.saturating_sub(1);
                    if self.depth_repo == 0 && self.repo.is_some() {
                        let r = self.repo.take().unwrap();
                        let ghost before = self.repos.deep_view();
                        let ghost rv = r@;
                        self.repos.push(r);
                        assert(self.repos.deep_view() =~= before.push(rv));
                    }
                } else if is_owner {
                    self.depth_owner = self.depth_owner.saturating_sub(1);
                } else if is_source {
                    self.depth_source = self.depth_source.saturating_sub(1);
                    self.source_type = String::new();
                }
            },
            XmlEvent::Text(text) => {
                if self.repo.is_some() {
                    self.apply_text(text.clone());
                }
            },
            XmlEvent::Other => {},
        }
    }
}

pub proof fn lemma_last_attr_step(attrs: Seq<(Seq<char>, Seq<char>)>, key: Seq<char>, i: int)
    requires
        0 <= i < attrs.len(),
    ensures
        last_attr(attrs.subrange(0, i + 1), key) == (if attrs[i].0 == key {
            attrs[i].1
        } else {
            last_attr(attrs.subrange(0, i), key)
        }),
{
    assert(attrs.subrange(0, i + 1).drop_last() =~= attrs.subrange(0, i));
}

/// The value of the last attribute `key`, or empty.
fn last_attr_exec(attrs: &Vec<(String, String)>, key: &str) -> (r: String)
    ensures
        r@ == last_attr(attrs.deep_view(), key@),
{
    let ghost av = attrs.deep_view();
    let mut r = String::new();
    let mut i: usize = 0;
    assert(av.subrange(0, 0) =~= Seq::<(Seq<char>, Seq<char>)>::empty());
    while i < attrs.len()
        invariant
            0 <= i <= attrs.len(),
            av == attrs.deep_view(),
            r@ == last_attr(av.subrange(0, i as int), key@),
        decreases attrs.len() - i,
    {
        proof {
            lemma_last_attr_step(av, key@, i as int);
        }
        if str_eq(attrs[i].0.as_str(), key) {
            r = attrs[i].1.clone();
        }
        i += 1;
    }
    assert(av.subrange(0, i as int) =~= av);
    r
}

pub proof fn lemma_first_attr_skip(attrs: Seq<(Seq<char>, Seq<char>)>, key: Seq<char>, i: int)
    requires
        0 <= i < attrs.len(),
    ensures
        first_attr(attrs.subrange(i, attrs.len() as int), key) == (if attrs[i].0 == key {
            attrs[i].1
        } else {
            first_attr(attrs.subrange(i + 1, attrs.len() as int), key)
        }),
{
    assert(attrs.subrange(i, attrs.len() as int).drop_first() =~= attrs.subrange(
        i + 1,
        attrs.len() as int,
    ));
}

/// The value of the first attribute `key`, or empty.
fn first_attr_exec(attrs: &Vec<(String, String)>, key: &str) -> (r: String)
    ensures
        r@ == first_attr(attrs.deep_view(), key@),
{
    let ghost av = attrs.deep_view();
    let mut i: usize = 0;
    assert(av.subrange(0, av.len() as int) =~= av);
    while i < attrs.len()
        invariant
            0 <= i <= attrs.len(),
            av == attrs.deep_view(),
            first_attr(av, key@) == first_attr(av.subrange(i as int, av.len() as int), key@),
        decreases attrs.len() - i,
    {
        proof {
            lemma_first_attr_skip(av, key@, i as int);
        }
        if str_eq(attrs[i].0.as_str(), key) {
            return attrs[i].1.clone();
        }
        i += 1;
    }
    assert(av.subrange(i as int, av.len() as int) =~= Seq::<(Seq<char>, Seq<char>)>::empty());
    String::new()
}

/// The overlays that reading the registry document `xml` gives: those of
/// its events, or the reader's error after the prefix
/// "XML parsing error: ".
pub open spec fn spec_parse(xml: Seq<char>) -> Result<Seq<RemoteRepoView>, Seq<char>> {
    match xml_events(xml) {
        Ok(evs) => Ok(xml_steps(evs).repos),
        Err(m) => Err("XML parsing error: "@ + m),
    }
}

/// The overlays that a sequence of reader events describes: every
/// `<repo>` element becomes one overlay, with its name, description,
/// homepage, owner, sources and the quality and status attributes.
pub fn parse_events(evs: &Vec<XmlEvent>) -> (r: Vec<RemoteRepo>)
    ensures
        r.deep_view() == xml_steps(evs.deep_view()).repos,
{
    let ghost ev = evs.deep_view();
    let mut parser = RegistryParser::new();
    let mut i: usize = 0;
    assert(ev.subrange(0, 0) =~= Seq::<XmlEventView>::empty());
    while i < evs.len()
        invariant
            0 <= i <= evs.len(),
            ev == evs.deep_view(),
            parser.model() == xml_steps(ev.subrange(0, i as int)),
        decreases evs.len() - i,
    {
        parser.step(&evs[i]);
        assert(ev.subrange(0, i + 1).drop_last() =~= ev.subrange(0, i as int));
        i += 1;
    }
    assert(ev.subrange(0, i as int) =~= ev);
    parser.repos
}

/// Event-driven parsing of repositories.xml: the overlays of the
/// document's events, or the reader's error.
pub fn parse(xml: &str) -> (r: Result<Vec<RemoteRepo>, String>)
    ensures
        r matches Ok(repos) ==> spec_parse(xml@) == Ok::<Seq<RemoteRepoView>, Seq<char>>(
            repos.deep_view(),
        ),
        r matches Err(m) ==> spec_parse(xml@) == Err::<Seq<RemoteRepoView>, Seq<char>>(m@),
{
    match read_xml_events(xml) {
        Ok(evs) => Ok(parse_events(&evs)),
        Err(e) => {
            let mut msg = String::from_str("XML parsing error: ");
            msg.append(e.as_str());
            Err(msg)
        },
    }
}

} // verus!
