//! Repository types shared by every part of the library.
use crate::text::{
    is_white, starts_with, ends_with, lower_text, replace_char, replace_char_exec, str_eq, string_from_chars, strip_prefix,
    strip_prefix_exec, strip_suffix, strip_suffix_exec, to_chars, to_lowercase, trim, trim_end_char,
    trim_end_char_exec, trim_exec, trim_start_matches, trim_start_matches_exec,
};
use vstd::prelude::*;

verus! {

broadcast use vstd::string::group_string_axioms;

/// Overlay sync type.
#[derive(Debug, Clone, PartialEq, Eq)]
pub enum SyncType {
    Git,
    Rsync,
    Svn,
    Mercurial,
    Other(String),
}

/// The mathematical value of a [`SyncType`].
pub enum SyncKind {
    Git,
    Rsync,
    Svn,
    Mercurial,
    Other(Seq<char>),
}

impl View for SyncType {
    type V = SyncKind;

    open spec fn view(&self) -> SyncKind {
        match self {
            SyncType::Git => SyncKind::Git,
            SyncType::Rsync => SyncKind::Rsync,
            SyncType::Svn => SyncKind::Svn,
            SyncType::Mercurial => SyncKind::Mercurial,
            SyncType::Other(s) => SyncKind::Other(s@),
        }
    }
}

impl DeepView for SyncType {
    type V = SyncKind;

    open spec fn deep_view(&self) -> SyncKind {
        self@
    }
}

/// The sync type that a repos.conf value names, once lowercased.
pub open spec fn sync_kind_of(lower: Seq<char>) -> SyncKind {
    if lower == "git"@ {
        SyncKind::Git
    } else if lower == "rsync"@ {
        SyncKind::Rsync
    } else if lower == "svn"@ {
        SyncKind::Svn
    } else if lower == "mercurial"@ || lower == "hg"@ {
        SyncKind::Mercurial
    } else {
        SyncKind::Other(lower)
    }
}

/// The text by which a sync type is written.
pub open spec fn sync_kind_name(k: SyncKind) -> Seq<char> {
    match k {
        SyncKind::Git => "git"@,
        SyncKind::Rsync => "rsync"@,
        SyncKind::Svn => "svn"@,
        SyncKind::Mercurial => "mercurial"@,
        SyncKind::Other(s) => s,
    }
}

impl SyncType {
    /// Recognize the type from a repos.conf string.
    pub fn from_str(s: &str) -> (r: Self)
        ensures
            r@ == sync_kind_of(lower_text(s@)),
    {
        proof {
            reveal(crate::text::lower_text);
        }
        let lower = to_lowercase(s);
        if str_eq(lower.as_str(), "git") {
            SyncType::Git
        } else if str_eq(lower.as_str(), "rsync") {
            SyncType::Rsync
        } else if str_eq(lower.as_str(), "svn") {
            SyncType::Svn
        } else if str_eq(lower.as_str(), "mercurial") || str_eq(lower.as_str(), "hg") {
            SyncType::Mercurial
        } else {
            SyncType::Other(lower)
        }
    }

    pub fn as_str(&self) -> (r: &str)
        ensures
            r@ == sync_kind_name(self@),
    {
        match self {
            SyncType::Git => "git",
            SyncType::Rsync => "rsync",
            SyncType::Svn => "svn",
            SyncType::Mercurial => "mercurial",
            SyncType::Other(s) => s.as_str(),
        }
    }

    pub fn is_git(&self) -> (r: bool)
        ensures
            r == (self@ is Git),
    {
        match self {
            SyncType::Git => true,
            _ => false,
        }
    }

    /// A copy with the same value.
    pub fn duplicate(&self) -> (r: Self)
        ensures
            r@ == self@,
    {
        match self {
            SyncType::Git => SyncType::Git,
            SyncType::Rsync => SyncType::Rsync,
            SyncType::Svn => SyncType::Svn,
            SyncType::Mercurial => SyncType::Mercurial,
            SyncType::Other(s) => SyncType::Other(s.clone()),
        }
    }
}

/// Installed overlay (from repos.conf).
#[derive(Debug, Clone)]
pub struct Repo {
    pub name: String,
    /// Directory of the overlay on disk.
    pub location: String,
    pub sync_type: SyncType,
    pub sync_uri: String,
    pub auto_sync: bool,
    pub priority: Option<u32>,
}

pub struct RepoView {
    pub name: Seq<char>,
    pub location: Seq<char>,
    pub sync_type: SyncKind,
    pub sync_uri: Seq<char>,
    pub auto_sync: bool,
    pub priority: Option<u32>,
}

impl View for Repo {
    type V = RepoView;

    open spec fn view(&self) -> RepoView {
        RepoView {
            name: self.name@,
            location: self.location@,
            sync_type: self.sync_type@,
            sync_uri: self.sync_uri@,
            auto_sync: self.auto_sync,
            priority: self.priority,
        }
    }
}

impl DeepView for Repo {
    type V = RepoView;

    open spec fn deep_view(&self) -> RepoView {
        self@
    }
}

impl Repo {
    /// A copy with the same value.
    pub fn duplicate(&self) -> (r: Self)
        ensures
            r@ == self@,
    {
        Repo {
            name: self.name.clone(),
            location: self.location.clone(),
            sync_type: self.sync_type.duplicate(),
            sync_uri: self.sync_uri.clone(),
            auto_sync: self.auto_sync,
            priority: self.priority,
        }
    }
}

/// Where an overlay was sourced from for display.
#[derive(Debug, Clone, Copy, PartialEq, Eq, Structural)]
pub enum RemoteOrigin {
    /// Official Gentoo registry (repositories.xml)
    GentooRegistry,
    /// Found via GitHub API
    Github,
    /// Added manually by the user
    Custom,
}

/// Overlay from the remote list (for search and adding).
#[derive(Debug, Clone)]
pub struct RemoteRepo {
    pub name: String,
    pub description: String,
    pub homepage: String,
    pub owner: String,
    /// List of sync sources: (type, url)
    pub sources: Vec<(SyncType, String)>,
    pub quality: String,
    pub status: String,
    pub origin: RemoteOrigin,
}

pub struct RemoteRepoView {
    pub name: Seq<char>,
    pub description: Seq<char>,
    pub homepage: Seq<char>,
    pub owner: Seq<char>,
    pub sources: Seq<(SyncKind, Seq<char>)>,
    pub quality: Seq<char>,
    pub status: Seq<char>,
    pub origin: RemoteOrigin,
}

impl View for RemoteRepo {
    type V = RemoteRepoView;

    open spec fn view(&self) -> RemoteRepoView {
        RemoteRepoView {
            name: self.name@,
            description: self.description@,
            homepage: self.homepage@,
            owner: self.owner@,
            sources: self.sources.deep_view(),
            quality: self.quality@,
            status: self.status@,
            origin: self.origin,
        }
    }
}

impl DeepView for RemoteRepo {
    type V = RemoteRepoView;

    open spec fn deep_view(&self) -> RemoteRepoView {
        self@
    }
}

/// The url of the first git source.
pub open spec fn first_git_url(sources: Seq<(SyncKind, Seq<char>)>) -> Option<Seq<char>>
    decreases sources.len(),
{
    if sources.len() == 0 {
        None
    } else if sources[0].0 is Git {
        Some(sources[0].1)
    } else {
        first_git_url(sources.drop_first())
    }
}

/// The deduplication key of a remote overlay: its first git source,
/// canonicalized.
pub open spec fn spec_repo_id(r: RemoteRepoView) -> Option<Seq<char>> {
    match first_git_url(r.sources) {
        Some(u) => Some(spec_canonical_repo_id(u)),
        None => None,
    }
}

pub proof fn lemma_first_git_url(sources: Seq<(SyncKind, Seq<char>)>, i: int)
    requires
        0 <= i <= sources.len(),
        forall|j: int| 0 <= j < i ==> !(#[trigger] sources[j].0 is Git),
    ensures
        i < sources.len() && sources[i].0 is Git ==> first_git_url(sources) == Some(sources[i].1),
        i == sources.len() ==> first_git_url(sources) is None,
    decreases i,
{
    if i > 0 {
        assert forall|j: int| 0 <= j < i - 1 implies !(#[trigger] sources.drop_first()[j].0 is Git) by {
            assert(sources.drop_first()[j] == sources[j + 1]);
        }
        lemma_first_git_url(sources.drop_first(), i - 1);
    }
}

impl RemoteRepo {
    /// Normalized identifier for deduplication.
    /// Takes the first git source and canonicalizes the URL.
    pub fn repo_id(&self) -> (r: Option<String>)
        ensures
            r.deep_view() == spec_repo_id(self@),
    {
        let mut i: usize = 0;
        while i < self.sources.len()
            invariant
                0 <= i <= self.sources.len(),
                forall|j: int| 0 <= j < i ==> !(#[trigger] self@.sources[j].0 is Git),
            decreases self.sources.len() - i,
        {
            if self.sources[i].0.is_git() {
                proof {
                    lemma_first_git_url(self@.sources, i as int);
                }
                return Some(canonical_repo_id(self.sources[i].1.as_str()));
            }
            i += 1;
        }
        proof {
            lemma_first_git_url(self@.sources, i as int);
        }
        None
    }

    /// A copy with the same value.
    pub fn duplicate(&self) -> (r: Self)
        ensures
            r@ == self@,
    {
        let mut sources: Vec<(SyncType, String)> = Vec::new();
        let mut i: usize = 0;
        while i < self.sources.len()
            invariant
                0 <= i <= self.sources.len(),
                sources.deep_view() == self.sources.deep_view().subrange(0, i as int),
            decreases self.sources.len() - i,
        {
            let t = self.sources[i].0.duplicate();
            let u = self.sources[i].1.clone();
            let ghost before = sources.deep_view();
            sources.push((t, u));
            assert(sources.deep_view() =~= before.push(self.sources.deep_view()[i as int]));
            i += 1;
            assert(sources.deep_view() =~= self.sources.deep_view().subrange(0, i as int));
        }
        assert(self.sources.deep_view().subrange(0, i as int) =~= self.sources.deep_view());
        RemoteRepo {
            name: self.name.clone(),
            description: self.description.clone(),
            homepage: self.homepage.clone(),
            owner: self.owner.clone(),
            sources,
            quality: self.quality.clone(),
            status: self.status.clone(),
            origin: self.origin,
        }
    }
}

/// An address without its `git@` user: `git@host:path` becomes
/// `host/path`; other text stays.
pub open spec fn strip_git_user(s: Seq<char>) -> Seq<char> {
    match strip_prefix(s, "git@"@) {
        Some(rest) => replace_char(rest, ':', '/'),
        None => s,
    }
}

fn strip_git_user_exec(s: Vec<char>) -> (r: Vec<char>)
    ensures
        r@ == strip_git_user(s@),
{
    match strip_prefix_exec(&s, &to_chars("git@")) {
        Some(rest) => replace_char_exec(&rest, ':', '/'),
        None => s,
    }
}

/// The canonical form of an overlay URL: scheme, user and `.git` suffix
/// removed, lowercased.
pub open spec fn spec_canonical_repo_id(url: Seq<char>) -> Seq<char> {
    let s = trim(url);
    let s = trim_start_matches(s, "https://"@);
    let s = trim_start_matches(s, "http://"@);
    let s = trim_start_matches(s, "git://"@);
    let s = trim_start_matches(s, "git+ssh://"@);
    let s = strip_git_user(s);
    let s = trim_start_matches(s, "ssh://"@);
    let s = strip_git_user(s);
    let s = match strip_suffix(s, ".git"@) {
        Some(t) => t,
        None => s,
    };
    lower_text(trim_end_char(s, '/'))
}

/// Canonicalize an overlay URL for comparison.
///
/// Normalizes different forms of the same git address to a single key:
///   https://github.com/foo/bar.git
///   https://github.com/foo/bar
///   git@github.com:foo/bar.git
///   git://github.com/foo/bar
///   ssh://git@github.com/foo/bar.git
///
/// All of them reduce to `github.com/foo/bar`.
pub fn canonical_repo_id(url: &str) -> (r: String)
    ensures
        r@ == spec_canonical_repo_id(url@),
{
    let s = trim_exec(&to_chars(url));
    let s = trim_start_matches_exec(&s, &to_chars("https://"));
    let s = trim_start_matches_exec(&s, &to_chars("http://"));
    let s = trim_start_matches_exec(&s, &to_chars("git://"));
    let s = trim_start_matches_exec(&s, &to_chars("git+ssh://"));
    let s = strip_git_user_exec(s);
    let s = trim_start_matches_exec(&s, &to_chars("ssh://"));
    let s = strip_git_user_exec(s);
    let s = match strip_suffix_exec(&s, &to_chars(".git")) {
        Some(t) => t,
        None => s,
    };
    let s = trim_end_char_exec(&s, '/');
    let joined = string_from_chars(s.as_slice());
    proof {
        reveal(crate::text::lower_text);
    }
    to_lowercase(joined.as_str())
}

/// The overlays of `installed` other than those named `name`, in order.
pub open spec fn without_name(installed: Seq<RepoView>, name: Seq<char>) -> Seq<RepoView>
    decreases installed.len(),
{
    if installed.len() == 0 {
        Seq::empty()
    } else {
        let prev = without_name(installed.drop_last(), name);
        if installed.last().name != name {
            prev.push(installed.last())
        } else {
            prev
        }
    }
}


/// `s` holds no `:`.
pub open spec fn colon_free(s: Seq<char>) -> bool {
    forall|i: int| 0 <= i < s.len() ==> #[trigger] s[i] != ':'
}

/// A prefix that holds a `:` is no prefix of text without one.
proof fn lemma_no_colon_prefix(s: Seq<char>, p: Seq<char>, j: int)
    requires
        colon_free(s),
        0 <= j < p.len(),
        p[j] == ':',
    ensures
        !starts_with(s, p),
        trim_start_matches(s, p) == s,
{
    if starts_with(s, p) {
        assert(s.subrange(0, p.len() as int)[j] == s[j]);
    }
}

proof fn lemma_colon_free_join(a: Seq<char>, b: Seq<char>)
    requires
        colon_free(a),
        colon_free(b),
    ensures
        colon_free(a + b),
{
    assert forall|i: int| 0 <= i < (a + b).len() implies #[trigger] (a + b)[i] != ':' by {
        if i < a.len() {
            assert((a + b)[i] == a[i]);
        } else {
            assert((a + b)[i] == b[i - a.len()]);
        }
    }
}

/// The steps of canonicalization after the scheme, on text without `:`
/// that does not start with `git@`.
proof fn lemma_canonical_tail(s: Seq<char>)
    requires
        colon_free(s),
        !starts_with(s, "git@"@),
    ensures
        strip_git_user(trim_start_matches(strip_git_user(s), "ssh://"@)) == s,
{
    reveal_strlit("ssh://");
    lemma_no_colon_prefix(s, "ssh://"@, 3);
}

/// What canonicalization needs of an address `host/path`.
pub open spec fn plain_address(host: Seq<char>, path: Seq<char>) -> bool {
    &&& colon_free(host)
    &&& colon_free(path)
    &&& !starts_with(host, "git@"@)
    &&& path.len() > 0
    &&& !is_white(path.last())
    &&& path.last() != '/'
    &&& !ends_with(host + "/"@ + path, ".git"@)
}

/// The facts about `a = host/path` and `a.git` that every form uses.
proof fn lemma_address_facts(host: Seq<char>, path: Seq<char>)
    requires
        plain_address(host, path),
    ensures
        ({
            let a = host + "/"@ + path;
            let ag = a + ".git"@;
            &&& colon_free(a)
            &&& colon_free(ag)
            &&& !starts_with(a, "git@"@)
            &&& !starts_with(ag, "git@"@)
            &&& a.len() > 0
            &&& !is_white(a.last())
            &&& trim_end_char(a, '/') == a
            &&& strip_suffix(ag, ".git"@) == Some(a)
            &&& strip_suffix(a, ".git"@) is None
            &&& strip_git_user(trim_start_matches(strip_git_user(a), "ssh://"@)) == a
            &&& strip_git_user(trim_start_matches(strip_git_user(ag), "ssh://"@)) == ag
        }),
{
    reveal_strlit("git@");
    reveal_strlit(".git");
    reveal_strlit("/");
    let a = host + "/"@ + path;
    let ag = a + ".git"@;
    assert(colon_free("/"@));
    assert(colon_free(".git"@));
    lemma_colon_free_join(host, "/"@);
    lemma_colon_free_join(host + "/"@, path);
    lemma_colon_free_join(a, ".git"@);
    assert(!starts_with(a, "git@"@)) by {
        if starts_with(a, "git@"@) {
            if host.len() >= 4 {
                assert(host.subrange(0, 4) =~= a.subrange(0, 4));
            } else {
                assert(a[host.len() as int] == '/');
                assert(a.subrange(0, 4)[host.len() as int] == "git@"@[host.len() as int]);
            }
        }
    }
    assert(!starts_with(ag, "git@"@)) by {
        if starts_with(ag, "git@"@) {
            if a.len() >= 4 {
                assert(ag.subrange(0, 4) =~= a.subrange(0, 4));
            } else {
                assert(ag[a.len() as int] == '.');
                assert(ag.subrange(0, 4)[a.len() as int] == "git@"@[a.len() as int]);
            }
        }
    }
    assert(a.last() == path.last());
    assert(ag.subrange(ag.len() - 4, ag.len() as int) =~= ".git"@);
    assert(ag.subrange(0, ag.len() - 4) =~= a);
    lemma_canonical_tail(a);
    lemma_canonical_tail(ag);
}

/// No scheme prefix matches text without `:`.
proof fn lemma_no_scheme(s: Seq<char>)
    requires
        colon_free(s),
    ensures
        trim_start_matches(s, "https://"@) == s,
        trim_start_matches(s, "http://"@) == s,
        trim_start_matches(s, "git://"@) == s,
        trim_start_matches(s, "git+ssh://"@) == s,
{
    reveal_strlit("https://");
    reveal_strlit("http://");
    reveal_strlit("git://");
    reveal_strlit("git+ssh://");
    lemma_no_colon_prefix(s, "https://"@, 5);
    lemma_no_colon_prefix(s, "http://"@, 4);
    lemma_no_colon_prefix(s, "git://"@, 3);
    lemma_no_colon_prefix(s, "git+ssh://"@, 7);
}

/// `https://` followed by colon-free text canonicalizes as that text.
proof fn lemma_https_form(s: Seq<char>)
    requires
        colon_free(s),
        s.len() > 0,
        !is_white(s.last()),
    ensures
        trim_start_matches(trim_start_matches(trim_start_matches(trim_start_matches(
            trim("https://"@ + s),
            "https://"@,
        ), "http://"@), "git://"@), "git+ssh://"@) == s,
{
    reveal_strlit("https://");
    let f = "https://"@ + s;
    assert(f.last() == s.last());
    crate::text::lemma_trim_solid(f);
    assert(f.subrange(0, 8) =~= "https://"@);
    assert(f.subrange(8, f.len() as int) =~= s);
    lemma_no_scheme(s);
    assert(trim_start_matches(f, "https://"@) == s);
}

/// `git://` followed by colon-free text canonicalizes as that text.
proof fn lemma_git_form(s: Seq<char>)
    requires
        colon_free(s),
        s.len() > 0,
        !is_white(s.last()),
    ensures
        trim_start_matches(trim_start_matches(trim_start_matches(trim_start_matches(
            trim("git://"@ + s),
            "https://"@,
        ), "http://"@), "git://"@), "git+ssh://"@) == s,
{
    reveal_strlit("https://");
    reveal_strlit("http://");
    reveal_strlit("git://");
    let f = "git://"@ + s;
    assert(f.last() == s.last());
    crate::text::lemma_trim_solid(f);
    assert(!starts_with(f, "https://"@)) by {
        if f.len() >= 8 {
            assert(f.subrange(0, 8)[0] != "https://"@[0]);
        }
    }
    assert(!starts_with(f, "http://"@)) by {
        if f.len() >= 7 {
            assert(f.subrange(0, 7)[0] != "http://"@[0]);
        }
    }
    assert(f.subrange(0, 6) =~= "git://"@);
    assert(f.subrange(6, f.len() as int) =~= s);
    lemma_no_scheme(s);
    assert(trim_start_matches(f, "git://"@) == s);
}

/// `git@host:path.git` loses its user and takes `/` for `:`.
proof fn lemma_scp_form(host: Seq<char>, path: Seq<char>)
    requires
        colon_free(host),
        colon_free(path),
    ensures
        ({
            let f = "git@"@ + host + ":"@ + path + ".git"@;
            let s = trim_start_matches(trim_start_matches(trim_start_matches(trim_start_matches(
                trim(f),
                "https://"@,
            ), "http://"@), "git://"@), "git+ssh://"@);
            &&& s == f
            &&& strip_prefix(f, "git@"@) == Some(host + ":"@ + path + ".git"@)
            &&& replace_char(host + ":"@ + path + ".git"@, ':', '/') == host + "/"@ + path
                + ".git"@
        }),
{
    reveal_strlit("https://");
    reveal_strlit("http://");
    reveal_strlit("git://");
    reveal_strlit("git+ssh://");
    reveal_strlit("git@");
    reveal_strlit(".git");
    reveal_strlit(":");
    reveal_strlit("/");
    let f = "git@"@ + host + ":"@ + path + ".git"@;
    let rest = host + ":"@ + path + ".git"@;
    let ag = host + "/"@ + path + ".git"@;
    assert(f =~= "git@"@ + rest);
    assert(f.last() == 't');
    crate::text::lemma_trim_solid(f);
    assert(!starts_with(f, "https://"@)) by {
        if f.len() >= 8 {
            assert(f.subrange(0, 8)[0] != "https://"@[0]);
        }
    }
    assert(!starts_with(f, "http://"@)) by {
        if f.len() >= 7 {
            assert(f.subrange(0, 7)[0] != "http://"@[0]);
        }
    }
    assert(!starts_with(f, "git://"@)) by {
        if f.len() >= 6 {
            assert(f.subrange(0, 6)[3] != "git://"@[3]);
        }
    }
    assert(!starts_with(f, "git+ssh://"@)) by {
        if f.len() >= 10 {
            assert(f.subrange(0, 10)[3] != "git+ssh://"@[3]);
        }
    }
    assert(f.subrange(0, 4) =~= "git@"@);
    assert(f.subrange(4, f.len() as int) =~= rest);
    assert(replace_char(rest, ':', '/') =~= ag) by {
        assert forall|i: int| 0 <= i < rest.len() implies #[trigger] replace_char(rest, ':', '/')[i]
            == ag[i] by {
            if i < host.len() {
                assert(rest[i] == host[i]);
                assert(ag[i] == host[i]);
            } else if i == host.len() {
                assert(rest[i] == ':');
                assert(ag[i] == '/');
            } else if i < host.len() + 1 + path.len() {
                assert(rest[i] == path[i - host.len() - 1]);
                assert(ag[i] == path[i - host.len() - 1]);
            } else {
                assert(rest[i] == ".git"@[i - host.len() - 1 - path.len()]);
                assert(ag[i] == ".git"@[i - host.len() - 1 - path.len()]);
            }
        }
    }
}

/// `ssh://git@` followed by colon-free text `s` canonicalizes, up to its
/// `.git` suffix, as `s`.
proof fn lemma_ssh_form(s: Seq<char>)
    requires
        colon_free(s),
        s.len() > 0,
        !is_white(s.last()),
    ensures
        ({
            let f = "ssh://git@"@ + s;
            let t = trim_start_matches(trim_start_matches(trim_start_matches(trim_start_matches(
                trim(f),
                "https://"@,
            ), "http://"@), "git://"@), "git+ssh://"@);
            strip_git_user(trim_start_matches(strip_git_user(t), "ssh://"@))
        }) == s,
{
    reveal_strlit("https://");
    reveal_strlit("http://");
    reveal_strlit("git://");
    reveal_strlit("git+ssh://");
    reveal_strlit("ssh://");
    reveal_strlit("git@");
    reveal_strlit("ssh://git@");
    let f = "ssh://git@"@ + s;
    let g = "git@"@ + s;
    assert(f.last() == s.last());
    crate::text::lemma_trim_solid(f);
    assert(!starts_with(f, "https://"@)) by {
        assert(f.subrange(0, 8)[0] != "https://"@[0]);
    }
    assert(!starts_with(f, "http://"@)) by {
        assert(f.subrange(0, 7)[0] != "http://"@[0]);
    }
    assert(!starts_with(f, "git://"@)) by {
        assert(f.subrange(0, 6)[0] != "git://"@[0]);
    }
    assert(!starts_with(f, "git+ssh://"@)) by {
        assert(f.subrange(0, 10)[0] != "git+ssh://"@[0]);
    }
    assert(!starts_with(f, "git@"@)) by {
        assert(f.subrange(0, 4)[0] != "git@"@[0]);
    }
    assert(f.subrange(0, 6) =~= "ssh://"@);
    assert(f.subrange(6, f.len() as int) =~= g);
    assert(colon_free("git@"@));
    lemma_colon_free_join("git@"@, s);
    assert(g =~= "git@"@ + s);
    lemma_no_colon_prefix(g, "ssh://"@, 3);
    assert(trim_start_matches(f, "ssh://"@) == trim_start_matches(g, "ssh://"@));
    assert(trim_start_matches(f, "ssh://"@) == g);
    assert(g.subrange(0, 4) =~= "git@"@);
    assert(g.subrange(4, g.len() as int) =~= s);
    assert(replace_char(s, ':', '/') =~= s);
}

/// The usual forms of one git address — `https://host/path` with and
/// without `.git`, `git@host:path.git`, `git://host/path` and
/// `ssh://git@host/path.git` — have one
/// canonical id: `host/path`, lowercased. The host and path hold no `:`,
/// the host does not start with `git@`, the path is not empty and ends
/// with neither white space nor `/`, and the address does not end with
/// `.git`.
#[verifier::rlimit(40)]
pub proof fn law_canonical_forms(host: Seq<char>, path: Seq<char>)
    requires
        plain_address(host, path),
    ensures
        spec_canonical_repo_id("https://"@ + host + "/"@ + path + ".git"@) == lower_text(
            host + "/"@ + path,
        ),
        spec_canonical_repo_id("https://"@ + host + "/"@ + path) == lower_text(host + "/"@ + path),
        spec_canonical_repo_id("git@"@ + host + ":"@ + path + ".git"@) == lower_text(
            host + "/"@ + path,
        ),
        spec_canonical_repo_id("git://"@ + host + "/"@ + path) == lower_text(host + "/"@ + path),
        spec_canonical_repo_id("ssh://git@"@ + host + "/"@ + path + ".git"@) == lower_text(
            host + "/"@ + path,
        ),
{
    reveal_strlit(".git");
    let a = host + "/"@ + path;
    let ag = a + ".git"@;
    lemma_address_facts(host, path);
    assert(ag.last() == 't');
    lemma_https_form(ag);
    assert("https://"@ + ag =~= "https://"@ + host + "/"@ + path + ".git"@);
    lemma_https_form(a);
    assert("https://"@ + a =~= "https://"@ + host + "/"@ + path);
    lemma_git_form(a);
    assert("git://"@ + a =~= "git://"@ + host + "/"@ + path);
    lemma_scp_form(host, path);
    assert(host + "/"@ + path + ".git"@ == ag);
    lemma_ssh_form(ag);
    assert("ssh://git@"@ + ag =~= "ssh://git@"@ + host + "/"@ + path + ".git"@);
}

/// A prefix without `.` starts `x + ".git"` exactly when it starts `x`.
proof fn lemma_prefix_before_git(x: Seq<char>, p: Seq<char>)
    requires
        p.len() > 0,
        forall|i: int| 0 <= i < p.len() ==> #[trigger] p[i] != '.',
    ensures
        starts_with(x + ".git"@, p) == starts_with(x, p),
{
    reveal_strlit(".git");
    let xg = x + ".git"@;
    if x.len() >= p.len() {
        assert(xg.subrange(0, p.len() as int) =~= x.subrange(0, p.len() as int));
    } else if starts_with(xg, p) {
        assert(xg[x.len() as int] == '.');
        assert(xg.subrange(0, p.len() as int)[x.len() as int] == p[x.len() as int]);
    }
}

/// A suffix of `x` that ends with `.git` makes `x` end with `.git`.
proof fn lemma_suffix_ends_git(x: Seq<char>, k: int)
    requires
        0 <= k <= x.len(),
        ends_with(x.subrange(k, x.len() as int), ".git"@),
    ensures
        ends_with(x, ".git"@),
{
    reveal_strlit(".git");
    let y = x.subrange(k, x.len() as int);
    assert(y.subrange(y.len() - 4, y.len() as int) =~= x.subrange(x.len() - 4, x.len() as int));
}

/// Removing repeated prefixes commutes with a `.git` suffix.
proof fn lemma_trim_prefix_before_git(x: Seq<char>, p: Seq<char>)
    requires
        p.len() > 0,
        forall|i: int| 0 <= i < p.len() ==> #[trigger] p[i] != '.',
    ensures
        trim_start_matches(x + ".git"@, p) == trim_start_matches(x, p) + ".git"@,
        !ends_with(x, ".git"@) ==> !ends_with(trim_start_matches(x, p), ".git"@),
    decreases x.len(),
{
    lemma_prefix_before_git(x, p);
    if starts_with(x, p) {
        let rest = x.subrange(p.len() as int, x.len() as int);
        assert((x + ".git"@).subrange(p.len() as int, (x + ".git"@).len() as int) =~= rest + ".git"@);
        lemma_trim_prefix_before_git(rest, p);
        if !ends_with(x, ".git"@) && ends_with(rest, ".git"@) {
            lemma_suffix_ends_git(x, p.len() as int);
        }
    }
}

/// Dropping a `git@` user commutes with a `.git` suffix.
proof fn lemma_strip_user_before_git(x: Seq<char>)
    ensures
        strip_git_user(x + ".git"@) == strip_git_user(x) + ".git"@,
        !ends_with(x, ".git"@) ==> !ends_with(strip_git_user(x), ".git"@),
{
    reveal_strlit("git@");
    reveal_strlit(".git");
    lemma_prefix_before_git(x, "git@"@);
    if starts_with(x, "git@"@) {
        let rest = x.subrange(4, x.len() as int);
        let xg = x + ".git"@;
        assert(xg.subrange(4, xg.len() as int) =~= rest + ".git"@);
        assert(replace_char(rest + ".git"@, ':', '/') =~= replace_char(rest, ':', '/') + ".git"@);
        let r = replace_char(rest, ':', '/');
        if !ends_with(x, ".git"@) && ends_with(r, ".git"@) {
            assert(rest.subrange(rest.len() - 4, rest.len() as int) =~= ".git"@) by {
                assert forall|j: int| 0 <= j < 4 implies #[trigger] rest[rest.len() - 4 + j]
                    == ".git"@[j] by {
                    assert(r.subrange(r.len() - 4, r.len() as int)[j] == ".git"@[j]);
                    assert(r[rest.len() - 4 + j] == ".git"@[j]);
                }
            }
            lemma_suffix_ends_git(x, 4);
        }
    }
}

/// A `.git` suffix does not change the id of an address that is its own
/// trim and does not end with `.git` already.
pub proof fn law_git_suffix_keeps_id(u: Seq<char>)
    requires
        trim(u) == u,
        !ends_with(u, ".git"@),
    ensures
        spec_canonical_repo_id(u + ".git"@) == spec_canonical_repo_id(u),
{
    reveal_strlit(".git");
    reveal_strlit("https://");
    reveal_strlit("http://");
    reveal_strlit("git://");
    reveal_strlit("git+ssh://");
    reveal_strlit("ssh://");
    let g = ".git"@;
    let ug = u + g;
    assert(ug.last() == 't');
    if u.len() > 0 {
        crate::text::lemma_trimmed_ends(u);
        assert(ug[0] == u[0]);
    } else {
        assert(ug =~= g);
    }
    crate::text::lemma_trim_solid(ug);
    let s1 = trim_start_matches(u, "https://"@);
    lemma_trim_prefix_before_git(u, "https://"@);
    let s2 = trim_start_matches(s1, "http://"@);
    lemma_trim_prefix_before_git(s1, "http://"@);
    let s3 = trim_start_matches(s2, "git://"@);
    lemma_trim_prefix_before_git(s2, "git://"@);
    let s4 = trim_start_matches(s3, "git+ssh://"@);
    lemma_trim_prefix_before_git(s3, "git+ssh://"@);
    let s5 = strip_git_user(s4);
    lemma_strip_user_before_git(s4);
    let s6 = trim_start_matches(s5, "ssh://"@);
    lemma_trim_prefix_before_git(s5, "ssh://"@);
    let s7 = strip_git_user(s6);
    lemma_strip_user_before_git(s6);
    let y = s7 + g;
    assert(y.subrange(y.len() - 4, y.len() as int) =~= g);
    assert(y.subrange(0, y.len() - 4) =~= s7);
    assert(strip_suffix(y, g) == Some(s7));
    assert(strip_suffix(s7, g) is None);
}

} // verus!
