//! The repos.conf format: sections `[name]` of `key = value` lines.
use crate::text::{
    all_digits, ascii_lower, all_ascii, index_of, is_white, lemma_index_of, lemma_parse_decimal,
    lemma_trim_solid, lemma_trim_space_first, lemma_trim_strip_cr, lemma_trimmed_ends,
    lemma_index_of_newline, lemma_last_index_after, lemma_lines_single, lemma_trim_drop_white_end, last_index_of, single_line, strip_cr, trim_start, chars_eq, decimal, decimal_string, ends_with, ends_with_exec, lines, lower_chars, lower_text,
    parse_u32, parse_u32_exec, split_lines, split_once, split_once_exec, starts_with,
    starts_with_exec, string_from_chars, to_chars, trim, trim_end, trim_end_exec, trim_exec,
};
use crate::types::{sync_kind_name, sync_kind_of, without_name, Repo, RepoView, SyncKind, SyncType};
use vstd::prelude::*;

verus! {

broadcast use vstd::string::group_string_axioms;

/// Name of the file where overlay-manager writes its overlays.
pub const MANAGER_CONF: &'static str = "overlay-manager.conf";

/// The map that a list of assignments gives (a later one wins).
pub open spec fn assignments(es: Seq<(Seq<char>, Seq<char>)>) -> Map<Seq<char>, Seq<char>>
    decreases es.len(),
{
    if es.len() == 0 {
        Map::empty()
    } else {
        assignments(es.drop_last()).insert(es.last().0, es.last().1)
    }
}

/// The `key = value` entries of one section.
pub struct Entries {
    items: Vec<(String, String)>,
}

impl Entries {
    /// Key → value.
    pub closed spec fn view(&self) -> Map<Seq<char>, Seq<char>> {
        assignments(self.items.deep_view())
    }

    pub fn new() -> (r: Entries)
        ensures
            r.view() == Map::<Seq<char>, Seq<char>>::empty(),
    {
        Entries { items: Vec::new() }
    }

    /// Entries with these pairs assigned in order.
    pub fn from_pairs(pairs: Vec<(String, String)>) -> (r: Entries)
        ensures
            r.view() == assignments(pairs.deep_view()),
    {
        Entries { items: pairs }
    }

    /// Assign `value` to `key`.
    pub fn insert(&mut self, key: String, value: String)
        ensures
            final(self).view() == old(self).view().insert(key@, value@),
    {
        let ghost before = self.items.deep_view();
        let ghost kv = (key@, value@);
        self.items.push((key, value));
        assert(self.items.deep_view() =~= before.push(kv));
        assert(self.items.deep_view().drop_last() =~= before);
    }

    pub fn clear(&mut self)
        ensures
            final(self).view() == Map::<Seq<char>, Seq<char>>::empty(),
    {
        self.items = Vec::new();
        assert(self.items.deep_view() =~= Seq::<(Seq<char>, Seq<char>)>::empty());
    }

    /// The value of `key`.
    pub fn get(&self, key: &str) -> (r: Option<&String>)
        ensures
            r matches Some(v) ==> self.view().contains_key(key@) && self.view()[key@] == v@,
            r is None ==> !self.view().contains_key(key@),
    {
        let ghost es = self.items.deep_view();
        let mut k: usize = self.items.len();
        assert(es.subrange(0, es.len() as int) =~= es);
        while k > 0
            invariant
                0 <= k <= self.items.len(),
                es == self.items.deep_view(),
                assignments(es).contains_key(key@) <==> assignments(
                    es.subrange(0, k as int),
                ).contains_key(key@),
                assignments(es.subrange(0, k as int)).contains_key(key@) ==> assignments(es)[key@]
                    == assignments(es.subrange(0, k as int))[key@],
            decreases k,
        {
            let ghost pre = es.subrange(0, k as int);
            assert(pre.drop_last() =~= es.subrange(0, k - 1));
            if crate::text::str_eq(self.items[k - 1].0.as_str(), key) {
                return Some(&self.items[k - 1].1);
            }
            k -= 1;
        }
        assert(es.subrange(0, 0) =~= Seq::<(Seq<char>, Seq<char>)>::empty());
        None
    }
}

// ───────────────────────── sections ─────────────────────────

/// Whether `auto-sync` holds for this value.
pub open spec fn is_yes(v: Seq<char>) -> bool {
    v == "yes"@ || v == "true"@
}

/// The overlay that a section `[name]` with these entries describes; a
/// section without `location` describes none.
pub open spec fn spec_build_repo(name: Seq<char>, m: Map<Seq<char>, Seq<char>>) -> Option<RepoView> {
    if !m.contains_key("location"@) {
        None
    } else {
        Some(
            RepoView {
                name,
                location: m["location"@],
                sync_type: if m.contains_key("sync-type"@) {
                    sync_kind_of(lower_text(m["sync-type"@]))
                } else {
                    SyncKind::Other("unknown"@)
                },
                sync_uri: if m.contains_key("sync-uri"@) {
                    m["sync-uri"@]
                } else {
                    Seq::empty()
                },
                auto_sync: m.contains_key("auto-sync"@) && is_yes(m["auto-sync"@]),
                priority: if m.contains_key("priority"@) {
                    parse_u32(m["priority"@])
                } else {
                    None
                },
            },
        )
    }
}

/// Build Repo from parsed section keys.
pub fn build_repo(name: &str, entries: &Entries) -> (r: Option<Repo>)
    ensures
        r matches Some(x) ==> spec_build_repo(name@, entries.view()) == Some(x@),
        r is None ==> spec_build_repo(name@, entries.view()) is None,
{
    let location = match entries.get("location") {
        Some(l) => l.clone(),
        None => return None,
    };
    let sync_type = match entries.get("sync-type") {
        Some(s) => SyncType::from_str(s.as_str()),
        None => SyncType::Other(String::from_str("unknown")),
    };
    let sync_uri = match entries.get("sync-uri") {
        Some(u) => u.clone(),
        None => String::new(),
    };
    let auto_sync = match entries.get("auto-sync") {
        Some(s) => crate::text::str_eq(s.as_str(), "yes") || crate::text::str_eq(
            s.as_str(),
            "true",
        ),
        None => false,
    };
    let priority = match entries.get("priority") {
        Some(p) => parse_u32_exec(&to_chars(p.as_str())),
        None => None,
    };
    Some(Repo { name: String::from_str(name), location, sync_type, sync_uri, auto_sync, priority })
}

/// The reading position of the repos.conf parser.
#[verifier::ext_equal]
pub struct ConfState {
    pub repos: Seq<RepoView>,
    pub section: Option<Seq<char>>,
    pub entries: Map<Seq<char>, Seq<char>>,
}

/// `line` opens a section `[name]`.
pub open spec fn is_section_header(line: Seq<char>) -> bool {
    starts_with(line, "["@) && ends_with(line, "]"@)
}

pub proof fn lemma_header_len(line: Seq<char>)
    requires
        is_section_header(line),
    ensures
        line.len() >= 2,
{
    reveal_strlit("[");
    reveal_strlit("]");
    assert(line.len() >= 1);
    if line.len() == 1 {
        assert(line.subrange(0, 1)[0] == '[');
        assert(line.subrange(0, 1)[0] == ']');
    }
}

/// The name between the brackets of a section header.
pub open spec fn header_name(line: Seq<char>) -> Seq<char> {
    line.subrange(1, line.len() - 1)
}

/// The overlays read so far, with the pending section closed.
pub open spec fn close_section(st: ConfState) -> Seq<RepoView> {
    match st.section {
        Some(name) => match spec_build_repo(name, st.entries) {
            Some(r) => st.repos.push(r),
            None => st.repos,
        },
        None => st.repos,
    }
}

/// One line of a repos.conf file read in state `st`.
pub open spec fn conf_step(st: ConfState, line: Seq<char>) -> ConfState {
    let l = trim(line);
    if l.len() == 0 || starts_with(l, "#"@) {
        st
    } else if is_section_header(l) {
        ConfState {
            repos: close_section(st),
            section: Some(header_name(l)),
            entries: if st.section is Some {
                Map::empty()
            } else {
                st.entries
            },
        }
    } else {
        match split_once(l, '=') {
            Some((k, v)) => ConfState { entries: st.entries.insert(lower_text(trim(k)), trim(v)), ..st },
            None => st,
        }
    }
}

/// The state after the first `k` lines.
pub open spec fn conf_state(ls: Seq<Seq<char>>, k: int) -> ConfState
    decreases k,
{
    if k <= 0 {
        ConfState { repos: Seq::empty(), section: None, entries: Map::empty() }
    } else {
        conf_step(conf_state(ls, k - 1), ls[k - 1])
    }
}

/// The overlays that a repos.conf text describes, in file order.
pub open spec fn spec_parse_conf(content: Seq<char>) -> Seq<RepoView> {
    let ls = lines(content);
    close_section(conf_state(ls, ls.len() as int))
}

/// Parse the text of a single repos.conf file.
pub fn parse_conf(content: &str) -> (r: Vec<Repo>)
    ensures
        r.deep_view() == spec_parse_conf(content@),
{
    let chars = to_chars(content);
    let ls = split_lines(&chars);
    let ghost lsv = lines(content@);
    let mut repos: Vec<Repo> = Vec::new();
    let mut section: Option<String> = None;
    let mut entries = Entries::new();
    let mut i: usize = 0;
    assert(repos.deep_view() =~= Seq::<RepoView>::empty());
    while i < ls.len()
        invariant
            0 <= i <= ls.len(),
            ls.len() == lsv.len(),
            lsv == lines(content@),
            forall|k: int| 0 <= k < ls.len() ==> #[trigger] ls[k]@ == lsv[k],
            conf_state(lsv, i as int) == (ConfState {
                repos: repos.deep_view(),
                section: section.deep_view(),
                entries: entries.view(),
            }),
        decreases ls.len() - i,
    {
        let l = trim_exec(&ls[i]);
        assert(l@ == trim(lsv[i as int]));
        if l.len() == 0 || starts_with_exec(&l, &to_chars("#")) {
        } else if starts_with_exec(&l, &to_chars("[")) && ends_with_exec(&l, &to_chars("]")) {
            match section {
                Some(name) => {
                    match build_repo(name.as_str(), &entries) {
                        Some(repo) => {
                            let ghost before = repos.deep_view();
                            let ghost rv = repo@;
                            repos.push(repo);
                            assert(repos.deep_view() =~= before.push(rv));
                        },
                        None => {},
                    }
                    entries.clear();
                },
                None => {},
            }
            proof {
                lemma_header_len(l@);
            }
            let name = crate::text::slice(&l, 1, l.len() - 1);
            section = Some(string_from_chars(name.as_slice()));
        } else {
            match split_once_exec(&l, '=') {
                Some((k, v)) => {
                    let key_trim = trim_exec(&k);
                    proof {
                        reveal(crate::text::lower_text);
                    }
                    let key = crate::text::to_lowercase(string_from_chars(key_trim.as_slice()).as_str());
                    let value = string_from_chars(trim_exec(&v).as_slice());
                    entries.insert(key, value);
                },
                None => {},
            }
        }
        i += 1;
    }
    match section {
        Some(name) => {
            match build_repo(name.as_str(), &entries) {
                Some(repo) => {
                    let ghost before = repos.deep_view();
                    let ghost rv = repo@;
                    repos.push(repo);
                    assert(repos.deep_view() =~= before.push(rv));
                },
                None => {},
            }
        },
        None => {},
    }
    repos
}

// ───────────────────────── removing a section ─────────────────────────

/// Append the characters of `s`.
pub fn append_chars(out: &mut Vec<char>, s: &Vec<char>)
    ensures
        final(out)@ == old(out)@ + s@,
{
    let mut j: usize = 0;
    while j < s.len()
        invariant
            0 <= j <= s.len(),
            out@ == old(out)@ + s@.subrange(0, j as int),
        decreases s.len() - j,
    {
        out.push(s[j]);
        j += 1;
        assert(out@ =~= old(out)@ + s@.subrange(0, j as int));
    }
    assert(s@.subrange(0, j as int) =~= s@);
}

/// The state of section removal: text kept so far, whether the current
/// section is skipped, whether the section was seen.
#[verifier::ext_equal]
pub struct RemoveState {
    pub out: Seq<char>,
    pub skip: bool,
    pub found: bool,
}

pub open spec fn remove_step(st: RemoveState, line: Seq<char>, name: Seq<char>) -> RemoveState {
    let t = trim(line);
    let st2 = if is_section_header(t) {
        let skip = header_name(t) == name;
        RemoveState { out: st.out, skip, found: st.found || skip }
    } else {
        st
    };
    if !st2.skip {
        RemoveState { out: st2.out + line + "\n"@, ..st2 }
    } else {
        st2
    }
}

pub open spec fn remove_state(ls: Seq<Seq<char>>, name: Seq<char>, k: int) -> RemoveState
    decreases k,
{
    if k <= 0 {
        RemoveState { out: Seq::empty(), skip: false, found: false }
    } else {
        remove_step(remove_state(ls, name, k - 1), ls[k - 1], name)
    }
}

/// The text without section `[name]`, if the text has such a section:
/// every line outside the section is kept, and trailing white space is
/// dropped.
pub open spec fn spec_remove_section(content: Seq<char>, name: Seq<char>) -> Option<Seq<char>> {
    let ls = lines(content);
    let st = remove_state(ls, name, ls.len() as int);
    if st.found {
        Some(trim_end(st.out))
    } else {
        None
    }
}

/// Remove section `[name]` from the text of a repos.conf file; `None` when
/// the file has no such section.
pub fn remove(content: &str, name: &str) -> (r: Option<String>)
    ensures
        r.deep_view() == spec_remove_section(content@, name@),
{
    let chars = to_chars(content);
    let name_chars = to_chars(name);
    let ls = split_lines(&chars);
    let ghost lsv = lines(content@);
    let mut out: Vec<char> = Vec::new();
    assert(out@ =~= Seq::<char>::empty());
    let mut skip = false;
    let mut found = false;
    let mut i: usize = 0;
    while i < ls.len()
        invariant
            0 <= i <= ls.len(),
            ls.len() == lsv.len(),
            lsv == lines(content@),
            name_chars@ == name@,
            forall|k: int| 0 <= k < ls.len() ==> #[trigger] ls[k]@ == lsv[k],
            remove_state(lsv, name@, i as int) == (RemoveState { out: out@, skip, found }),
        decreases ls.len() - i,
    {
        let t = trim_exec(&ls[i]);
        if starts_with_exec(&t, &to_chars("[")) && ends_with_exec(&t, &to_chars("]")) {
            proof {
                lemma_header_len(t@);
            }
            let section = crate::text::slice(&t, 1, t.len() - 1);
            skip = chars_eq(&section, &name_chars);
            if skip {
                found = true;
            }
        }
        if !skip {
            let ghost before = out@;
            append_chars(&mut out, &ls[i]);
            out.push('\n');
            assert(out@ =~= before + lsv[i as int] + "\n"@) by {
                reveal_strlit("\n");
            }
        }
        i += 1;
    }
    if found {
        Some(string_from_chars(trim_end_exec(&out).as_slice()))
    } else {
        None
    }
}

// ───────────────────────── writing ─────────────────────────

/// The first line of a configuration file that overlay-manager creates.
pub open spec fn manager_header() -> Seq<char> {
    "# Managed by overlay-manager\n"@
}

/// The section that describes an overlay.
pub open spec fn spec_format_section(r: RepoView) -> Seq<char> {
    "\n["@ + r.name + "]\nlocation = "@ + r.location + "\nsync-type = "@ + sync_kind_name(
        r.sync_type,
    ) + "\nsync-uri = "@ + r.sync_uri + "\nauto-sync = "@ + (if r.auto_sync {
        "yes"@
    } else {
        "no"@
    }) + "\npriority = "@ + decimal(
        match r.priority {
            Some(p) => p as nat,
            None => 50,
        },
    ) + "\n"@
}

/// The section that describes an overlay, as appended to the file.
pub fn format_section(repo: &Repo) -> (r: String)
    ensures
        r@ == spec_format_section(repo@),
{
    let mut s = String::from_str("\n[");
    s.append(repo.name.as_str());
    s.append("]\nlocation = ");
    s.append(repo.location.as_str());
    s.append("\nsync-type = ");
    s.append(repo.sync_type.as_str());
    s.append("\nsync-uri = ");
    s.append(repo.sync_uri.as_str());
    s.append("\nauto-sync = ");
    s.append(if repo.auto_sync {
        "yes"
    } else {
        "no"
    });
    s.append("\npriority = ");
    let p: u32 = match repo.priority {
        Some(p) => p,
        None => 50,
    };
    let digits = decimal_string(p as u64);
    s.append(digits.as_str());
    s.append("\n");
    s
}

/// The new text of overlay-manager.conf after appending `repo`: the old
/// text (a header when the file does not exist yet), then the section.
pub open spec fn spec_appended_config(existing: Option<Seq<char>>, r: RepoView) -> Seq<char> {
    let head = match existing {
        Some(c) => c,
        None => manager_header(),
    };
    head + spec_format_section(r)
}

/// The new text of overlay-manager.conf after appending `repo`.
pub fn appended_config(existing: Option<String>, repo: &Repo) -> (r: String)
    ensures
        r@ == spec_appended_config(existing.deep_view(), repo@),
{
    let mut content = match existing {
        Some(c) => c,
        None => String::from_str("# Managed by overlay-manager\n"),
    };
    let section = format_section(repo);
    content.append(section.as_str());
    content
}

/// Whether an overlay named `name` is among `repos`.
pub fn is_installed(repos: &Vec<Repo>, name: &str) -> (r: bool)
    ensures
        r == exists|i: int| 0 <= i < repos.len() && #[trigger] repos[i]@.name == name@,
{
    let mut i: usize = 0;
    while i < repos.len()
        invariant
            0 <= i <= repos.len(),
            forall|j: int| 0 <= j < i ==> #[trigger] repos[j]@.name != name@,
        decreases repos.len() - i,
    {
        if crate::text::str_eq(repos[i].name.as_str(), name) {
            assert(repos[i as int]@.name == name@);
            return true;
        }
        i += 1;
    }
    false
}


// ───────────────────────── reading back what was written ─────────────────────────

/// The parser state after reading the lines `ls` one after another from `st`.
pub open spec fn conf_run(st: ConfState, ls: Seq<Seq<char>>) -> ConfState
    decreases ls.len(),
{
    if ls.len() == 0 {
        st
    } else {
        conf_run(conf_step(st, ls[0]), ls.drop_first())
    }
}

/// The parser state before the first line.
pub open spec fn conf_start() -> ConfState {
    ConfState { repos: Seq::empty(), section: None, entries: Map::empty() }
}

pub proof fn lemma_conf_run_append(st: ConfState, a: Seq<Seq<char>>, b: Seq<Seq<char>>)
    ensures
        conf_run(st, a + b) == conf_run(conf_run(st, a), b),
    decreases a.len(),
{
    if a.len() > 0 {
        assert((a + b).drop_first() =~= a.drop_first() + b);
        assert((a + b)[0] == a[0]);
        lemma_conf_run_append(conf_step(st, a[0]), a.drop_first(), b);
    } else {
        assert(a + b =~= b);
    }
}

pub proof fn lemma_conf_run_cons(st: ConfState, x: Seq<char>, rest: Seq<Seq<char>>)
    ensures
        conf_run(st, seq![x] + rest) == conf_run(conf_step(st, x), rest),
{
    assert((seq![x] + rest).drop_first() =~= rest);
    assert((seq![x] + rest)[0] == x);
}

/// Reading line by line from the front gives the parser's state.
pub proof fn lemma_conf_state_run(ls: Seq<Seq<char>>, k: int)
    requires
        0 <= k <= ls.len(),
    ensures
        conf_state(ls, k) == conf_run(conf_start(), ls.subrange(0, k)),
    decreases k,
{
    if k > 0 {
        lemma_conf_state_run(ls, k - 1);
        assert(ls.subrange(0, k) =~= ls.subrange(0, k - 1) + seq![ls[k - 1]]);
        lemma_conf_run_append(conf_start(), ls.subrange(0, k - 1), seq![ls[k - 1]]);
        lemma_conf_run_cons(conf_run(conf_start(), ls.subrange(0, k - 1)), ls[k - 1], Seq::empty());
        assert(seq![ls[k - 1]] + Seq::<Seq<char>>::empty() =~= seq![ls[k - 1]]);
    } else {
        assert(ls.subrange(0, 0) =~= Seq::<Seq<char>>::empty());
    }
}

/// A line is read by its trimmed text alone, so a `'\r'` at its end
/// changes nothing.
pub proof fn lemma_conf_step_strip_cr(st: ConfState, x: Seq<char>)
    ensures
        conf_step(st, strip_cr(x)) == conf_step(st, x),
{
    lemma_trim_strip_cr(x);
}

/// Reading `h`, a line break and `t` is reading `h`, then `t`.
pub proof fn lemma_conf_run_lines(st: ConfState, h: Seq<char>, t: Seq<char>)
    ensures
        conf_run(st, lines(h + "\n"@ + t)) == conf_run(conf_run(st, lines(h)), lines(t)),
    decreases h.len(),
{
    reveal_strlit("\n");
    let s = h + "\n"@ + t;
    crate::text::lemma_index_bound(h, '\n');
    lemma_index_of_newline(h, t);
    assert(s.len() > 0);
    match index_of(h, '\n') {
        Some(i) => {
            let rest = h.subrange(i + 1, h.len() as int);
            assert(s.subrange(i + 1, s.len() as int) =~= rest + "\n"@ + t);
            assert(s.subrange(0, i) =~= h.subrange(0, i));
            let x = strip_cr(h.subrange(0, i));
            assert(lines(s) == seq![x] + lines(rest + "\n"@ + t));
            assert(lines(h) == seq![x] + lines(rest));
            lemma_conf_run_lines(conf_step(st, x), rest, t);
            lemma_conf_run_cons(st, x, lines(rest + "\n"@ + t));
            lemma_conf_run_cons(st, x, lines(rest));
        },
        None => {
            assert(s.subrange(0, h.len() as int) =~= h);
            assert(s.subrange(h.len() as int + 1, s.len() as int) =~= t);
            assert(lines(s) == seq![strip_cr(h)] + lines(t));
            lemma_conf_step_strip_cr(st, h);
            lemma_conf_run_cons(st, strip_cr(h), lines(t));
            if h.len() == 0 {
                assert(lines(h) =~= Seq::<Seq<char>>::empty());
                assert(trim(h) =~= Seq::<char>::empty());
            } else {
                assert(lines(h) == seq![h]);
                lemma_conf_run_cons(st, h, Seq::empty());
                assert(seq![h] + Seq::<Seq<char>>::empty() =~= seq![h]);
            }
        },
    }
}

/// Reading a one-line text is reading its line.
pub proof fn lemma_conf_run_single(st: ConfState, a: Seq<char>)
    requires
        single_line(a),
        a.len() > 0,
    ensures
        conf_run(st, lines(a)) == conf_step(st, a),
{
    lemma_index_of(a, '\n', a.len() as int);
    assert(lines(a) == seq![a]);
    lemma_conf_run_cons(st, a, Seq::empty());
    assert(seq![a] + Seq::<Seq<char>>::empty() =~= seq![a]);
}

/// Reading the header line `[name]`.
pub proof fn lemma_header_step(st: ConfState, name: Seq<char>)
    ensures
        conf_step(st, "["@ + name + "]"@) == (ConfState {
            repos: close_section(st),
            section: Some(name),
            entries: if st.section is Some {
                Map::empty()
            } else {
                st.entries
            },
        }),
{
    reveal_strlit("[");
    reveal_strlit("]");
    reveal_strlit("#");
    let l = "["@ + name + "]"@;
    lemma_trim_solid(l);
    assert(l[0] == '[');
    assert(l.subrange(0, 1) =~= "["@);
    assert(l.subrange(l.len() - 1, l.len() as int) =~= "]"@);
    assert(l.subrange(0, 1) != "#"@);
    assert(header_name(l) =~= name);
}

/// The key of an assignment line as overlay-manager writes it: a plain
/// word that opens no comment or section and holds no `=`.
pub open spec fn plain_key(k: Seq<char>) -> bool {
    &&& k.len() > 0
    &&& !is_white(k[0])
    &&& !is_white(k.last())
    &&& k[0] != '#'
    &&& k[0] != '['
    &&& forall|i: int| 0 <= i < k.len() ==> #[trigger] k[i] != '='
}

/// Reading an assignment line `key = v`.
pub proof fn lemma_key_step(st: ConfState, key: Seq<char>, v: Seq<char>)
    requires
        plain_key(key),
        trim(v) == v,
    ensures
        conf_step(st, key + " = "@ + v) == (ConfState {
            entries: st.entries.insert(lower_text(key), v),
            ..st
        }),
{
    reveal_strlit(" = ");
    reveal_strlit(" =");
    reveal_strlit(" ");
    reveal_strlit("#");
    reveal_strlit("[");
    let line = key + " = "@ + v;
    let w = if v.len() == 0 {
        Seq::<char>::empty()
    } else {
        " "@ + v
    };
    let l = key + " ="@ + w;
    assert(line[0] == key[0]);
    assert(trim_start(line) == line);
    if v.len() == 0 {
        assert(line.drop_last() =~= key + " ="@);
        assert(trim_end(line) == trim_end(key + " ="@));
        assert((key + " ="@).last() == '=');
        assert(trim_end(key + " ="@) == key + " ="@);
        assert(l =~= key + " ="@);
        assert(trim(line) == l);
    } else {
        lemma_trimmed_ends(v);
        assert(line.last() == v.last());
        assert(trim_end(line) == line);
        assert(l =~= line);
        assert(trim(line) == l);
        lemma_trim_space_first(v);
    }
    assert(l[0] == key[0]);
    assert(l.subrange(0, 1)[0] == key[0]);
    assert(l.subrange(0, 1)[0] != "#"@[0]);
    assert(l.subrange(0, 1)[0] != "["@[0]);
    assert forall|j: int| 0 <= j < key.len() as int + 1 implies l[j] != '=' by {
        if j < key.len() {
            assert(l[j] == key[j]);
        } else {
            assert(l[j] == ' ');
        }
    }
    assert(l[key.len() as int + 1] == '=');
    lemma_index_of(l, '=', key.len() as int + 1);
    let k = l.subrange(0, key.len() as int + 1);
    assert(k =~= key + " "@);
    assert((key + " "@).drop_last() =~= key);
    assert(trim_start(key + " "@) == key + " "@);
    assert(trim_end(key + " "@) == trim_end(key));
    assert(trim_end(key) == key);
    assert(l.subrange(key.len() as int + 2, l.len() as int) =~= w);
    assert(split_once(l, '=') == Some((key + " "@, w)));
    assert(trim(key + " "@) == key);
    if v.len() == 0 {
        assert(trim(w) == v);
    } else {
        assert(trim(w) == v);
    }
    assert(!starts_with(l, "#"@));
    assert(!is_section_header(l));
}

/// A key written in lowercase ASCII letters and `-` is its own lowercase
/// form.
pub proof fn lemma_lower_key(k: Seq<char>)
    requires
        forall|i: int| 0 <= i < k.len() ==> ('a' <= #[trigger] k[i] <= 'z' || k[i] == '-'),
    ensures
        lower_text(k) == k,
{
    reveal(lower_text);
    assert(all_ascii(k));
    assert(k.map_values(|c: char| ascii_lower(c)) =~= k);
}

/// A value that reads back as written: one line, without white space at
/// either end.
pub open spec fn plain_value(s: Seq<char>) -> bool {
    single_line(s) && trim(s) == s
}

/// The written name of the sync type reads back as the same sync type.
pub open spec fn sync_kind_reads_back(k: SyncKind) -> bool {
    plain_value(sync_kind_name(k)) && sync_kind_of(lower_text(sync_kind_name(k))) == k
}

/// An overlay whose section, once written, reads back as it was: its
/// name and values are single lines, and the values have no white space
/// at either end.
pub open spec fn writable(r: RepoView) -> bool {
    &&& single_line(r.name)
    &&& plain_value(r.location)
    &&& plain_value(r.sync_uri)
    &&& sync_kind_reads_back(r.sync_type)
}

/// The overlay that the written section of `r` describes: `r` with the
/// priority that was written.
pub open spec fn as_written(r: RepoView) -> RepoView {
    RepoView {
        priority: Some(
            match r.priority {
                Some(p) => p,
                None => 50u32,
            },
        ),
        ..r
    }
}

/// The known sync types read back as themselves.
pub proof fn law_known_kinds_read_back(k: SyncKind)
    requires
        !(k is Other),
    ensures
        sync_kind_reads_back(k),
{
    reveal_strlit("git");
    reveal_strlit("rsync");
    reveal_strlit("svn");
    reveal_strlit("mercurial");
    let n = sync_kind_name(k);
    lemma_lower_key(n);
    lemma_trim_solid(n);
}

/// A key that overlay-manager writes: lowercase ASCII letters and `-`.
pub open spec fn written_key(k: Seq<char>) -> bool {
    &&& k.len() > 0
    &&& forall|i: int| 0 <= i < k.len() ==> ('a' <= #[trigger] k[i] <= 'z' || k[i] == '-')
}

/// The line `key = v`.
pub open spec fn key_line(key: Seq<char>, v: Seq<char>) -> Seq<char> {
    key + " = "@ + v
}

proof fn lemma_single_line_join(a: Seq<char>, b: Seq<char>)
    requires
        single_line(a),
        single_line(b),
    ensures
        single_line(a + b),
{
    assert forall|i: int| 0 <= i < (a + b).len() implies #[trigger] (a + b)[i] != '\n' by {
        if i < a.len() {
            assert((a + b)[i] == a[i]);
        } else {
            assert((a + b)[i] == b[i - a.len()]);
        }
    }
}

/// Reading a one-line text, a line break and the rest.
proof fn lemma_run_line(st: ConfState, l: Seq<char>, rest: Seq<char>)
    requires
        single_line(l),
        l.len() > 0,
    ensures
        conf_run(st, lines(l + "\n"@ + rest)) == conf_run(conf_step(st, l), lines(rest)),
{
    lemma_conf_run_lines(st, l, rest);
    lemma_conf_run_single(st, l);
}

/// Reading a written key line, a line break and the rest.
proof fn lemma_run_key_line(st: ConfState, key: Seq<char>, v: Seq<char>, rest: Seq<char>)
    requires
        written_key(key),
        plain_value(v),
    ensures
        conf_run(st, lines(key_line(key, v) + "\n"@ + rest)) == conf_run(
            ConfState { entries: st.entries.insert(key, v), ..st },
            lines(rest),
        ),
{
    reveal_strlit(" = ");
    assert(single_line(key));
    assert(single_line(" = "@));
    lemma_single_line_join(key, " = "@);
    lemma_single_line_join(key + " = "@, v);
    assert(!is_white(key[0]));
    assert(!is_white(key.last()));
    assert(plain_key(key));
    lemma_run_line(st, key_line(key, v), rest);
    lemma_key_step(st, key, v);
    lemma_lower_key(key);
}

/// The keys that overlay-manager writes.
proof fn lemma_written_keys()
    ensures
        written_key("location"@),
        written_key("sync-type"@),
        written_key("sync-uri"@),
        written_key("auto-sync"@),
        written_key("priority"@),
{
    reveal_strlit("location");
    reveal_strlit("sync-type");
    reveal_strlit("sync-uri");
    reveal_strlit("auto-sync");
    reveal_strlit("priority");
}

/// The text of a section after its leading line break.
pub open spec fn section_body(r: RepoView) -> Seq<char> {
    let nl = "\n"@;
    let p = match r.priority {
        Some(p) => p,
        None => 50u32,
    };
    "["@ + r.name + "]"@ + nl + (key_line("location"@, r.location) + nl + (key_line(
        "sync-type"@,
        sync_kind_name(r.sync_type),
    ) + nl + (key_line("sync-uri"@, r.sync_uri) + nl + (key_line(
        "auto-sync"@,
        if r.auto_sync {
            "yes"@
        } else {
            "no"@
        },
    ) + nl + (key_line("priority"@, decimal(p as nat)) + nl + Seq::<char>::empty())))))
}

proof fn lemma_section_text(r: RepoView)
    ensures
        spec_format_section(r) == "\n"@ + section_body(r),
{
    reveal_strlit("\n[");
    reveal_strlit("]\nlocation = ");
    reveal_strlit("\nsync-type = ");
    reveal_strlit("\nsync-uri = ");
    reveal_strlit("\nauto-sync = ");
    reveal_strlit("\npriority = ");
    reveal_strlit("\n");
    reveal_strlit("[");
    reveal_strlit("]");
    reveal_strlit(" = ");
    reveal_strlit("location");
    reveal_strlit("sync-type");
    reveal_strlit("sync-uri");
    reveal_strlit("auto-sync");
    reveal_strlit("priority");
    assert(spec_format_section(r) =~= "\n"@ + section_body(r));
}

/// The state after reading the body of a section from `st`.
pub open spec fn section_state(st: ConfState, r: RepoView) -> ConfState {
    let p = match r.priority {
        Some(p) => p,
        None => 50u32,
    };
    ConfState {
        repos: close_section(st),
        section: Some(r.name),
        entries: (if st.section is Some {
            Map::empty()
        } else {
            st.entries
        }).insert("location"@, r.location).insert("sync-type"@, sync_kind_name(r.sync_type)).insert(
            "sync-uri"@,
            r.sync_uri,
        ).insert(
            "auto-sync"@,
            if r.auto_sync {
                "yes"@
            } else {
                "no"@
            },
        ).insert("priority"@, decimal(p as nat)),
    }
}

proof fn lemma_run_section_body(st: ConfState, r: RepoView)
    requires
        writable(r),
    ensures
        conf_run(st, lines(section_body(r))) == section_state(st, r),
{
    reveal_strlit("[");
    reveal_strlit("]");
    reveal_strlit("yes");
    reveal_strlit("no");
    let nl = "\n"@;
    let pv: u32 = match r.priority {
        Some(p) => p,
        None => 50u32,
    };
    let yn = if r.auto_sync {
        "yes"@
    } else {
        "no"@
    };
    let dec = decimal(pv as nat);
    let t6 = key_line("priority"@, dec) + nl + Seq::<char>::empty();
    let t5 = key_line("auto-sync"@, yn) + nl + t6;
    let t4 = key_line("sync-uri"@, r.sync_uri) + nl + t5;
    let t3 = key_line("sync-type"@, sync_kind_name(r.sync_type)) + nl + t4;
    let t2 = key_line("location"@, r.location) + nl + t3;
    let l1 = "["@ + r.name + "]"@;
    assert(section_body(r) == l1 + nl + t2);
    // the values
    crate::text::lemma_decimal_digits(pv as nat);
    assert(single_line(dec)) by {
        assert forall|i: int| 0 <= i < dec.len() implies #[trigger] dec[i] != '\n' by {
            assert(crate::text::is_digit(dec[i]));
        }
    }
    assert(crate::text::is_digit(dec[0]));
    assert(crate::text::is_digit(dec.last()));
    lemma_trim_solid(dec);
    lemma_trim_solid(yn);
    lemma_written_keys();
    // the header line
    assert(single_line("["@));
    assert(single_line("]"@));
    lemma_single_line_join("["@, r.name);
    lemma_single_line_join("["@ + r.name, "]"@);
    lemma_run_line(st, l1, t2);
    lemma_header_step(st, r.name);
    let st1 = conf_step(st, l1);
    lemma_run_key_line(st1, "location"@, r.location, t3);
    let st2 = ConfState { entries: st1.entries.insert("location"@, r.location), ..st1 };
    lemma_run_key_line(st2, "sync-type"@, sync_kind_name(r.sync_type), t4);
    let st3 = ConfState { entries: st2.entries.insert("sync-type"@, sync_kind_name(r.sync_type)), ..st2 };
    lemma_run_key_line(st3, "sync-uri"@, r.sync_uri, t5);
    let st4 = ConfState { entries: st3.entries.insert("sync-uri"@, r.sync_uri), ..st3 };
    lemma_run_key_line(st4, "auto-sync"@, yn, t6);
    let st5 = ConfState { entries: st4.entries.insert("auto-sync"@, yn), ..st4 };
    lemma_run_key_line(st5, "priority"@, dec, Seq::empty());
    assert(lines(Seq::<char>::empty()) =~= Seq::<Seq<char>>::empty());
}

/// The overlay that the section read back describes.
proof fn lemma_section_repo(st: ConfState, r: RepoView)
    requires
        writable(r),
    ensures
        close_section(section_state(st, r)) == close_section(st).push(as_written(r)),
{
    reveal_strlit("yes");
    reveal_strlit("no");
    reveal_strlit("true");
    reveal_strlit("location");
    reveal_strlit("sync-type");
    reveal_strlit("sync-uri");
    reveal_strlit("auto-sync");
    reveal_strlit("priority");
    let pv: u32 = match r.priority {
        Some(p) => p,
        None => 50u32,
    };
    lemma_parse_decimal(pv);
    let m = section_state(st, r).entries;
    assert("location"@.len() == 8 && "location"@[0] == 'l');
    assert("sync-type"@.len() == 9 && "sync-type"@[5] == 't');
    assert("sync-uri"@.len() == 8 && "sync-uri"@[0] == 's');
    assert("auto-sync"@.len() == 9 && "auto-sync"@[5] == 's');
    assert("priority"@.len() == 8 && "priority"@[0] == 'p');
    assert(m.contains_key("location"@));
    assert(m["location"@] == r.location);
    assert(m["sync-type"@] == sync_kind_name(r.sync_type));
    assert(m["sync-uri"@] == r.sync_uri);
    assert("yes"@.len() == 3 && "no"@.len() == 2 && "true"@.len() == 4);
    assert(is_yes(m["auto-sync"@]) == r.auto_sync);
    assert(parse_u32(m["priority"@]) == Some(pv));
    assert(spec_build_repo(r.name, m) == Some(as_written(r)));
}

/// Reading the header that overlay-manager puts at the top of its file
/// leaves the parser where it started.
proof fn lemma_manager_header_run()
    ensures
        conf_run(conf_start(), lines(manager_header())) == conf_start(),
{
    let c = "# Managed by overlay-manager"@;
    reveal_strlit("# Managed by overlay-manager");
    reveal_strlit("# Managed by overlay-manager\n");
    reveal_strlit("\n");
    reveal_strlit("#");
    assert(manager_header() =~= c + "\n"@ + Seq::<char>::empty());
    assert(single_line(c));
    lemma_conf_run_lines(conf_start(), c, Seq::empty());
    lemma_conf_run_single(conf_start(), c);
    lemma_trim_solid(c);
    assert(c.subrange(0, 1) =~= "#"@);
    assert(lines(Seq::<char>::empty()) =~= Seq::<Seq<char>>::empty());
}

/// The overlays that a text describes are those of reading its lines from
/// the front.
proof fn lemma_parse_run(text: Seq<char>)
    ensures
        spec_parse_conf(text) == close_section(conf_run(conf_start(), lines(text))),
{
    let ls = lines(text);
    lemma_conf_state_run(ls, ls.len() as int);
    assert(ls.subrange(0, ls.len() as int) =~= ls);
}

/// Writing an overlay's section at the end of overlay-manager.conf and
/// reading the file back gives the overlays that the file described
/// before, then the new overlay, with the priority that was written.
pub proof fn law_append_reads_back(existing: Option<Seq<char>>, r: RepoView)
    requires
        writable(r),
    ensures
        spec_parse_conf(spec_appended_config(existing, r)) == spec_parse_conf(
            match existing {
                Some(c) => c,
                None => manager_header(),
            },
        ) + seq![as_written(r)],
        existing is None ==> spec_parse_conf(spec_appended_config(existing, r)) == seq![
            as_written(r),
        ],
{
    let head = match existing {
        Some(c) => c,
        None => manager_header(),
    };
    let text = spec_appended_config(existing, r);
    lemma_section_text(r);
    assert(text =~= head + "\n"@ + section_body(r));
    let st_h = conf_run(conf_start(), lines(head));
    lemma_conf_run_lines(conf_start(), head, section_body(r));
    lemma_run_section_body(st_h, r);
    lemma_section_repo(st_h, r);
    lemma_parse_run(text);
    lemma_parse_run(head);
    assert(close_section(st_h).push(as_written(r)) =~= close_section(st_h) + seq![as_written(r)]);
    if existing is None {
        lemma_manager_header_run();
        assert(close_section(conf_start()) =~= Seq::<RepoView>::empty());
    }
}

// ───────────────────────── reading back what was removed ─────────────────────────

/// Reading a one-line text is reading its line (an empty text reads as
/// an empty line).
proof fn lemma_run_one(st: ConfState, line: Seq<char>)
    requires
        single_line(line),
    ensures
        conf_run(st, lines(line)) == conf_step(st, line),
{
    if line.len() > 0 {
        lemma_conf_run_single(st, line);
    } else {
        assert(lines(line) =~= Seq::<Seq<char>>::empty());
        assert(trim(line) =~= Seq::<char>::empty());
    }
}

/// Appending a line and its line break to a text that ends a line reads
/// that line after the text.
proof fn lemma_run_append_line(st: ConfState, out: Seq<char>, line: Seq<char>)
    requires
        out.len() == 0 || out.last() == '\n',
        single_line(line),
    ensures
        conf_run(st, lines(out + line + "\n"@)) == conf_step(conf_run(st, lines(out)), line),
{
    reveal_strlit("\n");
    assert(lines(Seq::<char>::empty()) =~= Seq::<Seq<char>>::empty());
    if out.len() == 0 {
        assert(out + line + "\n"@ =~= line + "\n"@ + Seq::<char>::empty());
        lemma_conf_run_lines(st, line, Seq::empty());
        lemma_run_one(st, line);
        assert(lines(out) =~= Seq::<Seq<char>>::empty());
    } else {
        let o = out.drop_last();
        assert(out =~= o + "\n"@ + Seq::<char>::empty());
        assert(out + line + "\n"@ =~= o + "\n"@ + (line + "\n"@ + Seq::<char>::empty()));
        lemma_conf_run_lines(st, o, line + "\n"@ + Seq::<char>::empty());
        let st_o = conf_run(st, lines(o));
        lemma_conf_run_lines(st_o, line, Seq::empty());
        lemma_run_one(st_o, line);
        lemma_conf_run_lines(st, o, Seq::empty());
    }
}

/// White space at the end of a text changes nothing that is read.
proof fn lemma_run_drop_white_last(st: ConfState, s: Seq<char>)
    requires
        s.len() > 0,
        is_white(s.last()),
    ensures
        conf_run(st, lines(s.drop_last())) == conf_run(st, lines(s)),
{
    reveal_strlit("\n");
    assert(lines(Seq::<char>::empty()) =~= Seq::<Seq<char>>::empty());
    let p = s.drop_last();
    let c = s.last();
    if c == '\n' {
        assert(s =~= p + "\n"@ + Seq::<char>::empty());
        lemma_conf_run_lines(st, p, Seq::empty());
    } else {
        lemma_last_index_after(p, '\n');
        match last_index_of(p, '\n') {
            Some(i) => {
                let q = p.subrange(0, i);
                let u = p.subrange(i + 1, p.len() as int);
                assert(p =~= q + "\n"@ + u);
                assert(s =~= q + "\n"@ + u.push(c));
                lemma_conf_run_lines(st, q, u);
                lemma_conf_run_lines(st, q, u.push(c));
                let st_q = conf_run(st, lines(q));
                assert(single_line(u)) by {
                    assert forall|j: int| 0 <= j < u.len() implies #[trigger] u[j] != '\n' by {
                        assert(u[j] == p[i + 1 + j]);
                    }
                }
                assert(single_line(u.push(c))) by {
                    assert forall|j: int| 0 <= j < u.push(c).len() implies #[trigger] u.push(c)[j]
                        != '\n' by {
                        if j < u.len() {
                            assert(u.push(c)[j] == u[j]);
                        }
                    }
                }
                lemma_run_one(st_q, u);
                lemma_run_one(st_q, u.push(c));
                lemma_trim_drop_white_end(u.push(c));
                assert(u.push(c).drop_last() =~= u);
            },
            None => {
                assert(single_line(p));
                assert(single_line(s)) by {
                    assert forall|j: int| 0 <= j < s.len() implies #[trigger] s[j] != '\n' by {
                        if j < s.len() - 1 {
                            assert(s[j] == p[j]);
                        }
                    }
                }
                lemma_run_one(st, p);
                lemma_run_one(st, s);
                lemma_trim_drop_white_end(s);
            },
        }
    }
}

/// Trailing white space of a text changes nothing that is read.
proof fn lemma_run_trim_end(st: ConfState, s: Seq<char>)
    ensures
        conf_run(st, lines(trim_end(s))) == conf_run(st, lines(s)),
    decreases s.len(),
{
    if s.len() > 0 && is_white(s.last()) {
        lemma_run_trim_end(st, s.drop_last());
        lemma_run_drop_white_last(st, s);
    }
}

proof fn lemma_without_push(rs: Seq<RepoView>, x: RepoView, name: Seq<char>)
    ensures
        without_name(rs.push(x), name) == (if x.name != name {
            without_name(rs, name).push(x)
        } else {
            without_name(rs, name)
        }),
{
    assert(rs.push(x).drop_last() =~= rs);
}

/// Closing the same section on both sides keeps the overlays related.
proof fn lemma_close_related(a: ConfState, b: ConfState, name: Seq<char>)
    requires
        b.section == a.section,
        b.entries == a.entries,
        b.repos == without_name(a.repos, name),
        a.section != Some(name),
    ensures
        close_section(b) == without_name(close_section(a), name),
{
    match a.section {
        Some(m) => match spec_build_repo(m, a.entries) {
            Some(r) => {
                lemma_without_push(a.repos, r, name);
            },
            None => {},
        },
        None => {},
    }
}

/// Closing a section named `name` adds nothing that survives removal.
proof fn lemma_close_removed(a: ConfState, name: Seq<char>)
    requires
        a.section == Some(name),
    ensures
        without_name(close_section(a), name) == without_name(a.repos, name),
{
    match spec_build_repo(name, a.entries) {
        Some(r) => {
            lemma_without_push(a.repos, r, name);
        },
        None => {},
    }
}

/// No assignment comes before a section `[name]` that opens the text.
pub open spec fn nothing_before_first(content: Seq<char>, name: Seq<char>) -> bool {
    let ls = lines(content);
    forall|k: int|
        0 <= k < ls.len() && is_section_header(trim(ls[k])) && header_name(trim(ls[k])) == name
            && (#[trigger] conf_state(ls, k)).section is None ==> conf_state(ls, k).entries
            == Map::<Seq<char>, Seq<char>>::empty()
}

/// How the text kept by removal reads, compared with the whole text,
/// after the first `k` lines.
pub open spec fn removal_related(ls: Seq<Seq<char>>, name: Seq<char>, k: int) -> bool {
    let a = conf_state(ls, k);
    let rs = remove_state(ls, name, k);
    let b = conf_run(conf_start(), lines(rs.out));
    &&& rs.out.len() == 0 || rs.out.last() == '\n'
    &&& !rs.skip ==> {
        &&& b.section == a.section
        &&& b.entries == a.entries
        &&& b.repos == without_name(a.repos, name)
        &&& a.section != Some(name)
    }
    &&& rs.skip ==> {
        &&& a.section == Some(name)
        &&& close_section(b) == without_name(a.repos, name)
        &&& b.section is None ==> b.entries == Map::<Seq<char>, Seq<char>>::empty()
    }
    &&& !rs.found ==> !rs.skip && without_name(a.repos, name) == a.repos
}

proof fn lemma_removal_step(ls: Seq<Seq<char>>, name: Seq<char>, k: int)
    requires
        0 <= k < ls.len(),
        single_line(ls[k]),
        removal_related(ls, name, k),
        is_section_header(trim(ls[k])) && header_name(trim(ls[k])) == name && conf_state(
            ls,
            k,
        ).section is None ==> conf_state(ls, k).entries == Map::<Seq<char>, Seq<char>>::empty(),
    ensures
        removal_related(ls, name, k + 1),
{
    reveal_strlit("\n");
    let x = ls[k];
    let t = trim(x);
    let a = conf_state(ls, k);
    let rs = remove_state(ls, name, k);
    let b = conf_run(conf_start(), lines(rs.out));
    let a2 = conf_state(ls, k + 1);
    let rs2 = remove_state(ls, name, k + 1);
    assert(a2 == conf_step(a, x));
    assert(rs2 == remove_step(rs, x, name));
    if !rs2.skip {
        lemma_run_append_line(conf_start(), rs.out, x);
        assert(rs2.out == rs.out + x + "\n"@);
    } else {
        assert(rs2.out == rs.out);
    }
    let b2 = conf_run(conf_start(), lines(rs2.out));
    assert(rs2.out.len() == 0 || rs2.out.last() == '\n');
    if is_section_header(t) {
        let m = header_name(t);
        reveal_strlit("#");
        reveal_strlit("[");
        lemma_header_len(t);
        assert(t.subrange(0, 1) =~= "["@);
        assert(t.subrange(0, 1)[0] != "#"@[0]);
        assert(!starts_with(t, "#"@));
        assert(a2.repos == close_section(a));
        assert(a2.section == Some(m));
        if !rs.skip {
            lemma_close_related(a, b, name);
        } else {
            lemma_close_removed(a, name);
        }
        if m == name {
            assert(rs2.skip);
            assert(b2 == b);
            assert(close_section(b2) == without_name(a2.repos, name));
        } else {
            assert(!rs2.skip);
            assert(b2 == conf_step(b, x));
            assert(b2.repos == close_section(b));
            assert(b2.repos == without_name(a2.repos, name));
            assert(b2.entries == a2.entries);
        }
        if !rs2.found {
            lemma_close_related(a, b, name);
            assert(without_name(a2.repos, name) == a2.repos);
        }
    } else {
        assert(a2.repos == a.repos);
        assert(a2.section == a.section);
        assert(rs2.skip == rs.skip);
        assert(rs2.found == rs.found);
        if !rs.skip {
            assert(b2 == conf_step(b, x));
            assert(b2.entries == a2.entries);
            assert(b2.repos == b.repos);
        } else {
            assert(b2 == b);
        }
    }
}

/// Removal relates the texts over all lines.
proof fn lemma_removal_all(ls: Seq<Seq<char>>, name: Seq<char>, k: int)
    requires
        0 <= k <= ls.len(),
        forall|j: int| 0 <= j < ls.len() ==> single_line(#[trigger] ls[j]),
        forall|j: int|
            0 <= j < ls.len() && is_section_header(trim(ls[j])) && header_name(trim(ls[j])) == name
                && (#[trigger] conf_state(ls, j)).section is None ==> conf_state(ls, j).entries
                == Map::<Seq<char>, Seq<char>>::empty(),
    ensures
        removal_related(ls, name, k),
    decreases k,
{
    if k == 0 {
        assert(lines(Seq::<char>::empty()) =~= Seq::<Seq<char>>::empty());
        assert(without_name(Seq::<RepoView>::empty(), name) =~= Seq::<RepoView>::empty());
    } else {
        lemma_removal_all(ls, name, k - 1);
        assert(single_line(ls[k - 1]));
        let j = k - 1;
        assert(is_section_header(trim(ls[j])) && header_name(trim(ls[j])) == name && conf_state(
            ls,
            j,
        ).section is None ==> conf_state(ls, j).entries == Map::<Seq<char>, Seq<char>>::empty());
        lemma_removal_step(ls, name, k - 1);
    }
}

/// Removing a section `[name]` from a repos.conf text and reading the
/// result back gives the overlays of the text other than those named
/// `name`, in order; when the text has no such section, no overlay of the
/// text is named `name`. The text must not assign keys before a section
/// `[name]` that opens it: such assignments belong to that section while
/// it is there, and to the next one once it is gone.
pub proof fn law_remove_reads_back(content: Seq<char>, name: Seq<char>)
    requires
        nothing_before_first(content, name),
    ensures
        spec_remove_section(content, name) matches Some(t) ==> spec_parse_conf(t) == without_name(
            spec_parse_conf(content),
            name,
        ),
        spec_remove_section(content, name) is None ==> without_name(spec_parse_conf(content), name)
            == spec_parse_conf(content),
{
    let ls = lines(content);
    lemma_lines_single(content);
    lemma_removal_all(ls, name, ls.len() as int);
    let a = conf_state(ls, ls.len() as int);
    let rs = remove_state(ls, name, ls.len() as int);
    let b = conf_run(conf_start(), lines(rs.out));
    if rs.skip {
        lemma_close_removed(a, name);
    } else {
        lemma_close_related(a, b, name);
    }
    if rs.found {
        lemma_run_trim_end(conf_start(), rs.out);
        lemma_parse_run(trim_end(rs.out));
    } else {
        lemma_close_related(a, a, name);
    }
}

/// A section turns auto-sync on exactly when its `auto-sync` value is
/// `yes` or `true`; any other value, `no` and `false` among them, and a
/// missing one leave it off.
pub proof fn law_auto_sync_values(name: Seq<char>, m: Map<Seq<char>, Seq<char>>)
    requires
        m.contains_key("location"@),
    ensures
        spec_build_repo(name, m) is Some,
        spec_build_repo(name, m)->0.auto_sync == (m.contains_key("auto-sync"@) && (m["auto-sync"@]
            == "yes"@ || m["auto-sync"@] == "true"@)),
        m.contains_key("auto-sync"@) && (m["auto-sync"@] == "no"@ || m["auto-sync"@] == "false"@)
            ==> !spec_build_repo(name, m)->0.auto_sync,
{
    reveal_strlit("yes");
    reveal_strlit("true");
    reveal_strlit("no");
    reveal_strlit("false");
    assert("no"@.len() == 2 && "yes"@.len() == 3 && "true"@.len() == 4 && "false"@.len() == 5);
}

} // verus!
