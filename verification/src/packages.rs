//! Package atoms, ebuild and metadata.xml fields, and the map from
//! repository name to installed packages.
use crate::text::{
    chars_eq, chars_lt, contains, ends_with, ends_with_exec, find, find_exec, index_of,
    index_of_exec, lines, rsplit_once, rsplit_once_exec, seq_le, seq_lt, split_lines, split_once,
    split_once_exec, starts_with, starts_with_exec, string_from_chars, strip_prefix,
    strip_prefix_exec, strip_suffix, strip_suffix_exec, to_chars, trim, trim_char, trim_char_exec,
    trim_exec,
};
use vstd::prelude::*;

verus! {

broadcast use vstd::string::group_string_axioms;

// ───────────────────────── package atoms ─────────────────────────

/// Category and package name of an atom `category/name-version`: the
/// version is the part after the last `-` when it starts with a digit.
pub open spec fn spec_split_pkg_atom(pkg: Seq<char>) -> Option<(Seq<char>, Seq<char>)> {
    match split_once(pkg, '/') {
        None => None,
        Some((cat, name_ver)) => {
            let name = match rsplit_once(name_ver, '-') {
                Some((n, ver)) => if ver.len() > 0 && '0' <= ver[0] <= '9' {
                    n
                } else {
                    name_ver
                },
                None => name_ver,
            };
            Some((cat, name))
        },
    }
}

/// Split `category/name-version` into category and package name.
pub fn split_pkg_atom(pkg: &str) -> (r: Option<(String, String)>)
    ensures
        r matches Some((c, n)) ==> spec_split_pkg_atom(pkg@) == Some((c@, n@)),
        r is None ==> spec_split_pkg_atom(pkg@) is None,
{
    let chars = to_chars(pkg);
    match split_once_exec(&chars, '/') {
        None => None,
        Some((cat, name_ver)) => {
            let name = match rsplit_once_exec(&name_ver, '-') {
                Some((n, ver)) => if ver.len() > 0 && '0' <= ver[0] && ver[0] <= '9' {
                    n
                } else {
                    name_ver
                },
                None => name_ver,
            };
            Some((string_from_chars(cat.as_slice()), string_from_chars(name.as_slice())))
        },
    }
}

/// `category/package` (`format!("{}/{}")`).
pub open spec fn spec_package_atom(cat: Seq<char>, pkg: Seq<char>) -> Seq<char> {
    cat + "/"@ + pkg
}

/// `category/package`.
pub fn package_atom(cat: &str, pkg: &str) -> (r: String)
    ensures
        r@ == spec_package_atom(cat@, pkg@),
{
    let mut r = String::from_str(cat);
    r.append("/");
    r.append(pkg);
    r
}

// ───────────────────────── ebuild variables ─────────────────────────

/// The value of `VAR=value` on one line, trimmed and without quotes, if
/// the line assigns `var` and the value is not empty.
pub open spec fn line_var_value(line: Seq<char>, var: Seq<char>) -> Option<Seq<char>> {
    match strip_prefix(trim(line), var) {
        Some(r1) => match strip_prefix(r1, "="@) {
            Some(rest) => {
                let v = trim_char(trim(rest), '"');
                if v.len() > 0 {
                    Some(v)
                } else {
                    None
                }
            },
            None => None,
        },
        None => None,
    }
}

/// The first non-empty value assigned to `var` among `ls`.
pub open spec fn first_var_value(ls: Seq<Seq<char>>, var: Seq<char>) -> Option<Seq<char>>
    decreases ls.len(),
{
    if ls.len() == 0 {
        None
    } else {
        match line_var_value(ls[0], var) {
            Some(v) => Some(v),
            None => first_var_value(ls.drop_first(), var),
        }
    }
}

pub open spec fn spec_extract_ebuild_var(content: Seq<char>, var: Seq<char>) -> Option<Seq<char>> {
    first_var_value(lines(content), var)
}

fn line_var_value_exec(line: &Vec<char>, var: &Vec<char>) -> (r: Option<Vec<char>>)
    ensures
        r matches Some(v) ==> line_var_value(line@, var@) == Some(v@),
        r is None ==> line_var_value(line@, var@) is None,
{
    let t = trim_exec(line);
    match strip_prefix_exec(&t, var) {
        Some(r1) => match strip_prefix_exec(&r1, &to_chars("=")) {
            Some(rest) => {
                let v = trim_char_exec(&trim_exec(&rest), '"');
                if v.len() > 0 {
                    Some(v)
                } else {
                    None
                }
            },
            None => None,
        },
        None => None,
    }
}

pub proof fn lemma_first_var_value(ls: Seq<Seq<char>>, var: Seq<char>, i: int)
    requires
        0 <= i <= ls.len(),
        forall|j: int| 0 <= j < i ==> line_var_value(#[trigger] ls[j], var) is None,
    ensures
        first_var_value(ls, var) == first_var_value(ls.subrange(i, ls.len() as int), var),
    decreases i,
{
    if i > 0 {
        assert(ls.drop_first().subrange(i - 1, ls.len() - 1) =~= ls.subrange(i, ls.len() as int));
        assert forall|j: int| 0 <= j < i - 1 implies line_var_value(
            #[trigger] ls.drop_first()[j],
            var,
        ) is None by {
            assert(ls.drop_first()[j] == ls[j + 1]);
        }
        lemma_first_var_value(ls.drop_first(), var, i - 1);
    } else {
        assert(ls.subrange(0, ls.len() as int) =~= ls);
    }
}

/// The first non-empty value that a line `VAR=value` of an ebuild gives.
pub fn extract_ebuild_var(content: &str, var: &str) -> (r: Option<String>)
    ensures
        r.deep_view() == spec_extract_ebuild_var(content@, var@),
{
    let chars = to_chars(content);
    let var_chars = to_chars(var);
    let ls = split_lines(&chars);
    let ghost lsv = lines(chars@);
    let mut i: usize = 0;
    while i < ls.len()
        invariant
            ls.len() == lsv.len(),
            lsv == lines(content@),
            var_chars@ == var@,
            forall|k: int| 0 <= k < ls.len() ==> #[trigger] ls[k]@ == lsv[k],
            0 <= i <= ls.len(),
            forall|j: int| 0 <= j < i ==> line_var_value(#[trigger] lsv[j], var@) is None,
        decreases ls.len() - i,
    {
        match line_var_value_exec(&ls[i], &var_chars) {
            Some(v) => {
                proof {
                    lemma_first_var_value(lsv, var@, i as int);
                    let sub = lsv.subrange(i as int, lsv.len() as int);
                    assert(sub[0] == lsv[i as int]);
                    assert(line_var_value(sub[0], var@) == Some(v@));
                    assert(first_var_value(sub, var@) == Some(v@));
                }
                return Some(string_from_chars(v.as_slice()));
            },
            None => {},
        }
        i += 1;
    }
    proof {
        lemma_first_var_value(lsv, var@, i as int);
    }
    None
}

// ───────────────────────── metadata.xml ─────────────────────────

/// The trimmed text between `<tag ...>` and `</tag>` of the first such
/// element, if it is not empty.
pub open spec fn spec_extract_xml_tag(xml: Seq<char>, tag: Seq<char>) -> Option<Seq<char>> {
    let start_tag = "<"@ + tag;
    let end_tag = "</"@ + tag + ">"@;
    match find(xml, start_tag) {
        None => None,
        Some(start) => match index_of(xml.subrange(start, xml.len() as int), '>') {
            None => None,
            Some(gt) => {
                let content_start = start + gt + 1;
                let rest = xml.subrange(content_start, xml.len() as int);
                match find(rest, end_tag) {
                    None => None,
                    Some(end) => {
                        let text = trim(xml.subrange(content_start, content_start + end));
                        if text.len() == 0 {
                            None
                        } else {
                            Some(text)
                        }
                    },
                }
            },
        },
    }
}

/// The text of the first `<tag>` element of an XML document, trimmed.
#[verifier::rlimit(50)]
pub fn extract_xml_tag(xml: &str, tag: &str) -> (r: Option<String>)
    ensures
        r.deep_view() == spec_extract_xml_tag(xml@, tag@),
{
    let x = to_chars(xml);
    let mut start_tag = to_chars("<");
    let mut t = to_chars(tag);
    let ghost tv = t@;
    start_tag.append(&mut t);
    let mut end_tag = to_chars("</");
    let mut t2 = to_chars(tag);
    end_tag.append(&mut t2);
    let mut gt_tail = to_chars(">");
    end_tag.append(&mut gt_tail);
    assert(start_tag@ =~= "<"@ + tag@);
    assert(end_tag@ =~= "</"@ + tag@ + ">"@);
    let start = match find_exec(&x, &start_tag) {
        None => return None,
        Some(s) => s,
    };
    assert(find(xml@, "<"@ + tag@) == Some(start as int));
    let tail = crate::text::slice(&x, start, x.len());
    let gt = match index_of_exec(&tail, '>') {
        None => return None,
        Some(g) => g,
    };
    assert(index_of(xml@.subrange(start as int, xml@.len() as int), '>') == Some(gt as int));
    let content_start = start + gt + 1;
    let rest = crate::text::slice(&x, content_start, x.len());
    let end = match find_exec(&rest, &end_tag) {
        None => return None,
        Some(e) => e,
    };
    assert(find(xml@.subrange(content_start as int, xml@.len() as int), "</"@ + tag@ + ">"@) == Some(end as int));
    let inner = crate::text::slice(&x, content_start, content_start + end);
    let text = trim_exec(&inner);
    assert(text@ == trim(xml@.subrange(content_start as int, content_start + end)));
    if text.len() == 0 {
        None
    } else {
        Some(string_from_chars(text.as_slice()))
    }
}

/// The description of a package: the `<longdescription>` of its
/// metadata.xml when it has one, else the `DESCRIPTION` of its ebuild,
/// else empty.
pub open spec fn spec_description_from(
    metadata_xml: Option<Seq<char>>,
    ebuild: Option<Seq<char>>,
) -> Seq<char> {
    let from_xml = match metadata_xml {
        Some(x) => spec_extract_xml_tag(x, "longdescription"@),
        None => None,
    };
    match from_xml {
        Some(d) => d,
        None => match ebuild {
            Some(e) => match spec_extract_ebuild_var(e, "DESCRIPTION"@) {
                Some(d) => d,
                None => Seq::empty(),
            },
            None => Seq::empty(),
        },
    }
}

/// The description of a package from the text of its metadata.xml and of
/// its first ebuild, each where it could be read.
pub fn description_from(metadata_xml: Option<&str>, ebuild: Option<&str>) -> (r: String)
    ensures
        r@ == spec_description_from(metadata_xml.deep_view(), ebuild.deep_view()),
{
    let from_xml = match metadata_xml {
        Some(x) => extract_xml_tag(x, "longdescription"),
        None => None,
    };
    match from_xml {
        Some(d) => d,
        None => match ebuild {
            Some(e) => match extract_ebuild_var(e, "DESCRIPTION") {
                Some(d) => d,
                None => String::new(),
            },
            None => String::new(),
        },
    }
}

/// The USE flags of a package: the `IUSE` of its first ebuild, or empty.
pub open spec fn spec_use_flags_from(ebuild: Option<Seq<char>>) -> Seq<char> {
    match ebuild {
        Some(e) => match spec_extract_ebuild_var(e, "IUSE"@) {
            Some(f) => f,
            None => Seq::empty(),
        },
        None => Seq::empty(),
    }
}

/// The USE flags of a package from the text of its first ebuild.
pub fn use_flags_from(ebuild: Option<&str>) -> (r: String)
    ensures
        r@ == spec_use_flags_from(ebuild.deep_view()),
{
    match ebuild {
        Some(e) => match extract_ebuild_var(e, "IUSE") {
            Some(f) => f,
            None => String::new(),
        },
        None => String::new(),
    }
}

/// Whether a file name is that of an ebuild.
pub fn is_ebuild_file(file_name: &str) -> (r: bool)
    ensures
        r == ends_with(file_name@, ".ebuild"@),
{
    ends_with_exec(&to_chars(file_name), &to_chars(".ebuild"))
}

// ───────────────────────── overlay scan ─────────────────────────

/// Directories of an overlay that hold no packages.
pub open spec fn spec_is_skipped_category(name: Seq<char>) -> bool {
    name == "metadata"@ || name == "profiles"@ || starts_with(name, "."@)
}

/// Whether a top-level directory of an overlay is no package category.
pub fn is_skipped_category(name: &str) -> (r: bool)
    ensures
        r == spec_is_skipped_category(name@),
{
    let n = to_chars(name);
    chars_eq(&n, &to_chars("metadata")) || chars_eq(&n, &to_chars("profiles")) || starts_with_exec(
        &n,
        &to_chars("."),
    )
}

/// The version of `pkg` that an ebuild file name `pkg-version.ebuild` names.
pub open spec fn spec_ebuild_version(file_name: Seq<char>, pkg: Seq<char>) -> Option<Seq<char>> {
    match strip_suffix(file_name, ".ebuild"@) {
        Some(ver) => strip_prefix(ver, pkg + "-"@),
        None => None,
    }
}

pub fn ebuild_version(file_name: &str, pkg: &str) -> (r: Option<String>)
    ensures
        r.deep_view() == spec_ebuild_version(file_name@, pkg@),
{
    let f = to_chars(file_name);
    match strip_suffix_exec(&f, &to_chars(".ebuild")) {
        Some(ver) => {
            let mut p = to_chars(pkg);
            let mut dash = to_chars("-");
            p.append(&mut dash);
            assert(p@ =~= pkg@ + "-"@);
            match strip_prefix_exec(&ver, &p) {
                Some(v) => Some(string_from_chars(v.as_slice())),
                None => None,
            }
        },
        None => None,
    }
}

/// The greatest version (in string order) among the ebuilds of `pkg` in
/// `file_names`, or empty when there is none.
pub open spec fn spec_latest_version(file_names: Seq<Seq<char>>, pkg: Seq<char>) -> Seq<char>
    decreases file_names.len(),
{
    if file_names.len() == 0 {
        Seq::empty()
    } else {
        let prev = spec_latest_version(file_names.drop_last(), pkg);
        match spec_ebuild_version(file_names.last(), pkg) {
            Some(v) => if seq_lt(prev, v) {
                v
            } else {
                prev
            },
            None => prev,
        }
    }
}

/// The greatest version among the ebuild files of a package directory.
pub fn latest_version(file_names: &Vec<String>, pkg: &str) -> (r: String)
    ensures
        r@ == spec_latest_version(file_names.deep_view(), pkg@),
{
    let mut latest = String::new();
    let mut i: usize = 0;
    while i < file_names.len()
        invariant
            0 <= i <= file_names.len(),
            latest@ == spec_latest_version(file_names.deep_view().subrange(0, i as int), pkg@),
        decreases file_names.len() - i,
    {
        let ghost names = file_names.deep_view().subrange(0, i + 1);
        assert(names.drop_last() =~= file_names.deep_view().subrange(0, i as int));
        match ebuild_version(file_names[i].as_str(), pkg) {
            Some(v) => {
                if chars_lt(&to_chars(latest.as_str()), &to_chars(v.as_str())) {
                    latest = v;
                }
            },
            None => {},
        }
        i += 1;
    }
    assert(file_names.deep_view().subrange(0, i as int) =~= file_names.deep_view());
    latest
}

/// The list entry of a package: `category/package-latest`, or
/// `category/package` when no ebuild names a version.
pub open spec fn spec_package_entry(cat: Seq<char>, pkg: Seq<char>, latest: Seq<char>) -> Seq<char> {
    if latest.len() == 0 {
        cat + "/"@ + pkg
    } else {
        cat + "/"@ + pkg + "-"@ + latest
    }
}

pub fn package_entry(cat: &str, pkg: &str, latest: &str) -> (r: String)
    ensures
        r@ == spec_package_entry(cat@, pkg@, latest@),
{
    let mut r = package_atom(cat, pkg);
    if latest.unicode_len() > 0 {
        r.append("-");
        r.append(latest);
    }
    r
}

// ───────────────────────── sorting ─────────────────────────

/// `s` is in ascending string order.
pub open spec fn sorted(s: Seq<Seq<char>>) -> bool {
    forall|i: int, j: int| 0 <= i < j < s.len() ==> seq_le(#[trigger] s[i], #[trigger] s[j])
}

pub proof fn lemma_seq_lt_total(a: Seq<char>, b: Seq<char>)
    ensures
        a == b || seq_lt(a, b) || seq_lt(b, a),
        !(seq_lt(a, b) && seq_lt(b, a)),
        !seq_lt(a, a),
    decreases a.len(),
{
    if a.len() > 0 && b.len() > 0 && a[0] == b[0] {
        lemma_seq_lt_total(a.drop_first(), b.drop_first());
        if a.drop_first() == b.drop_first() {
            assert(a =~= b) by {
                assert forall|k: int| 0 <= k < a.len() implies a[k] == b[k] by {
                    if k > 0 {
                        assert(a[k] == a.drop_first()[k - 1]);
                        assert(b[k] == b.drop_first()[k - 1]);
                    }
                }
            }
        }
    } else if a.len() == 0 && b.len() == 0 {
        assert(a =~= b);
    } else if a.len() > 0 && b.len() > 0 {
    }
    if a.len() > 0 {
        lemma_seq_lt_total(a.drop_first(), a.drop_first());
    }
}

pub proof fn lemma_seq_lt_trans(a: Seq<char>, b: Seq<char>, c: Seq<char>)
    requires
        seq_lt(a, b),
        seq_lt(b, c),
    ensures
        seq_lt(a, c),
    decreases a.len(),
{
    if a.len() > 0 && b.len() > 0 && c.len() > 0 && a[0] == b[0] && b[0] == c[0] {
        lemma_seq_lt_trans(a.drop_first(), b.drop_first(), c.drop_first());
    }
}

/// Sort strings in ascending order (`Vec::sort`).
pub fn sort_strings(v: Vec<String>) -> (r: Vec<String>)
    ensures
        sorted(r.deep_view()),
        r.deep_view().to_multiset() == v.deep_view().to_multiset(),
        r.len() == v.len(),
{
    let mut r: Vec<String> = Vec::new();
    let mut i: usize = 0;
    assert(v.deep_view().subrange(0, 0) =~= Seq::<Seq<char>>::empty());
    assert(r.deep_view() =~= Seq::<Seq<char>>::empty());
    while i < v.len()
        invariant
            0 <= i <= v.len(),
            sorted(r.deep_view()),
            r.deep_view().to_multiset() == v.deep_view().subrange(0, i as int).to_multiset(),
            r.len() == i,
        decreases v.len() - i,
    {
        let x = v[i].clone();
        let xc = to_chars(x.as_str());
        // find the insertion point: after every element not greater than x
        let mut k: usize = r.len();
        while k > 0 && chars_lt(&xc, &to_chars(r[k - 1].as_str()))
            invariant
                0 <= k <= r.len(),
                forall|j: int| k <= j < r.len() ==> seq_lt(xc@, #[trigger] r.deep_view()[j]),
            decreases k,
        {
            k -= 1;
        }
        proof {
            if k > 0 {
                lemma_seq_lt_total(xc@, r.deep_view()[k - 1]);
            }
        }
        let ghost before = r.deep_view();
        r.insert(k, x);
        proof {
            assert(r.deep_view() =~= before.insert(k as int, xc@));
            assert forall|a: int, b: int| 0 <= a < b < r.deep_view().len() implies seq_le(
                #[trigger] r.deep_view()[a],
                #[trigger] r.deep_view()[b],
            ) by {
                let rv = r.deep_view();
                if a < k && b == k {
                    if k > 0 && a < k - 1 {
                        assert(seq_le(before[a], before[k - 1]));
                        if seq_lt(before[a], before[k - 1]) && seq_lt(before[k - 1], xc@) {
                            lemma_seq_lt_trans(before[a], before[k - 1], xc@);
                        }
                    }
                } else if a == k && b > k {
                    assert(seq_lt(xc@, before[b - 1]));
                } else if a < k && b > k {
                    assert(seq_le(before[a], before[b - 1]));
                } else if a > k {
                    assert(seq_le(before[a - 1], before[b - 1]));
                } else {
                    assert(seq_le(before[a], before[b]));
                }
            }
            assert(v.deep_view().subrange(0, i + 1) =~= v.deep_view().subrange(0, i as int).push(
                xc@,
            ));
            vstd::seq_lib::to_multiset_insert(before, k as int, xc@);
            vstd::seq_lib::to_multiset_build(v.deep_view().subrange(0, i as int), xc@);
        }
        i += 1;
    }
    assert(v.deep_view().subrange(0, i as int) =~= v.deep_view());
    r
}

// ───────────────────────── installed packages ─────────────────────────

/// The map from repository name to its installed packages that the
/// entries `es` describe (a later entry wins over an earlier one).
pub open spec fn map_of(es: Seq<(Seq<char>, Seq<Seq<char>>)>) -> Map<Seq<char>, Seq<Seq<char>>>
    decreases es.len(),
{
    if es.len() == 0 {
        Map::empty()
    } else {
        map_of(es.drop_last()).insert(es.last().0, es.last().1)
    }
}

/// Installed packages grouped by the repository they came from.
pub struct PackageMap {
    entries: Vec<(String, Vec<String>)>,
}

impl PackageMap {
    /// Repository name → package atoms.
    pub closed spec fn view(&self) -> Map<Seq<char>, Seq<Seq<char>>> {
        map_of(self.entries.deep_view())
    }

    pub fn new() -> (m: PackageMap)
        ensures
            m.view() == Map::<Seq<char>, Seq<Seq<char>>>::empty(),
    {
        PackageMap { entries: Vec::new() }
    }

    /// The last position of `name` among the entries.
    fn position(&self, name: &str) -> (r: Option<usize>)
        ensures
            r matches Some(i) ==> i < self.entries.len() && self.entries[i as int].0@ == name@
                && forall|j: int| i < j < self.entries.len() ==> #[trigger] self.entries[j].0@ != name@,
            r is None ==> forall|i: int|
                0 <= i < self.entries.len() ==> #[trigger] self.entries[i].0@ != name@,
    {
        let mut k: usize = self.entries.len();
        while k > 0
            invariant
                0 <= k <= self.entries.len(),
                forall|j: int| k <= j < self.entries.len() ==> #[trigger] self.entries[j].0@ != name@,
            decreases k,
        {
            if crate::text::str_eq(self.entries[k - 1].0.as_str(), name) {
                return Some(k - 1);
            }
            k -= 1;
        }
        None
    }

    /// The packages installed from repository `name`.
    pub fn get(&self, name: &str) -> (r: Option<&Vec<String>>)
        ensures
            r matches Some(v) ==> self.view().contains_key(name@) && self.view()[name@]
                == v.deep_view(),
            r is None ==> !self.view().contains_key(name@),
    {
        match self.position(name) {
            Some(i) => {
                proof {
                    lemma_map_of_at(self.entries.deep_view(), i as int);
                }
                Some(&self.entries[i].1)
            },
            None => {
                proof {
                    lemma_map_of_absent(self.entries.deep_view(), name@);
                }
                None
            },
        }
    }

    /// Record that package `atom` was installed from repository `repo`.
    pub fn add(&mut self, repo: String, atom: String)
        ensures
            final(self).view() == old(self).view().insert(
                repo@,
                if old(self).view().contains_key(repo@) {
                    old(self).view()[repo@].push(atom@)
                } else {
                    seq![atom@]
                },
            ),
    {
        let ghost es = self.entries.deep_view();
        match self.position(repo.as_str()) {
            Some(i) => {
                proof {
                    lemma_map_of_at(es, i as int);
                }
                let (k, mut v) = self.entries.remove(i);
                assert(self.entries.deep_view() =~= es.remove(i as int));
                assert(k@ == repo@ && v.deep_view() == es[i as int].1);
                let ghost vv = v.deep_view();
                v.push(atom);
                assert(v.deep_view() =~= vv.push(atom@));
                let ghost mid = self.entries.deep_view();
                self.entries.insert(i, (k, v));
                proof {
                    assert(self.entries.deep_view() =~= mid.insert(i as int, (repo@, es[i as int].1.push(atom@))));
                    assert(self.entries.deep_view() =~= es.update(i as int, (repo@, es[i as int].1.push(atom@))));
                    lemma_map_of_update(es, i as int, es[i as int].1.push(atom@));
                }
            },
            None => {
                proof {
                    lemma_map_of_absent(es, repo@);
                }
                let mut v: Vec<String> = Vec::new();
                v.push(atom);
                assert(v.deep_view() =~= seq![atom@]);
                self.entries.push((repo, v));
                proof {
                    assert(self.entries.deep_view() =~= es.push((repo@, seq![atom@])));
                    assert(self.entries.deep_view().drop_last() =~= es);
                }
            },
        }
    }
}

/// No entry after position `i` has the name of entry `i`.
pub open spec fn last_with_name(es: Seq<(Seq<char>, Seq<Seq<char>>)>, i: int) -> bool {
    forall|j: int| i < j < es.len() ==> #[trigger] es[j].0 != es[i].0
}

proof fn lemma_map_of_absent(es: Seq<(Seq<char>, Seq<Seq<char>>)>, k: Seq<char>)
    requires
        forall|i: int| 0 <= i < es.len() ==> #[trigger] es[i].0 != k,
    ensures
        !map_of(es).contains_key(k),
    decreases es.len(),
{
    if es.len() > 0 {
        assert forall|i: int| 0 <= i < es.drop_last().len() implies #[trigger] es.drop_last()[i].0 != k by {
            assert(es.drop_last()[i] == es[i]);
        }
        lemma_map_of_absent(es.drop_last(), k);
    }
}

proof fn lemma_map_of_at(es: Seq<(Seq<char>, Seq<Seq<char>>)>, i: int)
    requires
        0 <= i < es.len(),
        last_with_name(es, i),
    ensures
        map_of(es).contains_key(es[i].0),
        map_of(es)[es[i].0] == es[i].1,
    decreases es.len(),
{
    if i < es.len() - 1 {
        let d = es.drop_last();
        assert(d[i] == es[i]);
        assert forall|j: int| i < j < d.len() implies #[trigger] d[j].0 != d[i].0 by {
            assert(d[j] == es[j]);
        }
        lemma_map_of_at(d, i);
        assert(es[es.len() - 1].0 != es[i].0);
    }
}

proof fn lemma_map_of_update(es: Seq<(Seq<char>, Seq<Seq<char>>)>, i: int, v: Seq<Seq<char>>)
    requires
        0 <= i < es.len(),
        last_with_name(es, i),
    ensures
        map_of(es.update(i, (es[i].0, v))) == map_of(es).insert(es[i].0, v),
    decreases es.len(),
{
    let u = es.update(i, (es[i].0, v));
    if i == es.len() - 1 {
        assert(u.drop_last() =~= es.drop_last());
        assert(map_of(u) =~= map_of(es).insert(es[i].0, v));
    } else {
        let d = es.drop_last();
        assert(d[i] == es[i]);
        assert forall|j: int| i < j < d.len() implies #[trigger] d[j].0 != d[i].0 by {
            assert(d[j] == es[j]);
        }
        lemma_map_of_update(d, i, v);
        assert(u.drop_last() =~= d.update(i, (d[i].0, v)));
        assert(u.last() == es.last());
        assert(es[es.len() - 1].0 != es[i].0);
        assert(map_of(u) =~= map_of(es).insert(es[i].0, v));
    }
}

/// The latest version is the version of one of the package's ebuilds (or
/// empty when no ebuild names a non-empty version), and no ebuild of the
/// package names a greater version in string order. So it does not depend
/// on the order in which the file names come.
pub proof fn law_latest_version_is_greatest(file_names: Seq<Seq<char>>, pkg: Seq<char>)
    ensures
        spec_latest_version(file_names, pkg).len() == 0 || exists|i: int|
            0 <= i < file_names.len() && spec_ebuild_version(#[trigger] file_names[i], pkg)
                == Some(spec_latest_version(file_names, pkg)),
        forall|i: int|
            0 <= i < file_names.len() ==> match spec_ebuild_version(#[trigger] file_names[i], pkg) {
                Some(v) => !seq_lt(spec_latest_version(file_names, pkg), v),
                None => true,
            },
    decreases file_names.len(),
{
    if file_names.len() > 0 {
        let prev_names = file_names.drop_last();
        law_latest_version_is_greatest(prev_names, pkg);
        let prev = spec_latest_version(prev_names, pkg);
        let r = spec_latest_version(file_names, pkg);
        let last = file_names.len() - 1;
        assert(file_names[last] == file_names.last());
        if prev.len() > 0 {
            let j = choose|j: int|
                0 <= j < prev_names.len() && spec_ebuild_version(#[trigger] prev_names[j], pkg)
                    == Some(prev);
            assert(file_names[j] == prev_names[j]);
        }
        assert forall|i: int| 0 <= i < file_names.len() implies match spec_ebuild_version(
            #[trigger] file_names[i],
            pkg,
        ) {
            Some(v) => !seq_lt(r, v),
            None => true,
        } by {
            match spec_ebuild_version(file_names[i], pkg) {
                Some(v) => {
                    lemma_seq_lt_total(r, v);
                    if i < last {
                        assert(file_names[i] == prev_names[i]);
                        if seq_lt(r, v) && r != prev {
                            lemma_seq_lt_trans(prev, r, v);
                        }
                    } else {
                        match spec_ebuild_version(file_names.last(), pkg) {
                            Some(w) => {
                                lemma_seq_lt_total(prev, w);
                            },
                            None => {},
                        }
                    }
                },
                None => {},
            }
        }
    }
}

/// An atom `category/name-version` whose version starts with a digit (any
/// of `0` to `9`) and holds no `-` splits into its category and name; the
/// category holds no `/`.
pub proof fn law_split_versioned_atom(c: Seq<char>, n: Seq<char>, v: Seq<char>)
    requires
        forall|i: int| 0 <= i < c.len() ==> #[trigger] c[i] != '/',
        v.len() > 0,
        '0' <= v[0] <= '9',
        forall|i: int| 0 <= i < v.len() ==> #[trigger] v[i] != '-',
    ensures
        spec_split_pkg_atom(c + "/"@ + n + "-"@ + v) == Some((c, n)),
{
    reveal_strlit("/");
    reveal_strlit("-");
    let s = c + "/"@ + n + "-"@ + v;
    let nv = n + "-"@ + v;
    assert forall|j: int| 0 <= j < c.len() implies s[j] != '/' by {
        assert(s[j] == c[j]);
    }
    assert(s[c.len() as int] == '/');
    crate::text::lemma_index_of(s, '/', c.len() as int);
    assert(s.subrange(0, c.len() as int) =~= c);
    assert(s.subrange(c.len() as int + 1, s.len() as int) =~= nv);
    assert forall|k: int| n.len() < k < nv.len() implies nv[k] != '-' by {
        assert(nv[k] == v[k - n.len() - 1]);
    }
    assert(nv[n.len() as int] == '-');
    crate::text::lemma_last_index_of(nv, '-', n.len() as int);
    assert(nv.subrange(0, n.len() as int) =~= n);
    assert(nv.subrange(n.len() as int + 1, nv.len() as int) =~= v);
}

} // verus!
