//! Decisions of the interface drawing that do not depend on the terminal.
use crate::app::{first_installed, View, ViewKind};
use crate::locale::{spec_strings, strings, Language};
use crate::text::{decimal, decimal_string, str_eq, string_push};
use crate::types::{RemoteOrigin, RemoteRepo, RemoteRepoView, Repo, RepoView};
use vstd::prelude::*;
use vstd::view::View as _;

verus! {

broadcast use vstd::string::group_string_axioms;

/// The view whose list is shown: Help and the confirmation dialog show
/// the list of the view they were opened from.
pub open spec fn spec_effective_list_view(view: ViewKind, previous: ViewKind) -> ViewKind {
    match view {
        ViewKind::Help | ViewKind::Confirm => previous,
        other => other,
    }
}

/// If the current view is Help or Confirm, show list from previous_view.
pub fn effective_list_view<'a>(view: &'a View, previous: &'a View) -> (r: &'a View)
    ensures
        r.kind() == spec_effective_list_view(view.kind(), previous.kind()),
{
    if view.is_help() || view.is_confirm() {
        previous
    } else {
        view
    }
}

/// How recently an installed overlay was synced.
#[derive(Debug, Clone, Copy, PartialEq, Eq, Structural)]
pub enum SyncFreshness {
    /// Under a day ago, or never recorded.
    Fresh,
    /// Under a week ago.
    Stale,
    /// Longer ago.
    Old,
}

/// Marker and freshness of an overlay by the age of its last sync.
pub open spec fn spec_sync_indicator(age_secs: Option<u64>) -> (Seq<char>, SyncFreshness) {
    match age_secs {
        Some(a) => if a < 86400 {
            ("[✓]"@, SyncFreshness::Fresh)
        } else if a < 604800 {
            ("[~]"@, SyncFreshness::Stale)
        } else {
            ("[!]"@, SyncFreshness::Old)
        },
        None => ("[✓]"@, SyncFreshness::Fresh),
    }
}

/// Green [✓] = < 1 day, Yellow [~] = < 7 days, Red [!] = older.
pub fn sync_indicator(age_secs: Option<u64>) -> (r: (&'static str, SyncFreshness))
    ensures
        (r.0@, r.1) == spec_sync_indicator(age_secs),
{
    match age_secs {
        Some(a) => if a < 86400 {
            ("[✓]", SyncFreshness::Fresh)
        } else if a < 604800 {
            ("[~]", SyncFreshness::Stale)
        } else {
            ("[!]", SyncFreshness::Old)
        },
        None => ("[✓]", SyncFreshness::Fresh),
    }
}

/// The frames of the activity spinner.
pub open spec fn spinner_frames() -> Seq<char> {
    seq!['⠋', '⠙', '⠹', '⠸', '⠼', '⠴', '⠦', '⠧', '⠇', '⠏']
}

/// The spinner character for an animation frame counter.
pub fn spinner_char(frame: usize) -> (c: char)
    ensures
        c == spinner_frames()[(frame % 10) as int],
{
    let frames: [char; 10] = ['⠋', '⠙', '⠹', '⠸', '⠼', '⠴', '⠦', '⠧', '⠇', '⠏'];
    assert(frames@ =~= spinner_frames());
    frames[frame % 10]
}

/// The package view of an overlay that is not installed holds the hint
/// lines instead of packages.
pub open spec fn spec_is_hint_list(pkg_list: Seq<Seq<char>>) -> bool {
    pkg_list.len() <= 3 && pkg_list.len() > 0 && pkg_list[0] == "not installed"@
}

pub fn is_hint_list(pkg_list: &Vec<String>) -> (r: bool)
    ensures
        r == spec_is_hint_list(pkg_list.deep_view()),
{
    pkg_list.len() <= 3 && pkg_list.len() > 0 && crate::text::str_eq(
        pkg_list[0].as_str(),
        "not installed",
    )
}

// ───────────────────────── texts of the screen ─────────────────────────

/// The name of the list a view shows.
pub open spec fn list_label(v: ViewKind) -> Seq<char> {
    match v {
        ViewKind::Browse => "Available"@,
        ViewKind::Installed => "Installed"@,
        _ => ""@,
    }
}

/// The title of the overlay list: the search query while searching, else
/// the list's name and length.
pub open spec fn spec_list_title(search_mode: bool, query: Seq<char>, v: ViewKind, count: usize) -> Seq<char> {
    if search_mode {
        " Search: "@ + query + "▌"@
    } else {
        " "@ + list_label(v) + " ("@ + decimal(count as nat) + ")"@
    }
}

pub fn list_title(search_mode: bool, query: &str, view: &View, count: usize) -> (r: String)
    ensures
        r@ == spec_list_title(search_mode, query@, view.kind(), count),
{
    if search_mode {
        let mut r = String::from_str(" Search: ");
        r.append(query);
        r.append("▌");
        r
    } else {
        let label = if view.is_browse() {
            "Available"
        } else if view.is_installed() {
            "Installed"
        } else {
            ""
        };
        let mut r = String::from_str(" ");
        r.append(label);
        r.append(" (");
        let n = decimal_string(count as u64);
        r.append(n.as_str());
        r.append(")");
        r
    }
}

/// The status text of the header: the spinner while the overlay list
/// loads, the missing-privileges note, or the age of the cache when there
/// is one.
pub open spec fn spec_cache_status(
    lang: Language,
    loading: bool,
    spinner_frame: usize,
    is_root: bool,
    cache_age: Seq<char>,
) -> Seq<char> {
    if loading {
        " "@ + seq![spinner_frames()[(spinner_frame % 10) as int]] + " "@ + spec_strings(
            lang,
        ).loading@
    } else if !is_root {
        spec_strings(lang).no_root@
    } else if cache_age == "never"@ {
        Seq::empty()
    } else {
        " cache: "@ + cache_age
    }
}

pub fn cache_status(
    lang: Language,
    loading: bool,
    spinner_frame: usize,
    is_root: bool,
    cache_age: &str,
) -> (r: String)
    ensures
        r@ == spec_cache_status(lang, loading, spinner_frame, is_root, cache_age@),
{
    let s = strings(lang);
    if loading {
        let mut r = String::from_str(" ");
        string_push(&mut r, spinner_char(spinner_frame));
        r.append(" ");
        r.append(s.loading);
        r
    } else if !is_root {
        String::from_str(s.no_root)
    } else if str_eq(cache_age, "never") {
        String::new()
    } else {
        let mut r = String::from_str(" cache: ");
        r.append(cache_age);
        r
    }
}

/// The note after the count of an empty package list.
pub open spec fn no_packages_note(count: nat) -> Seq<char> {
    if count == 0 {
        "no packages"@
    } else {
        ""@
    }
}

/// The title of an overlay's package list.
pub open spec fn spec_packages_title(
    search_mode: bool,
    repo: Seq<char>,
    query: Seq<char>,
    pkg_list: Seq<Seq<char>>,
) -> Seq<char> {
    let n = pkg_list.len();
    if search_mode {
        " Search: "@ + repo + " "@ + query + "▌ ("@ + decimal(n) + " "@ + no_packages_note(n)
            + ") "@
    } else if spec_is_hint_list(pkg_list) {
        " Packages: "@ + repo + " "@
    } else {
        " Packages: "@ + repo + " ("@ + decimal(n) + " "@ + no_packages_note(n) + ") "@
    }
}

pub fn packages_title(search_mode: bool, repo: &str, query: &str, pkg_list: &Vec<String>) -> (r: String)
    ensures
        r@ == spec_packages_title(search_mode, repo@, query@, pkg_list.deep_view()),
{
    let n = decimal_string(pkg_list.len() as u64);
    let note = if pkg_list.len() == 0 {
        "no packages"
    } else {
        ""
    };
    if search_mode {
        let mut r = String::from_str(" Search: ");
        r.append(repo);
        r.append(" ");
        r.append(query);
        r.append("▌ (");
        r.append(n.as_str());
        r.append(" ");
        r.append(note);
        r.append(") ");
        r
    } else if is_hint_list(pkg_list) {
        let mut r = String::from_str(" Packages: ");
        r.append(repo);
        r.append(" ");
        r
    } else {
        let mut r = String::from_str(" Packages: ");
        r.append(repo);
        r.append(" (");
        r.append(n.as_str());
        r.append(" ");
        r.append(note);
        r.append(") ");
        r
    }
}

/// The text beside the package list: the description, or a note that
/// there is none, then the USE flags when there are any.
pub open spec fn spec_package_text(description: Seq<char>, use_flags: Seq<char>) -> Seq<char> {
    (if description.len() == 0 {
        "(no description)"@
    } else {
        description
    }) + (if use_flags.len() > 0 {
        "\n\nUSE: "@ + use_flags
    } else {
        Seq::empty()
    })
}

pub fn package_text(description: &str, use_flags: &str) -> (r: String)
    ensures
        r@ == spec_package_text(description@, use_flags@),
{
    let mut r = if description.unicode_len() == 0 {
        String::from_str("(no description)")
    } else {
        String::from_str(description)
    };
    if use_flags.unicode_len() > 0 {
        r.append("\n\nUSE: ");
        r.append(use_flags);
    }
    r
}

/// The title of the package text: the selected package, or a dash.
pub open spec fn spec_package_heading(pkg_list: Seq<Seq<char>>, selected: usize) -> Seq<char> {
    if selected < pkg_list.len() {
        " "@ + pkg_list[selected as int] + " "@
    } else {
        " — "@
    }
}

pub fn package_heading(pkg_list: &Vec<String>, selected: usize) -> (r: String)
    ensures
        r@ == spec_package_heading(pkg_list.deep_view(), selected),
{
    if selected < pkg_list.len() {
        let mut r = String::from_str(" ");
        r.append(pkg_list[selected].as_str());
        r.append(" ");
        r
    } else {
        String::from_str(" — ")
    }
}

// ───────────────────────── list rows ─────────────────────────

/// The first available overlay with this name.
pub open spec fn first_available(available: Seq<RemoteRepoView>, name: Seq<char>) -> Option<int>
    decreases available.len(),
{
    if available.len() == 0 {
        None
    } else if available[0].name == name {
        Some(0)
    } else {
        match first_available(available.drop_first(), name) {
            Some(i) => Some(i + 1),
            None => None,
        }
    }
}

/// What a row of the overlay list shows for entry `idx`: the overlay's
/// name, the position of its installed entry (if it is installed) and
/// where it was found. In the Installed list the origin is that of the
/// first available overlay of the same name, else a custom one.
pub open spec fn spec_list_entry(
    v: ViewKind,
    available: Seq<RemoteRepoView>,
    installed: Seq<RepoView>,
    idx: int,
) -> Option<(Seq<char>, Option<int>, RemoteOrigin)> {
    match v {
        ViewKind::Browse => Some(
            (
                available[idx].name,
                first_installed(installed, available[idx].name),
                available[idx].origin,
            ),
        ),
        ViewKind::Installed => Some(
            (
                installed[idx].name,
                Some(idx),
                match first_available(available, installed[idx].name) {
                    Some(j) => available[j].origin,
                    None => RemoteOrigin::Custom,
                },
            ),
        ),
        _ => None,
    }
}

/// The index as a mathematical integer.
pub open spec fn opt_index(i: Option<usize>) -> Option<int> {
    match i {
        Some(k) => Some(k as int),
        None => None,
    }
}

fn first_installed_exec(installed: &Vec<Repo>, name: &str) -> (r: Option<usize>)
    ensures
        opt_index(r) == first_installed(installed.deep_view(), name@),
        r matches Some(i) ==> i < installed.len(),
{
    let ghost iv = installed.deep_view();
    let mut i: usize = 0;
    assert(iv.subrange(0, iv.len() as int) =~= iv);
    while i < installed.len()
        invariant
            0 <= i <= installed.len(),
            iv == installed.deep_view(),
            first_installed(iv, name@) == (match first_installed(iv.subrange(i as int, iv.len() as int), name@) {
                Some(k) => Some(k + i),
                None => None,
            }),
        decreases installed.len() - i,
    {
        let ghost rest = iv.subrange(i as int, iv.len() as int);
        assert(rest.drop_first() =~= iv.subrange(i + 1, iv.len() as int));
        if str_eq(installed[i].name.as_str(), name) {
            assert(rest[0] == iv[i as int]);
            return Some(i);
        }
        i += 1;
    }
    assert(iv.subrange(i as int, iv.len() as int) =~= Seq::<RepoView>::empty());
    None
}

fn first_available_exec(available: &Vec<RemoteRepo>, name: &str) -> (r: Option<usize>)
    ensures
        opt_index(r) == first_available(available.deep_view(), name@),
        r matches Some(i) ==> i < available.len(),
{
    let ghost av = available.deep_view();
    let mut i: usize = 0;
    assert(av.subrange(0, av.len() as int) =~= av);
    while i < available.len()
        invariant
            0 <= i <= available.len(),
            av == available.deep_view(),
            first_available(av, name@) == (match first_available(av.subrange(i as int, av.len() as int), name@) {
                Some(k) => Some(k + i),
                None => None,
            }),
        decreases available.len() - i,
    {
        let ghost rest = av.subrange(i as int, av.len() as int);
        assert(rest.drop_first() =~= av.subrange(i + 1, av.len() as int));
        if str_eq(available[i].name.as_str(), name) {
            assert(rest[0] == av[i as int]);
            return Some(i);
        }
        i += 1;
    }
    assert(av.subrange(i as int, av.len() as int) =~= Seq::<RemoteRepoView>::empty());
    None
}

/// What a row of the overlay list shows for entry `idx` of the list of
/// `view`; `None` for a view without such a list.
pub fn list_entry(view: &View, available: &Vec<RemoteRepo>, installed: &Vec<Repo>, idx: usize) -> (r: Option<(String, Option<usize>, RemoteOrigin)>)
    requires
        view.kind() is Browse ==> idx < available.len(),
        view.kind() is Installed ==> idx < installed.len(),
    ensures
        r is None <==> spec_list_entry(view.kind(), available.deep_view(), installed.deep_view(), idx as int) is None,
        r matches Some((n, i, o)) ==> spec_list_entry(
            view.kind(),
            available.deep_view(),
            installed.deep_view(),
            idx as int,
        ) == Some((n@, opt_index(i), o)),
        r matches Some((_, Some(i), _)) ==> i < installed.len(),
{
    if view.is_browse() {
        let repo = &available[idx];
        let inst = first_installed_exec(installed, repo.name.as_str());
        Some((repo.name.clone(), inst, repo.origin))
    } else if view.is_installed() {
        let repo = &installed[idx];
        let origin = match first_available_exec(available, repo.name.as_str()) {
            Some(j) => available[j].origin,
            None => RemoteOrigin::Custom,
        };
        Some((repo.name.clone(), Some(idx), origin))
    } else {
        None
    }
}

} // verus!
