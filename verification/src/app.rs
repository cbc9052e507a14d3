//! The application state and every transition of it.
//!
//! The state is a plain value. Work that only the surrounding program can
//! do (reading the disk, running `emaint`, downloading the overlay lists)
//! is requested through [`Effect`]s, which the program takes with
//! [`App::take_effects`], performs, and answers through the `on_*` and
//! `*_finished` methods.
use crate::actions::Action;
use crate::locale::{
    spec_strings, strings, text_already_installed, text_cache_error, text_cache_loaded,
    text_removed_no_files, text_removed_with_files, text_sync_added, text_sync_failed,
    text_sync_start, Language,
};
use crate::packages::PackageMap;
use crate::sync::SyncEvent;
use crate::text::{
    chars_eq, contains, contains_exec, decimal, lower_chars, lower_text, starts_with,
    starts_with_exec, str_eq, string_pop, string_push, to_chars,
};
use crate::types::{first_git_url, without_name, RemoteRepo, RemoteRepoView, Repo, RepoView, SyncKind, SyncType};
use vstd::prelude::*;
use vstd::view::View as _;

verus! {

broadcast use vstd::string::group_string_axioms;

// ───────────────────────── types ─────────────────────────

/// Navigation state.
#[derive(Debug, Clone, PartialEq, Eq)]
pub enum View {
    Browse,
    Installed,
    Help,
    Syncing,
    Confirm,
    /// Viewing overlay packages.
    Packages(String),
}

/// The value of a [`View`].
pub enum ViewKind {
    Browse,
    Installed,
    Help,
    Syncing,
    Confirm,
    Packages(Seq<char>),
}

impl View {
    pub open spec fn kind(&self) -> ViewKind {
        match self {
            View::Browse => ViewKind::Browse,
            View::Installed => ViewKind::Installed,
            View::Help => ViewKind::Help,
            View::Syncing => ViewKind::Syncing,
            View::Confirm => ViewKind::Confirm,
            View::Packages(s) => ViewKind::Packages(s@),
        }
    }

    /// A copy with the same value.
    pub fn duplicate(&self) -> (r: View)
        ensures
            r.kind() == self.kind(),
    {
        match self {
            View::Browse => View::Browse,
            View::Installed => View::Installed,
            View::Help => View::Help,
            View::Syncing => View::Syncing,
            View::Confirm => View::Confirm,
            View::Packages(s) => View::Packages(s.clone()),
        }
    }

    pub fn is_browse(&self) -> (r: bool)
        ensures
            r == (self.kind() is Browse),
    {
        match self {
            View::Browse => true,
            _ => false,
        }
    }

    pub fn is_installed(&self) -> (r: bool)
        ensures
            r == (self.kind() is Installed),
    {
        match self {
            View::Installed => true,
            _ => false,
        }
    }

    pub fn is_help(&self) -> (r: bool)
        ensures
            r == (self.kind() is Help),
    {
        match self {
            View::Help => true,
            _ => false,
        }
    }

    pub fn is_syncing(&self) -> (r: bool)
        ensures
            r == (self.kind() is Syncing),
    {
        match self {
            View::Syncing => true,
            _ => false,
        }
    }

    pub fn is_confirm(&self) -> (r: bool)
        ensures
            r == (self.kind() is Confirm),
    {
        match self {
            View::Confirm => true,
            _ => false,
        }
    }

    pub fn is_packages(&self) -> (r: bool)
        ensures
            r == (self.kind() is Packages),
    {
        match self {
            View::Packages(_) => true,
            _ => false,
        }
    }
}

#[derive(Debug, Clone, Copy, PartialEq, Eq, Structural)]
pub enum MessageLevel {
    Info,
    Success,
    Error,
}

/// User message with auto-dismiss.
#[derive(Debug)]
pub struct Message {
    pub text: String,
    pub level: MessageLevel,
    /// Clock reading (milliseconds) from which the message is gone.
    pub expires_at: u64,
}

pub struct MessageView {
    pub text: Seq<char>,
    pub level: MessageLevel,
    pub expires_at: u64,
}

impl Message {
    pub open spec fn model(&self) -> MessageView {
        MessageView { text: self.text@, level: self.level, expires_at: self.expires_at }
    }
}

/// Operation requiring confirmation.
#[derive(Debug)]
pub struct ConfirmAction {
    pub repo_name: String,
}

/// Work that the surrounding program performs for the application.
#[derive(Debug)]
pub enum Effect {
    /// Scan the installed packages; answer with [`App::on_packages_scanned`].
    ScanPackages,
    /// Drain the events of the running sync; answer each with [`App::on_sync_event`].
    PollSync,
    /// List the packages of an installed overlay; answer with [`App::packages_scanned`].
    ScanOverlay { name: String, location: String },
    /// Read the description and USE flags of a package; answer with
    /// [`App::set_package_details`].
    LoadPackageDetails { location: String, package: String },
    /// Append the overlay to repos.conf; answer with [`App::install_finished`].
    Install(Repo),
    /// Run `emaint sync -r` for one overlay, feeding [`Effect::PollSync`].
    StartSync(String),
    /// Run `emaint sync -a`.
    StartSyncAll,
    /// Remove the overlay from repos.conf and its files; answer with
    /// [`App::remove_finished`].
    Remove(String),
    /// Rebuild the overlay cache in the background; answer with
    /// [`App::on_cache_result`].
    RefreshCache,
}

pub enum EffectView {
    ScanPackages,
    PollSync,
    ScanOverlay(Seq<char>, Seq<char>),
    LoadPackageDetails(Seq<char>, Seq<char>),
    Install(RepoView),
    StartSync(Seq<char>),
    StartSyncAll,
    Remove(Seq<char>),
    RefreshCache,
}

impl Effect {
    pub open spec fn model(&self) -> EffectView {
        match self {
            Effect::ScanPackages => EffectView::ScanPackages,
            Effect::PollSync => EffectView::PollSync,
            Effect::ScanOverlay { name, location } => EffectView::ScanOverlay(name@, location@),
            Effect::LoadPackageDetails { location, package } => EffectView::LoadPackageDetails(
                location@,
                package@,
            ),
            Effect::Install(r) => EffectView::Install(r@),
            Effect::StartSync(n) => EffectView::StartSync(n@),
            Effect::StartSyncAll => EffectView::StartSyncAll,
            Effect::Remove(n) => EffectView::Remove(n@),
            Effect::RefreshCache => EffectView::RefreshCache,
        }
    }
}

/// What removing an overlay from the configuration gave.
#[derive(Debug)]
pub enum RemoveOutcome {
    /// The section was removed and the overlay's files deleted.
    RemovedWithFiles,
    /// The section was removed; the overlay had no files.
    RemovedNoFiles,
    /// The section was removed; deleting the files failed with this error.
    RemovedPurgeFailed(String),
    /// No configuration file had the section.
    NotFound,
    /// Reading or writing the configuration failed with this error.
    Failed(String),
}

/// What a background cache rebuild delivered.
#[derive(Debug)]
pub enum CacheResult {
    Loaded(Vec<RemoteRepo>),
    Failed(String),
    /// The rebuild ended without an answer.
    Disconnected,
}

// ───────────────────────── the model ─────────────────────────

/// The value of an [`App`].
#[verifier::ext_equal]
pub struct AppModel {
    pub view: ViewKind,
    pub previous_view: ViewKind,
    pub selected: usize,
    pub scroll_offset: usize,
    pub filtered: Seq<usize>,
    pub installed: Seq<RepoView>,
    pub available: Seq<RemoteRepoView>,
    pub packages: Map<Seq<char>, Seq<Seq<char>>>,
    pub search_query: Seq<char>,
    pub search_mode: bool,
    pub sync_output: Seq<Seq<char>>,
    pub sync_repo: Option<Seq<char>>,
    pub message: Option<MessageView>,
    pub loading: bool,
    pub packages_ready: bool,
    pub is_root: bool,
    pub confirm: Option<Seq<char>>,
    pub spinner_frame: usize,
    pub pkg_repo: Seq<char>,
    pub pkg_list: Seq<Seq<char>>,
    pub pkg_list_full: Seq<Seq<char>>,
    pub pkg_selected: usize,
    pub pkg_description: Seq<char>,
    pub pkg_use_flags: Seq<char>,
    pub pkg_repo_path: Seq<char>,
    pub lang: Language,
    pub clock: u64,
    pub effects: Seq<EffectView>,
}

/// How long a message stays, in milliseconds.
pub const MESSAGE_MILLIS: u64 = 4000;

/// Rank of a list entry for a query: exact match, prefix match, other.
pub open spec fn rank(name: Seq<char>, q: Seq<char>) -> int {
    let n = lower_text(name);
    if n == q {
        0
    } else if starts_with(n, q) {
        1
    } else {
        2
    }
}

/// Whether a list entry is shown for the (lowercased) query.
pub open spec fn matches_query(name: Seq<char>, q: Seq<char>) -> bool {
    q.len() == 0 || contains(lower_text(name), q)
}

/// Indices below `upto` of the entries that match `q` with rank `k`, in
/// list order.
pub open spec fn bucket(names: Seq<Seq<char>>, q: Seq<char>, k: int, upto: int) -> Seq<usize>
    decreases upto,
{
    if upto <= 0 {
        Seq::empty()
    } else {
        let prev = bucket(names, q, k, upto - 1);
        if matches_query(names[upto - 1], q) && rank(names[upto - 1], q) == k {
            prev.push((upto - 1) as usize)
        } else {
            prev
        }
    }
}

/// The matching indices, exact matches first, then prefix matches, then
/// the others, each group in list order.
pub open spec fn filter_order(names: Seq<Seq<char>>, q: Seq<char>) -> Seq<usize> {
    let n = names.len() as int;
    bucket(names, q, 0, n) + bucket(names, q, 1, n) + bucket(names, q, 2, n)
}

/// The packages of `full` whose lowercase form contains `q`.
pub open spec fn package_filter(full: Seq<Seq<char>>, q: Seq<char>) -> Seq<Seq<char>>
    decreases full.len(),
{
    if full.len() == 0 {
        Seq::empty()
    } else {
        let prev = package_filter(full.drop_last(), q);
        if contains(lower_text(full.last()), q) {
            prev.push(full.last())
        } else {
            prev
        }
    }
}

/// Whether an installed overlay has this name.
pub open spec fn has_installed(installed: Seq<RepoView>, name: Seq<char>) -> bool {
    exists|i: int| 0 <= i < installed.len() && #[trigger] installed[i].name == name
}

/// The first installed overlay with this name.
pub open spec fn first_installed(installed: Seq<RepoView>, name: Seq<char>) -> Option<int>
    decreases installed.len(),
{
    if installed.len() == 0 {
        None
    } else if installed[0].name == name {
        Some(0)
    } else {
        match first_installed(installed.drop_first(), name) {
            Some(i) => Some(i + 1),
            None => None,
        }
    }
}

/// The lines shown instead of packages for an overlay that is not installed.
pub open spec fn not_installed_hint(lang: Language) -> Seq<Seq<char>> {
    seq![spec_strings(lang).installed_no@, Seq::empty(), spec_strings(lang).not_installed_hint@]
}

/// The configuration entry for installing a remote overlay, or the error
/// text that prevents it.
pub open spec fn install_plan(
    installed: Seq<RepoView>,
    repo: RemoteRepoView,
    lang: Language,
) -> Result<RepoView, Seq<char>> {
    if has_installed(installed, repo.name) {
        Err(text_already_installed(lang, repo.name))
    } else {
        match first_git_url(repo.sources) {
            None => Err(spec_strings(lang).no_git_source@),
            Some(u) => Ok(
                RepoView {
                    name: repo.name,
                    location: "/var/db/repos/"@ + repo.name,
                    sync_type: SyncKind::Git,
                    sync_uri: u,
                    auto_sync: true,
                    priority: Some(50),
                },
            ),
        }
    }
}

impl AppModel {
    pub open spec fn push_effect(self, e: EffectView) -> AppModel {
        AppModel { effects: self.effects.push(e), ..self }
    }

    pub open spec fn show_message(self, text: Seq<char>, level: MessageLevel) -> AppModel {
        AppModel {
            message: Some(
                MessageView { text, level, expires_at: self.clock.saturating_add(MESSAGE_MILLIS) },
            ),
            ..self
        }
    }

    /// An error for the user: a denied permission reads as the need for root.
    pub open spec fn show_error(self, text: Seq<char>) -> AppModel {
        if contains(text, "Permission denied"@) {
            self.show_message(spec_strings(self.lang).need_root@, MessageLevel::Error)
        } else {
            self.show_message(text, MessageLevel::Error)
        }
    }

    /// Names of the list that `filtered` indexes in the current view.
    pub open spec fn list_names(self) -> Seq<Seq<char>> {
        if self.view is Browse {
            self.available.map_values(|r: RemoteRepoView| r.name)
        } else {
            self.installed.map_values(|r: RepoView| r.name)
        }
    }

    pub open spec fn apply_filter(self) -> AppModel {
        if !(self.view is Browse || self.view is Installed) {
            self
        } else {
            let f = filter_order(self.list_names(), lower_text(self.search_query));
            AppModel {
                filtered: f,
                selected: if self.selected >= f.len() {
                    (f.len() as usize).saturating_sub(1)
                } else {
                    self.selected
                },
                ..self
            }
        }
    }

    pub open spec fn switch_to(self, v: ViewKind) -> AppModel {
        AppModel { previous_view: self.view, view: v, ..self }.apply_filter()
    }

    pub open spec fn close(self) -> AppModel {
        if self.search_mode {
            AppModel { search_mode: false, search_query: Seq::empty(), ..self }.apply_filter()
        } else if self.view is Help {
            AppModel { view: self.previous_view, ..self }
        } else {
            self
        }
    }

    /// The name of the selected entry of the Browse or Installed list.
    pub open spec fn selected_name(self) -> Option<Seq<char>> {
        if self.selected < self.filtered.len() {
            let idx = self.filtered[self.selected as int];
            if self.view is Browse && idx < self.available.len() {
                Some(self.available[idx as int].name)
            } else if self.view is Installed && idx < self.installed.len() {
                Some(self.installed[idx as int].name)
            } else {
                None
            }
        } else {
            None
        }
    }

    pub open spec fn load_pkg_description(self) -> AppModel {
        if self.pkg_list.len() == 0 || self.pkg_repo_path.len() == 0 || self.pkg_selected
            >= self.pkg_list.len() {
            AppModel { pkg_description: Seq::empty(), pkg_use_flags: Seq::empty(), ..self }
        } else {
            self.push_effect(
                EffectView::LoadPackageDetails(
                    self.pkg_repo_path,
                    self.pkg_list[self.pkg_selected as int],
                ),
            )
        }
    }

    /// Switch to the package view of `pkg_repo`.
    pub open spec fn show_package_list(self) -> AppModel {
        AppModel {
            pkg_selected: 0,
            pkg_description: Seq::empty(),
            previous_view: self.view,
            view: ViewKind::Packages(self.pkg_repo),
            ..self
        }.load_pkg_description()
    }

    pub open spec fn open_packages(self) -> AppModel {
        let m = AppModel { search_mode: false, search_query: Seq::empty(), ..self };
        match self.selected_name() {
            None => m,
            Some(name) => match first_installed(self.installed, name) {
                Some(i) => m.push_effect(EffectView::ScanOverlay(name, self.installed[i].location)),
                None => AppModel {
                    pkg_repo: name,
                    pkg_list: not_installed_hint(self.lang),
                    pkg_list_full: not_installed_hint(self.lang),
                    ..m
                }.show_package_list(),
            },
        }
    }

    pub open spec fn packages_scanned(
        self,
        name: Seq<char>,
        location: Seq<char>,
        pkgs: Seq<Seq<char>>,
    ) -> AppModel {
        AppModel {
            pkg_repo: name,
            pkg_repo_path: location,
            pkg_list: pkgs,
            pkg_list_full: pkgs,
            ..self
        }.show_package_list()
    }

    pub open spec fn start_sync(self, name: Seq<char>) -> AppModel {
        AppModel {
            sync_output: Seq::empty(),
            sync_repo: Some(name),
            effects: self.effects.push(EffectView::StartSync(name)),
            view: ViewKind::Syncing,
            ..self
        }
    }

    pub open spec fn add_or_sync(self) -> AppModel {
        if self.selected < self.filtered.len() && (self.view is Browse || self.view is Installed) {
            let idx = self.filtered[self.selected as int];
            if self.view is Browse && idx < self.available.len() {
                let repo = self.available[idx as int];
                if !self.is_root {
                    self.show_message(spec_strings(self.lang).need_root@, MessageLevel::Error)
                } else if !has_installed(self.installed, repo.name) {
                    match install_plan(self.installed, repo, self.lang) {
                        Err(e) => self.show_error(e),
                        Ok(r) => self.push_effect(EffectView::Install(r)),
                    }
                } else {
                    self.start_sync(repo.name)
                }
            } else if self.view is Installed && idx < self.installed.len() {
                if !self.is_root {
                    self.show_message(spec_strings(self.lang).need_root@, MessageLevel::Error)
                } else {
                    self.start_sync(self.installed[idx as int].name)
                }
            } else {
                self
            }
        } else {
            self
        }
    }

    pub open spec fn install_finished(self, repo: RepoView, error: Option<Seq<char>>) -> AppModel {
        match error {
            Some(e) => self.show_error(e),
            None => AppModel { installed: self.installed.push(repo), ..self }.show_message(
                text_sync_added(self.lang, repo.name),
                MessageLevel::Info,
            ).start_sync(repo.name),
        }
    }

    pub open spec fn sync_all(self) -> AppModel {
        if !self.is_root {
            self.show_message(spec_strings(self.lang).need_root@, MessageLevel::Error)
        } else {
            AppModel {
                sync_output: Seq::empty(),
                sync_repo: Some("all"@),
                effects: self.effects.push(EffectView::StartSyncAll),
                view: ViewKind::Syncing,
                ..self
            }
        }
    }

    pub open spec fn remove_repo(self) -> AppModel {
        if self.view is Installed && self.selected < self.filtered.len()
            && self.filtered[self.selected as int] < self.installed.len() {
            AppModel {
                confirm: Some(self.installed[self.filtered[self.selected as int] as int].name),
                view: ViewKind::Confirm,
                ..self
            }
        } else {
            self
        }
    }

    pub open spec fn do_remove(self, name: Seq<char>) -> AppModel {
        let m = AppModel { view: ViewKind::Installed, ..self };
        if !self.is_root {
            m.show_message(spec_strings(self.lang).need_root@, MessageLevel::Error)
        } else {
            m.push_effect(EffectView::Remove(name))
        }
    }

    pub open spec fn remove_finished(self, name: Seq<char>, outcome: RemoveOutcome) -> AppModel {
        let m = AppModel { installed: without_name(self.installed, name), ..self };
        match outcome {
            RemoveOutcome::RemovedWithFiles => m.show_message(
                text_removed_with_files(self.lang, name),
                MessageLevel::Success,
            ).switch_to(ViewKind::Installed),
            RemoveOutcome::RemovedNoFiles => m.show_message(
                text_removed_no_files(self.lang, name),
                MessageLevel::Success,
            ).switch_to(ViewKind::Installed),
            RemoveOutcome::RemovedPurgeFailed(e) => m.show_error(e@).switch_to(ViewKind::Installed),
            RemoveOutcome::NotFound => self.show_message(
                spec_strings(self.lang).not_found_in_config@,
                MessageLevel::Info,
            ),
            RemoveOutcome::Failed(e) => self.show_error(e@),
        }
    }

    pub open spec fn refresh_cache(self) -> AppModel {
        AppModel { loading: true, ..self.push_effect(EffectView::RefreshCache) }.show_message(
            spec_strings(self.lang).cache_updating@,
            MessageLevel::Info,
        )
    }

    pub open spec fn on_cache_result(self, result: CacheResult) -> AppModel {
        match result {
            CacheResult::Loaded(repos) => {
                let m = AppModel { available: repos.deep_view(), loading: false, ..self };
                let m2 = if self.view is Browse {
                    m.apply_filter()
                } else {
                    m
                };
                m2.show_message(
                    text_cache_loaded(self.lang, decimal(repos.len() as nat)),
                    MessageLevel::Success,
                )
            },
            CacheResult::Failed(e) => AppModel { loading: false, ..self }.show_message(
                text_cache_error(self.lang, e@),
                MessageLevel::Error,
            ),
            CacheResult::Disconnected => AppModel { loading: false, ..self },
        }
    }

    pub open spec fn on_sync_event(self, event: SyncEvent) -> AppModel {
        match event {
            SyncEvent::Started(name) => AppModel {
                sync_output: self.sync_output.push(text_sync_start(self.lang, name@)),
                ..self
            },
            SyncEvent::Output(line) => AppModel {
                sync_output: self.sync_output.push(line@),
                ..self
            },
            SyncEvent::Finished(Ok(())) => AppModel {
                view: ViewKind::Browse,
                ..AppModel {
                    sync_output: self.sync_output.push(spec_strings(self.lang).sync_done@),
                    ..self
                }.show_message(spec_strings(self.lang).sync_finished@, MessageLevel::Success)
            }.apply_filter(),
            SyncEvent::Finished(Err(e)) => AppModel {
                view: ViewKind::Browse,
                ..AppModel {
                    sync_output: self.sync_output.push(
                        spec_strings(self.lang).sync_error@ + " "@ + e@,
                    ),
                    ..self
                }.show_message(text_sync_failed(self.lang, e@), MessageLevel::Error)
            }.apply_filter(),
        }
    }

    pub open spec fn apply_pkg_filter(self) -> AppModel {
        let q = lower_text(self.search_query);
        let list = if q.len() == 0 {
            self.pkg_list_full
        } else {
            package_filter(self.pkg_list_full, q)
        };
        AppModel {
            pkg_list: list,
            pkg_selected: if self.pkg_selected >= list.len() {
                (list.len() as usize).saturating_sub(1)
            } else {
                self.pkg_selected
            },
            ..self
        }.load_pkg_description()
    }

    pub open spec fn expire_messages(self) -> AppModel {
        match self.message {
            Some(msg) => if self.clock >= msg.expires_at {
                AppModel { message: None, ..self }
            } else {
                self
            },
            None => self,
        }
    }

    pub open spec fn tick(self) -> AppModel {
        let m = self.expire_messages();
        AppModel {
            spinner_frame: if m.spinner_frame == usize::MAX {
                0
            } else {
                (m.spinner_frame + 1) as usize
            },
            ..m
        }
    }

    /// `handle` may be called with this action.
    pub open spec fn handle_allowed(self, action: Action) -> bool {
        &&& action is ConfirmYes ==> (self.view is Syncing || self.view is Confirm
            || self.view is Packages)
        &&& (self.view is Confirm && action is ConfirmYes) ==> self.confirm is Some
    }

    /// The state after a key action in the package view, and whether the
    /// application goes on.
    pub open spec fn handle_packages(self, action: Action) -> AppModel {
        let n = self.pkg_list.len();
        if self.search_mode {
            match action {
                Action::SearchChar(c) => AppModel {
                    search_query: self.search_query.push(c),
                    ..self
                }.apply_pkg_filter(),
                Action::SearchBackspace => AppModel {
                    search_query: if self.search_query.len() > 0 {
                        self.search_query.drop_last()
                    } else {
                        self.search_query
                    },
                    ..self
                }.apply_pkg_filter(),
                Action::Close => AppModel {
                    search_mode: false,
                    search_query: Seq::empty(),
                    ..self
                }.apply_pkg_filter(),
                Action::MoveUp => AppModel {
                    pkg_selected: self.pkg_selected.saturating_sub(1),
                    ..self
                }.load_pkg_description(),
                Action::MoveDown => if self.pkg_selected + 1 < n {
                    AppModel {
                        pkg_selected: (self.pkg_selected + 1) as usize,
                        ..self
                    }.load_pkg_description()
                } else {
                    self
                },
                Action::Quit => AppModel {
                    search_mode: false,
                    search_query: Seq::empty(),
                    view: self.previous_view,
                    ..self
                },
                _ => self,
            }
        } else {
            match action {
                Action::MoveUp => AppModel {
                    pkg_selected: self.pkg_selected.saturating_sub(1),
                    ..self
                }.load_pkg_description(),
                Action::MoveDown => if self.pkg_selected + 1 < n {
                    AppModel {
                        pkg_selected: (self.pkg_selected + 1) as usize,
                        ..self
                    }.load_pkg_description()
                } else {
                    self
                },
                Action::MoveTop => AppModel { pkg_selected: 0, ..self }.load_pkg_description(),
                Action::MoveBottom => if n > 0 {
                    AppModel { pkg_selected: (n - 1) as usize, ..self }.load_pkg_description()
                } else {
                    self
                },
                Action::SearchStart => AppModel {
                    search_mode: true,
                    search_query: Seq::empty(),
                    ..self
                },
                Action::Close | Action::Quit => AppModel {
                    search_mode: false,
                    search_query: Seq::empty(),
                    view: self.previous_view,
                    ..self
                },
                _ => self,
            }
        }
    }

    /// The state after an action in the Browse, Installed or Help view.
    pub open spec fn handle_lists(self, action: Action) -> AppModel {
        let n = self.filtered.len();
        match action {
            Action::MoveUp => AppModel { selected: self.selected.saturating_sub(1), ..self },
            Action::MoveDown => if n > 0 && self.selected + 1 < n {
                AppModel { selected: (self.selected + 1) as usize, ..self }
            } else {
                self
            },
            Action::MoveTop => AppModel { selected: 0, ..self },
            Action::MoveBottom => if n > 0 {
                AppModel { selected: (n - 1) as usize, ..self }
            } else {
                self
            },
            Action::Close => self.close(),
            Action::OpenPackages => self.open_packages(),
            Action::AddOrSync => self.add_or_sync(),
            Action::SyncAll => self.sync_all(),
            Action::RemoveRepo => self.remove_repo(),
            Action::TabBrowse => self.switch_to(ViewKind::Browse),
            Action::TabInstalled => self.switch_to(ViewKind::Installed),
            Action::SearchStart => if self.view is Browse || self.view is Installed
                || self.view is Packages {
                AppModel { search_mode: true, search_query: Seq::empty(), ..self }
            } else {
                self
            },
            Action::SearchChar(c) => if self.search_mode {
                AppModel { search_query: self.search_query.push(c), ..self }.apply_filter()
            } else {
                self
            },
            Action::SearchBackspace => if self.search_mode {
                AppModel {
                    search_query: if self.search_query.len() > 0 {
                        self.search_query.drop_last()
                    } else {
                        self.search_query
                    },
                    ..self
                }.apply_filter()
            } else {
                self
            },
            Action::RefreshCache => self.refresh_cache(),
            Action::ToggleHelp => if self.view is Help {
                AppModel { view: self.previous_view, ..self }
            } else {
                AppModel { previous_view: self.view, view: ViewKind::Help, ..self }
            },
            _ => self,
        }
    }

    /// The state after `action`, and whether the application goes on.
    pub open spec fn handle(self, action: Action) -> (AppModel, bool) {
        if self.view is Syncing {
            if action is Quit {
                (self, false)
            } else {
                (self.push_effect(EffectView::PollSync), true)
            }
        } else if self.view is Confirm {
            match action {
                Action::ConfirmYes => (
                    AppModel { confirm: None, ..self }.do_remove(self.confirm->0),
                    true,
                ),
                Action::Close | Action::Quit => (
                    AppModel { confirm: None, view: ViewKind::Installed, ..self },
                    true,
                ),
                _ => (self, true),
            }
        } else if self.view is Packages {
            (self.handle_packages(action), true)
        } else if action is Quit {
            (self, false)
        } else {
            (self.handle_lists(action), true)
        }
    }
}

// ───────────────────────── the application ─────────────────────────

/// Main application state.
pub struct App {
    /// Current view/tab.
    pub view: View,
    /// Previous view — for returning from Help.
    pub previous_view: View,
    /// Index of the selected item in the filtered list.
    pub selected: usize,
    /// Scroll offset of the list (first visible row).
    pub scroll_offset: usize,
    /// Item indices after search/filtering: into `available` when the
    /// view is Browse, into `installed` when it is Installed.
    pub filtered: Vec<usize>,
    /// Installed overlays (from repos.conf).
    pub installed: Vec<Repo>,
    /// Overlays available for installation (from cache).
    pub available: Vec<RemoteRepo>,
    /// Map: repository name → list of installed packages.
    pub packages: PackageMap,
    /// Search query string.
    pub search_query: String,
    /// Whether search input mode is active.
    pub search_mode: bool,
    /// Accumulated sync output.
    pub sync_output: Vec<String>,
    /// Name of the overlay being synced.
    pub sync_repo: Option<String>,
    /// Temporary notification.
    pub message: Option<Message>,
    /// Whether cache is loading in background.
    pub loading: bool,
    /// Whether the installed-package scan is complete.
    pub packages_ready: bool,
    /// Whether there is write access to the repos.conf directory.
    pub is_root: bool,
    /// Awaiting operation confirmation.
    pub confirm: Option<ConfirmAction>,
    /// Frame counter for spinner animation.
    pub spinner_frame: usize,
    /// Name of the repository whose packages we're viewing.
    pub pkg_repo: String,
    /// Package list for viewing.
    pub pkg_list: Vec<String>,
    /// Full package list (unfiltered) for restoration.
    pub pkg_list_full: Vec<String>,
    /// Selected package in Packages mode.
    pub pkg_selected: usize,
    /// Description of the selected package.
    pub pkg_description: String,
    /// USE flags of the selected package.
    pub pkg_use_flags: String,
    /// Path to repository for loading descriptions.
    pub pkg_repo_path: String,
    /// Interface language.
    pub lang: Language,
    /// Last clock reading, in milliseconds.
    pub clock: u64,
    /// Requested outside work, oldest first.
    pub effects: Vec<Effect>,
}

impl App {
    pub open spec fn view(&self) -> AppModel {
        AppModel {
            view: self.view.kind(),
            previous_view: self.previous_view.kind(),
            selected: self.selected,
            scroll_offset: self.scroll_offset,
            filtered: self.filtered@,
            installed: self.installed.deep_view(),
            available: self.available.deep_view(),
            packages: self.packages.view(),
            search_query: self.search_query@,
            search_mode: self.search_mode,
            sync_output: self.sync_output.deep_view(),
            sync_repo: self.sync_repo.deep_view(),
            message: match self.message {
                Some(m) => Some(m.model()),
                None => None,
            },
            loading: self.loading,
            packages_ready: self.packages_ready,
            is_root: self.is_root,
            confirm: match self.confirm {
                Some(c) => Some(c.repo_name@),
                None => None,
            },
            spinner_frame: self.spinner_frame,
            pkg_repo: self.pkg_repo@,
            pkg_list: self.pkg_list.deep_view(),
            pkg_list_full: self.pkg_list_full.deep_view(),
            pkg_selected: self.pkg_selected,
            pkg_description: self.pkg_description@,
            pkg_use_flags: self.pkg_use_flags@,
            pkg_repo_path: self.pkg_repo_path@,
            lang: self.lang,
            clock: self.clock,
            effects: self.effects@.map_values(|e: Effect| e.model()),
        }
    }
}

impl App {
    /// A fresh state for the given overlays; the installed-package scan is
    /// requested at once.
    pub fn new(installed: Vec<Repo>, available: Vec<RemoteRepo>, is_root: bool, lang: Language) -> (app: App)
        ensures
            app@.view is Browse,
            app@.previous_view is Browse,
            app@.selected == 0,
            app@.scroll_offset == 0,
            app@.filtered == Seq::new(available.len() as nat, |i: int| i as usize),
            app@.installed == installed.deep_view(),
            app@.available == available.deep_view(),
            app@.packages == Map::<Seq<char>, Seq<Seq<char>>>::empty(),
            app@.search_query == Seq::<char>::empty(),
            !app@.search_mode,
            app@.sync_output == Seq::<Seq<char>>::empty(),
            app@.sync_repo is None,
            app@.message is None,
            app@.loading == (available.len() == 0),
            !app@.packages_ready,
            app@.is_root == is_root,
            app@.confirm is None,
            app@.spinner_frame == 0,
            app@.pkg_repo == Seq::<char>::empty(),
            app@.pkg_list == Seq::<Seq<char>>::empty(),
            app@.pkg_list_full == Seq::<Seq<char>>::empty(),
            app@.pkg_selected == 0,
            app@.pkg_description == Seq::<char>::empty(),
            app@.pkg_use_flags == Seq::<char>::empty(),
            app@.pkg_repo_path == Seq::<char>::empty(),
            app@.lang == lang,
            app@.clock == 0,
            app@.effects == seq![EffectView::ScanPackages],
    {
        let mut filtered: Vec<usize> = Vec::new();
        let mut i: usize = 0;
        while i < available.len()
            invariant
                0 <= i <= available.len(),
                filtered@ == Seq::new(i as nat, |k: int| k as usize),
            decreases available.len() - i,
        {
            filtered.push(i);
            i += 1;
            assert(filtered@ =~= Seq::new(i as nat, |k: int| k as usize));
        }
        let loading = available.len() == 0;
        let mut effects: Vec<Effect> = Vec::new();
        effects.push(Effect::ScanPackages);
        let app = App {
            view: View::Browse,
            previous_view: View::Browse,
            selected: 0,
            scroll_offset: 0,
            filtered,
            installed,
            available,
            packages: PackageMap::new(),
            search_query: String::new(),
            search_mode: false,
            sync_output: Vec::new(),
            sync_repo: None,
            message: None,
            loading,
            packages_ready: false,
            is_root,
            confirm: None,
            spinner_frame: 0,
            pkg_repo: String::new(),
            pkg_list: Vec::new(),
            pkg_list_full: Vec::new(),
            pkg_selected: 0,
            pkg_description: String::new(),
            pkg_use_flags: String::new(),
            pkg_repo_path: String::new(),
            lang,
            clock: 0,
            effects,
        };
        assert(app@.effects =~= seq![EffectView::ScanPackages]);
        assert(app@.sync_output =~= Seq::<Seq<char>>::empty());
        assert(app@.pkg_list =~= Seq::<Seq<char>>::empty());
        app
    }

    /// Record the current clock reading (milliseconds).
    pub fn set_clock(&mut self, now: u64)
        ensures
            final(self)@ == (AppModel { clock: now, ..old(self)@ }),
    {
        self.clock = now;
    }

    /// The outside work requested so far, oldest first; the queue is then empty.
    pub fn take_effects(&mut self) -> (r: Vec<Effect>)
        ensures
            r@.map_values(|e: Effect| e.model()) == old(self)@.effects,
            final(self)@ == (AppModel { effects: Seq::empty(), ..old(self)@ }),
    {
        let mut r: Vec<Effect> = Vec::new();
        std::mem::swap(&mut r, &mut self.effects);
        assert(self@.effects =~= Seq::<EffectView>::empty());
        r
    }

    fn push_effect(&mut self, e: Effect)
        ensures
            final(self)@ == old(self)@.push_effect(e.model()),
    {
        let ghost em = e.model();
        self.effects.push(e);
        assert(self@.effects =~= old(self)@.effects.push(em));
    }

    /// Show a temporary message.
    pub fn show_message(&mut self, text: &str, level: MessageLevel)
        ensures
            final(self)@ == old(self)@.show_message(text@, level),
    {
        self.message = Some(
            Message {
                text: String::from_str(text),
                level,
                expires_at: self.clock.saturating_add(MESSAGE_MILLIS),
            },
        );
    }

    /// Show an error with human-readable text.
    pub fn show_error(&mut self, error: &str)
        ensures
            final(self)@ == old(self)@.show_error(error@),
    {
        let s = strings(self.lang);
        if contains_exec(&to_chars(error), &to_chars("Permission denied")) {
            self.show_message(s.need_root, MessageLevel::Error);
        } else {
            self.show_message(error, MessageLevel::Error);
        }
    }

    /// Current display list (indices into available or installed).
    pub fn current_list(&self) -> (r: &[usize])
        ensures
            r@ == self@.filtered,
    {
        self.filtered.as_slice()
    }

    /// Adjust scroll_offset so selected is visible at the given area height.
    pub fn clamp_scroll(&mut self, visible_height: usize)
        ensures
            final(self)@ == (AppModel {
                scroll_offset: spec_clamp_scroll(
                    old(self)@.selected,
                    old(self)@.scroll_offset,
                    old(self)@.filtered.len(),
                    visible_height,
                ),
                ..old(self)@
            }),
            // the selected entry is on screen
            visible_height > 0 && old(self)@.selected < old(self)@.filtered.len()
                ==> final(self)@.scroll_offset <= old(self)@.selected < final(self)@.scroll_offset
                + visible_height,
            // no empty rows are scrolled into view
            final(self)@.scroll_offset + visible_height <= old(self)@.filtered.len()
                || final(self)@.scroll_offset == 0,
    {
        if visible_height == 0 || self.filtered.len() == 0 {
            self.scroll_offset = 0;
            return;
        }
        if self.selected < self.scroll_offset {
            self.scroll_offset = self.selected;
        } else if self.selected - self.scroll_offset >= visible_height {
            self.scroll_offset = self.selected.saturating_sub(visible_height - 1);
        }
        let max_offset = self.filtered.len().saturating_sub(visible_height);
        if self.scroll_offset > max_offset {
            self.scroll_offset = max_offset;
        }
    }

    /// Selected item from available. Returns None if view is not Browse.
    pub fn selected_remote(&self) -> (r: Option<&RemoteRepo>)
        ensures
            r matches Some(x) ==> self@.view is Browse && self@.selected < self@.filtered.len()
                && self@.filtered[self@.selected as int] < self@.available.len() && x@
                == self@.available[self@.filtered[self@.selected as int] as int],
            r is None ==> !(self@.view is Browse && self@.selected < self@.filtered.len()
                && self@.filtered[self@.selected as int] < self@.available.len()),
    {
        if !self.view.is_browse() {
            return None;
        }
        if self.selected >= self.filtered.len() {
            return None;
        }
        let idx = self.filtered[self.selected];
        if idx >= self.available.len() {
            return None;
        }
        Some(&self.available[idx])
    }

    /// Selected item from installed. Returns None if view is not Installed.
    pub fn selected_installed(&self) -> (r: Option<&Repo>)
        ensures
            r matches Some(x) ==> self@.view is Installed && self@.selected < self@.filtered.len()
                && self@.filtered[self@.selected as int] < self@.installed.len() && x@
                == self@.installed[self@.filtered[self@.selected as int] as int],
            r is None ==> !(self@.view is Installed && self@.selected < self@.filtered.len()
                && self@.filtered[self@.selected as int] < self@.installed.len()),
    {
        if !self.view.is_installed() {
            return None;
        }
        if self.selected >= self.filtered.len() {
            return None;
        }
        let idx = self.filtered[self.selected];
        if idx >= self.installed.len() {
            return None;
        }
        Some(&self.installed[idx])
    }

    fn expire_messages(&mut self)
        ensures
            final(self)@ == old(self)@.expire_messages(),
    {
        let expired = match &self.message {
            Some(msg) => self.clock >= msg.expires_at,
            None => false,
        };
        if expired {
            self.message = None;
        }
    }

    /// Tick — called on each iteration of the event loop, after the
    /// program has delivered the background results.
    pub fn tick(&mut self)
        ensures
            final(self)@ == old(self)@.tick(),
    {
        self.expire_messages();
        self.spinner_frame = if self.spinner_frame == usize::MAX {
            0
        } else {
            self.spinner_frame + 1
        };
    }
}

/// The scroll offset that `clamp_scroll` chooses.
pub open spec fn spec_clamp_scroll(selected: usize, scroll: usize, len: nat, height: usize) -> usize {
    if height == 0 || len == 0 {
        0
    } else {
        let s1: int = if selected < scroll {
            selected as int
        } else if selected - scroll >= height {
            if selected >= height - 1 { selected - (height - 1) } else { 0 }
        } else {
            scroll as int
        };
        let max: int = if len >= height { len - height } else { 0 };
        (if s1 > max { max } else { s1 }) as usize
    }
}

impl App {
    /// The name of entry `i` of the list that `filtered` indexes.
    fn list_name(&self, browse: bool, i: usize) -> (r: &str)
        requires
            browse ==> i < self@.available.len(),
            !browse ==> i < self@.installed.len(),
        ensures
            browse ==> r@ == self@.available[i as int].name,
            !browse ==> r@ == self@.installed[i as int].name,
    {
        if browse {
            self.available[i].name.as_str()
        } else {
            self.installed[i].name.as_str()
        }
    }

    /// Recompute `filtered` from the search query.
    pub fn apply_filter(&mut self)
        ensures
            final(self)@ == old(self)@.apply_filter(),
    {
        let browse = if self.view.is_browse() {
            true
        } else if self.view.is_installed() {
            false
        } else {
            return ;
        };
        let ghost names = self@.list_names();
        let q = lower_chars(self.search_query.as_str());
        let n = if browse {
            self.available.len()
        } else {
            self.installed.len()
        };
        assert(names.len() == n);
        let mut b0: Vec<usize> = Vec::new();
        let mut b1: Vec<usize> = Vec::new();
        let mut b2: Vec<usize> = Vec::new();
        let mut i: usize = 0;
        while i < n
            invariant
                0 <= i <= n,
                names.len() == n,
                names == self@.list_names(),
                browse == (self@.view is Browse),
                browse ==> n == self@.available.len(),
                !browse ==> n == self@.installed.len(),
                q@ == lower_text(self@.search_query),
                b0@ == bucket(names, q@, 0, i as int),
                b1@ == bucket(names, q@, 1, i as int),
                b2@ == bucket(names, q@, 2, i as int),
            decreases n - i,
        {
            let lower = lower_chars(self.list_name(browse, i));
            assert(lower@ == lower_text(names[i as int]));
            if q.len() == 0 || contains_exec(&lower, &q) {
                if chars_eq(&lower, &q) {
                    b0.push(i);
                } else if starts_with_exec(&lower, &q) {
                    b1.push(i);
                } else {
                    b2.push(i);
                }
            }
            i += 1;
        }
        b0.append(&mut b1);
        b0.append(&mut b2);
        self.filtered = b0;
        if self.selected >= self.filtered.len() {
            self.selected = self.filtered.len().saturating_sub(1);
        }
    }

    fn switch_to(&mut self, new_view: View)
        ensures
            final(self)@ == old(self)@.switch_to(new_view.kind()),
    {
        self.previous_view = self.view.duplicate();
        self.view = new_view;
        self.apply_filter();
    }

    fn close(&mut self)
        ensures
            final(self)@ == old(self)@.close(),
    {
        if self.search_mode {
            self.search_mode = false;
            self.search_query = String::new();
            self.apply_filter();
        } else if self.view.is_help() {
            self.view = self.previous_view.duplicate();
        }
    }
}

/// A copy of a list of strings.
pub fn clone_strings(v: &Vec<String>) -> (r: Vec<String>)
    ensures
        r.deep_view() == v.deep_view(),
{
    let mut r: Vec<String> = Vec::new();
    let mut i: usize = 0;
    while i < v.len()
        invariant
            0 <= i <= v.len(),
            r.deep_view() == v.deep_view().subrange(0, i as int),
        decreases v.len() - i,
    {
        let ghost before = r.deep_view();
        r.push(v[i].clone());
        assert(r.deep_view() =~= before.push(v.deep_view()[i as int]));
        i += 1;
        assert(r.deep_view() =~= v.deep_view().subrange(0, i as int));
    }
    assert(v.deep_view().subrange(0, i as int) =~= v.deep_view());
    r
}

pub proof fn lemma_first_installed(installed: Seq<RepoView>, name: Seq<char>, i: int)
    requires
        0 <= i <= installed.len(),
        forall|j: int| 0 <= j < i ==> #[trigger] installed[j].name != name,
    ensures
        i < installed.len() && installed[i].name == name ==> first_installed(installed, name)
            == Some(i),
        i == installed.len() ==> first_installed(installed, name) is None,
    decreases i,
{
    if i > 0 {
        assert forall|j: int| 0 <= j < i - 1 implies #[trigger] installed.drop_first()[j].name != name by {
            assert(installed.drop_first()[j] == installed[j + 1]);
        }
        lemma_first_installed(installed.drop_first(), name, i - 1);
    }
}

impl App {
    /// The first installed overlay named `name`.
    fn installed_position(&self, name: &str) -> (r: Option<usize>)
        ensures
            r matches Some(i) ==> i < self@.installed.len() && first_installed(self@.installed, name@) == Some(i as int),
            r is None ==> first_installed(self@.installed, name@) is None,
    {
        let mut i: usize = 0;
        while i < self.installed.len()
            invariant
                0 <= i <= self.installed.len(),
                forall|j: int| 0 <= j < i ==> #[trigger] self@.installed[j].name != name@,
            decreases self.installed.len() - i,
        {
            if str_eq(self.installed[i].name.as_str(), name) {
                proof {
                    lemma_first_installed(self@.installed, name@, i as int);
                }
                return Some(i);
            }
            i += 1;
        }
        proof {
            lemma_first_installed(self@.installed, name@, i as int);
        }
        None
    }

    /// Whether an installed overlay is named `name`.
    fn has_installed(&self, name: &str) -> (r: bool)
        ensures
            r == has_installed(self@.installed, name@),
    {
        let mut i: usize = 0;
        while i < self.installed.len()
            invariant
                0 <= i <= self.installed.len(),
                forall|j: int| 0 <= j < i ==> #[trigger] self@.installed[j].name != name@,
            decreases self.installed.len() - i,
        {
            if str_eq(self.installed[i].name.as_str(), name) {
                assert(self@.installed[i as int].name == name@);
                return true;
            }
            i += 1;
        }
        false
    }

    fn load_pkg_description(&mut self)
        ensures
            final(self)@ == old(self)@.load_pkg_description(),
    {
        if self.pkg_list.len() == 0 || self.pkg_repo_path.unicode_len() == 0 || self.pkg_selected
            >= self.pkg_list.len() {
            self.pkg_description = String::new();
            self.pkg_use_flags = String::new();
            return ;
        }
        let e = Effect::LoadPackageDetails {
            location: self.pkg_repo_path.clone(),
            package: self.pkg_list[self.pkg_selected].clone(),
        };
        self.push_effect(e);
    }

    /// Deliver the description and USE flags of the selected package.
    pub fn set_package_details(&mut self, description: String, use_flags: String)
        ensures
            final(self)@ == (AppModel {
                pkg_description: description@,
                pkg_use_flags: use_flags@,
                ..old(self)@
            }),
    {
        self.pkg_description = description;
        self.pkg_use_flags = use_flags;
    }

    fn show_package_list(&mut self)
        ensures
            final(self)@ == old(self)@.show_package_list(),
    {
        self.pkg_selected = 0;
        self.pkg_description = String::new();
        self.previous_view = self.view.duplicate();
        self.view = View::Packages(self.pkg_repo.clone());
        self.load_pkg_description();
    }

    fn open_packages(&mut self)
        ensures
            final(self)@ == old(self)@.open_packages(),
    {
        self.search_mode = false;
        self.search_query = String::new();
        if self.selected >= self.filtered.len() {
            return ;
        }
        let idx = self.filtered[self.selected];
        let repo_name = if self.view.is_browse() && idx < self.available.len() {
            self.available[idx].name.clone()
        } else if self.view.is_installed() && idx < self.installed.len() {
            self.installed[idx].name.clone()
        } else {
            return ;
        };
        match self.installed_position(repo_name.as_str()) {
            Some(i) => {
                let location = self.installed[i].location.clone();
                self.push_effect(Effect::ScanOverlay { name: repo_name, location });
            },
            None => {
                let s = strings(self.lang);
                self.pkg_repo = repo_name;
                let mut hint: Vec<String> = Vec::new();
                hint.push(String::from_str(s.installed_no));
                hint.push(String::new());
                hint.push(String::from_str(s.not_installed_hint));
                assert(hint.deep_view() =~= not_installed_hint(self.lang));
                self.pkg_list = clone_strings(&hint);
                self.pkg_list_full = hint;
                self.show_package_list();
            },
        }
    }

    /// Deliver the packages of an installed overlay that
    /// [`Effect::ScanOverlay`] asked for, and show them.
    pub fn packages_scanned(&mut self, name: String, location: String, pkgs: Vec<String>)
        ensures
            final(self)@ == old(self)@.packages_scanned(name@, location@, pkgs.deep_view()),
    {
        self.pkg_repo = name;
        self.pkg_repo_path = location;
        self.pkg_list = clone_strings(&pkgs);
        self.pkg_list_full = pkgs;
        self.show_package_list();
    }

    /// Apply the search filter to the package list.
    fn apply_pkg_filter(&mut self)
        ensures
            final(self)@ == old(self)@.apply_pkg_filter(),
    {
        let q = lower_chars(self.search_query.as_str());
        if q.len() == 0 {
            self.pkg_list = clone_strings(&self.pkg_list_full);
        } else {
            let mut list: Vec<String> = Vec::new();
            let mut i: usize = 0;
            while i < self.pkg_list_full.len()
                invariant
                    0 <= i <= self.pkg_list_full.len(),
                    q@ == lower_text(self@.search_query),
                    list.deep_view() == package_filter(
                        self@.pkg_list_full.subrange(0, i as int),
                        q@,
                    ),
                decreases self.pkg_list_full.len() - i,
            {
                let ghost full = self@.pkg_list_full;
                assert(full.subrange(0, i + 1).drop_last() =~= full.subrange(0, i as int));
                let lower = lower_chars(self.pkg_list_full[i].as_str());
                if contains_exec(&lower, &q) {
                    let ghost before = list.deep_view();
                    list.push(self.pkg_list_full[i].clone());
                    assert(list.deep_view() =~= before.push(full[i as int]));
                }
                i += 1;
            }
            assert(self@.pkg_list_full.subrange(0, i as int) =~= self@.pkg_list_full);
            self.pkg_list = list;
        }
        if self.pkg_selected >= self.pkg_list.len() {
            self.pkg_selected = self.pkg_list.len().saturating_sub(1);
        }
        self.load_pkg_description();
    }
}

impl App {
    fn start_sync(&mut self, name: String)
        ensures
            final(self)@ == old(self)@.start_sync(name@),
    {
        self.sync_output = Vec::new();
        self.sync_repo = Some(name.clone());
        self.push_effect(Effect::StartSync(name));
        self.view = View::Syncing;
        assert(self@.sync_output =~= Seq::<Seq<char>>::empty());
    }

    /// The configuration entry that installing `repo` appends, or the
    /// error text that prevents it.
    fn install_plan(&self, repo: &RemoteRepo) -> (r: Result<Repo, String>)
        ensures
            r matches Ok(x) ==> install_plan(self@.installed, repo@, self@.lang) == Ok::<RepoView, Seq<char>>(x@),
            r matches Err(e) ==> install_plan(self@.installed, repo@, self@.lang) == Err::<RepoView, Seq<char>>(e@),
    {
        let s = strings(self.lang);
        if self.has_installed(repo.name.as_str()) {
            return Err(s.already_installed(repo.name.as_str()));
        }
        let mut i: usize = 0;
        while i < repo.sources.len()
            invariant
                0 <= i <= repo.sources.len(),
                !has_installed(self@.installed, repo@.name),
                forall|j: int| 0 <= j < i ==> !(#[trigger] repo@.sources[j].0 is Git),
            decreases repo.sources.len() - i,
        {
            if repo.sources[i].0.is_git() {
                proof {
                    crate::types::lemma_first_git_url(repo@.sources, i as int);
                }
                let mut location = String::from_str("/var/db/repos/");
                location.append(repo.name.as_str());
                return Ok(
                    Repo {
                        name: repo.name.clone(),
                        location,
                        sync_type: SyncType::Git,
                        sync_uri: repo.sources[i].1.clone(),
                        auto_sync: true,
                        priority: Some(50),
                    },
                );
            }
            i += 1;
        }
        proof {
            crate::types::lemma_first_git_url(repo@.sources, i as int);
        }
        Err(String::from_str(s.no_git_source))
    }

    fn add_or_sync(&mut self)
        ensures
            final(self)@ == old(self)@.add_or_sync(),
    {
        if self.selected >= self.filtered.len() {
            return ;
        }
        let idx = self.filtered[self.selected];
        let s = strings(self.lang);
        if self.view.is_browse() && idx < self.available.len() {
            if !self.is_root {
                self.show_message(s.need_root, MessageLevel::Error);
                return ;
            }
            let name = self.available[idx].name.clone();
            if !self.has_installed(name.as_str()) {
                match self.install_plan(&self.available[idx]) {
                    Err(e) => self.show_error(e.as_str()),
                    Ok(r) => self.push_effect(Effect::Install(r)),
                }
            } else {
                self.start_sync(name);
            }
        } else if self.view.is_installed() && idx < self.installed.len() {
            if !self.is_root {
                self.show_message(s.need_root, MessageLevel::Error);
                return ;
            }
            let name = self.installed[idx].name.clone();
            self.start_sync(name);
        }
    }

    /// Deliver the outcome of appending `repo` to repos.conf: `None` when it
    /// was written, else the error text. On success the overlay is synced.
    pub fn install_finished(&mut self, repo: Repo, error: Option<String>)
        ensures
            final(self)@ == old(self)@.install_finished(repo@, error.deep_view()),
    {
        match error {
            Some(e) => self.show_error(e.as_str()),
            None => {
                let s = strings(self.lang);
                let name = repo.name.clone();
                let ghost rv = repo@;
                self.installed.push(repo);
                assert(self@.installed =~= old(self)@.installed.push(rv));
                let text = s.sync_added(name.as_str());
                self.show_message(text.as_str(), MessageLevel::Info);
                self.start_sync(name);
            },
        }
    }

    fn sync_all(&mut self)
        ensures
            final(self)@ == old(self)@.sync_all(),
    {
        if !self.is_root {
            self.show_message(strings(self.lang).need_root, MessageLevel::Error);
            return ;
        }
        self.sync_output = Vec::new();
        self.sync_repo = Some(String::from_str("all"));
        self.push_effect(Effect::StartSyncAll);
        self.view = View::Syncing;
        assert(self@.sync_output =~= Seq::<Seq<char>>::empty());
    }

    fn remove_repo(&mut self)
        ensures
            final(self)@ == old(self)@.remove_repo(),
    {
        if !self.view.is_installed() {
            return ;
        }
        if self.selected >= self.filtered.len() {
            return ;
        }
        let idx = self.filtered[self.selected];
        if idx >= self.installed.len() {
            return ;
        }
        let name = self.installed[idx].name.clone();
        self.confirm = Some(ConfirmAction { repo_name: name });
        self.view = View::Confirm;
    }

    fn do_remove(&mut self, name: String)
        ensures
            final(self)@ == old(self)@.do_remove(name@),
    {
        self.view = View::Installed;
        if !self.is_root {
            self.show_message(strings(self.lang).need_root, MessageLevel::Error);
            return ;
        }
        self.push_effect(Effect::Remove(name));
    }

    fn retain_other_names(&mut self, name: &str)
        ensures
            final(self)@ == (AppModel { installed: without_name(old(self)@.installed, name@), ..old(self)@ }),
    {
        let mut kept: Vec<Repo> = Vec::new();
        let mut i: usize = 0;
        while i < self.installed.len()
            invariant
                0 <= i <= self.installed.len(),
                kept.deep_view() == without_name(self@.installed.subrange(0, i as int), name@),
            decreases self.installed.len() - i,
        {
            let ghost all = self@.installed;
            assert(all.subrange(0, i + 1).drop_last() =~= all.subrange(0, i as int));
            if !str_eq(self.installed[i].name.as_str(), name) {
                let ghost before = kept.deep_view();
                kept.push(self.installed[i].duplicate());
                assert(kept.deep_view() =~= before.push(all[i as int]));
            }
            i += 1;
        }
        assert(self@.installed.subrange(0, i as int) =~= self@.installed);
        self.installed = kept;
    }

    /// Deliver what removing overlay `name` gave.
    pub fn remove_finished(&mut self, name: String, outcome: RemoveOutcome)
        ensures
            final(self)@ == old(self)@.remove_finished(name@, outcome),
    {
        let s = strings(self.lang);
        match outcome {
            RemoveOutcome::RemovedWithFiles => {
                self.retain_other_names(name.as_str());
                let t = s.removed_with_files(name.as_str());
                self.show_message(t.as_str(), MessageLevel::Success);
                self.switch_to(View::Installed);
            },
            RemoveOutcome::RemovedNoFiles => {
                self.retain_other_names(name.as_str());
                let t = s.removed_no_files(name.as_str());
                self.show_message(t.as_str(), MessageLevel::Success);
                self.switch_to(View::Installed);
            },
            RemoveOutcome::RemovedPurgeFailed(e) => {
                self.retain_other_names(name.as_str());
                self.show_error(e.as_str());
                self.switch_to(View::Installed);
            },
            RemoveOutcome::NotFound => {
                self.show_message(s.not_found_in_config, MessageLevel::Info);
            },
            RemoveOutcome::Failed(e) => {
                self.show_error(e.as_str());
            },
        }
    }

    fn refresh_cache(&mut self)
        ensures
            final(self)@ == old(self)@.refresh_cache(),
    {
        self.push_effect(Effect::RefreshCache);
        self.loading = true;
        self.show_message(strings(self.lang).cache_updating, MessageLevel::Info);
    }

    /// Start the background cache rebuild when no overlay list is loaded.
    pub fn start_background_cache(&mut self)
        ensures
            final(self)@ == (if old(self)@.loading {
                old(self)@.push_effect(EffectView::RefreshCache)
            } else {
                old(self)@
            }),
    {
        if !self.loading {
            return ;
        }
        self.push_effect(Effect::RefreshCache);
    }

    /// Deliver the result of the background cache rebuild.
    pub fn on_cache_result(&mut self, result: CacheResult)
        ensures
            final(self)@ == old(self)@.on_cache_result(result),
    {
        let s = strings(self.lang);
        match result {
            CacheResult::Loaded(repos) => {
                let n = repos.len();
                self.available = repos;
                self.loading = false;
                if self.view.is_browse() {
                    self.apply_filter();
                }
                let t = s.cache_loaded(n);
                self.show_message(t.as_str(), MessageLevel::Success);
            },
            CacheResult::Failed(e) => {
                self.loading = false;
                let t = s.cache_error(e.as_str());
                self.show_message(t.as_str(), MessageLevel::Error);
            },
            CacheResult::Disconnected => {
                self.loading = false;
            },
        }
    }

    /// Deliver the installed-package scan: `None` when it ended without
    /// an answer.
    pub fn on_packages_scanned(&mut self, result: Option<PackageMap>)
        ensures
            final(self)@ == (AppModel {
                packages: match result {
                    Some(m) => m.view(),
                    None => old(self)@.packages,
                },
                packages_ready: true,
                ..old(self)@
            }),
    {
        match result {
            Some(map) => {
                self.packages = map;
                self.packages_ready = true;
            },
            None => {
                self.packages_ready = true;
            },
        }
    }

    /// Deliver one event of the running sync; `true` when the sync is over.
    pub fn on_sync_event(&mut self, event: SyncEvent) -> (finished: bool)
        ensures
            final(self)@ == old(self)@.on_sync_event(event),
            finished == (event is Finished),
    {
        let s = strings(self.lang);
        match event {
            SyncEvent::Started(name) => {
                let ghost before = self@.sync_output;
                let t = s.sync_start(name.as_str());
                let ghost tv = t@;
                self.sync_output.push(t);
                assert(self@.sync_output =~= before.push(tv));
                false
            },
            SyncEvent::Output(line) => {
                let ghost before = self@.sync_output;
                let ghost lv = line@;
                self.sync_output.push(line);
                assert(self@.sync_output =~= before.push(lv));
                false
            },
            SyncEvent::Finished(Ok(())) => {
                let ghost before = self@.sync_output;
                self.sync_output.push(String::from_str(s.sync_done));
                assert(self@.sync_output =~= before.push(spec_strings(self@.lang).sync_done@));
                self.show_message(s.sync_finished, MessageLevel::Success);
                self.view = View::Browse;
                self.apply_filter();
                true
            },
            SyncEvent::Finished(Err(e)) => {
                let ghost before = self@.sync_output;
                let mut line = String::from_str(s.sync_error);
                line.append(" ");
                line.append(e.as_str());
                let ghost lv = line@;
                self.sync_output.push(line);
                assert(self@.sync_output =~= before.push(lv));
                let t = s.sync_failed(e.as_str());
                self.show_message(t.as_str(), MessageLevel::Error);
                self.view = View::Browse;
                self.apply_filter();
                true
            },
        }
    }
}

impl App {
    fn handle_packages(&mut self, action: Action)
        ensures
            final(self)@ == old(self)@.handle_packages(action),
    {
        if self.search_mode {
            match action {
                Action::SearchChar(c) => {
                    string_push(&mut self.search_query, c);
                    self.apply_pkg_filter();
                },
                Action::SearchBackspace => {
                    string_pop(&mut self.search_query);
                    self.apply_pkg_filter();
                },
                Action::Close => {
                    self.search_mode = false;
                    self.search_query = String::new();
                    self.apply_pkg_filter();
                },
                Action::MoveUp => {
                    self.pkg_selected = self.pkg_selected.saturating_sub(1);
                    self.load_pkg_description();
                },
                Action::MoveDown => {
                    if self.pkg_selected < self.pkg_list.len() && self.pkg_selected
                        < self.pkg_list.len() - 1 {
                        self.pkg_selected += 1;
                        self.load_pkg_description();
                    }
                },
                Action::Quit => {
                    self.search_mode = false;
                    self.search_query = String::new();
                    self.view = self.previous_view.duplicate();
                },
                _ => {},
            }
            return ;
        }
        match action {
            Action::MoveUp => {
                self.pkg_selected = self.pkg_selected.saturating_sub(1);
                self.load_pkg_description();
            },
            Action::MoveDown => {
                if self.pkg_selected < self.pkg_list.len() && self.pkg_selected < self.pkg_list.len()
                    - 1 {
                    self.pkg_selected += 1;
                    self.load_pkg_description();
                }
            },
            Action::MoveTop => {
                self.pkg_selected = 0;
                self.load_pkg_description();
            },
            Action::MoveBottom => {
                if self.pkg_list.len() > 0 {
                    self.pkg_selected = self.pkg_list.len() - 1;
                    self.load_pkg_description();
                }
            },
            Action::SearchStart => {
                self.search_mode = true;
                self.search_query = String::new();
            },
            Action::Close | Action::Quit => {
                self.search_mode = false;
                self.search_query = String::new();
                self.view = self.previous_view.duplicate();
            },
            _ => {},
        }
    }

    fn handle_lists(&mut self, action: Action)
        ensures
            final(self)@ == old(self)@.handle_lists(action),
    {
        match action {
            Action::MoveUp => {
                self.selected = self.selected.saturating_sub(1);
            },
            Action::MoveDown => {
                if self.filtered.len() > 0 && self.selected < self.filtered.len() - 1 {
                    self.selected += 1;
                }
            },
            Action::MoveTop => self.selected = 0,
            Action::MoveBottom => {
                let len = self.filtered.len();
                if len > 0 {
                    self.selected = len - 1;
                }
            },
            Action::Close => self.close(),
            Action::OpenPackages => self.open_packages(),
            Action::AddOrSync => self.add_or_sync(),
            Action::SyncAll => self.sync_all(),
            Action::RemoveRepo => self.remove_repo(),
            Action::TabBrowse => self.switch_to(View::Browse),
            Action::TabInstalled => self.switch_to(View::Installed),
            Action::SearchStart => {
                if self.view.is_browse() || self.view.is_installed() || self.view.is_packages() {
                    self.search_mode = true;
                    self.search_query = String::new();
                }
            },
            Action::SearchChar(c) => {
                if self.search_mode {
                    string_push(&mut self.search_query, c);
                    self.apply_filter();
                }
            },
            Action::SearchBackspace => {
                if self.search_mode {
                    string_pop(&mut self.search_query);
                    self.apply_filter();
                }
            },
            Action::RefreshCache => self.refresh_cache(),
            Action::ToggleHelp => {
                if self.view.is_help() {
                    self.view = self.previous_view.duplicate();
                } else {
                    self.previous_view = self.view.duplicate();
                    self.view = View::Help;
                }
            },
            _ => {},
        }
    }

    /// Handle an action and return `true` if the app should continue.
    pub fn handle(&mut self, action: Action) -> (r: bool)
        requires
            old(self)@.handle_allowed(action),
        ensures
            (final(self)@, r) == old(self)@.handle(action),
    {
        if self.view.is_syncing() {
            if action == Action::Quit {
                return false;
            }
            self.push_effect(Effect::PollSync);
            return true;
        }
        if self.view.is_confirm() {
            match action {
                Action::ConfirmYes => {
                    let confirm = self.confirm.take();
                    match confirm {
                        Some(c) => self.do_remove(c.repo_name),
                        None => {},
                    }
                },
                Action::Close | Action::Quit => {
                    self.confirm = None;
                    self.view = View::Installed;
                },
                _ => {},
            }
            return true;
        }
        if self.view.is_packages() {
            self.handle_packages(action);
            return true;
        }
        if action == Action::Quit {
            return false;
        }
        self.handle_lists(action);
        true
    }
}

// ───────────────────────── laws ─────────────────────────

proof fn lemma_bucket(names: Seq<Seq<char>>, q: Seq<char>, k: int, upto: int)
    requires
        0 <= upto <= names.len(),
        names.len() <= usize::MAX,
    ensures
        forall|j: int| 0 <= j < bucket(names, q, k, upto).len() ==> {
            let i = #[trigger] bucket(names, q, k, upto)[j];
            &&& i < upto
            &&& matches_query(names[i as int], q)
            &&& rank(names[i as int], q) == k
        },
        forall|a: int, b: int|
            0 <= a < b < bucket(names, q, k, upto).len() ==> #[trigger] bucket(names, q, k, upto)[a]
                < #[trigger] bucket(names, q, k, upto)[b],
        forall|i: int|
            0 <= i < upto && matches_query(#[trigger] names[i], q) && rank(names[i], q) == k
                ==> bucket(names, q, k, upto).contains(i as usize),
    decreases upto,
{
    if upto > 0 {
        lemma_bucket(names, q, k, upto - 1);
        let prev = bucket(names, q, k, upto - 1);
        let cur = bucket(names, q, k, upto);
        if matches_query(names[upto - 1], q) && rank(names[upto - 1], q) == k {
            assert(cur == prev.push((upto - 1) as usize));
            assert forall|j: int| 0 <= j < cur.len() implies ({
                let i = #[trigger] cur[j];
                &&& i < upto
                &&& matches_query(names[i as int], q)
                &&& rank(names[i as int], q) == k
            }) by {
                if j < prev.len() {
                    assert(cur[j] == prev[j]);
                }
            }
            assert forall|a: int, b: int| 0 <= a < b < cur.len() implies #[trigger] cur[a]
                < #[trigger] cur[b] by {
                assert(cur[a] == prev[a]);
                if b < prev.len() {
                    assert(cur[b] == prev[b]);
                }
            }
        } else {
            assert(cur == prev);
        }
        assert forall|i: int|
            0 <= i < upto && matches_query(#[trigger] names[i], q) && rank(names[i], q) == k
                implies cur.contains(i as usize) by {
            if i < upto - 1 {
                let j = choose|j: int| 0 <= j < prev.len() && prev[j] == i as usize;
                assert(cur[j] == i as usize);
            } else {
                assert(cur[cur.len() - 1] == i as usize);
            }
        }
    }
}

/// Search results: an entry is listed exactly when it matches the query,
/// no entry is listed twice, and exact matches come before prefix
/// matches, which come before the other matches.
pub proof fn law_filter_order(names: Seq<Seq<char>>, q: Seq<char>)
    requires
        names.len() <= usize::MAX,
    ensures
        forall|j: int| 0 <= j < filter_order(names, q).len() ==> {
            let i = #[trigger] filter_order(names, q)[j];
            i < names.len() && matches_query(names[i as int], q)
        },
        forall|i: int|
            0 <= i < names.len() && matches_query(#[trigger] names[i], q) ==> filter_order(
                names,
                q,
            ).contains(i as usize),
        forall|a: int, b: int|
            0 <= a < b < filter_order(names, q).len() ==> #[trigger] filter_order(names, q)[a]
                != #[trigger] filter_order(names, q)[b],
        forall|a: int, b: int|
            0 <= a < b < filter_order(names, q).len() ==> rank(
                names[#[trigger] filter_order(names, q)[a] as int],
                q,
            ) <= rank(names[#[trigger] filter_order(names, q)[b] as int], q),
{
    let n = names.len() as int;
    let b0 = bucket(names, q, 0, n);
    let b1 = bucket(names, q, 1, n);
    let b2 = bucket(names, q, 2, n);
    lemma_bucket(names, q, 0, n);
    lemma_bucket(names, q, 1, n);
    lemma_bucket(names, q, 2, n);
    let f = filter_order(names, q);
    assert(f == b0 + b1 + b2);
    assert forall|j: int| 0 <= j < f.len() implies ({
        let i = #[trigger] f[j];
        i < names.len() && matches_query(names[i as int], q) && rank(names[i as int], q) == (if j
            < b0.len() {
            0int
        } else if j < b0.len() + b1.len() {
            1int
        } else {
            2int
        })
    }) by {
        if j < b0.len() {
            assert(f[j] == b0[j]);
        } else if j < b0.len() + b1.len() {
            assert(f[j] == b1[j - b0.len()]);
        } else {
            assert(f[j] == b2[j - b0.len() - b1.len()]);
        }
    }
    assert forall|i: int| 0 <= i < names.len() && matches_query(#[trigger] names[i], q) implies f.contains(
        i as usize,
    ) by {
        let r = rank(names[i], q);
        if r == 0 {
            let j = choose|j: int| 0 <= j < b0.len() && b0[j] == i as usize;
            assert(f[j] == i as usize);
        } else if r == 1 {
            let j = choose|j: int| 0 <= j < b1.len() && b1[j] == i as usize;
            assert(f[b0.len() + j] == i as usize);
        } else {
            let j = choose|j: int| 0 <= j < b2.len() && b2[j] == i as usize;
            assert(f[b0.len() + b1.len() + j] == i as usize);
        }
    }
    assert forall|a: int, b: int| 0 <= a < b < f.len() implies #[trigger] f[a] != #[trigger] f[b] by {
        if a < b0.len() && b < b0.len() {
            assert(f[a] == b0[a] && f[b] == b0[b]);
        } else if b0.len() <= a < b0.len() + b1.len() && b0.len() <= b < b0.len() + b1.len() {
            assert(f[a] == b1[a - b0.len()] && f[b] == b1[b - b0.len()]);
        } else if a >= b0.len() + b1.len() {
            assert(f[a] == b2[a - b0.len() - b1.len()] && f[b] == b2[b - b0.len() - b1.len()]);
        }
    }
}

/// Whether the selection lies within the list (0 for an empty list).
pub open spec fn selection_in_range(m: AppModel) -> bool {
    m.selected < m.filtered.len() || (m.filtered.len() == 0 && m.selected == 0)
}

/// Filtering leaves the selection within the new list.
pub proof fn law_filter_keeps_selection(m: AppModel)
    requires
        m.view is Browse || m.view is Installed,
    ensures
        selection_in_range(m.apply_filter()),
{
}

/// Moving through the Browse or Installed list never leaves it.
pub proof fn law_navigation_keeps_selection(m: AppModel, a: Action)
    requires
        m.view is Browse || m.view is Installed,
        a is MoveUp || a is MoveDown || a is MoveTop || a is MoveBottom,
        selection_in_range(m),
    ensures
        selection_in_range(m.handle(a).0),
        m.handle(a).0.filtered == m.filtered,
        m.handle(a).1,
{
}

/// Opening Help and closing it again brings back the view that was shown.
pub proof fn law_help_toggle_returns(m: AppModel)
    requires
        m.view is Browse || m.view is Installed,
    ensures
        m.handle(Action::ToggleHelp).0.view is Help,
        m.handle(Action::ToggleHelp).0.handle(Action::ToggleHelp).0 == (AppModel {
            previous_view: m.view,
            ..m
        }),
{
}

/// The application stops exactly on Quit outside the confirmation and
/// package views.
pub proof fn law_quit_stops(m: AppModel, a: Action)
    requires
        m.handle_allowed(a),
    ensures
        !m.handle(a).1 <==> (a is Quit && !(m.view is Confirm) && !(m.view is Packages)),
{
}

/// A finished sync always returns to the Browse view.
pub proof fn law_sync_finish_returns_to_browse(m: AppModel, result: Result<(), String>)
    ensures
        m.on_sync_event(SyncEvent::Finished(result)).view is Browse,
        m.on_sync_event(SyncEvent::Finished(result)).sync_output.len() == m.sync_output.len() + 1,
{
}

/// A message is gone at the first tick whose clock reading reaches its
/// expiry, and stays before.
pub proof fn law_message_expiry(m: AppModel)
    requires
        m.message is Some,
    ensures
        m.clock >= m.message->0.expires_at ==> m.tick().message is None,
        m.clock < m.message->0.expires_at ==> m.tick().message == m.message,
{
}

/// Switching between the Browse and Installed tabs shows the chosen tab,
/// remembers the one it came from, and keeps the selection wherever it
/// still lies within the new list.
pub proof fn law_tab_switch_keeps_selection(m: AppModel, a: Action)
    requires
        m.view is Browse || m.view is Installed,
        a is TabBrowse || a is TabInstalled,
    ensures
        m.handle(a).1,
        a is TabBrowse ==> m.handle(a).0.view is Browse,
        a is TabInstalled ==> m.handle(a).0.view is Installed,
        m.handle(a).0.previous_view == m.view,
        m.selected < m.handle(a).0.filtered.len() ==> m.handle(a).0.selected == m.selected,
        selection_in_range(m.handle(a).0),
{
}

/// An overlay is removed only after the user confirmed it: a key action
/// keeps the effects already requested and adds new ones after them, and
/// it requests a removal only as the answer `y` in the confirmation view,
/// for the overlay that the view asked about.
pub proof fn law_remove_needs_confirmation(m: AppModel, a: Action)
    requires
        m.handle_allowed(a),
    ensures
        m.effects.len() <= m.handle(a).0.effects.len(),
        forall|i: int| 0 <= i < m.effects.len() ==> #[trigger] m.handle(a).0.effects[i] == m.effects[i],
        forall|i: int|
            m.effects.len() <= i < m.handle(a).0.effects.len() && (#[trigger] m.handle(
                a,
            ).0.effects[i]) is Remove ==> m.view is Confirm && a is ConfirmYes
                && m.confirm == Some(m.handle(a).0.effects[i]->Remove_0),
{
}

/// Without write access to repos.conf no key action asks to install,
/// sync or remove an overlay.
pub proof fn law_no_writes_without_root(m: AppModel, a: Action)
    requires
        m.handle_allowed(a),
        !m.is_root,
    ensures
        forall|i: int|
            m.effects.len() <= i < m.handle(a).0.effects.len() ==> {
                let e = #[trigger] m.handle(a).0.effects[i];
                !(e is Install || e is StartSync || e is StartSyncAll || e is Remove)
            },
{
}

/// The indices of `filtered` point into the list that the view shows,
/// and the selection lies within `filtered`.
pub open spec fn lists_consistent(m: AppModel) -> bool {
    &&& forall|j: int|
        0 <= j < m.filtered.len() ==> #[trigger] m.filtered[j] < (if m.view is Browse {
            m.available.len()
        } else {
            m.installed.len()
        })
    &&& selection_in_range(m)
}

/// Filtering the Browse or Installed list makes the lists consistent.
proof fn lemma_apply_filter_consistent(m: AppModel)
    requires
        m.view is Browse || m.view is Installed,
        m.available.len() <= usize::MAX,
        m.installed.len() <= usize::MAX,
    ensures
        lists_consistent(m.apply_filter()),
{
    let names = m.list_names();
    let q = lower_text(m.search_query);
    law_filter_order(names, q);
    law_filter_keeps_selection(m);
    let f = m.apply_filter();
    assert forall|j: int| 0 <= j < f.filtered.len() implies #[trigger] f.filtered[j] < (if f.view
        is Browse {
        f.available.len()
    } else {
        f.installed.len()
    }) by {
        assert(f.filtered == filter_order(names, q));
    }
}

/// Moving, switching tabs and typing a search keep the lists of the
/// application consistent: the filtered indices point into the list that
/// is shown and the selection lies within them, and the application goes
/// on in the Browse or Installed view.
pub proof fn law_handle_keeps_lists(app: &App, a: Action)
    requires
        app@.view is Browse || app@.view is Installed,
        lists_consistent(app@),
        a is MoveUp || a is MoveDown || a is MoveTop || a is MoveBottom || a is TabBrowse
            || a is TabInstalled || a is SearchChar || a is SearchBackspace,
    ensures
        app@.handle(a).1,
        app@.handle(a).0.view is Browse || app@.handle(a).0.view is Installed,
        lists_consistent(app@.handle(a).0),
{
    let m = app@;
    assert(m.available.len() == app.available.len());
    assert(m.installed.len() == app.installed.len());
    if a is MoveUp || a is MoveDown || a is MoveTop || a is MoveBottom {
        law_navigation_keeps_selection(m, a);
    } else if a is TabBrowse {
        lemma_apply_filter_consistent(AppModel { previous_view: m.view, view: ViewKind::Browse, ..m });
    } else if a is TabInstalled {
        lemma_apply_filter_consistent(
            AppModel { previous_view: m.view, view: ViewKind::Installed, ..m },
        );
    } else if m.search_mode {
        match a {
            Action::SearchChar(c) => {
                lemma_apply_filter_consistent(
                    AppModel { search_query: m.search_query.push(c), ..m },
                );
            },
            _ => {
                lemma_apply_filter_consistent(
                    AppModel {
                        search_query: if m.search_query.len() > 0 {
                            m.search_query.drop_last()
                        } else {
                            m.search_query
                        },
                        ..m
                    },
                );
            },
        }
    }
}

/// When a sync finishes, the Browse list that is shown again is filtered
/// anew: its indices point into the available overlays and the
/// selection lies within them.
pub proof fn law_sync_finish_filters_browse(app: &App, result: Result<(), String>)
    ensures
        app@.on_sync_event(SyncEvent::Finished(result)).view is Browse,
        lists_consistent(app@.on_sync_event(SyncEvent::Finished(result))),
{
    let m = app@;
    assert(m.available.len() == app.available.len());
    assert(m.installed.len() == app.installed.len());
    let s = spec_strings(m.lang);
    match result {
        Ok(()) => {
            lemma_apply_filter_consistent(
                AppModel {
                    view: ViewKind::Browse,
                    ..AppModel { sync_output: m.sync_output.push(s.sync_done@), ..m }.show_message(
                        s.sync_finished@,
                        MessageLevel::Success,
                    )
                },
            );
        },
        Err(e) => {
            lemma_apply_filter_consistent(
                AppModel {
                    view: ViewKind::Browse,
                    ..AppModel {
                        sync_output: m.sync_output.push(s.sync_error@ + " "@ + e@),
                        ..m
                    }.show_message(text_sync_failed(m.lang, e@), MessageLevel::Error)
                },
            );
        },
    }
}

/// Every text contains the empty query.
proof fn lemma_contains_empty(s: Seq<char>)
    ensures
        contains(s, Seq::empty()),
{
    assert(s.subrange(0, 0) =~= Seq::<char>::empty());
    assert(crate::text::occurs_at(s, Seq::empty(), 0));
}

/// The packages that the search keeps of `full` are packages of `full`
/// whose lowercase names contain `q`, and every such package is kept.
proof fn lemma_package_filter(full: Seq<Seq<char>>, q: Seq<char>)
    ensures
        forall|i: int|
            0 <= i < package_filter(full, q).len() ==> full.contains(
                #[trigger] package_filter(full, q)[i],
            ) && contains(lower_text(package_filter(full, q)[i]), q),
        forall|i: int|
            0 <= i < full.len() && contains(lower_text(#[trigger] full[i]), q) ==> package_filter(
                full,
                q,
            ).contains(full[i]),
        package_filter(full, q).len() <= full.len(),
    decreases full.len(),
{
    if full.len() > 0 {
        let prev = full.drop_last();
        lemma_package_filter(prev, q);
        let r = package_filter(full, q);
        let rp = package_filter(prev, q);
        assert forall|i: int| 0 <= i < r.len() implies full.contains(#[trigger] r[i]) && contains(
            lower_text(r[i]),
            q,
        ) by {
            if i < rp.len() {
                assert(r[i] == rp[i]);
                let j = choose|j: int| 0 <= j < prev.len() && prev[j] == rp[i];
                assert(full[j] == prev[j]);
            } else {
                assert(r[i] == full.last());
                assert(full[full.len() - 1] == full.last());
            }
        }
        assert forall|i: int| 0 <= i < full.len() && contains(lower_text(#[trigger] full[i]), q)
            implies r.contains(full[i]) by {
            if i < full.len() - 1 {
                assert(full[i] == prev[i]);
                let j = choose|j: int| 0 <= j < rp.len() && rp[j] == prev[i];
                assert(r[j] == rp[j]);
            } else {
                assert(r[r.len() - 1] == full.last());
            }
        }
    }
}

/// The package search is case-insensitive: a package of the overlay is
/// listed exactly when its lowercase name contains the lowercased query,
/// and only packages of the overlay are listed. With an empty query every
/// package is listed.
pub proof fn law_package_search(m: AppModel)
    ensures
        forall|i: int|
            0 <= i < m.apply_pkg_filter().pkg_list.len() ==> m.pkg_list_full.contains(
                #[trigger] m.apply_pkg_filter().pkg_list[i],
            ) && contains(
                lower_text(m.apply_pkg_filter().pkg_list[i]),
                lower_text(m.search_query),
            ),
        forall|i: int|
            0 <= i < m.pkg_list_full.len() && contains(
                lower_text(#[trigger] m.pkg_list_full[i]),
                lower_text(m.search_query),
            ) ==> m.apply_pkg_filter().pkg_list.contains(m.pkg_list_full[i]),
        lower_text(m.search_query).len() == 0 ==> m.apply_pkg_filter().pkg_list
            == m.pkg_list_full,
{
    let q = lower_text(m.search_query);
    if q.len() == 0 {
        let r = m.apply_pkg_filter().pkg_list;
        assert(r == m.pkg_list_full);
        assert forall|i: int| 0 <= i < r.len() implies m.pkg_list_full.contains(#[trigger] r[i])
            && contains(lower_text(r[i]), q) by {
            lemma_contains_empty(lower_text(r[i]));
            assert(q =~= Seq::<char>::empty());
        }
        assert forall|i: int| 0 <= i < m.pkg_list_full.len() implies r.contains(
            #[trigger] m.pkg_list_full[i],
        ) by {
            assert(r[i] == m.pkg_list_full[i]);
        }
    } else {
        lemma_package_filter(m.pkg_list_full, q);
    }
}

/// ASCII names that differ only in the case of their letters have the same
/// lowercase form, so the package search treats them alike.
pub proof fn law_package_search_ignores_case(a: Seq<char>, b: Seq<char>)
    requires
        crate::text::all_ascii(a),
        crate::text::all_ascii(b),
        a.map_values(|c: char| crate::text::ascii_lower(c)) == b.map_values(
            |c: char| crate::text::ascii_lower(c),
        ),
    ensures
        lower_text(a) == lower_text(b),
        forall|q: Seq<char>| contains(lower_text(a), q) == contains(lower_text(b), q),
{
    reveal(lower_text);
}

/// The overlays named `name` are none of `without_name(installed, name)`.
pub proof fn lemma_without_name_none(installed: Seq<RepoView>, name: Seq<char>)
    ensures
        forall|i: int|
            0 <= i < without_name(installed, name).len() ==> (#[trigger] without_name(
                installed,
                name,
            )[i]).name != name,
    decreases installed.len(),
{
    if installed.len() > 0 {
        lemma_without_name_none(installed.drop_last(), name);
    }
}

/// When the configuration section of an overlay was removed, the overlay
/// leaves the Installed list: no installed overlay is named `name` any
/// more and the others stay, in order. When nothing was removed the list
/// stays as it was.
pub proof fn law_removed_overlay_leaves_list(m: AppModel, name: Seq<char>, outcome: RemoveOutcome)
    ensures
        (outcome is RemovedWithFiles || outcome is RemovedNoFiles || outcome is RemovedPurgeFailed)
            ==> m.remove_finished(name, outcome).installed == without_name(m.installed, name),
        (outcome is RemovedWithFiles || outcome is RemovedNoFiles || outcome is RemovedPurgeFailed)
            ==> forall|i: int|
            0 <= i < m.remove_finished(name, outcome).installed.len() ==> (
            #[trigger] m.remove_finished(name, outcome).installed[i]).name != name,
        (outcome is NotFound || outcome is Failed) ==> m.remove_finished(name, outcome).installed
            == m.installed,
{
    lemma_without_name_none(m.installed, name);
}

} // verus!
