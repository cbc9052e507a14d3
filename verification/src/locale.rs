//! Interface texts in English and Russian.
use crate::text::{decimal, decimal_string, lower_text, lower_chars, starts_with, starts_with_exec, to_chars};
use vstd::prelude::*;

verus! {

broadcast use vstd::string::group_string_axioms;

/// Interface language.
#[derive(Debug, Clone, Copy, PartialEq, Eq, Structural)]
pub enum Language {
    English,
    Russian,
}

/// The language that a `LANG` value selects: Russian for values that
/// start with `ru` in any case, English otherwise.
pub open spec fn language_of(lang_var: Seq<char>) -> Language {
    if starts_with(lower_text(lang_var), "ru"@) {
        Language::Russian
    } else {
        Language::English
    }
}

impl Language {
    /// Pick the language from the value of `LANG`.
    pub fn from_lang_var(lang_var: &str) -> (r: Language)
        ensures
            r == language_of(lang_var@),
    {
        let lower = lower_chars(lang_var);
        if starts_with_exec(&lower, &to_chars("ru")) {
            Language::Russian
        } else {
            Language::English
        }
    }
}

/// `a`, then `b`, then `c`, as one string.
pub fn join3(a: &str, b: &str, c: &str) -> (r: String)
    ensures
        r@ == a@ + b@ + c@,
{
    let mut r = String::from_str(a);
    r.append(b);
    r.append(c);
    r
}

/// All interface texts of one language.
pub struct Strings {
    pub lang: Language,
    pub tab_browse: &'static str,
    pub tab_installed: &'static str,
    pub loading: &'static str,
    pub no_root: &'static str,
    pub search_prefix: &'static str,
    pub title_available: &'static str,
    pub title_installed: &'static str,
    pub origin_registry: &'static str,
    pub origin_github: &'static str,
    pub origin_custom: &'static str,
    pub detail_title: &'static str,
    pub installed_yes: &'static str,
    pub installed_no: &'static str,
    pub not_installed_hint: &'static str,
    pub desc_label: &'static str,
    pub source_label: &'static str,
    pub owner_label: &'static str,
    pub status_label: &'static str,
    pub uri_label: &'static str,
    pub type_label: &'static str,
    pub packages_label: &'static str,
    pub packages_scanning: &'static str,
    pub packages_none: &'static str,
    pub no_data: &'static str,
    pub sync_title: &'static str,
    pub sync_done: &'static str,
    pub sync_error: &'static str,
    pub help_title: &'static str,
    pub help_nav: &'static str,
    pub help_actions: &'static str,
    pub help_down: &'static str,
    pub help_up: &'static str,
    pub help_top: &'static str,
    pub help_bottom: &'static str,
    pub help_tab: &'static str,
    pub help_esc: &'static str,
    pub help_add: &'static str,
    pub help_rm: &'static str,
    pub help_rm_purge: &'static str,
    pub help_sync: &'static str,
    pub help_sync_all: &'static str,
    pub help_refresh: &'static str,
    pub help_search: &'static str,
    pub help_help: &'static str,
    pub help_quit: &'static str,
    pub help_enter: &'static str,
    pub no_git_source: &'static str,
    pub need_root: &'static str,
    pub not_found_in_config: &'static str,
    pub cache_updating: &'static str,
    pub sync_started: &'static str,
    pub sync_finished: &'static str,
    pub operation_cancelled: &'static str,
    pub footer_keys: &'static str,
    pub confirm_yes_no: &'static str,
    pub no_description: &'static str,
    pub elevation_hint: &'static str,
}

/// The texts of a language.
pub open spec fn spec_strings(lang: Language) -> Strings {
    match lang {
        Language::English => Strings {
            lang: Language::English,
            tab_browse: "Browse",
            tab_installed: "Installed",
            loading: "⟳ loading...",
            no_root: "(no root)",
            search_prefix: "Search",
            title_available: "Available",
            title_installed: "Installed",
            origin_registry: "[R]",
            origin_github: "[G]",
            origin_custom: "[C]",
            detail_title: "Details",
            installed_yes: "✓ installed",
            installed_no: "not installed",
            not_installed_hint: "Press 'a' to install and see packages.",
            desc_label: "Description:",
            source_label: "Source:",
            owner_label: "Owner:",
            status_label: "Status:",
            uri_label: "URI:",
            type_label: "Type:",
            packages_label: "Packages:",
            packages_scanning: "(scanning...)",
            packages_none: "no packages",
            no_data: "No data",
            sync_title: "Sync",
            sync_done: "✓ Done",
            sync_error: "✗",
            help_title: "Help",
            help_nav: "Navigation",
            help_actions: "Actions",
            help_down: "down",
            help_up: "up",
            help_top: "top of list",
            help_bottom: "bottom of list",
            help_tab: "switch Browse / Installed",
            help_esc: "exit search / close help",
            help_add: "add + sync (or just sync if already installed)",
            help_rm: "remove overlay (config + files)",
            help_rm_purge: "remove overlay (config + files)",
            help_sync: "sync overlay",
            help_sync_all: "sync all overlays (emaint sync -a)",
            help_refresh: "refresh cache (repositories.xml + GitHub)",
            help_search: "search by name",
            help_help: "this help",
            help_quit: "quit",
            help_enter: "show all overlay packages",
            no_git_source: "Overlay has no git source",
            need_root: "Root privileges required",
            not_found_in_config: "Overlay not found in config",
            cache_updating: "Updating cache...",
            sync_started: "Sync started",
            sync_finished: "Sync complete",
            operation_cancelled: "Operation cancelled or failed",
            footer_keys: " a:add+sync  S:sync all  d:rm  /:search  r:refresh  h:help  q:quit ",
            confirm_yes_no: "y — yes, n — no",
            no_description: "(no description)",
            elevation_hint: "Root privileges required. Install doas or sudo and run:\n  doas overlay-manager",
        },
        Language::Russian => Strings {
            lang: Language::Russian,
            tab_browse: "Browse",
            tab_installed: "Installed",
            loading: "⟳ загрузка...",
            no_root: "(без root)",
            search_prefix: "Поиск",
            title_available: "Доступные",
            title_installed: "Установленные",
            origin_registry: "[R]",
            origin_github: "[G]",
            origin_custom: "[C]",
            detail_title: "Детали",
            installed_yes: "✓ установлен",
            installed_no: "не установлен",
            not_installed_hint: "Нажмите 'a' чтобы установить и увидеть пакеты.",
            desc_label: "Описание:",
            source_label: "Источник:",
            owner_label: "Владелец:",
            status_label: "Статус:",
            uri_label: "URI:",
            type_label: "Тип:",
            packages_label: "Пакеты:",
            packages_scanning: "(сканирование...)",
            packages_none: "нет пакетов",
            no_data: "Нет данных",
            sync_title: "Синхронизация",
            sync_done: "✓ Готово",
            sync_error: "✗",
            help_title: "Управление",
            help_nav: "Навигация",
            help_actions: "Действия",
            help_down: "вниз",
            help_up: "вверх",
            help_top: "в начало списка",
            help_bottom: "в конец списка",
            help_tab: "переключить Browse / Installed",
            help_esc: "выйти из поиска / закрыть справку",
            help_add: "добавить + синхронизировать (или только sync если уже установлен)",
            help_rm: "удалить оверлей (конфиг + файлы)",
            help_rm_purge: "удалить оверлей (конфиг + файлы)",
            help_sync: "синхронизировать оверлей",
            help_sync_all: "синхронизировать все оверлеи (emaint sync -a)",
            help_refresh: "обновить кэш (repositories.xml + GitHub)",
            help_search: "поиск по имени",
            help_help: "эта справка",
            help_quit: "выход",
            help_enter: "показать все пакеты оверлея",
            no_git_source: "Оверлей без git-источника",
            need_root: "Нужны права root",
            not_found_in_config: "Оверлей не найден в конфиге",
            cache_updating: "Обновление кэша...",
            sync_started: "Синхронизация запущена",
            sync_finished: "Синхронизация завершена",
            operation_cancelled: "Операция отменена или ошибка",
            footer_keys: " a:add+sync  S:sync all  d:rm  /:search  r:refresh  h:help  q:quit ",
            confirm_yes_no: "y — да, n — нет",
            no_description: "(нет описания)",
            elevation_hint: "Нужны права root. Установите doas или sudo и запустите:\n  doas overlay-manager",
        },
    }
}

/// The texts of a language.
pub fn strings(lang: Language) -> (s: Strings)
    ensures
        s == spec_strings(lang),
{
    match lang {
        Language::English => Strings {
            lang: Language::English,
            tab_browse: "Browse",
            tab_installed: "Installed",
            loading: "⟳ loading...",
            no_root: "(no root)",
            search_prefix: "Search",
            title_available: "Available",
            title_installed: "Installed",
            origin_registry: "[R]",
            origin_github: "[G]",
            origin_custom: "[C]",
            detail_title: "Details",
            installed_yes: "✓ installed",
            installed_no: "not installed",
            not_installed_hint: "Press 'a' to install and see packages.",
            desc_label: "Description:",
            source_label: "Source:",
            owner_label: "Owner:",
            status_label: "Status:",
            uri_label: "URI:",
            type_label: "Type:",
            packages_label: "Packages:",
            packages_scanning: "(scanning...)",
            packages_none: "no packages",
            no_data: "No data",
            sync_title: "Sync",
            sync_done: "✓ Done",
            sync_error: "✗",
            help_title: "Help",
            help_nav: "Navigation",
            help_actions: "Actions",
            help_down: "down",
            help_up: "up",
            help_top: "top of list",
            help_bottom: "bottom of list",
            help_tab: "switch Browse / Installed",
            help_esc: "exit search / close help",
            help_add: "add + sync (or just sync if already installed)",
            help_rm: "remove overlay (config + files)",
            help_rm_purge: "remove overlay (config + files)",
            help_sync: "sync overlay",
            help_sync_all: "sync all overlays (emaint sync -a)",
            help_refresh: "refresh cache (repositories.xml + GitHub)",
            help_search: "search by name",
            help_help: "this help",
            help_quit: "quit",
            help_enter: "show all overlay packages",
            no_git_source: "Overlay has no git source",
            need_root: "Root privileges required",
            not_found_in_config: "Overlay not found in config",
            cache_updating: "Updating cache...",
            sync_started: "Sync started",
            sync_finished: "Sync complete",
            operation_cancelled: "Operation cancelled or failed",
            footer_keys: " a:add+sync  S:sync all  d:rm  /:search  r:refresh  h:help  q:quit ",
            confirm_yes_no: "y — yes, n — no",
            no_description: "(no description)",
            elevation_hint: "Root privileges required. Install doas or sudo and run:\n  doas overlay-manager",
        },
        Language::Russian => Strings {
            lang: Language::Russian,
            tab_browse: "Browse",
            tab_installed: "Installed",
            loading: "⟳ загрузка...",
            no_root: "(без root)",
            search_prefix: "Поиск",
            title_available: "Доступные",
            title_installed: "Установленные",
            origin_registry: "[R]",
            origin_github: "[G]",
            origin_custom: "[C]",
            detail_title: "Детали",
            installed_yes: "✓ установлен",
            installed_no: "не установлен",
            not_installed_hint: "Нажмите 'a' чтобы установить и увидеть пакеты.",
            desc_label: "Описание:",
            source_label: "Источник:",
            owner_label: "Владелец:",
            status_label: "Статус:",
            uri_label: "URI:",
            type_label: "Тип:",
            packages_label: "Пакеты:",
            packages_scanning: "(сканирование...)",
            packages_none: "нет пакетов",
            no_data: "Нет данных",
            sync_title: "Синхронизация",
            sync_done: "✓ Готово",
            sync_error: "✗",
            help_title: "Управление",
            help_nav: "Навигация",
            help_actions: "Действия",
            help_down: "вниз",
            help_up: "вверх",
            help_top: "в начало списка",
            help_bottom: "в конец списка",
            help_tab: "переключить Browse / Installed",
            help_esc: "выйти из поиска / закрыть справку",
            help_add: "добавить + синхронизировать (или только sync если уже установлен)",
            help_rm: "удалить оверлей (конфиг + файлы)",
            help_rm_purge: "удалить оверлей (конфиг + файлы)",
            help_sync: "синхронизировать оверлей",
            help_sync_all: "синхронизировать все оверлеи (emaint sync -a)",
            help_refresh: "обновить кэш (repositories.xml + GitHub)",
            help_search: "поиск по имени",
            help_help: "эта справка",
            help_quit: "выход",
            help_enter: "показать все пакеты оверлея",
            no_git_source: "Оверлей без git-источника",
            need_root: "Нужны права root",
            not_found_in_config: "Оверлей не найден в конфиге",
            cache_updating: "Обновление кэша...",
            sync_started: "Синхронизация запущена",
            sync_finished: "Синхронизация завершена",
            operation_cancelled: "Операция отменена или ошибка",
            footer_keys: " a:add+sync  S:sync all  d:rm  /:search  r:refresh  h:help  q:quit ",
            confirm_yes_no: "y — да, n — нет",
            no_description: "(нет описания)",
            elevation_hint: "Нужны права root. Установите doas или sudo и запустите:\n  doas overlay-manager",
        },
    }
}

/// Text of `packages_count` around its argument.
pub open spec fn text_packages_count(lang: Language, x: Seq<char>) -> Seq<char> {
    match lang {
        Language::English => "  "@ + x + " pkg(s)"@,
        Language::Russian => "  "@ + x + " шт."@,
    }
}

/// Text of `packages_more` around its argument.
pub open spec fn text_packages_more(lang: Language, x: Seq<char>) -> Seq<char> {
    match lang {
        Language::English => "  ... and "@ + x + " more"@,
        Language::Russian => "  ... и ещё "@ + x + ""@,
    }
}

/// Text of `sync_start` around its argument.
pub open spec fn text_sync_start(lang: Language, x: Seq<char>) -> Seq<char> {
    match lang {
        Language::English => "▶ Syncing "@ + x + "..."@,
        Language::Russian => "▶ Синхронизация "@ + x + "..."@,
    }
}

/// Text of `already_installed` around its argument.
pub open spec fn text_already_installed(lang: Language, x: Seq<char>) -> Seq<char> {
    match lang {
        Language::English => ""@ + x + " already installed"@,
        Language::Russian => ""@ + x + " уже установлен"@,
    }
}

/// Text of `added` around its argument.
pub open spec fn text_added(lang: Language, x: Seq<char>) -> Seq<char> {
    match lang {
        Language::English => ""@ + x + " added"@,
        Language::Russian => ""@ + x + " добавлен"@,
    }
}

/// Text of `removed` around its argument.
pub open spec fn text_removed(lang: Language, x: Seq<char>) -> Seq<char> {
    match lang {
        Language::English => ""@ + x + " removed"@,
        Language::Russian => ""@ + x + " удалён"@,
    }
}

/// Text of `removed_with_files` around its argument.
pub open spec fn text_removed_with_files(lang: Language, x: Seq<char>) -> Seq<char> {
    match lang {
        Language::English => ""@ + x + " removed (with files)"@,
        Language::Russian => ""@ + x + " удалён (с файлами)"@,
    }
}

/// Text of `removed_no_files` around its argument.
pub open spec fn text_removed_no_files(lang: Language, x: Seq<char>) -> Seq<char> {
    match lang {
        Language::English => ""@ + x + " removed (files not found)"@,
        Language::Russian => ""@ + x + " удалён (файлы не найдены)"@,
    }
}

/// Text of `removed_config_only` for two arguments.
pub open spec fn text_removed_config_only(lang: Language, a: Seq<char>, b: Seq<char>) -> Seq<char> {
    match lang {
        Language::English => ""@ + a + " removed from config, purge error: "@ + b + ""@,
        Language::Russian => ""@ + a + " удалён из конфига, но ошибка очистки: "@ + b + ""@,
    }
}

/// Text of `cache_loaded` around its argument.
pub open spec fn text_cache_loaded(lang: Language, x: Seq<char>) -> Seq<char> {
    match lang {
        Language::English => "Loaded "@ + x + " overlays"@,
        Language::Russian => "Загружено "@ + x + " оверлеев"@,
    }
}

/// Text of `cache_error` around its argument.
pub open spec fn text_cache_error(lang: Language, x: Seq<char>) -> Seq<char> {
    match lang {
        Language::English => "Load error: "@ + x + ""@,
        Language::Russian => "Ошибка загрузки: "@ + x + ""@,
    }
}

/// Text of `sync_added` around its argument.
pub open spec fn text_sync_added(lang: Language, x: Seq<char>) -> Seq<char> {
    match lang {
        Language::English => ""@ + x + " added, syncing..."@,
        Language::Russian => ""@ + x + " добавлен, синхронизация..."@,
    }
}

/// Text of `sync_failed` around its argument.
pub open spec fn text_sync_failed(lang: Language, x: Seq<char>) -> Seq<char> {
    match lang {
        Language::English => "Sync error: "@ + x + ""@,
        Language::Russian => "Ошибка синхронизации: "@ + x + ""@,
    }
}

/// Text of `pkexec_not_found` around its argument.
pub open spec fn text_pkexec_not_found(lang: Language, x: Seq<char>) -> Seq<char> {
    match lang {
        Language::English => "pkexec not found: "@ + x + ""@,
        Language::Russian => "pkexec не найден: "@ + x + ""@,
    }
}

/// Text of `confirm_remove` around its argument.
pub open spec fn text_confirm_remove(lang: Language, x: Seq<char>) -> Seq<char> {
    match lang {
        Language::English => "Remove "@ + x + "?"@,
        Language::Russian => "Удалить "@ + x + "?"@,
    }
}

/// Text of `confirm_remove_purge` around its argument.
pub open spec fn text_confirm_remove_purge(lang: Language, x: Seq<char>) -> Seq<char> {
    match lang {
        Language::English => "Remove "@ + x + " with all files?"@,
        Language::Russian => "Удалить "@ + x + " со всеми файлами?"@,
    }
}

impl Strings {
    pub fn packages_count(&self, n: usize) -> (r: String)
        ensures
            r@ == text_packages_count(self.lang, decimal(n as nat)),
    {
        let x = decimal_string(n as u64);
        match self.lang {
            Language::English => join3("  ", x.as_str(), " pkg(s)"),
            Language::Russian => join3("  ", x.as_str(), " шт."),
        }
    }

    pub fn packages_more(&self, n: usize) -> (r: String)
        ensures
            r@ == text_packages_more(self.lang, decimal(n as nat)),
    {
        let x = decimal_string(n as u64);
        match self.lang {
            Language::English => join3("  ... and ", x.as_str(), " more"),
            Language::Russian => join3("  ... и ещё ", x.as_str(), ""),
        }
    }

    pub fn sync_start(&self, x: &str) -> (r: String)
        ensures
            r@ == text_sync_start(self.lang, x@),
    {
        match self.lang {
            Language::English => join3("▶ Syncing ", x, "..."),
            Language::Russian => join3("▶ Синхронизация ", x, "..."),
        }
    }

    pub fn already_installed(&self, x: &str) -> (r: String)
        ensures
            r@ == text_already_installed(self.lang, x@),
    {
        match self.lang {
            Language::English => join3("", x, " already installed"),
            Language::Russian => join3("", x, " уже установлен"),
        }
    }

    pub fn added(&self, x: &str) -> (r: String)
        ensures
            r@ == text_added(self.lang, x@),
    {
        match self.lang {
            Language::English => join3("", x, " added"),
            Language::Russian => join3("", x, " добавлен"),
        }
    }

    pub fn removed(&self, x: &str) -> (r: String)
        ensures
            r@ == text_removed(self.lang, x@),
    {
        match self.lang {
            Language::English => join3("", x, " removed"),
            Language::Russian => join3("", x, " удалён"),
        }
    }

    pub fn removed_with_files(&self, x: &str) -> (r: String)
        ensures
            r@ == text_removed_with_files(self.lang, x@),
    {
        match self.lang {
            Language::English => join3("", x, " removed (with files)"),
            Language::Russian => join3("", x, " удалён (с файлами)"),
        }
    }

    pub fn removed_no_files(&self, x: &str) -> (r: String)
        ensures
            r@ == text_removed_no_files(self.lang, x@),
    {
        match self.lang {
            Language::English => join3("", x, " removed (files not found)"),
            Language::Russian => join3("", x, " удалён (файлы не найдены)"),
        }
    }

    pub fn removed_config_only(&self, a: &str, b: &str) -> (r: String)
        ensures
            r@ == text_removed_config_only(self.lang, a@, b@),
    {
        match self.lang {
            Language::English => {
                let mut r = join3("", a, " removed from config, purge error: ");
                r.append(b);
                r.append("");
                r
            },
            Language::Russian => {
                let mut r = join3("", a, " удалён из конфига, но ошибка очистки: ");
                r.append(b);
                r.append("");
                r
            },
        }
    }

    pub fn cache_loaded(&self, n: usize) -> (r: String)
        ensures
            r@ == text_cache_loaded(self.lang, decimal(n as nat)),
    {
        let x = decimal_string(n as u64);
        match self.lang {
            Language::English => join3("Loaded ", x.as_str(), " overlays"),
            Language::Russian => join3("Загружено ", x.as_str(), " оверлеев"),
        }
    }

    pub fn cache_error(&self, x: &str) -> (r: String)
        ensures
            r@ == text_cache_error(self.lang, x@),
    {
        match self.lang {
            Language::English => join3("Load error: ", x, ""),
            Language::Russian => join3("Ошибка загрузки: ", x, ""),
        }
    }

    pub fn sync_added(&self, x: &str) -> (r: String)
        ensures
            r@ == text_sync_added(self.lang, x@),
    {
        match self.lang {
            Language::English => join3("", x, " added, syncing..."),
            Language::Russian => join3("", x, " добавлен, синхронизация..."),
        }
    }

    pub fn sync_failed(&self, x: &str) -> (r: String)
        ensures
            r@ == text_sync_failed(self.lang, x@),
    {
        match self.lang {
            Language::English => join3("Sync error: ", x, ""),
            Language::Russian => join3("Ошибка синхронизации: ", x, ""),
        }
    }

    pub fn pkexec_not_found(&self, x: &str) -> (r: String)
        ensures
            r@ == text_pkexec_not_found(self.lang, x@),
    {
        match self.lang {
            Language::English => join3("pkexec not found: ", x, ""),
            Language::Russian => join3("pkexec не найден: ", x, ""),
        }
    }

    pub fn confirm_remove(&self, x: &str) -> (r: String)
        ensures
            r@ == text_confirm_remove(self.lang, x@),
    {
        match self.lang {
            Language::English => join3("Remove ", x, "?"),
            Language::Russian => join3("Удалить ", x, "?"),
        }
    }

    pub fn confirm_remove_purge(&self, x: &str) -> (r: String)
        ensures
            r@ == text_confirm_remove_purge(self.lang, x@),
    {
        match self.lang {
            Language::English => join3("Remove ", x, " with all files?"),
            Language::Russian => join3("Удалить ", x, " со всеми файлами?"),
        }
    }

}

} // verus!
