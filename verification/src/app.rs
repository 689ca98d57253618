//! The launcher's main window: the search box, the results below it, and what
//! the user can do with them.

use vstd::prelude::*;

use crate::config::{Config, ConfigView, ShortcutView};
use crate::history::{History, HistoryView};
use crate::i18n::{decimal, decimal_of, digit, lang_for, resolve, strings_in, Lang, Strings};
use crate::launch::{
    args_request, elevated_request, folder_request, open, open_containing_folder, open_elevated,
    open_request, open_with_args, ShellRequest, ShellView,
};
use crate::plugin_api::RAction;
use crate::search::alias::{alias_finding, alias_findings, law_alias_is_found, AliasProvider};
use crate::search::app_index::{
    app_findings, app_views, law_apps_are_found_by_title, scan_config_of, AppIndexProvider, AppView,
    Launch, LaunchView, ScanConfig,
};
use crate::search::everything::{
    hit_findings, hit_views, law_files_are_found_by_title, EverythingProvider, HitView,
};
use crate::search::fuzzy::{fuzzy_i32, is_subsequence, law_score_is_handed_out};
use crate::search::plugin::{law_plugin_results_are_listed, plugin_findings, PluginProvider};
use crate::search::rank::{
    boosted, is_pinned, law_boost_raises_pinned_scores, law_findings_are_kept,
    law_nothing_is_forced, law_pinned_by_use, law_pinned_first, rank_results, ranking, uses,
};
use crate::search::windows_settings::{
    builtin, builtin_findings, entry_score, is_only_at, law_custom_pages_are_found_by_label,
    law_page_is_found_once, page, settings_findings, WindowsSettingsProvider,
};
use crate::search::{
    key_of, result_views, target_key, Action, ActionView, ResultView, SearchProvider, SearchResult,
};
use crate::settings_window::AppSnapshot;
use crate::text::{byte_len, same_text, texts, trim, trimmed};
use crate::text_input::{
    caret, keystroke, on_one_line, EditOutcome, FieldAction, InputState, MouseHit, Span, TextInput,
};
use crate::tools::ToolKind;
use crate::tray::{scan_display, ScanDisplay, TrayAction, TrayHandle};

verus! {

/// The width of the window, in pixels.
pub const WINDOW_WIDTH: u32 = 640;

/// The height of the window without results.
pub const WINDOW_HEIGHT: u32 = 60;

/// Where the window is parked while it is hidden, on both axes.
pub const OFFSCREEN: i32 = -8000;

/// The most rows that are ever shown.
pub const MAX_VISIBLE_ROWS: usize = 8;

pub const RESULT_ROW_HEIGHT: u32 = 40;

/// Room for an open context menu, which cannot be drawn outside the window.
pub const CONTEXT_MENU_HEADROOM: u32 = 220;

/// The seconds between periodic scans.
pub const PERIODIC_RESCAN_SECONDS: u64 = 1800;

/// The opacity of the main window's background, in percent.
pub const GLASS_OPACITY_PERCENT: u32 = 80;

/// The keys of the main window.
pub const KEY_CONTEXT: &'static str = "issen-search";

/// What a result is asked to do.
#[derive(Clone, Copy, PartialEq, Eq, Structural, Debug)]
pub enum ResultActionKind {
    Default,
    RunAsAdmin,
    OpenLocation,
}

/// What the open context menu belongs to: the search box, or a result row.
#[derive(Clone, Copy, PartialEq, Eq, Structural, Debug)]
pub enum ContextMenuTarget {
    Main,
    Row(usize),
}

/// What has to be done outside to run a result.
#[derive(Debug)]
pub enum RunRequest {
    Shell(ShellRequest),
    ActivateApp(String),
    CopyText(String),
}

pub enum RunView {
    Shell(ShellView),
    ActivateApp(Seq<char>),
    CopyText(Seq<char>),
}

impl View for RunRequest {
    type V = RunView;

    open spec fn view(&self) -> RunView {
        match self {
            RunRequest::Shell(r) => RunView::Shell(r@),
            RunRequest::ActivateApp(aumid) => RunView::ActivateApp(aumid@),
            RunRequest::CopyText(text) => RunView::CopyText(text@),
        }
    }
}

/// What follows a run.
#[derive(Clone, Copy, PartialEq, Eq, Structural, Debug)]
pub struct RunOutcome {
    /// The history changed and has to be saved.
    pub save_history: bool,
    /// The window was hidden.
    pub hidden: bool,
}

/// What the main window holds.
#[verifier::ext_equal]
pub struct AppState {
    pub config: ConfigView,
    pub lang: Lang,
    pub input: InputState,
    pub results: Seq<ResultView>,
    pub selected: usize,
    pub height: u32,
    pub visible: bool,
    /// The window was active at some time since it was shown.
    pub seen_active: bool,
    /// Another window of the launcher is being opened.
    pub opening: bool,
    pub panel: bool,
    pub menu: Option<ContextMenuTarget>,
    pub index: Seq<AppView>,
    pub history: HistoryView,
    pub scanning: bool,
    pub last_scan_count: usize,
}

/// The launcher's main window.
pub struct IssenApp {
    pub config: Config,
    pub lang: Lang,
    pub strings: Strings,
    pub input: TextInput,
    pub results: Vec<SearchResult>,
    pub selected: usize,
    pub content_height: u32,
    pub visible: bool,
    pub seen_active_since_show: bool,
    pub opening_secondary_window: bool,
    pub history_panel_open: bool,
    pub context_menu: Option<ContextMenuTarget>,
    pub app_index: AppIndexProvider,
    pub history: History,
    pub scanning: bool,
    pub last_scan_count: usize,
}

impl View for IssenApp {
    type V = AppState;

    open spec fn view(&self) -> AppState {
        AppState {
            config: self.config@,
            lang: self.lang,
            input: self.input@,
            results: result_views(self.results@),
            selected: self.selected,
            height: self.content_height,
            visible: self.visible,
            seen_active: self.seen_active_since_show,
            opening: self.opening_secondary_window,
            panel: self.history_panel_open,
            menu: self.context_menu,
            index: app_views(self.app_index.entries@),
            history: self.history@,
            scanning: self.scanning,
            last_scan_count: self.last_scan_count,
        }
    }
}

impl AppState {
    /// How many rows are shown at most.
    pub open spec fn rows_cap(self) -> int {
        if self.config.max_results < MAX_VISIBLE_ROWS {
            self.config.max_results as int
        } else {
            MAX_VISIBLE_ROWS as int
        }
    }

    /// How many rows are shown: results, or past queries; without any, one row
    /// says so.
    pub open spec fn row_count(self) -> int {
        let n = if self.panel {
            if self.history.queries.len() == 0 {
                1
            } else {
                self.history.queries.len() as int
            }
        } else {
            self.results.len() as int
        };
        if n < self.rows_cap() {
            n
        } else {
            self.rows_cap()
        }
    }

    /// The height that the window needs.
    pub open spec fn needed_height(self) -> int {
        WINDOW_HEIGHT + self.row_count() * RESULT_ROW_HEIGHT + (if self.menu is Some {
            CONTEXT_MENU_HEADROOM as int
        } else {
            0
        })
    }

    pub open spec fn resized(self) -> AppState {
        AppState { height: self.needed_height() as u32, ..self }
    }

    /// Hidden, with everything that was typed and found forgotten.
    pub open spec fn hidden(self) -> AppState {
        if !self.visible {
            self
        } else {
            AppState {
                visible: false,
                input: self.input.with_text(Seq::empty()),
                results: Seq::empty(),
                selected: 0,
                panel: false,
                menu: None,
                ..self
            }.resized()
        }
    }

    pub open spec fn shown(self) -> AppState {
        if self.visible {
            self
        } else {
            AppState { visible: true, seen_active: false, ..self }
        }
    }

    /// The text changed: past queries make way for results.
    pub open spec fn edited(self, input: InputState) -> AppState {
        AppState { input, panel: false, ..self }
    }

    /// What all providers find for the query, in the order in which they are
    /// asked.
    pub open spec fn found(
        self,
        everything: EverythingProvider,
        plugins: PluginProvider,
    ) -> Seq<ResultView> {
        let query = self.input.text;
        let own = if query.len() == 0 {
            Seq::empty()
        } else {
            alias_findings(self.config.aliases, query) + settings_findings(
                self.config.custom_windows_shortcuts,
                self.lang,
                query,
            ) + app_findings(self.index, query)
        };
        own + (if self.config.everything_enabled {
            everything.findings(query)
        } else {
            Seq::empty()
        }) + plugins.findings(query)
    }

    /// The results of a search, with the first one selected.
    pub open spec fn searched(
        self,
        everything: EverythingProvider,
        plugins: PluginProvider,
    ) -> AppState {
        AppState {
            results: ranking(self.history, self.found(everything, plugins)),
            selected: 0,
            ..self
        }
    }

    /// The selected result.
    pub open spec fn current(self) -> Option<ResultView> {
        if self.selected < self.results.len() {
            Some(self.results[self.selected as int])
        } else {
            None
        }
    }

    /// What is asked of the outside to run the selected result. A query that
    /// found nothing is tried as it is, as the name of a file.
    pub open spec fn request(self, kind: ResultActionKind) -> Option<RunView> {
        match (self.current(), kind) {
            (Some(r), ResultActionKind::Default) => Some(default_request(r.action)),
            (Some(r), ResultActionKind::RunAsAdmin) => match r.action {
                ActionView::Launch { path, args } => Some(
                    RunView::Shell(elevated_request(path, args)),
                ),
                _ => None,
            },
            (Some(r), ResultActionKind::OpenLocation) => match r.action {
                ActionView::Launch { path, .. } => Some(RunView::Shell(folder_request(path))),
                _ => None,
            },
            (None, ResultActionKind::Default) => if self.results.len() == 0 && trimmed(
                self.input.text,
            ).len() > 0 {
                Some(RunView::Shell(open_request(self.input.text)))
            } else {
                None
            },
            (None, _) => None,
        }
    }

    /// The history after the selected result, or the query itself, was run.
    pub open spec fn history_after_run(self) -> HistoryView {
        let used = match self.current() {
            Some(r) => match r.action {
                ActionView::CopyToClipboard(_) => self.history,
                _ => self.history.used(key_of(r.action)),
            },
            None => self.history,
        };
        used.searched(self.input.text)
    }

    /// The state after a request was carried out.
    pub open spec fn after_run(self, kind: ResultActionKind, succeeded: bool) -> AppState {
        if self.request(kind) is None {
            self
        } else {
            match kind {
                ResultActionKind::Default => if succeeded {
                    AppState { history: self.history_after_run(), ..self }.hidden()
                } else {
                    self
                },
                ResultActionKind::RunAsAdmin => if succeeded {
                    self.hidden()
                } else {
                    self
                },
                ResultActionKind::OpenLocation => self.hidden(),
            }
        }
    }
}

/// What running a result asks of the outside.
pub open spec fn default_request(action: ActionView) -> RunView {
    match action {
        ActionView::Launch { path, args } => RunView::Shell(args_request(path, args)),
        ActionView::OpenUri(uri) => RunView::Shell(open_request(uri)),
        ActionView::LaunchUwp { aumid } => RunView::ActivateApp(aumid),
        ActionView::CopyToClipboard(text) => RunView::CopyText(text),
    }
}

/// The providers that have to be asked outside before a search.
#[derive(Debug)]
pub struct SearchPlan {
    pub query: String,
    pub ask_everything: bool,
}

impl IssenApp {
    /// A hidden window. `langid` is the display language of Windows.
    pub fn new(config: Config, history: History, langid: u16) -> (app: Self)
        ensures
            app.strings == strings_in(app.lang),
            app@ == (AppState {
                config: config@,
                lang: lang_for(config@.language, langid),
                input: InputState {
                    text: Seq::empty(),
                    placeholder: app.strings.search_hint@,
                    selection: caret(0),
                    reversed: false,
                    marked: None,
                    selecting: false,
                },
                results: Seq::empty(),
                selected: 0,
                height: WINDOW_HEIGHT,
                visible: false,
                seen_active: false,
                opening: false,
                panel: false,
                menu: None,
                index: Seq::empty(),
                history: history@,
                scanning: false,
                last_scan_count: 0,
            }),
    {
        let lang = resolve(config.language, langid);
        let strings = Strings::for_lang(lang);
        proof {
            reveal_strlit("");
            assert(""@ =~= Seq::<char>::empty());
        }
        let app = IssenApp {
            config,
            lang,
            strings,
            input: TextInput::new("", strings.search_hint),
            results: Vec::new(),
            selected: 0,
            content_height: WINDOW_HEIGHT,
            visible: false,
            seen_active_since_show: false,
            opening_secondary_window: false,
            history_panel_open: false,
            context_menu: None,
            app_index: AppIndexProvider::empty(),
            history,
            scanning: false,
            last_scan_count: 0,
        };
        assert(app@.results =~= Seq::<ResultView>::empty());
        assert(app@.index =~= Seq::<AppView>::empty());
        app
    }

    // --- Searching ---

    /// What has to be asked outside for the current query.
    pub fn plan_search(&self) -> (plan: SearchPlan)
        ensures
            plan.query@ == self@.input.text,
            plan.ask_everything == (self@.config.everything_enabled && self@.input.text.len() > 0),
    {
        let query = self.input.text();
        SearchPlan {
            query: query.to_owned(),
            ask_everything: self.config.everything_enabled && !query.is_empty(),
        }
    }

    /// Searches with all providers, and ranks what they find.
    pub fn run_search(&mut self, everything: &EverythingProvider, plugins: &PluginProvider)
        requires
            plugins.accepts(old(self)@.input.text),
        ensures
            final(self)@ == old(self)@.searched(*everything, *plugins),
            final(self).strings == old(self).strings,
    {
        let query = self.input.text();
        let aliases = AliasProvider::new(&self.config.aliases);
        let settings = WindowsSettingsProvider::with_custom(
            self.lang,
            &self.config.custom_windows_shortcuts,
        );
        let mut found: Vec<SearchResult> = Vec::new();
        assert(result_views(found@) =~= Seq::<ResultView>::empty());
        append_results(&mut found, aliases.search(query));
        append_results(&mut found, settings.search(query));
        append_results(&mut found, self.app_index.search(query));
        if self.config.everything_enabled {
            append_results(&mut found, everything.search(query));
        }
        append_results(&mut found, plugins.search(query));
        assert(result_views(found@) =~= self@.found(*everything, *plugins));
        let results = rank_results(&self.history, found);
        self.results = results;
        self.selected = 0;
        assert(self@ =~= old(self)@.searched(*everything, *plugins));
    }

    // --- Showing and hiding ---

    /// Shows the window; tells whether it has to be moved and activated.
    pub fn show(&mut self) -> (r: bool)
        ensures
            final(self)@ == old(self)@.shown(),
            final(self).strings == old(self).strings,
            r == !old(self)@.visible,
    {
        if self.visible {
            return false;
        }
        self.visible = true;
        self.seen_active_since_show = false;
        true
    }

    /// Hides the window; tells whether it has to be moved away.
    pub fn hide_window(&mut self) -> (r: bool)
        ensures
            final(self)@ == old(self)@.hidden(),
            final(self).strings == old(self).strings,
            r == old(self)@.visible,
    {
        if !self.visible {
            return false;
        }
        self.visible = false;
        self.input.set_text("");
        self.results.clear();
        self.selected = 0;
        self.history_panel_open = false;
        self.context_menu = None;
        proof {
            reveal_strlit("");
            assert(""@ =~= Seq::<char>::empty());
        }
        let _ = self.sync_window_height();
        assert(self@ =~= old(self)@.hidden());
        true
    }

    /// How many rows are shown at most.
    pub fn visible_rows_cap(&self) -> (r: usize)
        ensures
            r == self@.rows_cap(),
            r <= MAX_VISIBLE_ROWS,
    {
        if (self.config.max_results as usize) < MAX_VISIBLE_ROWS {
            self.config.max_results as usize
        } else {
            MAX_VISIBLE_ROWS
        }
    }

    fn shown_rows(&self) -> (r: usize)
        ensures
            r == self@.row_count(),
            r <= MAX_VISIBLE_ROWS,
    {
        let cap: usize = self.visible_rows_cap();
        let n: usize = if self.history_panel_open {
            let queries: usize = self.history.queries.len();
            if queries == 0 {
                1
            } else {
                queries
            }
        } else {
            self.results.len()
        };
        if n < cap {
            n
        } else {
            cap
        }
    }

    /// The height that the window has to be given, if it changed.
    pub fn sync_window_height(&mut self) -> (r: Option<u32>)
        ensures
            final(self)@ == old(self)@.resized(),
            final(self).strings == old(self).strings,
            old(self)@.needed_height() <= 600,
            r == if old(self)@.height == old(self)@.needed_height() {
                None
            } else {
                Some(old(self)@.needed_height() as u32)
            },
    {
        let rows: u32 = self.shown_rows() as u32;
        let mut height: u32 = WINDOW_HEIGHT + rows * RESULT_ROW_HEIGHT;
        if self.context_menu.is_some() {
            height += CONTEXT_MENU_HEADROOM;
        }
        if self.content_height == height {
            return None;
        }
        self.content_height = height;
        Some(height)
    }

    /// Whether another window of the launcher is open, or about to be.
    pub fn has_open_secondary_window(&self, about: bool, settings: bool, tools: bool) -> (r: bool)
        ensures
            r == (self@.opening || about || settings || tools),
    {
        self.opening_secondary_window || about || settings || tools
    }

    /// The window was activated or deactivated. Losing the focus hides it, if
    /// it ever had the focus since it was shown, and if no other window of the
    /// launcher took it. Tells whether the window was hidden.
    pub fn on_activation(&mut self, active: bool, secondary_open: bool) -> (r: bool)
        ensures
            final(self)@ == old(self)@.activated(active, secondary_open),
            final(self).strings == old(self).strings,
            r == (old(self)@.visible && !final(self)@.visible),
    {
        if active {
            self.seen_active_since_show = true;
            return false;
        }
        if self.seen_active_since_show && !secondary_open {
            return self.hide_window();
        }
        false
    }

    /// Another window of the launcher is opened from here on.
    pub fn begin_opening(&mut self)
        ensures
            final(self)@ == (AppState { opening: true, ..old(self)@ }),
            final(self).strings == old(self).strings,
    {
        self.opening_secondary_window = true;
    }

    /// The other window is open.
    pub fn end_opening(&mut self)
        ensures
            final(self)@ == (AppState { opening: false, ..old(self)@ }),
            final(self).strings == old(self).strings,
    {
        self.opening_secondary_window = false;
    }
}

impl AppState {
    pub open spec fn activated(self, active: bool, secondary_open: bool) -> AppState {
        if active {
            AppState { seen_active: true, ..self }
        } else if self.seen_active && !secondary_open {
            self.hidden()
        } else {
            self
        }
    }
}

fn append_results(found: &mut Vec<SearchResult>, more: Vec<SearchResult>)
    ensures
        result_views(final(found)@) == result_views(old(found)@) + result_views(more@),
{
    let mut rest = more;
    found.append(&mut rest);
    assert(result_views(found@) =~= result_views(old(found)@) + result_views(more@));
}

// --- Running results ---

fn request_for(action: &Action) -> (r: RunRequest)
    ensures
        r@ == default_request(action@),
{
    match action {
        Action::Launch { path, args } => RunRequest::Shell(
            open_with_args(path.as_str(), args.as_str()),
        ),
        Action::OpenUri(uri) => RunRequest::Shell(open(uri.as_str())),
        Action::LaunchUwp { aumid } => RunRequest::ActivateApp(aumid.clone()),
        Action::CopyToClipboard(text) => RunRequest::CopyText(text.clone()),
    }
}

pub open spec fn run_view(r: Option<RunRequest>) -> Option<RunView> {
    match r {
        Some(request) => Some(request@),
        None => None,
    }
}

impl IssenApp {
    /// What has to be done outside to run the selected result; what came of it
    /// goes to `finish_run`.
    pub fn run_result_action(&self, kind: ResultActionKind) -> (r: Option<RunRequest>)
        ensures
            run_view(r) == self@.request(kind),
    {
        if self.selected < self.results.len() {
            let result = &self.results[self.selected];
            assert(self@.results[self.selected as int] == result@);
            match kind {
                ResultActionKind::Default => Some(request_for(&result.action)),
                ResultActionKind::RunAsAdmin => match &result.action {
                    Action::Launch { path, args } => Some(
                        RunRequest::Shell(open_elevated(path.as_str(), args.as_str())),
                    ),
                    _ => None,
                },
                ResultActionKind::OpenLocation => match &result.action {
                    Action::Launch { path, .. } => Some(
                        RunRequest::Shell(open_containing_folder(path.as_str())),
                    ),
                    _ => None,
                },
            }
        } else if kind == ResultActionKind::Default && self.results.len() == 0 && !trim(
            self.input.text(),
        ).as_str().is_empty() {
            Some(RunRequest::Shell(open(self.input.text())))
        } else {
            None
        }
    }

    /// Ends a run. A result that was launched is remembered with its query, and
    /// the window hides; text that was copied is not remembered as a result.
    pub fn finish_run(&mut self, kind: ResultActionKind, succeeded: bool) -> (r: RunOutcome)
        ensures
            final(self)@ == old(self)@.after_run(kind, succeeded),
            final(self).strings == old(self).strings,
            r.hidden == (old(self)@.visible && !final(self)@.visible),
            r.save_history == (old(self)@.request(kind) is Some && kind
                == ResultActionKind::Default && succeeded && old(self)@.run_is_remembered()),
    {
        let nothing = RunOutcome { save_history: false, hidden: false };
        if self.run_result_action(kind).is_none() {
            return nothing;
        }
        match kind {
            ResultActionKind::Default => {
                if !succeeded {
                    return nothing;
                }
                let mut dirty = false;
                if self.selected < self.results.len() {
                    let action = &self.results[self.selected].action;
                    assert(self@.results[self.selected as int].action == action@);
                    let copies = match action {
                        Action::CopyToClipboard(_) => true,
                        _ => false,
                    };
                    if !copies {
                        let key = target_key(action);
                        self.history.record_use(key.as_str());
                        dirty = true;
                    }
                }
                if !trim(self.input.text()).as_str().is_empty() {
                    dirty = true;
                }
                self.history.record_query(self.input.text());
                assert(self@ =~= (AppState { history: old(self)@.history_after_run(), ..old(
                    self,
                )@ }));
                let hidden = self.hide_window();
                RunOutcome { save_history: dirty, hidden }
            },
            ResultActionKind::RunAsAdmin => {
                if succeeded {
                    RunOutcome { save_history: false, hidden: self.hide_window() }
                } else {
                    nothing
                }
            },
            ResultActionKind::OpenLocation => RunOutcome {
                save_history: false,
                hidden: self.hide_window(),
            },
        }
    }

    /// Pins the selected result; tells whether the history has to be saved. A
    /// search has to follow.
    pub fn pin_selected(&mut self) -> (save: bool)
        ensures
            final(self)@ == (AppState {
                history: match old(self)@.current() {
                    Some(r) => old(self)@.history.pinned(key_of(r.action)),
                    None => old(self)@.history,
                },
                ..old(self)@
            }),
            final(self).strings == old(self).strings,
            save == (old(self)@.current() is Some),
    {
        if self.selected < self.results.len() {
            assert(self@.results[self.selected as int] == self.results@[self.selected as int]@);
            let key = target_key(&self.results[self.selected].action);
            self.history.pin(key.as_str());
            true
        } else {
            false
        }
    }

    /// Unpins the selected result; tells whether the history has to be saved. A
    /// search has to follow.
    pub fn unpin_selected(&mut self) -> (save: bool)
        ensures
            final(self)@ == (AppState {
                history: match old(self)@.current() {
                    Some(r) => old(self)@.history.unpinned(key_of(r.action)),
                    None => old(self)@.history,
                },
                ..old(self)@
            }),
            final(self).strings == old(self).strings,
            save == (old(self)@.current() is Some),
    {
        if self.selected < self.results.len() {
            assert(self@.results[self.selected as int] == self.results@[self.selected as int]@);
            let key = target_key(&self.results[self.selected].action);
            self.history.remove(key.as_str());
            true
        } else {
            false
        }
    }

    /// The name and target of a new alias for the selected result.
    pub fn register_selected_as_alias(&self) -> (r: Option<(String, String)>)
        ensures
            match self@.current() {
                Some(result) => r matches Some(a) && a.0@ == result.title && a.1@ == key_of(
                    result.action,
                ),
                None => r is None,
            },
    {
        if self.selected < self.results.len() {
            let result = &self.results[self.selected];
            assert(self@.results[self.selected as int] == result@);
            Some((result.title.clone(), target_key(&result.action)))
        } else {
            None
        }
    }

    // --- Keys ---

    pub fn move_up(&mut self)
        ensures
            final(self)@ == old(self)@.moved_up(),
            final(self).strings == old(self).strings,
    {
        if self.history_panel_open {
            return;
        }
        if self.selected > 0 {
            self.selected = self.selected - 1;
        }
    }

    pub fn move_down(&mut self)
        ensures
            final(self)@ == old(self)@.moved_down(),
            final(self).strings == old(self).strings,
    {
        if self.history_panel_open {
            return;
        }
        let n: usize = self.results.len();
        if n > 0 {
            self.selected = if self.selected < n - 1 {
                self.selected + 1
            } else {
                n - 1
            };
        }
    }

    /// Whether Enter, or one of its variants, acts on the selected result: not
    /// while past queries are shown.
    pub fn confirms(&self) -> (r: bool)
        ensures
            r == !self@.panel,
    {
        !self.history_panel_open
    }

    /// Selects a visible row by its number; tells whether it is to be run.
    pub fn alt_digit(&mut self, idx: usize) -> (run: bool)
        ensures
            run == (!old(self)@.panel && idx < old(self)@.row_count()),
            final(self)@ == if run {
                AppState { selected: idx, ..old(self)@ }
            } else {
                old(self)@
            },
            final(self).strings == old(self).strings,
    {
        if self.history_panel_open {
            return false;
        }
        if idx < self.shown_rows() {
            self.selected = idx;
            true
        } else {
            false
        }
    }

    /// Closes the context menu, or else hides the window. Tells whether the
    /// window was hidden.
    pub fn escape_action(&mut self) -> (hidden: bool)
        ensures
            final(self)@ == if old(self)@.menu is Some {
                AppState { menu: None, ..old(self)@ }
            } else {
                old(self)@.hidden()
            },
            final(self).strings == old(self).strings,
            hidden == (old(self)@.visible && !final(self)@.visible),
    {
        if self.context_menu.is_some() {
            self.context_menu = None;
            return false;
        }
        self.hide_window()
    }

    // --- Past queries ---

    pub fn toggle_history_panel(&mut self)
        ensures
            final(self)@ == (AppState { panel: !old(self)@.panel, ..old(self)@ }),
            final(self).strings == old(self).strings,
    {
        self.history_panel_open = !self.history_panel_open;
    }

    /// Takes a past query; tells whether there was one, and so a search has to
    /// follow. Nothing is run.
    pub fn use_history_query(&mut self, index: usize) -> (search: bool)
        ensures
            search == (index < old(self)@.history.queries.len()),
            final(self)@ == if search {
                old(self)@.edited(
                    old(self)@.input.with_text(old(self)@.history.queries[index as int]),
                )
            } else {
                old(self)@
            },
            final(self).strings == old(self).strings,
    {
        if index < self.history.queries.len() {
            let query = self.history.queries[index].clone();
            self.input.set_text(query.as_str());
            self.history_panel_open = false;
            true
        } else {
            false
        }
    }

    // --- Selecting with the mouse ---

    /// A click selects a row, which is then run.
    pub fn click_row(&mut self, i: usize)
        ensures
            final(self)@ == (AppState { selected: i, ..old(self)@ }),
            final(self).strings == old(self).strings,
    {
        self.selected = i;
    }

    /// A right click selects a row and opens its menu.
    pub fn open_row_context_menu(&mut self, i: usize)
        ensures
            final(self)@ == (AppState {
                selected: i,
                menu: Some(ContextMenuTarget::Row(i)),
                ..old(self)@
            }),
            final(self).strings == old(self).strings,
    {
        self.selected = i;
        self.context_menu = Some(ContextMenuTarget::Row(i));
    }

    /// A right click on the search box opens the main menu.
    pub fn open_main_context_menu(&mut self)
        ensures
            final(self)@ == (AppState { menu: Some(ContextMenuTarget::Main), ..old(self)@ }),
            final(self).strings == old(self).strings,
    {
        self.context_menu = Some(ContextMenuTarget::Main);
    }

    /// A click elsewhere closes the menu.
    pub fn close_context_menu(&mut self)
        ensures
            final(self)@ == (AppState { menu: None, ..old(self)@ }),
            final(self).strings == old(self).strings,
    {
        self.context_menu = None;
    }
}

impl AppState {
    /// Running the selected result, or the query itself, changes the history.
    pub open spec fn run_is_remembered(self) -> bool {
        trimmed(self.input.text).len() > 0 || match self.current() {
            Some(r) => !(r.action is CopyToClipboard),
            None => false,
        }
    }

    pub open spec fn moved_up(self) -> AppState {
        if self.panel || self.selected == 0 {
            self
        } else {
            AppState { selected: (self.selected - 1) as usize, ..self }
        }
    }

    pub open spec fn moved_down(self) -> AppState {
        if self.panel || self.results.len() == 0 {
            self
        } else if self.selected < self.results.len() - 1 {
            AppState { selected: (self.selected + 1) as usize, ..self }
        } else {
            AppState { selected: (self.results.len() - 1) as usize, ..self }
        }
    }
}

// --- The context menu ---

/// What an item of a context menu does.
#[derive(Clone, Copy, PartialEq, Eq, Structural, Debug)]
pub enum MenuCommand {
    OpenSettings,
    Reindex,
    Quit,
    Run,
    RunAsAdmin,
    OpenLocation,
    CopyPath,
    RegisterAlias,
    Pin,
    Unpin,
}

/// One line of a context menu.
#[derive(Clone, Copy, Debug)]
pub enum MenuEntry {
    Item { id: &'static str, label: &'static str, command: MenuCommand },
    Separator,
}

pub open spec fn entry(id: &'static str, label: &'static str, command: MenuCommand) -> MenuEntry {
    MenuEntry::Item { id, label, command }
}

/// The menu of the search box.
pub open spec fn main_menu(s: Strings) -> Seq<MenuEntry> {
    seq![
        entry("ctx-settings", s.tray_settings, MenuCommand::OpenSettings),
        entry("ctx-reindex", s.tray_reindex, MenuCommand::Reindex),
        MenuEntry::Separator,
        entry("ctx-quit", s.tray_quit, MenuCommand::Quit),
    ]
}

/// The menu of a result. Files have more to offer than other results, and what is
/// pinned can be unpinned.
pub open spec fn row_menu(r: ResultView, pinned: bool, s: Strings) -> Seq<MenuEntry> {
    let head = seq![entry("ctx-run", s.action_run, MenuCommand::Run)];
    let file = if r.action is Launch {
        head.push(
            entry("ctx-run-as-admin", s.action_run_as_admin, MenuCommand::RunAsAdmin),
        ).push(
            entry("ctx-open-location", s.action_open_location, MenuCommand::OpenLocation),
        ).push(entry("ctx-copy-path", s.action_copy_path, MenuCommand::CopyPath))
    } else {
        head
    };
    file.push(
        entry("ctx-register-alias", s.action_register_alias, MenuCommand::RegisterAlias),
    ).push(
        if pinned {
            entry("ctx-unpin", s.action_unpin, MenuCommand::Unpin)
        } else {
            entry("ctx-pin", s.action_pin, MenuCommand::Pin)
        },
    )
}

impl AppState {
    /// The row of the open menu is gone.
    pub open spec fn menu_is_stale(self) -> bool {
        self.menu matches Some(ContextMenuTarget::Row(i)) && i >= self.results.len()
    }

    /// The open menu, from top to bottom.
    pub open spec fn menu_entries(self, s: Strings) -> Option<Seq<MenuEntry>> {
        match self.menu {
            None => None,
            Some(ContextMenuTarget::Main) => Some(main_menu(s)),
            Some(ContextMenuTarget::Row(i)) => if i < self.results.len() {
                Some(
                    row_menu(
                        self.results[i as int],
                        is_pinned(self.history, self.results[i as int]),
                        s,
                    ),
                )
            } else {
                None
            },
        }
    }

    /// The state after an item of the open menu was chosen: the menu closes, and
    /// an item of a row selects the row, except for copying its path.
    pub open spec fn chosen(self, command: MenuCommand) -> AppState {
        let closed = AppState { menu: None, ..self };
        match (self.menu, command) {
            (_, MenuCommand::OpenSettings) => closed,
            (_, MenuCommand::Reindex) => closed,
            (_, MenuCommand::Quit) => closed,
            (_, MenuCommand::CopyPath) => closed,
            (Some(ContextMenuTarget::Row(i)), _) => AppState { selected: i, ..closed },
            _ => closed,
        }
    }
}

fn menu_entry(id: &'static str, label: &'static str, command: MenuCommand) -> (r: MenuEntry)
    ensures
        r == entry(id, label, command),
{
    MenuEntry::Item { id, label, command }
}

impl IssenApp {
    /// Whether a result is pinned.
    fn shows_pinned(&self, i: usize) -> (r: bool)
        requires
            i < self.results@.len(),
        ensures
            r == is_pinned(self@.history, self@.results[i as int]),
    {
        assert(self@.results[i as int] == self.results@[i as int]@);
        let key = target_key(&self.results[i].action);
        self.history.use_count_of(key.as_str()).is_some()
    }

    /// The lines of the open menu. A menu whose row is gone is closed instead.
    pub fn render_context_menu(&mut self) -> (r: Option<Vec<MenuEntry>>)
        ensures
            match old(self)@.menu_entries(old(self).strings) {
                Some(entries) => r matches Some(v) && v@ == entries,
                None => r is None,
            },
            final(self)@ == if old(self)@.menu_is_stale() {
                AppState { menu: None, ..old(self)@ }
            } else {
                old(self)@
            },
            final(self).strings == old(self).strings,
    {
        let s = self.strings;
        match self.context_menu {
            None => None,
            Some(ContextMenuTarget::Main) => {
                let items = vec![
                    menu_entry("ctx-settings", s.tray_settings, MenuCommand::OpenSettings),
                    menu_entry("ctx-reindex", s.tray_reindex, MenuCommand::Reindex),
                    MenuEntry::Separator,
                    menu_entry("ctx-quit", s.tray_quit, MenuCommand::Quit),
                ];
                assert(items@ =~= main_menu(s));
                Some(items)
            },
            Some(ContextMenuTarget::Row(i)) => {
                if i >= self.results.len() {
                    self.context_menu = None;
                    return None;
                }
                let result = &self.results[i];
                assert(self@.results[i as int] == result@);
                let is_file = match &result.action {
                    Action::Launch { .. } => true,
                    _ => false,
                };
                let mut items = vec![menu_entry("ctx-run", s.action_run, MenuCommand::Run)];
                if is_file {
                    items.push(
                        menu_entry(
                            "ctx-run-as-admin",
                            s.action_run_as_admin,
                            MenuCommand::RunAsAdmin,
                        ),
                    );
                    items.push(
                        menu_entry(
                            "ctx-open-location",
                            s.action_open_location,
                            MenuCommand::OpenLocation,
                        ),
                    );
                    items.push(
                        menu_entry("ctx-copy-path", s.action_copy_path, MenuCommand::CopyPath),
                    );
                }
                items.push(
                    menu_entry(
                        "ctx-register-alias",
                        s.action_register_alias,
                        MenuCommand::RegisterAlias,
                    ),
                );
                if self.shows_pinned(i) {
                    items.push(menu_entry("ctx-unpin", s.action_unpin, MenuCommand::Unpin));
                } else {
                    items.push(menu_entry("ctx-pin", s.action_pin, MenuCommand::Pin));
                }
                assert(items@ =~= row_menu(result@, is_pinned(self@.history, result@), s));
                Some(items)
            },
        }
    }

    /// Chooses an item of the open menu; the command is then carried out on the
    /// selected row. Returns the path to copy, for the one that copies it.
    pub fn choose_item(&mut self, command: MenuCommand) -> (copied: Option<String>)
        ensures
            final(self)@ == old(self)@.chosen(command),
            final(self).strings == old(self).strings,
            match old(self)@.copied_path(command) {
                Some(path) => copied matches Some(p) && p@ == path,
                None => copied is None,
            },
    {
        let target = self.context_menu;
        self.context_menu = None;
        match command {
            MenuCommand::OpenSettings | MenuCommand::Reindex | MenuCommand::Quit => None,
            MenuCommand::CopyPath => {
                if let Some(ContextMenuTarget::Row(i)) = target {
                    if i < self.results.len() {
                        assert(old(self)@.results[i as int] == self.results@[i as int]@);
                        if let Action::Launch { path, .. } = &self.results[i].action {
                            return Some(path.clone());
                        }
                    }
                }
                None
            },
            _ => {
                if let Some(ContextMenuTarget::Row(i)) = target {
                    self.selected = i;
                }
                None
            },
        }
    }
}

impl AppState {
    /// The path that an item of the open menu copies.
    pub open spec fn copied_path(self, command: MenuCommand) -> Option<Seq<char>> {
        if command != MenuCommand::CopyPath {
            None
        } else {
            match self.menu {
                Some(ContextMenuTarget::Row(i)) => if i < self.results.len() {
                    match self.results[i as int].action {
                        ActionView::Launch { path, .. } => Some(path),
                        _ => None,
                    }
                } else {
                    None
                },
                _ => None,
            }
        }
    }
}

// --- Editing the query ---

impl IssenApp {
    pub fn text_left(&mut self)
        ensures
            final(self)@ == (AppState { input: old(self)@.input.left(), ..old(self)@ }),
            final(self).strings == old(self).strings,
    {
        self.input.on_left();
    }

    pub fn text_right(&mut self)
        ensures
            final(self)@ == (AppState { input: old(self)@.input.right(), ..old(self)@ }),
            final(self).strings == old(self).strings,
    {
        self.input.on_right();
    }

    pub fn select_left(&mut self)
        ensures
            final(self)@ == (AppState { input: old(self)@.input.selected_to(old(self)@.input.previous(old(self)@.input.cursor())), ..old(self)@ }),
            final(self).strings == old(self).strings,
    {
        self.input.on_select_left();
    }

    pub fn select_right(&mut self)
        ensures
            final(self)@ == (AppState { input: old(self)@.input.selected_to(old(self)@.input.next(old(self)@.input.cursor())), ..old(self)@ }),
            final(self).strings == old(self).strings,
    {
        self.input.on_select_right();
    }

    pub fn select_all(&mut self)
        ensures
            final(self)@ == (AppState { input: old(self)@.input.all_selected(), ..old(self)@ }),
            final(self).strings == old(self).strings,
    {
        self.input.on_select_all();
    }

    pub fn home(&mut self)
        ensures
            final(self)@ == (AppState { input: old(self)@.input.moved_to(0), ..old(self)@ }),
            final(self).strings == old(self).strings,
    {
        self.input.on_home();
    }

    pub fn end(&mut self)
        ensures
            final(self)@ == (AppState { input: old(self)@.input.moved_to(byte_len(old(self)@.input.text) as usize), ..old(self)@ }),
            final(self).strings == old(self).strings,
    {
        self.input.on_end();
    }

    /// Deletes backwards; a search has to follow an edit.
    pub fn text_backspace(&mut self) -> (outcome: EditOutcome)
        requires
            old(self)@.input.editable(),
        ensures
            match old(self)@.input.deleted_to(
                old(self)@.input.previous(old(self)@.input.cursor()),
            ) {
                Some(input) => outcome == EditOutcome::Edited && final(self)@ == old(
                    self,
                )@.edited(input),
                None => outcome == EditOutcome::Bell && final(self)@ == old(self)@,
            },
            final(self).strings == old(self).strings,
    {
        let outcome = self.input.on_backspace();
        if outcome == EditOutcome::Edited {
            self.history_panel_open = false;
        }
        outcome
    }

    /// Deletes forwards; a search has to follow an edit.
    pub fn text_delete(&mut self) -> (outcome: EditOutcome)
        requires
            old(self)@.input.editable(),
        ensures
            match old(self)@.input.deleted_to(old(self)@.input.next(old(self)@.input.cursor())) {
                Some(input) => outcome == EditOutcome::Edited && final(self)@ == old(
                    self,
                )@.edited(input),
                None => outcome == EditOutcome::Bell && final(self)@ == old(self)@,
            },
            final(self).strings == old(self).strings,
    {
        let outcome = self.input.on_delete();
        if outcome == EditOutcome::Edited {
            self.history_panel_open = false;
        }
        outcome
    }

    pub fn on_mouse_down(&mut self, hit: MouseHit, shift: bool)
        ensures
            final(self)@ == (AppState {
                input: InputState {
                    selecting: true,
                    ..if shift {
                        old(self)@.input.selected_to(old(self)@.input.offset_at(hit))
                    } else {
                        old(self)@.input.moved_to(old(self)@.input.offset_at(hit))
                    }
                },
                ..old(self)@
            }),
            final(self).strings == old(self).strings,
    {
        self.input.on_mouse_down(hit, shift);
    }

    pub fn on_mouse_up(&mut self)
        ensures
            final(self)@ == (AppState {
                input: InputState { selecting: false, ..old(self)@.input },
                ..old(self)@
            }),
            final(self).strings == old(self).strings,
    {
        self.input.on_mouse_up();
    }

    pub fn on_mouse_move(&mut self, hit: MouseHit)
        ensures
            final(self)@ == (AppState {
                input: if old(self)@.input.selecting {
                    old(self)@.input.selected_to(old(self)@.input.offset_at(hit))
                } else {
                    old(self)@.input
                },
                ..old(self)@
            }),
            final(self).strings == old(self).strings,
    {
        self.input.on_mouse_move(hit);
    }

    /// Pastes the clipboard's text, if it holds any; then a search has to
    /// follow.
    pub fn paste(&mut self, clipboard: Option<&str>) -> (search: bool)
        requires
            old(self)@.input.editable(),
        ensures
            search == (clipboard is Some),
            final(self)@ == match clipboard {
                Some(text) => old(self)@.edited(
                    old(self)@.input.replaced(
                        old(self)@.input.edited_span(None),
                        on_one_line(text@),
                    ),
                ),
                None => old(self)@,
            },
            final(self).strings == old(self).strings,
    {
        self.input.on_paste(clipboard);
        if clipboard.is_some() {
            self.history_panel_open = false;
        }
        clipboard.is_some()
    }

    /// What goes to the clipboard: the selected text, or else the path of the
    /// selected result.
    pub fn copy(&self) -> (r: Option<String>)
        requires
            self@.input.selection.spec_is_empty() || self@.input.selection.fits(self@.input.text),
        ensures
            match self@.copied() {
                Some(text) => r matches Some(s) && s@ == text,
                None => r is None,
            },
    {
        let selected = self.input.on_copy();
        if selected.is_some() {
            return selected;
        }
        if self.selected < self.results.len() {
            let result = &self.results[self.selected];
            assert(self@.results[self.selected as int] == result@);
            if let Action::Launch { path, .. } = &result.action {
                return Some(path.clone());
            }
        }
        None
    }

    /// Takes the selected text out; then a search has to follow.
    pub fn cut(&mut self) -> (r: Option<String>)
        requires
            old(self)@.input.selection.spec_is_empty() || old(self)@.input.editable() && old(
                self,
            )@.input.selection.fits(old(self)@.input.text),
        ensures
            match old(self)@.input.selected_text() {
                Some(text) => r matches Some(s) && s@ == text && final(self)@ == old(
                    self,
                )@.edited(
                    old(self)@.input.replaced(old(self)@.input.edited_span(None), Seq::empty()),
                ),
                None => r is None && final(self)@ == old(self)@,
            },
            final(self).strings == old(self).strings,
    {
        let r = self.input.on_cut();
        if r.is_some() {
            self.history_panel_open = false;
        }
        r
    }

    /// Takes text from the keyboard or an input method; a search has to follow.
    pub fn replace_text_in_range(&mut self, range_utf16: Option<Span>, new_text: &str)
        requires
            range_utf16 is None ==> old(self)@.input.editable(),
        ensures
            final(self)@ == old(self)@.edited(
                old(self)@.input.replaced(old(self)@.input.edited_span(range_utf16), new_text@),
            ),
            final(self).strings == old(self).strings,
    {
        self.input.replace_text_in_range(range_utf16, new_text);
        self.history_panel_open = false;
    }

    /// Takes text that an input method is still composing; a search has to
    /// follow.
    pub fn replace_and_mark_text_in_range(
        &mut self,
        range_utf16: Option<Span>,
        new_text: &str,
        new_selected_range_utf16: Option<Span>,
    )
        requires
            range_utf16 is None ==> old(self)@.input.editable(),
        ensures
            final(self)@ == old(self)@.edited(
                old(self)@.input.composed(
                    old(self)@.input.edited_span(range_utf16),
                    new_text@,
                    new_selected_range_utf16,
                ),
            ),
            final(self).strings == old(self).strings,
    {
        self.input.replace_and_mark_text_in_range(range_utf16, new_text, new_selected_range_utf16);
        self.history_panel_open = false;
    }

    pub fn unmark_text(&mut self)
        ensures
            final(self)@ == (AppState {
                input: InputState { marked: None, ..old(self)@.input },
                ..old(self)@
            }),
            final(self).strings == old(self).strings,
    {
        self.input.unmark_text();
    }
}

impl AppState {
    pub open spec fn copied(self) -> Option<Seq<char>> {
        if self.input.selected_text() is Some {
            self.input.selected_text()
        } else {
            match self.current() {
                Some(r) => match r.action {
                    ActionView::Launch { path, .. } => Some(path),
                    _ => None,
                },
                None => None,
            }
        }
    }
}

// --- Rows ---

/// A result as it is shown.
#[derive(Debug)]
pub struct ResultRow {
    pub title: String,
    pub subtitle: String,
    /// The key that runs it.
    pub hint: String,
    pub selected: bool,
    pub pinned: bool,
}

pub struct ResultRowView {
    pub title: Seq<char>,
    pub subtitle: Seq<char>,
    pub hint: Seq<char>,
    pub selected: bool,
    pub pinned: bool,
}

impl View for ResultRow {
    type V = ResultRowView;

    open spec fn view(&self) -> ResultRowView {
        ResultRowView {
            title: self.title@,
            subtitle: self.subtitle@,
            hint: self.hint@,
            selected: self.selected,
            pinned: self.pinned,
        }
    }
}

pub open spec fn result_row_views(rows: Seq<ResultRow>) -> Seq<ResultRowView> {
    rows.map_values(|r: ResultRow| r@)
}

/// The rows below the search box.
#[derive(Debug)]
pub enum Rows {
    /// There are no past queries.
    Note(&'static str),
    Queries(Vec<String>),
    Results(Vec<ResultRow>),
}

pub enum RowsView {
    Note(&'static str),
    Queries(Seq<Seq<char>>),
    Results(Seq<ResultRowView>),
}

impl View for Rows {
    type V = RowsView;

    open spec fn view(&self) -> RowsView {
        match self {
            Rows::Note(text) => RowsView::Note(text),
            Rows::Queries(queries) => RowsView::Queries(texts(queries@)),
            Rows::Results(rows) => RowsView::Results(result_row_views(rows@)),
        }
    }
}

/// The key that runs a row: Enter for the first, Alt and its number for others.
pub open spec fn row_hint(i: int) -> Seq<char> {
    if i == 0 {
        "\u{23ce}"@
    } else {
        "Alt+"@ + decimal_of((i + 1) as nat)
    }
}

impl AppState {
    pub open spec fn result_row(self, i: int) -> ResultRowView {
        ResultRowView {
            title: self.results[i].title,
            subtitle: self.results[i].subtitle,
            hint: row_hint(i),
            selected: i == self.selected,
            pinned: is_pinned(self.history, self.results[i]),
        }
    }

    /// The rows below the search box.
    pub open spec fn rows(self, s: Strings) -> RowsView {
        if self.panel {
            if self.history.queries.len() == 0 {
                RowsView::Note(s.history_empty)
            } else {
                RowsView::Queries(self.history.queries.take(self.row_count()))
            }
        } else {
            RowsView::Results(
                Seq::new(self.row_count() as nat, |i: int| self.result_row(i)),
            )
        }
    }
}

fn hint_text(i: usize) -> (r: String)
    requires
        i < MAX_VISIBLE_ROWS,
    ensures
        r@ == row_hint(i as int),
{
    if i == 0 {
        "\u{23ce}".to_owned()
    } else {
        let mut r = "Alt+".to_owned();
        r.append(decimal(i as u64 + 1).as_str());
        r
    }
}

impl IssenApp {
    /// The rows below the search box.
    pub fn render_rows(&self) -> (r: Rows)
        ensures
            r@ == self@.rows(self.strings),
    {
        let n: usize = self.shown_rows();
        if self.history_panel_open {
            if self.history.queries.len() == 0 {
                return Rows::Note(self.strings.history_empty);
            }
            let mut queries: Vec<String> = Vec::new();
            let mut i: usize = 0;
            assert(texts(queries@) =~= self@.history.queries.take(0));
            while i < n
                invariant
                    i <= n <= self.history.queries@.len(),
                    texts(queries@) == self@.history.queries.take(i as int),
                decreases n - i,
            {
                let ghost before = queries@;
                queries.push(self.history.queries[i].clone());
                i += 1;
                assert(texts(queries@) =~= texts(before).push(self@.history.queries[i - 1]));
                assert(texts(queries@) =~= self@.history.queries.take(i as int));
            }
            return Rows::Queries(queries);
        }
        let mut rows: Vec<ResultRow> = Vec::new();
        let mut i: usize = 0;
        while i < n
            invariant
                i <= n <= self.results@.len(),
                n <= MAX_VISIBLE_ROWS,
                rows@.len() == i,
                forall|j: int|
                    0 <= j < i ==> (#[trigger] result_row_views(rows@)[j]) == self@.result_row(j),
            decreases n - i,
        {
            let result = &self.results[i];
            assert(self@.results[i as int] == result@);
            let row = ResultRow {
                title: result.title.clone(),
                subtitle: result.subtitle.clone(),
                hint: hint_text(i),
                selected: i == self.selected,
                pinned: self.shows_pinned(i),
            };
            let ghost before = rows@;
            rows.push(row);
            assert(result_row_views(rows@) =~= result_row_views(before).push(row@));
            i += 1;
        }
        assert(result_row_views(rows@) =~= Seq::new(
            self@.row_count() as nat,
            |i: int| self@.result_row(i),
        ));
        Rows::Results(rows)
    }

    // --- Scanning ---

    /// What to scan, unless a scan runs already.
    pub fn start_scan(&self) -> (r: Option<ScanConfig>)
        ensures
            r is Some <==> !self@.scanning,
            r matches Some(c) ==> c@ == scan_config_of(self@.config),
    {
        if self.scanning {
            return None;
        }
        Some(ScanConfig::from_config(&self.config))
    }

    /// The scan runs; returns how the tray shows it.
    pub fn scan_started(&mut self) -> (r: ScanDisplay)
        ensures
            final(self)@ == (AppState { scanning: true, ..old(self)@ }),
            final(self).strings == old(self).strings,
            r == scan_display(old(self).strings, true),
    {
        self.scanning = true;
        TrayHandle::set_scanning(&self.strings, true)
    }

    /// The scan is done. Tells how the tray shows it, and whether a search has
    /// to follow.
    pub fn on_scan_finished(&mut self, provider: AppIndexProvider) -> (r: (ScanDisplay, bool))
        ensures
            final(self)@ == (AppState {
                last_scan_count: provider.entries@.len() as usize,
                index: app_views(provider.entries@),
                scanning: false,
                ..old(self)@
            }),
            final(self).strings == old(self).strings,
            r.0 == scan_display(old(self).strings, false),
            r.1 == (old(self)@.input.text.len() > 0),
    {
        self.last_scan_count = provider.len();
        self.app_index = provider;
        self.scanning = false;
        let search = !self.input.text().is_empty();
        (TrayHandle::set_scanning(&self.strings, false), search)
    }

    // --- Language ---

    /// Uses the language of the settings; tells whether it changed, and so the
    /// tray icon has to be rebuilt. `langid` is the display language of Windows.
    pub fn apply_language(&mut self, langid: u16) -> (changed: bool)
        ensures
            changed == (lang_for(old(self)@.config.language, langid) != old(self)@.lang),
            final(self)@ == if changed {
                old(self)@.in_language(lang_for(old(self)@.config.language, langid))
            } else {
                old(self)@
            },
            final(self).strings == if changed {
                strings_in(lang_for(old(self)@.config.language, langid))
            } else {
                old(self).strings
            },
    {
        let lang = resolve(self.config.language, langid);
        if lang == self.lang {
            return false;
        }
        self.lang = lang;
        self.strings = Strings::for_lang(lang);
        self.input.placeholder = self.strings.search_hint.to_owned();
        true
    }

    /// How the tray shows whether a scan runs.
    pub fn tray_display(&self) -> (r: ScanDisplay)
        ensures
            r == scan_display(self.strings, self@.scanning),
    {
        TrayHandle::set_scanning(&self.strings, self.scanning)
    }

    /// What the settings window needs to know.
    pub fn snapshot(&self, minutes_since_scan: Option<u64>) -> (r: AppSnapshot)
        ensures
            r.config@ == self@.config,
            r.strings == self.strings,
            r.scanning == self@.scanning,
            r.minutes_since_scan == minutes_since_scan,
            r.last_scan_count == self@.last_scan_count,
    {
        AppSnapshot {
            config: self.config.clone(),
            strings: self.strings,
            scanning: self.scanning,
            minutes_since_scan,
            last_scan_count: self.last_scan_count,
        }
    }
}

impl AppState {
    pub open spec fn in_language(self, lang: Lang) -> AppState {
        AppState {
            lang,
            input: InputState { placeholder: strings_in(lang).search_hint@, ..self.input },
            ..self
        }
    }
}

// --- Tray, tools and keys ---

/// Another window of the launcher.
#[derive(Clone, Copy, PartialEq, Eq, Structural, Debug)]
pub enum Secondary {
    Settings,
    About,
}

/// What the tray asks for, in this order.
#[derive(Clone, Copy, PartialEq, Eq, Structural, Debug)]
pub struct TrayStep {
    pub show: bool,
    pub open: Option<Secondary>,
    pub scan: bool,
}

/// What a choice in the tray does. Settings and About bring the main window up,
/// too.
pub fn handle_tray_action(action: TrayAction) -> (r: TrayStep)
    ensures
        r == match action {
            TrayAction::Open => TrayStep { show: true, open: None, scan: false },
            TrayAction::Settings => TrayStep {
                show: true,
                open: Some(Secondary::Settings),
                scan: false,
            },
            TrayAction::Reindex => TrayStep { show: false, open: None, scan: true },
            TrayAction::About => TrayStep {
                show: true,
                open: Some(Secondary::About),
                scan: false,
            },
        },
{
    match action {
        TrayAction::Open => TrayStep { show: true, open: None, scan: false },
        TrayAction::Settings => TrayStep {
            show: true,
            open: Some(Secondary::Settings),
            scan: false,
        },
        TrayAction::Reindex => TrayStep { show: false, open: None, scan: true },
        TrayAction::About => TrayStep { show: true, open: Some(Secondary::About), scan: false },
    }
}

/// What a click on a tool's button does.
#[derive(Clone, Copy, PartialEq, Eq, Structural, Debug)]
pub enum ToolStep {
    Close,
    /// Open the window on the tool, or switch an open one to it.
    Open(ToolKind),
}

/// A click on the button of the tool that shows closes its window.
pub fn toggle_tool(shown: Option<ToolKind>, kind: ToolKind) -> (r: ToolStep)
    ensures
        r == if shown == Some(kind) {
            ToolStep::Close
        } else {
            ToolStep::Open(kind)
        },
{
    match shown {
        Some(k) => if k == kind {
            ToolStep::Close
        } else {
            ToolStep::Open(kind)
        },
        None => ToolStep::Open(kind),
    }
}

/// The tool that a debugging variable names.
pub fn debug_tool(name: &str) -> (r: Option<ToolKind>)
    ensures
        r == if name@ == "color-picker"@ {
            Some(ToolKind::ColorPicker)
        } else if name@ == "unit-converter"@ {
            Some(ToolKind::UnitConverter)
        } else {
            None
        },
{
    if same_text(name, "color-picker") {
        Some(ToolKind::ColorPicker)
    } else if same_text(name, "unit-converter") {
        Some(ToolKind::UnitConverter)
    } else {
        None
    }
}

/// The style of a window that neither the taskbar nor the window switcher
/// shows.
pub const WS_EX_TOOLWINDOW: u32 = 0x80;

/// A window style with that of a tool window.
pub fn with_tool_window_style(style: u32) -> (r: u32)
    ensures
        r == style | WS_EX_TOOLWINDOW,
        r & WS_EX_TOOLWINDOW == WS_EX_TOOLWINDOW,
{
    assert((style | 0x80u32) & 0x80u32 == 0x80u32) by (bit_vector);
    style | WS_EX_TOOLWINDOW
}

/// What a key does in the main window.
#[derive(Clone, Copy, PartialEq, Eq, Structural, Debug)]
pub enum AppKey {
    MoveUp,
    MoveDown,
    Confirm,
    RunAsAdmin,
    OpenLocation,
    Escape,
    /// Runs the row at an index.
    RunRow(usize),
    Edit(FieldAction),
}

/// The keystroke of a key's action.
pub open spec fn app_keystroke(key: AppKey) -> Seq<char> {
    match key {
        AppKey::MoveUp => "up"@,
        AppKey::MoveDown => "down"@,
        AppKey::Confirm => "enter"@,
        AppKey::RunAsAdmin => "ctrl-shift-enter"@,
        AppKey::OpenLocation => "ctrl-shift-e"@,
        AppKey::Escape => "escape"@,
        AppKey::RunRow(i) => if i == 1 {
            "alt-2"@
        } else if i == 2 {
            "alt-3"@
        } else if i == 3 {
            "alt-4"@
        } else if i == 4 {
            "alt-5"@
        } else if i == 5 {
            "alt-6"@
        } else if i == 6 {
            "alt-7"@
        } else if i == 7 {
            "alt-8"@
        } else {
            "alt-9"@
        },
        AppKey::Edit(action) => keystroke(action),
    }
}

/// The keys that act on results. The first row has no number key: Enter runs it.
pub open spec fn result_keys() -> Seq<AppKey> {
    seq![
        AppKey::MoveUp,
        AppKey::MoveDown,
        AppKey::Confirm,
        AppKey::RunAsAdmin,
        AppKey::OpenLocation,
        AppKey::Escape,
        AppKey::RunRow(1),
        AppKey::RunRow(2),
        AppKey::RunRow(3),
        AppKey::RunRow(4),
        AppKey::RunRow(5),
        AppKey::RunRow(6),
        AppKey::RunRow(7),
        AppKey::RunRow(8),
    ]
}

/// The keys of the main window that act on results. The search box has the keys
/// of a text field besides.
pub fn result_key_bindings() -> (r: Vec<(&'static str, AppKey)>)
    ensures
        forall|i: int| 0 <= i < r@.len() ==> (#[trigger] r@[i]).0@ == app_keystroke(r@[i].1),
        r@.map_values(|b: (&'static str, AppKey)| b.1) == result_keys(),
{
    let r = vec![
        ("up", AppKey::MoveUp),
        ("down", AppKey::MoveDown),
        ("enter", AppKey::Confirm),
        ("ctrl-shift-enter", AppKey::RunAsAdmin),
        ("ctrl-shift-e", AppKey::OpenLocation),
        ("escape", AppKey::Escape),
        ("alt-2", AppKey::RunRow(1)),
        ("alt-3", AppKey::RunRow(2)),
        ("alt-4", AppKey::RunRow(3)),
        ("alt-5", AppKey::RunRow(4)),
        ("alt-6", AppKey::RunRow(5)),
        ("alt-7", AppKey::RunRow(6)),
        ("alt-8", AppKey::RunRow(7)),
        ("alt-9", AppKey::RunRow(8)),
    ];
    assert(r@.map_values(|b: (&'static str, AppKey)| b.1) =~= result_keys());
    r
}

// --- Laws ---

/// After a search, pinned results come before all others, and among them the use
/// count decides: the one that was used more often comes first.
pub proof fn law_pinned_results_lead(
    app: AppState,
    everything: EverythingProvider,
    plugins: PluginProvider,
    i: int,
    j: int,
)
    requires
        0 <= i < j < app.searched(everything, plugins).results.len(),
        is_pinned(app.history, app.searched(everything, plugins).results[j]),
    ensures
        is_pinned(app.history, app.searched(everything, plugins).results[i]),
        uses(app.history, app.searched(everything, plugins).results[i]) >= uses(
            app.history,
            app.searched(everything, plugins).results[j],
        ),
{
    law_pinned_first(app.history, app.found(everything, plugins), i, j);
    law_pinned_by_use(app.history, app.found(everything, plugins), i, j);
}

/// Hiding forgets what was typed, found and opened, and shrinks the window;
/// hiding again changes nothing.
pub proof fn law_hidden(app: AppState)
    requires
        app.visible,
    ensures
        !app.hidden().visible,
        app.hidden().input.text.len() == 0,
        app.hidden().results.len() == 0,
        app.hidden().selected == 0,
        !app.hidden().panel,
        app.hidden().menu is None,
        app.hidden().height == WINDOW_HEIGHT,
        app.hidden().history == app.history,
        app.hidden().index == app.index,
        app.hidden().config == app.config,
        app.hidden().hidden() == app.hidden(),
{
}

/// Showing changes nothing but that the window is shown, and has not been active
/// yet; showing again changes nothing.
pub proof fn law_shown(app: AppState)
    ensures
        app.shown().visible,
        app.shown().shown() == app.shown(),
        app.shown().results == app.results,
        app.shown().input == app.input,
        !app.visible ==> !app.shown().seen_active,
{
}

/// The window hides only where it lost the focus that it had since it was shown,
/// and where no other window of the launcher is open.
pub proof fn law_hides_on_lost_focus_only(app: AppState, active: bool, secondary_open: bool)
    requires
        app.visible,
    ensures
        !app.activated(active, secondary_open).visible <==> !active && !secondary_open
            && app.seen_active,
{
}

/// A window that was just shown does not hide before it was active.
pub proof fn law_shown_window_stays(app: AppState, secondary_open: bool)
    requires
        !app.visible,
    ensures
        app.shown().activated(false, secondary_open) == app.shown(),
{
}

/// The selection is that of a result, or there are no results.
pub open spec fn selection_wf(app: AppState) -> bool {
    app.selected < app.results.len() || app.results.len() == 0
}

/// A search selects the first result; up and down keep within the results, and
/// undo each other in between.
pub proof fn law_selection_stays_in_range(
    app: AppState,
    everything: EverythingProvider,
    plugins: PluginProvider,
)
    ensures
        selection_wf(app.searched(everything, plugins)),
        app.searched(everything, plugins).selected == 0,
        selection_wf(app) ==> selection_wf(app.moved_up()) && selection_wf(app.moved_down()),
        selection_wf(app) && app.selected + 1 < app.results.len() && app.results.len() <= usize::MAX
            ==> app.moved_down().moved_up() == app,
        selection_wf(app) && 0 < app.selected < app.results.len() && app.results.len() <= usize::MAX
            ==> app.moved_up().moved_down() == app,
{
    if app.selected + 1 < app.results.len() && app.results.len() <= usize::MAX {
        assert(app.moved_down().moved_up() =~= app);
    }
    if 0 < app.selected < app.results.len() && app.results.len() <= usize::MAX {
        assert(app.moved_up().moved_down() =~= app);
    }
}

/// While past queries are shown, the arrow keys move nothing.
pub proof fn law_panel_suspends_keys(app: AppState)
    requires
        app.panel,
    ensures
        app.moved_up() == app,
        app.moved_down() == app,
{
}

/// Every edit of the query puts past queries away.
pub proof fn law_edit_closes_panel(app: AppState, input: InputState)
    ensures
        !app.edited(input).panel,
        app.edited(input).input == input,
        app.edited(input).history == app.history,
{
}

/// A run that failed changes nothing, except that the containing folder is not
/// waited for.
pub proof fn law_failed_run_changes_nothing(app: AppState, kind: ResultActionKind)
    requires
        kind != ResultActionKind::OpenLocation,
    ensures
        app.after_run(kind, false) == app,
{
}

/// A result that was run is pinned from then on, with one more use; copied text
/// is not.
pub proof fn law_run_pins_the_result(app: AppState)
    requires
        app.current() is Some,
    ensures
        ({
            let r = app.current()->0;
            let after = app.after_run(ResultActionKind::Default, true);
            if r.action is CopyToClipboard {
                after.history.entries == app.history.entries
            } else {
                &&& after.history.is_pinned(key_of(r.action))
                &&& after.history.entries == app.history.used(key_of(r.action)).entries
            }
        }),
{
    let r = app.current()->0;
    let key = key_of(r.action);
    crate::history::law_record_use(app.history, key, key);
}

/// Running a result keeps the past queries distinct, trimmed and few, and puts
/// the query first.
pub proof fn law_run_remembers_the_query(app: AppState)
    requires
        app.request(ResultActionKind::Default) is Some,
        app.history.queries_wf(),
    ensures
        ({
            let after = app.after_run(ResultActionKind::Default, true).history;
            &&& after.queries_wf()
            &&& trimmed(app.input.text).len() > 0 ==> after.queries.len() > 0 && after.queries[0]
                == trimmed(app.input.text)
            &&& trimmed(app.input.text).len() == 0 ==> after.queries == app.history.queries
        }),
{
    let used = match app.current() {
        Some(r) => match r.action {
            ActionView::CopyToClipboard(_) => app.history,
            _ => app.history.used(key_of(r.action)),
        },
        None => app.history,
    };
    assert(used.queries == app.history.queries);
    crate::history::law_record_query(used, app.input.text);
}

/// The window is never higher than eight rows and an open menu need, and has room
/// for the search box.
pub proof fn law_height_is_bounded(app: AppState)
    ensures
        WINDOW_HEIGHT <= app.needed_height() <= WINDOW_HEIGHT + MAX_VISIBLE_ROWS
            * RESULT_ROW_HEIGHT + CONTEXT_MENU_HEADROOM,
{
}

/// A result with this title and this action is among the results.
pub open spec fn lists(results: Seq<ResultView>, title: Seq<char>, action: ActionView) -> bool {
    exists|k: int|
        0 <= k < results.len() && (#[trigger] results[k]).title == title && results[k].action
            == action
}

/// A search finds this result: it is among the findings that are ranked, and among the
/// results, unless fifty of them are listed.
pub open spec fn finds(
    app: AppState,
    everything: EverythingProvider,
    plugins: PluginProvider,
    title: Seq<char>,
    action: ActionView,
) -> bool {
    let results = app.searched(everything, plugins).results;
    &&& lists(app.found(everything, plugins), title, action)
    &&& lists(results, title, action) || results.len() == 50
}

/// What is found at an index is among the results, unless fifty of them are listed.
proof fn lemma_found_is_listed(
    app: AppState,
    everything: EverythingProvider,
    plugins: PluginProvider,
    p: int,
)
    requires
        0 <= p < app.found(everything, plugins).len(),
    ensures
        finds(
            app,
            everything,
            plugins,
            app.found(everything, plugins)[p].title,
            app.found(everything, plugins)[p].action,
        ),
{
    let found = app.found(everything, plugins);
    let results = app.searched(everything, plugins).results;
    law_findings_are_kept(app.history, found, p);
    law_boost_raises_pinned_scores(app.history, found[p]);
    if results.len() != 50 {
        let k = choose|k: int|
            0 <= k < results.len() && #[trigger] results[k] == boosted(app.history, found[p]);
        assert(results[k].title == found[p].title);
    }
}

/// Every source is asked, whatever the settings: a query that is not empty finds all
/// aliases, settings pages and apps that it matches, in this order; files follow where
/// the file search is on, and then what the plugins returned. Nothing else is found.
pub proof fn law_search_asks_every_source(
    app: AppState,
    everything: EverythingProvider,
    plugins: PluginProvider,
)
    ensures
        ({
            let query = app.input.text;
            let found = app.found(everything, plugins);
            let own = alias_findings(app.config.aliases, query) + settings_findings(
                app.config.custom_windows_shortcuts,
                app.lang,
                query,
            ) + app_findings(app.index, query);
            let files = hit_findings(hit_views(everything.hits@), query);
            let extra = plugin_findings(query, plugins.returned@);
            &&& query.len() > 0 && app.config.everything_enabled ==> found == own + files + extra
            &&& query.len() > 0 && !app.config.everything_enabled ==> found == own + extra
            &&& query.len() == 0 ==> found == extra
        }),
{
    let query = app.input.text;
    let own = alias_findings(app.config.aliases, query) + settings_findings(
        app.config.custom_windows_shortcuts,
        app.lang,
        query,
    ) + app_findings(app.index, query);
    let extra = plugin_findings(query, plugins.returned@);
    if query.len() > 0 {
        assert(own + Seq::<ResultView>::empty() =~= own);
    } else {
        assert(Seq::<ResultView>::empty() + Seq::<ResultView>::empty() + extra =~= extra);
    }
}

/// Whatever the settings, a query that is a subsequence of the label, in the display
/// language, or of a keyword of a built-in settings page finds that page, which opens
/// its own address.
pub proof fn law_search_finds_settings_pages(
    app: AppState,
    everything: EverythingProvider,
    plugins: PluginProvider,
    i: int,
)
    requires
        app.input.text.len() > 0,
        0 <= i < builtin().len(),
        is_subsequence(app.input.text, builtin()[i].label(app.lang)) || exists|k: int|
            0 <= k < builtin()[i].keywords.len() && is_subsequence(
                app.input.text,
                #[trigger] builtin()[i].keywords[k],
            ),
    ensures
        finds(
            app,
            everything,
            plugins,
            builtin()[i].label(app.lang),
            ActionView::OpenUri(builtin()[i].uri),
        ),
{
    let query = app.input.text;
    let one = builtin()[i];
    let custom = app.config.custom_windows_shortcuts;
    let found = app.found(everything, plugins);
    law_score_is_handed_out(query, one.label(app.lang));
    if !is_subsequence(query, one.label(app.lang)) {
        let k = choose|k: int|
            0 <= k < one.keywords.len() && is_subsequence(query, #[trigger] one.keywords[k]);
        law_score_is_handed_out(query, one.keywords[k]);
        assert(fuzzy_i32(query, one.keywords[k]) is Some);
    }
    law_page_is_found_once(custom, i, app.lang, query);
    let pages = builtin_findings(builtin(), app.lang, query);
    let shown = page(
        app.lang,
        one.label(app.lang),
        one.uri,
        entry_score(one, app.lang, query)->0,
    );
    let k = choose|k: int| #[trigger] is_only_at(pages, k, shown);
    law_search_asks_every_source(app, everything, plugins);
    let p = alias_findings(app.config.aliases, query).len() + k;
    assert(settings_findings(custom, app.lang, query)[k] == pages[k]);
    assert(found[p] == pages[k]);
    lemma_found_is_listed(app, everything, plugins, p);
}

/// Whatever the settings, a query that is a subsequence of an alias's name finds the
/// alias, which launches its target with its arguments.
pub proof fn law_search_finds_aliases(
    app: AppState,
    everything: EverythingProvider,
    plugins: PluginProvider,
    i: int,
)
    requires
        app.input.text.len() > 0,
        0 <= i < app.config.aliases.len(),
        is_subsequence(app.input.text, app.config.aliases[i].name),
    ensures
        finds(
            app,
            everything,
            plugins,
            app.config.aliases[i].name,
            ActionView::Launch {
                path: app.config.aliases[i].target,
                args: app.config.aliases[i].args,
            },
        ),
{
    let query = app.input.text;
    let aliases = app.config.aliases;
    law_score_is_handed_out(query, aliases[i].name);
    law_alias_is_found(aliases, i, query);
    let all = alias_findings(aliases, query);
    let one = alias_finding(aliases[i], query)->0;
    let k = choose|k: int| 0 <= k < all.len() && all[k] == one;
    law_search_asks_every_source(app, everything, plugins);
    assert(app.found(everything, plugins)[k] == one);
    lemma_found_is_listed(app, everything, plugins, k);
}

/// Whatever the settings, a query that is a subsequence of the label of a page that the
/// user added finds that page, which opens its address.
pub proof fn law_search_finds_custom_pages(
    app: AppState,
    everything: EverythingProvider,
    plugins: PluginProvider,
    i: int,
)
    requires
        app.input.text.len() > 0,
        0 <= i < app.config.custom_windows_shortcuts.len(),
        is_subsequence(app.input.text, app.config.custom_windows_shortcuts[i].label),
    ensures
        finds(
            app,
            everything,
            plugins,
            app.config.custom_windows_shortcuts[i].label,
            ActionView::OpenUri(app.config.custom_windows_shortcuts[i].uri),
        ),
{
    let query = app.input.text;
    let custom = app.config.custom_windows_shortcuts;
    let one = custom[i];
    let p = |c: ShortcutView| is_subsequence(query, c.label);
    let f = |c: ShortcutView|
        ResultView {
            title: c.label,
            subtitle: strings_in(app.lang).windows_settings_subtitle@,
            action: ActionView::OpenUri(c.uri),
            score: fuzzy_i32(query, c.label)->0,
        };
    law_custom_pages_are_found_by_label(custom, app.lang, query);
    broadcast use vstd::seq_lib::group_filter_ensures;

    assert(p(custom[i]));
    assert(custom.filter(p).contains(one));
    let k = choose|k: int| 0 <= k < custom.filter(p).len() && custom.filter(p)[k] == one;
    let pages = settings_findings(custom, app.lang, query);
    let own = settings_findings(Seq::empty(), app.lang, query);
    assert(pages == own + custom.filter(p).map_values(f));
    let q = own.len() + k;
    assert(pages[q] == f(one));
    law_search_asks_every_source(app, everything, plugins);
    let place = alias_findings(app.config.aliases, query).len() + q;
    assert(app.found(everything, plugins)[place] == f(one));
    lemma_found_is_listed(app, everything, plugins, place);
}

/// Whatever the settings, a query that is a subsequence of the title of an app in the
/// index finds the app: one with a path is launched by it, a packaged one is activated.
pub proof fn law_search_finds_apps(
    app: AppState,
    everything: EverythingProvider,
    plugins: PluginProvider,
    i: int,
)
    requires
        app.input.text.len() > 0,
        0 <= i < app.index.len(),
        is_subsequence(app.input.text, app.index[i].title),
    ensures
        finds(
            app,
            everything,
            plugins,
            app.index[i].title,
            match app.index[i].launch {
                LaunchView::Path(path) => ActionView::Launch { path, args: Seq::empty() },
                LaunchView::Uwp(aumid) => ActionView::LaunchUwp { aumid },
            },
        ),
{
    let query = app.input.text;
    let one = app.index[i];
    let p = |a: AppView| is_subsequence(query, a.title);
    law_apps_are_found_by_title(app.index, query);
    broadcast use vstd::seq_lib::group_filter_ensures;

    assert(p(app.index[i]));
    assert(app.index.filter(p).contains(one));
    let k = choose|k: int| 0 <= k < app.index.filter(p).len() && app.index.filter(p)[k] == one;
    let apps = app_findings(app.index, query);
    law_search_asks_every_source(app, everything, plugins);
    let place = alias_findings(app.config.aliases, query).len() + settings_findings(
        app.config.custom_windows_shortcuts,
        app.lang,
        query,
    ).len() + k;
    assert(app.found(everything, plugins)[place] == apps[k]);
    lemma_found_is_listed(app, everything, plugins, place);
}

/// Where the file search is on, a query that is a subsequence of the title of a file
/// that it returned finds the file, which is launched by its path.
pub proof fn law_search_finds_files(
    app: AppState,
    everything: EverythingProvider,
    plugins: PluginProvider,
    i: int,
)
    requires
        app.config.everything_enabled,
        app.input.text.len() > 0,
        0 <= i < everything.hits@.len(),
        everything.hits@[i].full_path@.len() > 0,
        is_subsequence(
            app.input.text,
            match everything.hits@[i].file_name {
                Some(name) => name@,
                None => everything.hits@[i].full_path@,
            },
        ),
    ensures
        finds(
            app,
            everything,
            plugins,
            match everything.hits@[i].file_name {
                Some(name) => name@,
                None => everything.hits@[i].full_path@,
            },
            ActionView::Launch { path: everything.hits@[i].full_path@, args: Seq::empty() },
        ),
{
    let query = app.input.text;
    let hits = hit_views(everything.hits@);
    let one = hits[i];
    assert(one == everything.hits@[i]@);
    let p = |h: HitView|
        h.full_path.len() > 0 && is_subsequence(
            query,
            match h.file_name {
                Some(name) => name,
                None => h.full_path,
            },
        );
    law_files_are_found_by_title(hits, query);
    broadcast use vstd::seq_lib::group_filter_ensures;

    assert(p(hits[i]));
    assert(hits.filter(p).contains(one));
    let k = choose|k: int| 0 <= k < hits.filter(p).len() && hits.filter(p)[k] == one;
    let files = hit_findings(hits, query);
    law_search_asks_every_source(app, everything, plugins);
    let place = alias_findings(app.config.aliases, query).len() + settings_findings(
        app.config.custom_windows_shortcuts,
        app.lang,
        query,
    ).len() + app_findings(app.index, query).len() + k;
    assert(app.found(everything, plugins)[place] == files[k]);
    lemma_found_is_listed(app, everything, plugins, place);
}

/// Every result of a plugin is found, with its own title and action.
pub proof fn law_search_finds_plugin_results(
    app: AppState,
    everything: EverythingProvider,
    plugins: PluginProvider,
    i: int,
)
    requires
        plugins.accepts(app.input.text),
        0 <= i < plugins.returned@.len(),
    ensures
        finds(
            app,
            everything,
            plugins,
            plugins.returned@[i].title@,
            match plugins.returned@[i].action {
                RAction::Launch { path, args } => ActionView::Launch { path: path@, args: args@ },
                RAction::LaunchUwp { aumid } => ActionView::LaunchUwp { aumid: aumid@ },
                RAction::OpenUri(uri) => ActionView::OpenUri(uri@),
                RAction::CopyToClipboard(text) => ActionView::CopyToClipboard(text@),
            },
        ),
{
    let query = app.input.text;
    let extra = plugin_findings(query, plugins.returned@);
    let found = app.found(everything, plugins);
    law_plugin_results_are_listed(query, plugins.returned@, i);
    law_search_asks_every_source(app, everything, plugins);
    let place = found.len() - extra.len() + i;
    assert(found[place] == extra[i]);
    lemma_found_is_listed(app, everything, plugins, place);
}

/// The results of a search are findings: each has the title, the second line and the
/// action of one of them.
pub proof fn law_search_lists_findings_only(
    app: AppState,
    everything: EverythingProvider,
    plugins: PluginProvider,
    k: int,
)
    requires
        0 <= k < app.searched(everything, plugins).results.len(),
    ensures
        exists|j: int|
            0 <= j < app.found(everything, plugins).len() && ({
                let r = app.searched(everything, plugins).results[k];
                let f = #[trigger] app.found(everything, plugins)[j];
                r.title == f.title && r.subtitle == f.subtitle && r.action == f.action
            }),
        app.searched(everything, plugins).input == app.input,
        app.searched(everything, plugins).history == app.history,
        app.searched(everything, plugins).config == app.config,
{
    let found = app.found(everything, plugins);
    law_nothing_is_forced(app.history, found, k);
    let j = choose|j: int|
        0 <= j < found.len() && app.searched(everything, plugins).results[k] == boosted(
            app.history,
            #[trigger] found[j],
        );
    law_boost_raises_pinned_scores(app.history, found[j]);
}

/// What running the selected result asks for. A file or a program is opened by its path,
/// with its arguments where it has any; an address is opened as it is, without a verb and
/// without arguments; a packaged app is activated. Text is copied exactly where the
/// result's action is to copy that text.
pub proof fn law_default_run_does_what_the_result_says(app: AppState)
    requires
        app.selected < app.results.len(),
    ensures
        ({
            let action = app.results[app.selected as int].action;
            let request = app.request(ResultActionKind::Default);
            &&& action matches ActionView::OpenUri(uri) ==> request == Some(
                RunView::Shell(ShellView { operation: None, file: uri, params: None }),
            )
            &&& action matches ActionView::Launch { path, args } ==> request == Some(
                RunView::Shell(
                    ShellView {
                        operation: None,
                        file: path,
                        params: if args.len() > 0 {
                            Some(args)
                        } else {
                            None
                        },
                    },
                ),
            )
            &&& action matches ActionView::LaunchUwp { aumid } ==> request == Some(
                RunView::ActivateApp(aumid),
            )
            &&& action matches ActionView::CopyToClipboard(text) ==> request == Some(
                RunView::CopyText(text),
            )
            &&& request matches Some(RunView::CopyText(text)) ==> action
                == ActionView::CopyToClipboard(text)
        }),
{
}

/// What the other ways to run the selected result ask for. Only what has a path can be
/// run as administrator, by the verb for it, or shown in its folder.
pub proof fn law_other_runs_need_a_path(app: AppState)
    requires
        app.selected < app.results.len(),
    ensures
        ({
            let action = app.results[app.selected as int].action;
            let elevated = app.request(ResultActionKind::RunAsAdmin);
            let folder = app.request(ResultActionKind::OpenLocation);
            &&& !(action is Launch) ==> elevated is None && folder is None
            &&& action matches ActionView::Launch { path, args } ==> elevated == Some(
                RunView::Shell(
                    ShellView {
                        operation: Some("runas"@),
                        file: path,
                        params: if args.len() > 0 {
                            Some(args)
                        } else {
                            None
                        },
                    },
                ),
            ) && folder == Some(
                RunView::Shell(
                    ShellView {
                        operation: None,
                        file: "explorer.exe"@,
                        params: Some("/select,\""@ + path + "\""@),
                    },
                ),
            )
        }),
{
}

/// Without any result, a query that is not blank is opened as it was typed, as a file or
/// a path; it cannot be run in another way. Where there are results but none of them is
/// selected, nothing is run.
pub proof fn law_unmatched_query_is_opened(app: AppState, kind: ResultActionKind)
    requires
        app.selected >= app.results.len(),
    ensures
        app.request(kind) == if kind == ResultActionKind::Default && app.results.len() == 0
            && trimmed(app.input.text).len() > 0 {
            Some(
                RunView::Shell(
                    ShellView { operation: None, file: app.input.text, params: None },
                ),
            )
        } else {
            None
        },
{
}

/// The rows below the search box are as many as there are results, or past queries while
/// these are shown, but at least one of those; at most as many as the settings say, and
/// at most eight. The window is 60 pixels high, 40 more for each row, and 220 more while
/// a menu is open.
pub proof fn law_window_has_room_for_its_rows(app: AppState)
    ensures
        ({
            let n = if !app.panel {
                app.results.len() as int
            } else if app.history.queries.len() == 0 {
                1int
            } else {
                app.history.queries.len() as int
            };
            let rows = app.row_count();
            &&& rows <= n && rows <= app.config.max_results && rows <= 8
            &&& rows == n || rows == app.config.max_results || rows == 8
            &&& app.needed_height() == 60 + 40 * rows + (if app.menu is Some {
                220int
            } else {
                0int
            })
            &&& app.resized() == (AppState { height: app.needed_height() as u32, ..app })
        }),
{
}

/// The arrow keys move the selection by one row and change nothing else; they stop at
/// both ends.
pub proof fn law_arrow_keys_move_by_one(app: AppState)
    requires
        !app.panel,
        app.selected < app.results.len() <= usize::MAX,
    ensures
        app.moved_up() == (AppState {
            selected: if app.selected == 0 {
                0
            } else {
                (app.selected - 1) as usize
            },
            ..app
        }),
        app.moved_down() == (AppState {
            selected: if app.selected + 1 == app.results.len() {
                app.selected
            } else {
                (app.selected + 1) as usize
            },
            ..app
        }),
{
}

/// A run that succeeded hides the window. Only a default run is remembered: with the
/// result that was run, unless it copied text, and with the query. Showing the folder
/// hides the window even where it failed.
pub proof fn law_runs_end(app: AppState, kind: ResultActionKind)
    requires
        app.visible,
        app.request(kind) is Some,
    ensures
        !app.after_run(kind, true).visible,
        !app.after_run(ResultActionKind::OpenLocation, false).visible || app.request(
            ResultActionKind::OpenLocation,
        ) is None,
        kind != ResultActionKind::Default ==> app.after_run(kind, true).history == app.history,
        kind == ResultActionKind::Default ==> app.after_run(kind, true).history == (
        match app.current() {
            Some(r) => if r.action is CopyToClipboard {
                app.history
            } else {
                app.history.used(key_of(r.action))
            },
            None => app.history,
        }).searched(app.input.text),
        app.after_run(kind, true).config == app.config,
        app.after_run(kind, true).index == app.index,
{
}

/// A run is remembered, and so the history is saved, exactly where there is a query to
/// remember or a result other than copied text.
pub proof fn law_what_is_remembered(app: AppState)
    ensures
        app.run_is_remembered() <==> trimmed(app.input.text).len() > 0 || (app.selected
            < app.results.len() && !(app.results[app.selected as int].action is CopyToClipboard)),
{
}

/// An item of a menu has the label for what it does.
pub open spec fn item_fits(item: MenuEntry, s: Strings) -> bool {
    item matches MenuEntry::Item { id, label, command } ==> match command {
        MenuCommand::OpenSettings => label == s.tray_settings && id == "ctx-settings",
        MenuCommand::Reindex => label == s.tray_reindex && id == "ctx-reindex",
        MenuCommand::Quit => label == s.tray_quit && id == "ctx-quit",
        MenuCommand::Run => label == s.action_run && id == "ctx-run",
        MenuCommand::RunAsAdmin => label == s.action_run_as_admin && id == "ctx-run-as-admin",
        MenuCommand::OpenLocation => label == s.action_open_location && id == "ctx-open-location",
        MenuCommand::CopyPath => label == s.action_copy_path && id == "ctx-copy-path",
        MenuCommand::RegisterAlias => label == s.action_register_alias && id
            == "ctx-register-alias",
        MenuCommand::Pin => label == s.action_pin && id == "ctx-pin",
        MenuCommand::Unpin => label == s.action_unpin && id == "ctx-unpin",
    }
}

/// The commands of a menu, from top to bottom, without the separators.
pub open spec fn commands_of(menu: Seq<MenuEntry>) -> Seq<MenuCommand>
    decreases menu.len(),
{
    if menu.len() == 0 {
        Seq::empty()
    } else {
        match menu.last() {
            MenuEntry::Item { command, .. } => commands_of(menu.drop_last()).push(command),
            MenuEntry::Separator => commands_of(menu.drop_last()),
        }
    }
}

proof fn lemma_commands_push(menu: Seq<MenuEntry>, item: MenuEntry)
    requires
        item is Item,
    ensures
        commands_of(menu.push(item)) == commands_of(menu).push(item->command),
{
    assert(menu.push(item).drop_last() =~= menu);
}

/// The menu of a result offers to run it, to make an alias of it, and to pin it, or to
/// unpin it where it is pinned. For what has a path, it also offers to run it as
/// administrator, to show its folder and to copy its path. Every item has its own label.
pub proof fn law_row_menu(r: ResultView, pinned: bool, s: Strings, i: int)
    requires
        0 <= i < row_menu(r, pinned, s).len(),
    ensures
        item_fits(row_menu(r, pinned, s)[i], s),
        ({
            let last = if pinned {
                MenuCommand::Unpin
            } else {
                MenuCommand::Pin
            };
            commands_of(row_menu(r, pinned, s)) == if r.action is Launch {
                seq![
                    MenuCommand::Run,
                    MenuCommand::RunAsAdmin,
                    MenuCommand::OpenLocation,
                    MenuCommand::CopyPath,
                    MenuCommand::RegisterAlias,
                    last,
                ]
            } else {
                seq![MenuCommand::Run, MenuCommand::RegisterAlias, last]
            }
        }),
{
    let none = Seq::<MenuEntry>::empty();
    let run = entry("ctx-run", s.action_run, MenuCommand::Run);
    let admin = entry("ctx-run-as-admin", s.action_run_as_admin, MenuCommand::RunAsAdmin);
    let folder = entry("ctx-open-location", s.action_open_location, MenuCommand::OpenLocation);
    let copy = entry("ctx-copy-path", s.action_copy_path, MenuCommand::CopyPath);
    let alias = entry("ctx-register-alias", s.action_register_alias, MenuCommand::RegisterAlias);
    let last = if pinned {
        entry("ctx-unpin", s.action_unpin, MenuCommand::Unpin)
    } else {
        entry("ctx-pin", s.action_pin, MenuCommand::Pin)
    };
    let head = seq![run];
    assert(none.push(run) =~= head);
    lemma_commands_push(none, run);
    assert(commands_of(head) =~= seq![MenuCommand::Run]);
    let file = if r.action is Launch {
        lemma_commands_push(head, admin);
        lemma_commands_push(head.push(admin), folder);
        lemma_commands_push(head.push(admin).push(folder), copy);
        head.push(admin).push(folder).push(copy)
    } else {
        head
    };
    lemma_commands_push(file, alias);
    lemma_commands_push(file.push(alias), last);
}

/// The menu of the search box offers the settings, a new index and to quit. Every item has
/// its own label.
pub proof fn law_main_menu(s: Strings, i: int)
    requires
        0 <= i < main_menu(s).len(),
    ensures
        item_fits(main_menu(s)[i], s),
        commands_of(main_menu(s)) == seq![
            MenuCommand::OpenSettings,
            MenuCommand::Reindex,
            MenuCommand::Quit,
        ],
{
    let none = Seq::<MenuEntry>::empty();
    let a = entry("ctx-settings", s.tray_settings, MenuCommand::OpenSettings);
    let b = entry("ctx-reindex", s.tray_reindex, MenuCommand::Reindex);
    let c = entry("ctx-quit", s.tray_quit, MenuCommand::Quit);
    lemma_commands_push(none, a);
    lemma_commands_push(none.push(a), b);
    let two = none.push(a).push(b);
    assert(two.push(MenuEntry::Separator).drop_last() =~= two);
    lemma_commands_push(two.push(MenuEntry::Separator), c);
    assert(main_menu(s) =~= two.push(MenuEntry::Separator).push(c));
}

/// The open menu is that of the search box, or that of its result as it is pinned now; a
/// menu whose result is gone is none.
pub proof fn law_open_menu(app: AppState, s: Strings, i: usize)
    ensures
        app.menu is None ==> app.menu_entries(s) is None,
        app.menu == Some(ContextMenuTarget::Main) ==> app.menu_entries(s) == Some(main_menu(s)),
        app.menu == Some(ContextMenuTarget::Row(i)) && i < app.results.len() ==> {
            &&& app.menu_entries(s) == Some(
                row_menu(
                    app.results[i as int],
                    app.history.is_pinned(key_of(app.results[i as int].action)),
                    s,
                ),
            )
            &&& !app.menu_is_stale()
        },
        app.menu == Some(ContextMenuTarget::Row(i)) && i >= app.results.len() ==> app.menu_entries(
            s,
        ) is None && app.menu_is_stale(),
{
}

/// Choosing an item closes the menu. What is then done to the selected result is done to
/// the row of the menu; copying its path, or an item of the main menu, leaves the
/// selection alone.
pub proof fn law_chosen_item(app: AppState, command: MenuCommand, i: usize)
    requires
        app.menu == Some(ContextMenuTarget::Row(i)),
    ensures
        app.chosen(command) == (AppState {
            menu: None,
            selected: if command == MenuCommand::OpenSettings || command == MenuCommand::Reindex
                || command == MenuCommand::Quit || command == MenuCommand::CopyPath {
                app.selected
            } else {
                i
            },
            ..app
        }),
        app.copied_path(command) is Some <==> command == MenuCommand::CopyPath && i
            < app.results.len() && app.results[i as int].action is Launch,
        app.copied_path(command) matches Some(path) ==> app.results[i as int].action->path == path,
{
}

/// Copying takes the selected text of the search box; where none is selected, the path of
/// the selected result, if it has one.
pub proof fn law_copy_takes_text_or_path(app: AppState)
    ensures
        app.input.selected_text() is Some ==> app.copied() == app.input.selected_text(),
        app.input.selected_text() is None && app.selected < app.results.len() ==> (
        match app.results[app.selected as int].action {
            ActionView::Launch { path, .. } => app.copied() == Some(path),
            _ => app.copied() is None,
        }),
        app.input.selected_text() is None && app.selected >= app.results.len() ==> app.copied() is None,
{
}

/// A row shows the title and the second line of its result, whether it is selected and
/// pinned, and the key that runs it: Enter for the first one, and Alt with its number for
/// the others.
pub proof fn law_rows_show_the_results(app: AppState, s: Strings, i: int)
    requires
        !app.panel,
        0 <= i < app.row_count(),
    ensures
        app.rows(s) is Results,
        app.rows(s)->Results_0.len() == app.row_count(),
        ({
            let row = app.rows(s)->Results_0[i];
            &&& row.title == app.results[i].title
            &&& row.subtitle == app.results[i].subtitle
            &&& row.selected == (i == app.selected)
            &&& row.pinned == app.history.is_pinned(key_of(app.results[i].action))
            &&& i == 0 ==> row.hint == "\u{23ce}"@
            &&& i > 0 ==> exists|n: Seq<char>|
                crate::i18n::number_of(n) == i + 1 && row.hint == #[trigger] ("Alt+"@ + n)
        }),
{
    crate::i18n::law_decimal_stands_for_the_number((i + 1) as nat);
    if i > 0 {
        assert(app.rows(s)->Results_0[i].hint == "Alt+"@ + decimal_of((i + 1) as nat));
    }
}

/// While past queries are shown, the newest ones are, in their order; or a note that
/// there are none.
pub proof fn law_rows_show_past_queries(app: AppState, s: Strings, i: int)
    requires
        app.panel,
    ensures
        app.history.queries.len() == 0 ==> app.rows(s) == RowsView::Note(s.history_empty),
        app.history.queries.len() > 0 ==> {
            &&& app.rows(s) is Queries
            &&& app.rows(s)->Queries_0.len() == app.row_count()
            &&& 0 <= i < app.row_count() ==> app.rows(s)->Queries_0[i] == app.history.queries[i]
        },
{
}

/// The keys of the main window: arrows select, Enter runs, with Ctrl and Shift as
/// administrator, Ctrl, Shift and E show the folder, Escape hides, and Alt with a number
/// from two to nine runs that row.
pub proof fn law_keys_of_the_main_window(i: usize)
    ensures
        app_keystroke(AppKey::MoveUp) == "up"@,
        app_keystroke(AppKey::MoveDown) == "down"@,
        app_keystroke(AppKey::Confirm) == "enter"@,
        app_keystroke(AppKey::RunAsAdmin) == "ctrl-shift-enter"@,
        app_keystroke(AppKey::OpenLocation) == "ctrl-shift-e"@,
        app_keystroke(AppKey::Escape) == "escape"@,
        1 <= i <= 8 ==> app_keystroke(AppKey::RunRow(i)) == "alt-"@ + decimal_of((i + 1) as nat),
        1 <= i <= 8 ==> result_keys().contains(AppKey::RunRow(i)),
        result_keys().contains(AppKey::MoveUp),
        result_keys().contains(AppKey::MoveDown),
        result_keys().contains(AppKey::Confirm),
        result_keys().contains(AppKey::RunAsAdmin),
        result_keys().contains(AppKey::OpenLocation),
        result_keys().contains(AppKey::Escape),
        result_keys().len() == 14,
{
    reveal_strlit("alt-");
    reveal_strlit("alt-2");
    reveal_strlit("alt-3");
    reveal_strlit("alt-4");
    reveal_strlit("alt-5");
    reveal_strlit("alt-6");
    reveal_strlit("alt-7");
    reveal_strlit("alt-8");
    reveal_strlit("alt-9");
    let keys = result_keys();
    assert(keys[0] == AppKey::MoveUp && keys[1] == AppKey::MoveDown && keys[2] == AppKey::Confirm
        && keys[3] == AppKey::RunAsAdmin && keys[4] == AppKey::OpenLocation && keys[5]
        == AppKey::Escape);
    if 1 <= i <= 8 {
        let d = (i + 1) as nat;
        vstd::utf8::char_u32_cast(digit(d), (48 + d) as u32);
        assert(decimal_of(d) =~= seq![digit(d)]);
        assert(app_keystroke(AppKey::RunRow(i)) =~= "alt-"@ + decimal_of(d));
        assert(keys[5 + i] == AppKey::RunRow(i));
    }
}

/// Another language changes the hint of the search box and nothing else that is kept.
pub proof fn law_language_changes_the_hint(app: AppState, lang: Lang)
    ensures
        app.in_language(lang).lang == lang,
        app.in_language(lang).input.placeholder == strings_in(lang).search_hint@,
        app.in_language(lang).input.text == app.input.text,
        app.in_language(lang).input.selection == app.input.selection,
        app.in_language(lang).results == app.results,
        app.in_language(lang).config == app.config,
        app.in_language(lang).history == app.history,
        app.in_language(lang).index == app.index,
{
}

/// What is asked of the outside is what the request holds.
pub proof fn law_run_request_is_its_fields(r: RunRequest)
    ensures
        run_view(None) is None,
        r matches RunRequest::Shell(shell) ==> run_view(Some(r)) == Some(RunView::Shell(shell@)),
        r matches RunRequest::ActivateApp(aumid) ==> run_view(Some(r)) == Some(
            RunView::ActivateApp(aumid@),
        ),
        r matches RunRequest::CopyText(text) ==> run_view(Some(r)) == Some(
            RunView::CopyText(text@),
        ),
{
}

/// The window is what its fields hold.
pub proof fn law_window_is_its_fields(app: IssenApp, i: int)
    ensures
        app@.config == app.config@,
        app@.lang == app.lang,
        app@.input == app.input@,
        app@.results.len() == app.results@.len(),
        0 <= i < app.results@.len() ==> app@.results[i] == app.results@[i]@,
        app@.selected == app.selected,
        app@.height == app.content_height,
        app@.visible == app.visible,
        app@.seen_active == app.seen_active_since_show,
        app@.opening == app.opening_secondary_window,
        app@.panel == app.history_panel_open,
        app@.menu == app.context_menu,
        app@.index.len() == app.app_index.entries@.len(),
        0 <= i < app.app_index.entries@.len() ==> {
            let one = app.app_index.entries@[i];
            &&& app@.index[i].title == one.title@
            &&& app@.index[i].subtitle == one.subtitle@
            &&& app@.index[i].source == one.source
            &&& one.launch matches Launch::Path(path) ==> app@.index[i].launch == LaunchView::Path(
                path@,
            )
            &&& one.launch matches Launch::Uwp { aumid } ==> app@.index[i].launch
                == LaunchView::Uwp(aumid@)
        },
        app@.history == app.history@,
        app@.scanning == app.scanning,
        app@.last_scan_count == app.last_scan_count,
{
}

/// Showing, hiding, editing and searching change what they are for, and nothing else.
pub proof fn law_changes_are_local(
    app: AppState,
    input: InputState,
    everything: EverythingProvider,
    plugins: PluginProvider,
    secondary_open: bool,
)
    ensures
        app.shown() == (AppState {
            visible: true,
            seen_active: app.visible && app.seen_active,
            ..app
        }),
        !app.visible ==> app.hidden() == app,
        app.visible ==> app.hidden() == (AppState {
            visible: false,
            input: app.input.with_text(Seq::empty()),
            results: Seq::empty(),
            selected: 0,
            panel: false,
            menu: None,
            height: 60,
            ..app
        }),
        app.edited(input) == (AppState { input, panel: false, ..app }),
        app.searched(everything, plugins) == (AppState {
            results: app.searched(everything, plugins).results,
            selected: 0,
            ..app
        }),
        app.activated(true, secondary_open) == (AppState { seen_active: true, ..app }),
        app.seen_active && !secondary_open ==> app.activated(false, secondary_open)
            == app.hidden(),
        !app.seen_active || secondary_open ==> app.activated(false, secondary_open) == app,
{
}

/// The selected result is the one at the selected place, if there is one.
pub proof fn law_selected_result(app: AppState)
    ensures
        app.selected < app.results.len() ==> app.current() == Some(
            app.results[app.selected as int],
        ),
        app.selected >= app.results.len() ==> app.current() is None,
{
}

/// What a run leaves. Nothing changes where nothing was asked for, or where a run other
/// than showing the folder failed; otherwise the window hides, and after a default run
/// the history is the new one.
pub proof fn law_state_after_a_run(app: AppState, kind: ResultActionKind, succeeded: bool)
    ensures
        app.request(kind) is None ==> app.after_run(kind, succeeded) == app,
        app.request(kind) is Some && !succeeded && kind != ResultActionKind::OpenLocation
            ==> app.after_run(kind, succeeded) == app,
        app.request(kind) is Some && kind == ResultActionKind::OpenLocation ==> app.after_run(
            kind,
            succeeded,
        ) == app.hidden(),
        app.request(kind) is Some && succeeded && kind == ResultActionKind::RunAsAdmin
            ==> app.after_run(kind, succeeded) == app.hidden(),
        app.request(kind) is Some && succeeded && kind == ResultActionKind::Default ==> ({
            let after = app.after_run(kind, succeeded);
            after == AppState { history: after.history, ..app }.hidden()
        }),
{
}

/// An item of the main menu closes the menu and changes nothing else, and copies nothing.
pub proof fn law_chosen_main_item(app: AppState, command: MenuCommand)
    requires
        app.menu == Some(ContextMenuTarget::Main) || app.menu is None,
    ensures
        app.chosen(command) == (AppState { menu: None, ..app }),
        app.copied_path(command) is None,
{
}

/// The sizes and the times of the main window: it is 640 pixels wide and parked 8000 pixels
/// off the screen while it is hidden, its background lets a fifth of what is behind it
/// through, and the index is rebuilt every half hour.
pub proof fn law_sizes_and_times()
    ensures
        WINDOW_WIDTH == 640,
        OFFSCREEN == -8000,
        GLASS_OPACITY_PERCENT == 80,
        PERIODIC_RESCAN_SECONDS == 30 * 60,
        KEY_CONTEXT@ == "issen-search"@,
        WS_EX_TOOLWINDOW == 0x80,
{
}

} // verus!
