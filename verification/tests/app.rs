use issen::app::{
    debug_tool, handle_tray_action, result_key_bindings, toggle_tool, with_tool_window_style,
    AppKey, ContextMenuTarget, IssenApp, MenuCommand, MenuEntry, ResultActionKind, Rows,
    RunRequest, Secondary, ToolStep, WINDOW_HEIGHT,
};
use issen::config::{AliasEntry, Config, Language};
use issen::history::History;
use issen::i18n::Lang;
use issen::plugin_example;
use issen::search::app_index::{AppIndexProvider, AppSource, IndexedApp, Launch};
use issen::search::everything::{EverythingHit, EverythingProvider};
use issen::search::plugin::PluginProvider;
use issen::search::Action;
use issen::text_input::{EditOutcome, MouseHit, Span};
use issen::tools::ToolKind;
use issen::tray::TrayAction;

const ENGLISH: u16 = 0x0409;
const JAPANESE: u16 = 0x0411;

fn launcher() -> IssenApp {
    let mut config = Config::default();
    config.aliases.push(AliasEntry {
        name: "calc".to_string(),
        target: "C:\\calc.exe".to_string(),
        args: "-x".to_string(),
    });
    let mut app = IssenApp::new(config, History::default(), ENGLISH);
    app.on_scan_finished(AppIndexProvider {
        entries: vec![
            IndexedApp {
                title: "Calendar".to_string(),
                subtitle: "UWP".to_string(),
                launch: Launch::Uwp { aumid: "Cal_1!App".to_string() },
                source: AppSource::Uwp,
            },
            IndexedApp {
                title: "Calibre".to_string(),
                subtitle: "C:\\calibre.exe".to_string(),
                launch: Launch::Path("C:\\calibre.exe".to_string()),
                source: AppSource::StartMenu,
            },
        ],
    });
    app.show();
    app
}

fn search(app: &mut IssenApp) {
    app.run_search(
        &EverythingProvider { hits: Vec::new() },
        &PluginProvider { returned: Vec::new() },
    );
    app.sync_window_height();
}

fn typed(text: &str) -> IssenApp {
    let mut app = launcher();
    app.replace_text_in_range(None, text);
    search(&mut app);
    app
}

fn titles(app: &IssenApp) -> Vec<&str> {
    app.results.iter().map(|r| r.title.as_str()).collect()
}

#[test]
fn a_new_launcher_is_hidden_and_empty() {
    let app = IssenApp::new(Config::default(), History::default(), JAPANESE);
    assert!(!app.visible);
    assert_eq!(app.lang, Lang::Ja);
    assert_eq!(app.content_height, WINDOW_HEIGHT);
    assert_eq!(app.input.text(), "");
    assert_eq!(app.input.placeholder, app.strings.search_hint);
}

#[test]
fn a_search_asks_every_provider() {
    let mut app = launcher();
    app.config.everything_enabled = true;
    app.replace_text_in_range(None, "ex");
    let plan = app.plan_search();
    assert_eq!(plan.query, "ex");
    assert!(plan.ask_everything);
    app.run_search(
        &EverythingProvider {
            hits: vec![EverythingHit {
                full_path: "C:\\ex.txt".to_string(),
                file_name: Some("ex.txt".to_string()),
            }],
        },
        &PluginProvider { returned: plugin_example::search("ex") },
    );
    assert!(titles(&app).contains(&"ex.txt"));
    assert!(titles(&app).contains(&"Example Plugin Result"));
    app.config.everything_enabled = false;
    assert!(!app.plan_search().ask_everything);
    search(&mut app);
    assert!(!titles(&app).contains(&"ex.txt"));
}

#[test]
fn an_empty_query_finds_nothing_by_itself() {
    let mut app = launcher();
    search(&mut app);
    assert!(app.results.is_empty());
    assert!(!app.plan_search().ask_everything);
}

#[test]
fn the_window_grows_with_its_rows() {
    let mut app = typed("cal");
    assert_eq!(app.visible_rows_cap(), 6);
    assert!(app.results.len() >= 3);
    let rows = app.results.len().min(6) as u32;
    assert_eq!(app.content_height, 60 + 40 * rows);
    assert_eq!(app.sync_window_height(), None);
    app.open_main_context_menu();
    assert_eq!(app.sync_window_height(), Some(60 + 40 * rows + 220));
    app.close_context_menu();
    app.config.max_results = 1;
    assert_eq!(app.sync_window_height(), Some(100));
    app.config.max_results = 50;
    assert_eq!(app.visible_rows_cap(), 8);
}

#[test]
fn hiding_forgets_everything_that_was_typed() {
    let mut app = typed("cal");
    app.move_down();
    assert!(app.hide_window());
    assert!(!app.visible);
    assert_eq!(app.input.text(), "");
    assert!(app.results.is_empty());
    assert_eq!(app.selected, 0);
    assert_eq!(app.content_height, WINDOW_HEIGHT);
    assert!(!app.hide_window());
    assert!(app.show());
    assert!(!app.show());
}

#[test]
fn losing_the_focus_hides_the_window() {
    let mut app = launcher();
    // It was not active yet.
    assert!(!app.on_activation(false, false));
    assert!(!app.on_activation(true, false));
    assert!(!app.on_activation(false, true));
    assert!(app.visible);
    assert!(app.on_activation(false, false));
    assert!(!app.visible);
}

#[test]
fn other_windows_of_the_launcher_are_known() {
    let mut app = launcher();
    assert!(!app.has_open_secondary_window(false, false, false));
    assert!(app.has_open_secondary_window(false, true, false));
    app.begin_opening();
    assert!(app.has_open_secondary_window(false, false, false));
    app.end_opening();
    assert!(!app.has_open_secondary_window(false, false, false));
}

#[test]
fn the_selection_stays_within_the_results() {
    let mut app = typed("cal");
    let n = app.results.len();
    app.move_up();
    assert_eq!(app.selected, 0);
    for _ in 0..n + 3 {
        app.move_down();
    }
    assert_eq!(app.selected, n - 1);
    app.move_up();
    assert_eq!(app.selected, n - 2);
}

#[test]
fn running_a_result_remembers_it() {
    let mut app = typed("calc");
    assert_eq!(app.results[0].title, "calc");
    match app.run_result_action(ResultActionKind::Default) {
        Some(RunRequest::Shell(request)) => {
            assert_eq!(request.file, "C:\\calc.exe");
            assert_eq!(request.params.as_deref(), Some("-x"));
        }
        other => panic!("unexpected {other:?}"),
    }
    let outcome = app.finish_run(ResultActionKind::Default, true);
    assert!(outcome.save_history && outcome.hidden);
    assert_eq!(app.history.entries[0].key, "C:\\calc.exe");
    assert_eq!(app.history.entries[0].use_count, 1);
    assert_eq!(app.history.queries, vec!["calc"]);
    assert!(!app.visible);
}

#[test]
fn a_failed_run_changes_nothing() {
    let mut app = typed("calc");
    let outcome = app.finish_run(ResultActionKind::Default, false);
    assert!(!outcome.save_history && !outcome.hidden);
    assert!(app.visible);
    assert!(app.history.entries.is_empty() && app.history.queries.is_empty());
    assert!(!app.finish_run(ResultActionKind::RunAsAdmin, false).hidden);
}

#[test]
fn copied_text_is_not_pinned() {
    let mut app = launcher();
    app.replace_text_in_range(None, "clipboard");
    app.run_search(
        &EverythingProvider { hits: Vec::new() },
        &PluginProvider { returned: plugin_example::search("clipboard") },
    );
    assert_eq!(app.results[0].title, "42");
    assert!(matches!(
        app.run_result_action(ResultActionKind::Default),
        Some(RunRequest::CopyText(ref t)) if t == "42"
    ));
    assert!(app.run_result_action(ResultActionKind::RunAsAdmin).is_none());
    assert!(app.run_result_action(ResultActionKind::OpenLocation).is_none());
    assert!(app.finish_run(ResultActionKind::Default, true).save_history);
    assert!(app.history.entries.is_empty());
    assert_eq!(app.history.queries, vec!["clipboard"]);
}

#[test]
fn a_query_that_finds_nothing_is_tried_as_it_is() {
    let mut app = typed("C:\\zq\\notes.txt");
    assert!(app.results.is_empty());
    match app.run_result_action(ResultActionKind::Default) {
        Some(RunRequest::Shell(request)) => assert_eq!(request.file, "C:\\zq\\notes.txt"),
        other => panic!("unexpected {other:?}"),
    }
    assert!(app.run_result_action(ResultActionKind::RunAsAdmin).is_none());
    assert!(app.finish_run(ResultActionKind::Default, true).hidden);
    let blank = typed("\t");
    assert!(blank.run_result_action(ResultActionKind::Default).is_none());
}

#[test]
fn files_can_be_run_as_administrator_or_shown() {
    let mut app = typed("calc");
    match app.run_result_action(ResultActionKind::RunAsAdmin) {
        Some(RunRequest::Shell(request)) => assert_eq!(request.operation, Some("runas")),
        other => panic!("unexpected {other:?}"),
    }
    match app.run_result_action(ResultActionKind::OpenLocation) {
        Some(RunRequest::Shell(request)) => assert_eq!(request.file, "explorer.exe"),
        other => panic!("unexpected {other:?}"),
    }
    let outcome = app.finish_run(ResultActionKind::OpenLocation, false);
    assert!(outcome.hidden && !outcome.save_history);
}

#[test]
fn packaged_apps_are_activated() {
    let app = typed("calendar");
    assert!(matches!(
        app.run_result_action(ResultActionKind::Default),
        Some(RunRequest::ActivateApp(ref a)) if a == "Cal_1!App"
    ));
}

#[test]
fn pinned_results_come_first_and_are_marked() {
    let mut app = typed("cal");
    let last = app.results.len() - 1;
    app.click_row(last);
    let key = app.results[last].title.clone();
    assert!(app.pin_selected());
    search(&mut app);
    assert_eq!(app.results[0].title, key);
    match app.render_rows() {
        Rows::Results(rows) => {
            assert!(rows[0].pinned && rows[0].selected && !rows[1].pinned);
            assert_eq!(rows[0].hint, "\u{23ce}");
            assert_eq!(rows[1].hint, "Alt+2");
        }
        other => panic!("unexpected {other:?}"),
    }
    assert!(app.unpin_selected());
    assert!(app.history.entries.is_empty());
    assert!(!launcher().pin_selected());
}

#[test]
fn a_pinned_system_app_is_marked_and_can_be_unpinned() {
    let mut app = launcher();
    app.on_scan_finished(AppIndexProvider {
        entries: vec![IndexedApp {
            title: "zztool".to_string(),
            subtitle: String::new(),
            launch: Launch::Path("C:\\zztool.exe".to_string()),
            source: AppSource::SystemOrPath,
        }],
    });
    app.history.record_use("C:\\zztool.exe");
    app.replace_text_in_range(None, "zzt");
    search(&mut app);
    assert_eq!(app.results[0].title, "zztool");
    assert!(app.results[0].score < 1_000_000);
    assert!(matches!(app.render_rows(), Rows::Results(rows) if rows[0].pinned));
    app.open_row_context_menu(0);
    assert!(matches!(
        app.render_context_menu().unwrap().last(),
        Some(MenuEntry::Item { command: MenuCommand::Unpin, .. })
    ));
    app.unpin_selected();
    search(&mut app);
    assert!(matches!(app.render_rows(), Rows::Results(rows) if !rows[0].pinned));
}

#[test]
fn the_selected_result_becomes_an_alias() {
    let app = typed("calc");
    assert_eq!(
        app.register_selected_as_alias(),
        Some(("calc".to_string(), "C:\\calc.exe".to_string()))
    );
    assert_eq!(launcher().register_selected_as_alias(), None);
}

#[test]
fn number_keys_run_visible_rows_only() {
    let mut app = typed("cal");
    app.config.max_results = 2;
    assert!(app.alt_digit(1));
    assert_eq!(app.selected, 1);
    assert!(!app.alt_digit(2));
    assert_eq!(app.selected, 1);
}

#[test]
fn escape_closes_the_menu_before_the_window() {
    let mut app = typed("cal");
    app.open_row_context_menu(1);
    assert!(!app.escape_action());
    assert!(app.visible && app.context_menu.is_none());
    assert!(app.escape_action());
    assert!(!app.visible);
}

#[test]
fn past_queries_take_the_place_of_results() {
    let mut app = typed("calc");
    app.toggle_history_panel();
    assert!(!app.confirms());
    assert!(matches!(app.render_rows(), Rows::Note(t) if t == app.strings.history_empty));
    app.sync_window_height();
    assert_eq!(app.content_height, 100);
    app.move_down();
    assert_eq!(app.selected, 0);
    assert!(!app.alt_digit(0));
    app.history.record_query("one");
    app.history.record_query("two");
    assert!(matches!(app.render_rows(), Rows::Queries(ref q) if *q == vec!["two", "one"]));
    assert!(!app.use_history_query(2));
    assert!(app.use_history_query(1));
    assert_eq!(app.input.text(), "one");
    assert!(!app.history_panel_open);
    app.toggle_history_panel();
    app.replace_text_in_range(None, "x");
    assert!(!app.history_panel_open);
}

#[test]
fn a_row_menu_offers_more_for_files() {
    let mut app = typed("cal");
    let file = app.results.iter().position(|r| matches!(r.action, Action::Launch { .. })).unwrap();
    let uwp = app.results.iter().position(|r| matches!(r.action, Action::LaunchUwp { .. })).unwrap();
    app.open_row_context_menu(file);
    assert_eq!(app.selected, file);
    let commands = |entries: Vec<MenuEntry>| -> Vec<MenuCommand> {
        entries
            .into_iter()
            .filter_map(|e| match e {
                MenuEntry::Item { command, .. } => Some(command),
                MenuEntry::Separator => None,
            })
            .collect()
    };
    assert_eq!(
        commands(app.render_context_menu().unwrap()),
        vec![
            MenuCommand::Run,
            MenuCommand::RunAsAdmin,
            MenuCommand::OpenLocation,
            MenuCommand::CopyPath,
            MenuCommand::RegisterAlias,
            MenuCommand::Pin,
        ]
    );
    app.open_row_context_menu(uwp);
    app.pin_selected();
    search(&mut app);
    app.open_row_context_menu(0);
    assert_eq!(
        commands(app.render_context_menu().unwrap()),
        vec![MenuCommand::Run, MenuCommand::RegisterAlias, MenuCommand::Unpin]
    );
    app.open_main_context_menu();
    assert_eq!(
        commands(app.render_context_menu().unwrap()),
        vec![MenuCommand::OpenSettings, MenuCommand::Reindex, MenuCommand::Quit]
    );
    app.open_row_context_menu(99);
    assert!(app.render_context_menu().is_none());
    assert_eq!(app.context_menu, None);
}

#[test]
fn a_chosen_item_closes_the_menu() {
    let mut app = typed("cal");
    let file = app.results.iter().position(|r| r.title == "calc").unwrap();
    app.open_row_context_menu(file);
    app.selected = 0;
    assert_eq!(app.choose_item(MenuCommand::CopyPath).as_deref(), Some("C:\\calc.exe"));
    assert_eq!(app.context_menu, None);
    app.context_menu = Some(ContextMenuTarget::Row(1));
    assert_eq!(app.choose_item(MenuCommand::Run), None);
    assert_eq!(app.selected, 1);
}

#[test]
fn keys_edit_the_query() {
    let mut app = launcher();
    app.replace_text_in_range(None, "abc");
    assert_eq!(app.text_backspace(), EditOutcome::Edited);
    app.home();
    assert_eq!(app.text_delete(), EditOutcome::Edited);
    assert_eq!(app.input.text(), "b");
    assert_eq!(app.text_backspace(), EditOutcome::Bell);
    app.text_right();
    app.text_left();
    app.select_right();
    assert_eq!(app.copy().as_deref(), Some("b"));
    app.select_left();
    app.end();
    app.select_all();
    assert_eq!(app.cut().as_deref(), Some("b"));
    assert!(app.paste(Some("x\ny")));
    assert_eq!(app.input.text(), "x y");
    assert!(!app.paste(None));
    app.on_mouse_down(MouseHit::Inside(1), false);
    app.on_mouse_move(MouseHit::Inside(3));
    app.on_mouse_up();
    assert_eq!(app.input.selected_range, Span { start: 1, end: 3 });
    app.replace_and_mark_text_in_range(None, "か", None);
    app.unmark_text();
    assert_eq!(app.input.text(), "xか");
}

#[test]
fn copying_without_a_selection_takes_the_path() {
    let app = typed("calc");
    assert_eq!(app.copy().as_deref(), Some("C:\\calc.exe"));
    assert_eq!(typed("calendar").copy(), None);
}

#[test]
fn one_scan_runs_at_a_time() {
    let mut app = launcher();
    assert_eq!(app.last_scan_count, 2);
    assert!(app.start_scan().is_some());
    let shown = app.scan_started();
    assert!(!shown.reindex_enabled);
    assert!(app.start_scan().is_none());
    assert!(!app.tray_display().reindex_enabled);
    let (shown, search_again) = app.on_scan_finished(AppIndexProvider::empty());
    assert!(shown.reindex_enabled && !search_again);
    assert_eq!(app.last_scan_count, 0);
    app.replace_text_in_range(None, "a");
    assert!(app.on_scan_finished(AppIndexProvider::empty()).1);
    let snapshot = app.snapshot(Some(4));
    assert_eq!(snapshot.minutes_since_scan, Some(4));
    assert!(!snapshot.scanning);
}

#[test]
fn the_language_can_change_at_any_time() {
    let mut app = launcher();
    assert!(!app.apply_language(ENGLISH));
    app.config.language = Language::Ja;
    assert!(app.apply_language(ENGLISH));
    assert_eq!(app.lang, Lang::Ja);
    assert_eq!(app.input.placeholder, app.strings.search_hint);
}

#[test]
fn the_tray_brings_windows_up() {
    assert!(handle_tray_action(TrayAction::Open).show);
    assert_eq!(handle_tray_action(TrayAction::Settings).open, Some(Secondary::Settings));
    assert_eq!(handle_tray_action(TrayAction::About).open, Some(Secondary::About));
    let reindex = handle_tray_action(TrayAction::Reindex);
    assert!(reindex.scan && !reindex.show);
}

#[test]
fn a_tool_button_toggles_its_tool() {
    let color = ToolKind::ColorPicker;
    assert_eq!(toggle_tool(None, color), ToolStep::Open(color));
    assert_eq!(toggle_tool(Some(ToolKind::UnitConverter), color), ToolStep::Open(color));
    assert_eq!(toggle_tool(Some(color), color), ToolStep::Close);
    assert_eq!(debug_tool("color-picker"), Some(color));
    assert_eq!(debug_tool("unit-converter"), Some(ToolKind::UnitConverter));
    assert_eq!(debug_tool("x"), None);
}

#[test]
fn keys_and_styles_are_fixed() {
    let keys = result_key_bindings();
    assert_eq!(keys.len(), 14);
    assert!(keys.contains(&("alt-2", AppKey::RunRow(1))));
    assert!(keys.contains(&("ctrl-shift-enter", AppKey::RunAsAdmin)));
    assert_eq!(with_tool_window_style(0x100), 0x180);
}
