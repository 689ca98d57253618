use issen::config::{AliasEntry, WindowsShortcutEntry};
use issen::history::History;
use issen::i18n::Lang;
use issen::plugin_api::{
    embedded_window, tool_call, RAction, RGuiToolMode, RSearchResult, ToolCall,
};
use issen::plugin_example;
use issen::search::alias::AliasProvider;
use issen::search::everything::{
    after_probe, after_query, is_available, start_query, EverythingHit, EverythingProvider,
    EverythingStep, QUERY_MAX_RESULTS,
};
use issen::search::fuzzy::fuzzy_match;
use issen::search::plugin::{clamp_plugin_score, is_plugin_file, PluginProvider};
use issen::search::rank::{rank_results, RESULT_RETENTION_CAP};
use issen::search::uwp::{is_packaged_aumid, scan, ComGuard, UwpApp};
use issen::search::windows_settings::{builtin_entries, WindowsSettingsProvider};
use issen::search::{target_key, Action, SearchProvider, SearchResult};

fn alias(name: &str, target: &str, args: &str) -> AliasEntry {
    AliasEntry { name: name.to_string(), target: target.to_string(), args: args.to_string() }
}

fn plain(title: &str, score: i32) -> SearchResult {
    SearchResult {
        title: title.to_string(),
        subtitle: String::new(),
        score,
        action: Action::OpenUri(title.to_string()),
    }
}

fn titles(results: &[SearchResult]) -> Vec<&str> {
    results.iter().map(|r| r.title.as_str()).collect()
}

/// The provider after the example plugin answered a query.
fn asked(query: &str) -> PluginProvider {
    PluginProvider { returned: plugin_example::search(query) }
}

#[test]
fn without_plugins_nothing_is_found() {
    let provider = PluginProvider { returned: Vec::new() };
    assert!(provider.search("anything").is_empty());
}

#[test]
fn clamps_plugin_score_to_fuzzy_match_bounds() {
    assert_eq!(clamp_plugin_score("ab", i32::MAX), 28);
    assert_eq!(clamp_plugin_score("ab", i32::MIN), -28);
    assert_eq!(clamp_plugin_score("ab", 10), 10);
}

#[test]
fn loads_example_plugin_dll_and_converts_its_results() {
    let results = asked("example").search("example");
    assert_eq!(results.len(), 1);
    assert_eq!(results[0].title, "Example Plugin Result");
    assert_eq!(results[0].subtitle, "issen-plugin-example");
    match &results[0].action {
        Action::OpenUri(uri) => {
            assert_eq!(uri.as_str(), "https://example.com/issen-plugin-example");
        }
        other => panic!("expected OpenUri, got {other:?}"),
    }
    // The plugin returns a fixed 100, which exceeds the clamp range for the
    // query "example" (7 chars, 14*7=98) and is capped.
    assert_eq!(results[0].score, 98);

    let query = "no-such-query-should-not-match";
    assert!(asked(query).search(query).is_empty());
}

#[test]
fn loads_example_plugin_dll_and_converts_copy_to_clipboard_result() {
    let results = asked("clipboard").search("clipboard");
    assert_eq!(results.len(), 1);
    assert_eq!(results[0].title, "42");
    match &results[0].action {
        Action::CopyToClipboard(text) => assert_eq!(text, "42"),
        other => panic!("expected CopyToClipboard, got {other:?}"),
    }
}

#[test]
fn panicking_plugin_does_not_crash_the_host() {
    let results = asked("panic").search("panic");
    assert!(results.is_empty());

    let results = asked("clipboard").search("clipboard");
    assert_eq!(results.len(), 1);
}

#[test]
fn loads_example_plugin_dll_and_lists_gui_tools() {
    let tools = plugin_example::gui_tools();
    assert_eq!(tools.len(), 2);

    let names: Vec<String> = tools.iter().map(|t| t.name.to_string()).collect();
    assert!(names.contains(&"Example Standalone Tool".to_string()));
    assert!(names.contains(&"Example Embedded Tool".to_string()));

    let standalone = tools
        .iter()
        .find(|t| t.name == "Example Standalone Tool")
        .expect("Standalone tool not found");
    assert_eq!(standalone.mode, RGuiToolMode::Standalone);

    let embedded = tools
        .iter()
        .find(|t| t.name == "Example Embedded Tool")
        .expect("Embedded tool not found");
    assert_eq!(embedded.mode, RGuiToolMode::Embedded);
}

#[test]
fn the_example_plugin_ignores_the_case_of_the_query() {
    assert_eq!(plugin_example::search("EXAMPLE").len(), 1);
    assert_eq!(plugin_example::search("Ple Plug").len(), 1);
    assert_eq!(plugin_example::search("").len(), 1);
    assert_eq!(plugin_example::search("my CLIPBOARD")[0].title, "42");
    assert!(plugin_example::search("clipboard PANIC").is_empty());
    assert!(plugin_example::search("plugin example").is_empty());
}

#[test]
fn every_plugin_action_is_converted() {
    let one = |action: RAction| RSearchResult {
        title: "t".to_string(),
        subtitle: "s".to_string(),
        action,
        score: -1000,
    };
    let launch =
        one(RAction::Launch { path: "C:\\a.exe".to_string(), args: "-v".to_string() });
    let r = PluginProvider::convert("a", &launch);
    assert!(matches!(
        r.action,
        Action::Launch { ref path, ref args } if path == "C:\\a.exe" && args == "-v"
    ));
    assert_eq!(r.score, -14);
    let uwp = one(RAction::LaunchUwp { aumid: "x!y".to_string() });
    assert!(matches!(
        PluginProvider::convert("", &uwp).action,
        Action::LaunchUwp { ref aumid } if aumid == "x!y"
    ));
    assert_eq!(PluginProvider::convert("", &uwp).score, -14);
}

#[test]
fn plugins_are_dlls() {
    assert!(is_plugin_file("a.dll"));
    assert!(!is_plugin_file("a.DLL"));
    assert!(!is_plugin_file("a.dll.txt"));
    assert!(!is_plugin_file(".dll"));
}

#[test]
fn tools_are_started_by_their_mode() {
    assert_eq!(tool_call(RGuiToolMode::Standalone, 9), ToolCall::LaunchStandalone);
    assert_eq!(tool_call(RGuiToolMode::Embedded, 9), ToolCall::CreateEmbedded { parent: 9 });
    assert_eq!(embedded_window(0), None);
    assert_eq!(embedded_window(3), Some(3));
}

#[test]
fn packaged_aumid_has_exactly_one_bang() {
    assert!(is_packaged_aumid(
        "Microsoft.WindowsCalculator_8wekyb3d8bbwe!App"
    ));
    assert!(!is_packaged_aumid("Docker.DockerForWindows.Settings"));
    assert!(!is_packaged_aumid("https://gitforwindows.org/faq"));
    assert!(!is_packaged_aumid(""));
}

#[test]
fn only_packaged_apps_with_a_title_are_kept() {
    assert!(!is_packaged_aumid("a!b!c"));
    let items = vec![
        UwpApp { title: "A".to_string(), aumid: "a!x".to_string() },
        UwpApp { title: "B".to_string(), aumid: "b".to_string() },
        UwpApp { title: String::new(), aumid: "c!x".to_string() },
    ];
    let apps = scan(&items);
    assert_eq!(apps.len(), 1);
    assert_eq!(apps[0].aumid, "a!x");
    assert!(ComGuard::init(0).is_ok());
    assert!(ComGuard::init(1).is_ok());
    assert!(!ComGuard::init(-2147417850).is_ok());
}

#[test]
fn aliases_are_found_by_their_names() {
    let aliases = vec![alias("proj", "C:\\Projects", ""), alias("ff", "firefox.exe", "-p")];
    let provider = AliasProvider::new(&aliases);
    let found = provider.search("ff");
    assert_eq!(titles(&found), vec!["ff"]);
    assert_eq!(found[0].subtitle, "firefox.exe");
    assert!(matches!(
        found[0].action,
        Action::Launch { ref path, ref args } if path == "firefox.exe" && args == "-p"
    ));
    assert!(provider.search("").is_empty());
    assert!(provider.search("firefox").is_empty());
}

#[test]
fn settings_pages_are_found_in_either_language() {
    let none: Vec<WindowsShortcutEntry> = Vec::new();
    let en = WindowsSettingsProvider::with_custom(Lang::En, &none);
    let ja = WindowsSettingsProvider::with_custom(Lang::Ja, &none);
    assert!(titles(&en.search("音量")).contains(&"Sound"));
    assert!(titles(&ja.search("sound")).contains(&"サウンド"));
    let found = en.search("bluetooth");
    assert!(matches!(found[0].action, Action::OpenUri(ref u) if u == "ms-settings:bluetooth"));
    assert!(en.search("").is_empty());
    for entry in builtin_entries() {
        for keyword in &entry.keywords {
            assert!(titles(&en.search(keyword)).contains(&entry.label(Lang::En)));
            assert!(titles(&ja.search(keyword)).contains(&entry.label(Lang::Ja)));
        }
    }
}

#[test]
fn every_settings_page_is_found_once_by_each_keyword() {
    let none = Vec::new();
    for lang in [Lang::En, Lang::Ja] {
        let provider = WindowsSettingsProvider::with_custom(lang, &none);
        for entry in builtin_entries() {
            for keyword in &entry.keywords {
                let found = provider.search(keyword);
                let hits: Vec<&SearchResult> = found
                    .iter()
                    .filter(|r| matches!(&r.action, Action::OpenUri(uri) if uri == entry.uri))
                    .collect();
                assert_eq!(hits.len(), 1);
                assert_eq!(hits[0].title, entry.label(lang));
                assert!(hits[0].score >= fuzzy_match(keyword, keyword).unwrap());
            }
        }
    }
}

#[test]
fn own_settings_pages_come_last() {
    let custom = vec![WindowsShortcutEntry {
        label: "Sound mixer".to_string(),
        uri: "ms-settings:apps-volume".to_string(),
    }];
    let provider = WindowsSettingsProvider::with_custom(Lang::En, &custom);
    let found = provider.search("sound");
    assert_eq!(found.last().unwrap().title, "Sound mixer");
    assert_eq!(found.last().unwrap().subtitle, found[0].subtitle);
}

#[test]
fn everything_is_asked_step_by_step() {
    assert!(matches!(start_query("", true), EverythingStep::Done));
    assert!(matches!(start_query("a", false), EverythingStep::Done));
    assert!(matches!(start_query("a", true), EverythingStep::Probe));
    assert!(matches!(after_probe("a", 2), EverythingStep::Done));
    assert!(matches!(
        after_probe("a", 0),
        EverythingStep::Query { ref search, match_path: false, max: QUERY_MAX_RESULTS }
            if *search == vec![97, 0]
    ));
    assert!(matches!(after_query(true, 5), EverythingStep::Fetch(5)));
    assert!(matches!(after_query(false, 5), EverythingStep::Done));
    assert!(is_available(Some(0)));
    assert!(!is_available(Some(2)));
    assert!(!is_available(None));
}

#[test]
fn files_are_listed_under_their_names() {
    let hit = |path: &str, name: Option<&str>| EverythingHit {
        full_path: path.to_string(),
        file_name: name.map(|n| n.to_string()),
    };
    let provider = EverythingProvider {
        hits: vec![
            hit("C:\\docs\\plan.txt", Some("plan.txt")),
            hit("C:\\", None),
            hit("", Some("plan")),
            hit("C:\\plan\\other.txt", Some("other.txt")),
        ],
    };
    let found = provider.search("plan");
    assert_eq!(titles(&found), vec!["plan.txt"]);
    assert_eq!(found[0].subtitle, "C:\\docs\\plan.txt");
    assert_eq!(titles(&provider.search("c")), vec!["C:\\"]);
    assert!(provider.search("").is_empty());
}

#[test]
fn a_file_has_the_last_component_of_its_path_as_its_name() {
    let name = |path: &str| EverythingHit::new(path.to_string()).file_name;
    assert_eq!(name("C:/docs/plan.txt"), Some("plan.txt".to_string()));
    assert_eq!(name("docs/plan/./"), Some("plan".to_string()));
    assert_eq!(name("docs/.."), None);
    assert_eq!(name(""), None);
    assert_eq!(name("/home/ann/notes"), Some("notes".to_string()));
    assert_eq!(name("notes"), Some("notes".to_string()));
    assert_eq!(name("docs/.hidden"), Some(".hidden".to_string()));
    assert!(name("C:\\docs\\plan.txt").is_some_and(|n| n.ends_with("plan.txt")));
    let hit = EverythingHit::new("C:/docs/plan.txt".to_string());
    let found = EverythingProvider { hits: vec![hit] }.search("plan");
    assert_eq!(titles(&found), vec!["plan.txt"]);
    assert_eq!(found[0].subtitle, "C:/docs/plan.txt");
}

#[test]
fn keys_name_launch_targets() {
    let launch = |args: &str| Action::Launch { path: "a.exe".to_string(), args: args.to_string() };
    assert_eq!(target_key(&launch("")), "a.exe");
    assert_eq!(target_key(&launch("-x")), "a.exe");
    assert_eq!(target_key(&Action::OpenUri("ms-settings:about".to_string())), "ms-settings:about");
    assert_eq!(target_key(&Action::LaunchUwp { aumid: "a!b".to_string() }), "a!b");
    assert_eq!(target_key(&Action::CopyToClipboard("42".to_string())), "42");
}

#[test]
fn results_are_ranked_by_score_and_then_by_order() {
    let history = History::default();
    let ranked = rank_results(
        &history,
        vec![plain("a", 1), plain("b", 5), plain("c", 1), plain("d", 5), plain("e", -3)],
    );
    assert_eq!(titles(&ranked), vec!["b", "d", "a", "c", "e"]);
}

#[test]
fn pinned_results_lead_by_their_uses() {
    let mut history = History::default();
    history.pin("low");
    history.record_use("often");
    history.record_use("often");
    history.record_use("never found");
    let ranked =
        rank_results(&history, vec![plain("high", 900), plain("low", 3), plain("often", 3)]);
    assert_eq!(titles(&ranked), vec!["often", "low", "high"]);
    assert_eq!(ranked[0].score, 1_000_005);
    assert_eq!(ranked[2].score, 900);
}

#[test]
fn the_use_count_decides_among_pinned_results() {
    let mut history = History::default();
    history.record_use("once");
    history.record_use("twice");
    history.record_use("twice");
    history.record_use("also once");
    let found = vec![
        plain("once", 14),
        plain("also once", 20),
        plain("none", 2_000_000),
        plain("twice", -700_000),
    ];
    let ranked = rank_results(&history, found);
    assert_eq!(titles(&ranked), vec!["twice", "also once", "once", "none"]);
    assert_eq!(ranked[0].score, 300_002);
    assert_eq!(history.use_count_of("twice"), Some(2));
    assert_eq!(history.use_count_of("none"), None);
}

#[test]
fn only_so_many_results_are_kept() {
    let history = History::default();
    let many: Vec<SearchResult> = (0..120).map(|i| plain(&i.to_string(), i)).collect();
    let ranked = rank_results(&history, many);
    assert_eq!(ranked.len(), RESULT_RETENTION_CAP);
    assert_eq!(ranked[0].title, "119");
    assert_eq!(ranked[RESULT_RETENTION_CAP - 1].title, "70");
}
