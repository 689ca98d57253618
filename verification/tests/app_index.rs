use issen::config::Config;
use issen::search::app_index::{
    compile_patterns, file_extension, file_stem, has_extension, index_file, is_excluded,
    AppIndexProvider, AppSource, DirEntry, FileKind, IndexScan, IndexedApp, Job, Launch, Listing,
    ScanConfig, ScanRequest, LOW_PRIORITY_PENALTY, MAX_SCAN_DEPTH,
};
use issen::search::fuzzy::fuzzy_match;
use issen::search::uwp::UwpApp;
use issen::search::{Action, SearchProvider};

fn file(path: &str) -> DirEntry {
    DirEntry {
        path: path.to_string(),
        name: path.rsplit('\\').next().map(|s| s.to_string()),
        is_dir: false,
    }
}

fn folder(path: &str) -> DirEntry {
    DirEntry { is_dir: true, ..file(path) }
}

fn listing(path: &str, entries: Vec<DirEntry>) -> Listing {
    Listing { path: path.to_string(), entries }
}

fn strings(list: &[&str]) -> Vec<String> {
    list.iter().map(|s| s.to_string()).collect()
}

fn titles(index: &AppIndexProvider) -> Vec<&str> {
    index.entries.iter().map(|e| e.title.as_str()).collect()
}

#[test]
fn excludes_uninstall_entries_in_both_languages() {
    let patterns = compile_patterns(&vec!["^(Uninstall|アンインストール)".to_string()]);
    assert!(is_excluded("Uninstall Foo", &patterns));
    assert!(is_excluded("アンインストール Foo", &patterns));
    assert!(!is_excluded("Foo", &patterns));
}

#[test]
fn invalid_pattern_is_skipped_not_fatal() {
    let patterns = compile_patterns(&vec!["[unterminated".to_string()]);
    assert!(patterns.is_empty());
}

#[test]
fn an_invalid_pattern_leaves_the_others() {
    let patterns = compile_patterns(&strings(&["^a", "[unterminated", "b$"]));
    assert_eq!(patterns.len(), 2);
    assert!(is_excluded("ax", &patterns));
    assert!(is_excluded("xb", &patterns));
    assert!(!is_excluded("x", &patterns));
}

#[test]
fn the_default_pattern_ignores_case() {
    let patterns = compile_patterns(&Config::default().exclude_patterns);
    assert!(is_excluded("uninstall foo", &patterns));
    assert!(!is_excluded("Reinstall", &patterns));
}

#[test]
fn names_are_split_at_their_last_dot() {
    assert_eq!(file_stem("archive.tar.lnk"), "archive.tar");
    assert_eq!(file_extension("archive.tar.lnk").as_deref(), Some("lnk"));
    assert_eq!(file_stem(".hidden"), ".hidden");
    assert_eq!(file_extension(".hidden"), None);
    assert_eq!(file_stem("plain"), "plain");
    assert_eq!(file_extension("plain"), None);
    assert_eq!(file_extension("dot.").as_deref(), Some(""));
    assert!(has_extension("Setup.EXE", "exe"));
    assert!(!has_extension("Setup.exe.bak", "exe"));
}

#[test]
fn a_file_is_indexed_under_its_stem() {
    let job = Job { kind: FileKind::Shortcut, max_depth: 0, source: AppSource::StartMenu };
    let app = index_file(job, &file("C:\\x\\Word.lnk"), false).unwrap();
    assert_eq!(app.title, "Word");
    assert_eq!(app.subtitle, "C:\\x\\Word.lnk");
    assert_eq!(app.source, AppSource::StartMenu);
    assert!(matches!(app.launch, Launch::Path(ref p) if p == "C:\\x\\Word.lnk"));
    assert!(index_file(job, &file("C:\\x\\Word.lnk"), true).is_none());
    assert!(index_file(job, &file("C:\\x\\Word.exe"), false).is_none());
    let nameless = DirEntry { path: "C:\\x\\?".to_string(), name: None, is_dir: false };
    assert!(index_file(job, &nameless, false).is_none());
}

#[test]
fn a_scan_takes_each_kind_of_folder_in_order() {
    let config = ScanConfig {
        extra_folders: strings(&["D"]),
        exclude_patterns: strings(&["^Uninstall"]),
    };
    let folders = vec![
        listing(
            "S",
            vec![
                folder("S\\sub"),
                file("S\\Calc.lnk"),
                file("S\\Uninstall Calc.lnk"),
                file("S\\notes.txt"),
            ],
        ),
        listing("S\\sub", vec![file("S\\sub\\Deep.lnk")]),
        listing("W", vec![file("W\\cmd.exe"), folder("W\\inner")]),
        listing("W\\inner", vec![file("W\\inner\\never.exe")]),
        listing("D", vec![file("D\\Tool.exe"), file("D\\Tool.lnk"), folder("D\\more")]),
        listing("D\\more", vec![file("D\\more\\Extra.exe")]),
    ];
    let uwp = vec![
        UwpApp { title: "Photos".to_string(), aumid: "Photos_1!App".to_string() },
        UwpApp { title: "Chrome".to_string(), aumid: "Chrome".to_string() },
        UwpApp { title: "Uninstall Me".to_string(), aumid: "Me_1!App".to_string() },
        UwpApp { title: String::new(), aumid: "None_1!App".to_string() },
    ];
    let index = AppIndexProvider::scan(
        &config,
        &strings(&["S", "unreadable"]),
        &strings(&["W"]),
        &folders,
        &uwp,
    );
    assert_eq!(
        titles(&index),
        vec!["Deep", "Calc", "cmd", "Tool", "Tool", "Extra", "Photos"]
    );
    assert_eq!(index.len(), 7);
    let sources: Vec<AppSource> = index.entries.iter().map(|e| e.source).collect();
    assert_eq!(
        sources,
        vec![
            AppSource::StartMenu,
            AppSource::StartMenu,
            AppSource::SystemOrPath,
            AppSource::CustomFolder,
            AppSource::CustomFolder,
            AppSource::CustomFolder,
            AppSource::Uwp,
        ]
    );
    assert!(matches!(index.entries[6].launch, Launch::Uwp { ref aumid } if aumid == "Photos_1!App"));
    assert_eq!(index.entries[6].subtitle, "UWP");
}

#[test]
fn a_folder_that_links_to_itself_ends() {
    let config = ScanConfig { extra_folders: Vec::new(), exclude_patterns: Vec::new() };
    let folders = vec![listing("S", vec![folder("S"), file("S\\a.lnk")])];
    let index =
        AppIndexProvider::scan(&config, &strings(&["S"]), &Vec::new(), &folders, &Vec::new());
    assert_eq!(index.len(), MAX_SCAN_DEPTH as usize + 1);
}

#[test]
fn a_scan_asks_for_one_folder_at_a_time_and_delivers_once() {
    let config = ScanConfig { extra_folders: Vec::new(), exclude_patterns: Vec::new() };
    let mut scan = IndexScan::spawn(&config, &strings(&["S"]), &strings(&["W"]));
    assert!(scan.try_recv().is_none());
    assert!(matches!(scan.next(), ScanRequest::ReadDir(p) if p == "S"));
    scan.on_dir(Some(vec![file("S\\a.lnk"), folder("S\\t")]));
    assert!(matches!(scan.next(), ScanRequest::ReadDir(p) if p == "S\\t"));
    // The same request stands until it is answered.
    assert!(matches!(scan.next(), ScanRequest::ReadDir(p) if p == "S\\t"));
    scan.on_dir(None);
    assert!(matches!(scan.next(), ScanRequest::ReadDir(p) if p == "W"));
    scan.on_dir(Some(vec![file("W\\b.exe")]));
    assert!(matches!(scan.next(), ScanRequest::ListUwp));
    scan.on_uwp(&Vec::new());
    assert!(matches!(scan.next(), ScanRequest::Finished));
    let index = scan.try_recv().unwrap();
    assert_eq!(titles(&index), vec!["a", "b"]);
    assert!(scan.try_recv().is_none());
}

#[test]
fn the_scan_takes_its_settings_from_the_configuration() {
    let mut config = Config::default();
    config.index_folders.push("D:\\tools".to_string());
    let scan = ScanConfig::from_config(&config);
    assert_eq!(scan.extra_folders, vec!["D:\\tools"]);
    assert_eq!(scan.exclude_patterns, config.exclude_patterns);
}

#[test]
fn system_apps_rank_below_others_for_long_queries() {
    let app = |title: String, source: AppSource| IndexedApp {
        title,
        subtitle: String::new(),
        launch: Launch::Path("a.exe".to_string()),
        source,
    };
    let index = AppIndexProvider {
        entries: vec![
            app("-".repeat(500), AppSource::SystemOrPath),
            app("a-".repeat(500), AppSource::StartMenu),
        ],
    };
    let scores =
        |n: usize| index.search(&"-".repeat(n)).iter().map(|r| r.score).collect::<Vec<i32>>();
    assert_eq!(scores(77), vec![73, 77]);
    assert_eq!(scores(78), vec![77, 78]);
    assert_eq!(scores(500), vec![499, 500]);
}

#[test]
fn system_apps_rank_below_others() {
    let app = |source: AppSource| IndexedApp {
        title: "notepad".to_string(),
        subtitle: String::new(),
        launch: Launch::Path("notepad.exe".to_string()),
        source,
    };
    let index = AppIndexProvider {
        entries: vec![app(AppSource::SystemOrPath), app(AppSource::StartMenu)],
    };
    let found = index.search("note");
    let score = fuzzy_match("note", "notepad").unwrap();
    assert_eq!(found[0].score, score - LOW_PRIORITY_PENALTY);
    assert_eq!(found[1].score, score);
    assert!(matches!(
        found[0].action,
        Action::Launch { ref path, ref args } if path == "notepad.exe" && args.is_empty()
    ));
    assert!(index.search("").is_empty());
    assert!(index.search("zzz").is_empty());
    assert!(AppIndexProvider::empty().search("n").is_empty());
}
