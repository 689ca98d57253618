use issen::config::{AccentColor, Config, DisplayTarget, Language, Theme, UiFont, FONT_SCALE_ONE};
use issen::i18n::{Lang, Strings};
use issen::settings_window::{
    footer, tab_aliases, tab_appearance, tab_everything, tab_general, tab_index,
    tab_windows_shortcuts, AfterCommand, AppSnapshot, Command, FooterButton, Row, SettingsTab,
    SettingsWindow, StepValue, MAX_VISIBLE_ROWS,
};

fn english() -> Strings {
    Strings::for_lang(Lang::En)
}

fn opened() -> (SettingsWindow, Config) {
    let config = Config::default();
    (SettingsWindow::new(&config, true), config)
}

#[test]
fn defaults_are_those_of_a_fresh_start() {
    let c = Config::default();
    assert_eq!(c.hotkey, "Alt+Space");
    assert!(c.autostart);
    assert_eq!(c.max_results, 6);
    assert_eq!(c.theme, Theme::default());
    assert_eq!(c.accent_color, AccentColor::default());
    assert_eq!(f32::from_bits(c.font_scale_bits), 1.0);
    assert_eq!(c.font_scale_bits, FONT_SCALE_ONE);
    assert_eq!(c.language, Language::default());
    assert_eq!(c.display_target, DisplayTarget::default());
    assert_eq!(c.ui_font, UiFont::default());
    assert!(!c.everything_enabled);
    assert_eq!(c.exclude_patterns, vec!["(?i)^(Uninstall|アンインストール)"]);
}

#[test]
fn the_number_of_results_stays_in_range() {
    let (mut window, mut config) = opened();
    for _ in 0..20 {
        assert_eq!(window.run(&mut config, Command::RaiseMaxResults), AfterCommand::Nothing);
    }
    assert_eq!(config.max_results, MAX_VISIBLE_ROWS);
    for _ in 0..20 {
        window.run(&mut config, Command::LowerMaxResults);
    }
    assert_eq!(config.max_results, 1);
    config.max_results = 0;
    window.run(&mut config, Command::LowerMaxResults);
    assert_eq!(config.max_results, 1);
    for start in [0, MAX_VISIBLE_ROWS + 5, u32::MAX] {
        config.max_results = start;
        window.run(&mut config, Command::RaiseMaxResults);
        assert_eq!(config.max_results, if start == 0 { 1 } else { MAX_VISIBLE_ROWS });
    }
    config.max_results = u32::MAX;
    window.run(&mut config, Command::LowerMaxResults);
    assert_eq!(config.max_results, u32::MAX - 1);
}

#[test]
fn toggles_undo_themselves() {
    let (mut window, mut config) = opened();
    window.run(&mut config, Command::ToggleAutostart);
    window.run(&mut config, Command::ToggleEverything);
    assert!(!config.autostart && config.everything_enabled);
    window.run(&mut config, Command::ToggleAutostart);
    window.run(&mut config, Command::ToggleEverything);
    assert!(config.autostart && !config.everything_enabled);
}

#[test]
fn choices_are_taken_over() {
    let (mut window, mut config) = opened();
    assert_eq!(
        window.run(&mut config, Command::ChooseLanguage(Language::Ja)),
        AfterCommand::ApplyLanguage
    );
    window.run(&mut config, Command::ChooseDisplay(DisplayTarget::Primary));
    window.run(&mut config, Command::ChooseTheme(Theme::Dark));
    window.run(&mut config, Command::ChooseAccent(AccentColor::Blue));
    window.run(&mut config, Command::ChooseFont(UiFont::Meiryo));
    assert_eq!(config.language, Language::Ja);
    assert_eq!(config.display_target, DisplayTarget::Primary);
    assert_eq!(config.theme, Theme::Dark);
    assert_eq!(config.accent_color, AccentColor::Blue);
    assert_eq!(config.ui_font, UiFont::Meiryo);
}

#[test]
fn outside_work_is_asked_for() {
    let (mut window, mut config) = opened();
    assert_eq!(window.run(&mut config, Command::Rescan), AfterCommand::StartScan);
    assert_eq!(
        window.run(&mut config, Command::RaiseFontScale),
        AfterCommand::StepFontScale { up: true }
    );
    assert_eq!(
        window.run(&mut config, Command::LowerFontScale),
        AfterCommand::StepFontScale { up: false }
    );
    assert_eq!(window.run(&mut config, Command::PickFolder), AfterCommand::OpenFolderDialog);
    // The dialog is open: a second one is not.
    assert_eq!(window.run(&mut config, Command::PickFolder), AfterCommand::Nothing);
    window.on_folder_picked(&mut config, Some("D:\\apps".to_string()));
    assert_eq!(config.index_folders, vec!["D:\\apps"]);
    window.run(&mut config, Command::PickFolder);
    window.on_folder_picked(&mut config, None);
    assert_eq!(config.index_folders.len(), 1);
    assert!(!window.pending_folder_pick);
}

#[test]
fn entries_are_added_trimmed_and_removed() {
    let (mut window, mut config) = opened();
    window.new_alias_name_input.set_text(" ff ");
    window.new_alias_target_input.set_text(" firefox.exe");
    window.new_alias_args_input.set_text(" -p ");
    window.run(&mut config, Command::AddAlias);
    assert_eq!(config.aliases[0].name, "ff");
    assert_eq!(config.aliases[0].target, "firefox.exe");
    assert_eq!(config.aliases[0].args, "-p");
    assert_eq!(window.new_alias_name_input.text(), "");
    window.run(&mut config, Command::RemoveAlias(0));
    assert!(config.aliases.is_empty());

    window.new_exclude_pattern_input.set_text(" ^tmp ");
    window.run(&mut config, Command::AddPattern);
    assert_eq!(config.exclude_patterns.last().unwrap(), "^tmp");
    window.run(&mut config, Command::RemovePattern(0));
    assert_eq!(config.exclude_patterns, vec!["^tmp"]);

    window.new_shortcut_label_input.set_text("Mixer");
    window.new_shortcut_uri_input.set_text("ms-settings:apps-volume");
    window.run(&mut config, Command::AddShortcut);
    assert_eq!(config.custom_windows_shortcuts[0].label, "Mixer");
    window.run(&mut config, Command::RemoveShortcut(0));
    assert!(config.custom_windows_shortcuts.is_empty());
    window.run(&mut config, Command::RemoveFolder(7));
    window.run(&mut config, Command::RemoveShortcut(7));
}

#[test]
fn blank_fields_add_no_entry() {
    let (mut window, mut config) = opened();
    window.new_alias_name_input.set_text("name");
    window.new_alias_target_input.set_text("  ");
    window.run(&mut config, Command::AddAlias);
    window.new_exclude_pattern_input.set_text("\t");
    window.run(&mut config, Command::AddPattern);
    window.new_shortcut_uri_input.set_text("ms-settings:about");
    window.run(&mut config, Command::AddShortcut);
    assert!(config.aliases.is_empty());
    assert_eq!(config.exclude_patterns.len(), 1);
    assert!(config.custom_windows_shortcuts.is_empty());
    assert_eq!(window.new_alias_name_input.text(), "name");
}

#[test]
fn the_hotkey_follows_its_field() {
    let (mut window, mut config) = opened();
    assert_eq!(window.hotkey_input.text(), "Alt+Space");
    window.hotkey_input.set_text("Ctrl+K");
    window.on_hotkey_edited(&mut config);
    assert_eq!(config.hotkey, "Ctrl+K");
}

#[test]
fn the_sidebar_hides_what_cannot_be_reached() {
    let strings = english();
    let (mut window, _) = opened();
    assert_eq!(window.nav(&strings).len(), 6);
    window.select_tab(SettingsTab::Everything);
    assert!(window.nav(&strings)[5].selected);
    window.reopen(false);
    assert_eq!(window.tab, SettingsTab::General);
    assert_eq!(window.nav(&strings).len(), 5);
    window.select_tab(SettingsTab::Index);
    window.reopen(true);
    assert_eq!(window.tab, SettingsTab::Index);
}

#[test]
fn an_alias_can_be_started_from_a_result() {
    let (mut window, _) = opened();
    window.prefill_alias("Firefox", "firefox.exe");
    assert_eq!(window.tab, SettingsTab::Aliases);
    assert_eq!(window.new_alias_name_input.text(), "Firefox");
    assert_eq!(window.new_alias_target_input.text(), "firefox.exe");
}

#[test]
fn tabs_list_their_controls() {
    let s = english();
    let mut c = Config::default();
    c.index_folders.push("D:\\x".to_string());
    let general = tab_general(&c, &s);
    assert_eq!(general.len(), 12);
    assert!(matches!(general[1], Row::Checkbox { checked: true, command: Command::ToggleAutostart, .. }));
    assert!(matches!(general[3], Row::Stepper { value: StepValue::Number(6), .. }));
    assert!(matches!(general[5], Row::Choice { selected: true, .. }));
    assert!(matches!(general[6], Row::Choice { selected: false, .. }));
    let appearance = tab_appearance(&c, &s);
    assert_eq!(appearance.len(), 16);
    assert!(matches!(
        appearance[6],
        Row::Swatch { color: 0xC4F252FF, selected: true, .. }
    ));
    let index = tab_index(&c, &s, true, false, Some(3), 12);
    assert_eq!(index.len(), 10);
    assert!(matches!(index[2], Row::Item { ref primary, .. } if primary == "D:\\x"));
    assert!(matches!(index[3], Row::Button { enabled: false, .. }));
    assert!(matches!(
        index[9],
        Row::Status(ref t) if *t == issen::i18n::last_scan_text(Lang::En, 3, 12)
    ));
    let busy = tab_index(&c, &s, false, true, Some(3), 12);
    assert!(matches!(busy[8], Row::Button { enabled: false, command: Command::Rescan, .. }));
    assert!(matches!(busy[9], Row::Status(ref t) if t == s.scanning));
    assert_eq!(tab_index(&c, &s, false, false, None, 0).len(), 9);
    assert_eq!(tab_windows_shortcuts(&c, &s).len(), 4);
    assert_eq!(tab_everything(&c, &s).len(), 3);
}

#[test]
fn an_alias_is_listed_with_its_arguments() {
    let s = english();
    let (mut window, mut c) = opened();
    window.new_alias_name_input.set_text("a");
    window.new_alias_target_input.set_text("t");
    window.run(&mut c, Command::AddAlias);
    window.new_alias_name_input.set_text("b");
    window.new_alias_target_input.set_text("t");
    window.new_alias_args_input.set_text("-v");
    window.run(&mut c, Command::AddAlias);
    let rows = tab_aliases(&c, &s);
    assert!(matches!(rows[1], Row::Item { secondary: Some(ref l), .. } if l == "t"));
    assert!(matches!(
        rows[2],
        Row::Item { secondary: Some(ref l), command: Command::RemoveAlias(1), .. } if l == "t  -v"
    ));
}

#[test]
fn the_shown_tab_gives_the_content() {
    let (mut window, config) = opened();
    let snapshot = AppSnapshot {
        config: config.clone(),
        strings: english(),
        scanning: false,
        minutes_since_scan: None,
        last_scan_count: 0,
    };
    let sizes: Vec<usize> = [
        SettingsTab::General,
        SettingsTab::Appearance,
        SettingsTab::Index,
        SettingsTab::Aliases,
        SettingsTab::WindowsShortcuts,
        SettingsTab::Everything,
    ]
    .into_iter()
    .map(|tab| {
        window.select_tab(tab);
        window.content(&snapshot).len()
    })
    .collect();
    assert_eq!(sizes, vec![12, 16, 8, 5, 4, 3]);
}

#[test]
fn settings_are_saved_on_request() {
    let buttons = footer(&english());
    assert!(matches!(buttons[0], FooterButton::Save { label: "Save" }));
    assert!(matches!(buttons[1], FooterButton::Close { label: "Close" }));
}
