use issen::about_window::{open as open_about, AboutWindow, OpenStep};
use issen::config::{AccentColor, Language, Theme, UiFont};
use issen::fonts::ui_font_family;
use issen::i18n::{
    about_version_text, decimal, detect_system_lang, lang_of, last_scan_text, resolve, Lang,
    Strings,
};
use issen::launch::{
    non_empty, open, open_containing_folder, open_elevated, open_with_args, succeeded,
};
use issen::native_window::{
    embedded_plan, embedded_style, embedded_wndproc, needs_copy, standalone_plan, wndproc,
    ChildRect, CountState, EmbeddedChild, OpenGate, WindowEvent, WM_COMMAND, WM_DESTROY, WS_CHILD,
    WS_POPUP, WS_VISIBLE,
};
use issen::single_instance::is_already_running;
use issen::spike::{placeholder_icon, Events, SpikeWindow};
use issen::tray::{
    filter_menu_event, MenuLine, MenuOutcome, TrayAction, TrayButton, TrayHandle, TrayIconEvent,
    QUIT_MENU_ID,
};
use issen::ui_chrome::{accent_color, opaque_panel_bg, palette, resolve_dark, WindowAppearance};

#[test]
fn the_shell_is_asked_for_what_is_meant() {
    let plain = open("https://example.com");
    assert_eq!((plain.operation, plain.file.as_str(), plain.params), (None, "https://example.com", None));
    let bare = open_with_args("a.exe", "");
    assert_eq!(bare.params, None);
    let args = open_with_args("a.exe", "-v x");
    assert_eq!(args.params.as_deref(), Some("-v x"));
    let admin = open_elevated("a.exe", "");
    assert_eq!((admin.operation, admin.params), (Some("runas"), None));
    let folder = open_containing_folder("C:\\my files\\a.exe");
    assert_eq!(folder.file, "explorer.exe");
    assert_eq!(folder.params.as_deref(), Some("/select,\"C:\\my files\\a.exe\""));
    assert_eq!(non_empty(""), None);
    assert_eq!(non_empty("x"), Some("x"));
    assert!(succeeded(33));
    assert!(!succeeded(32));
}

#[test]
fn the_language_follows_the_setting_or_the_system() {
    assert_eq!(resolve(Language::En, 0x0411), Lang::En);
    assert_eq!(resolve(Language::Ja, 0x0409), Lang::Ja);
    assert_eq!(resolve(Language::System, 0x0411), Lang::Ja);
    assert_eq!(resolve(Language::System, 0x0409), Lang::En);
    assert_eq!(detect_system_lang(0x0811), Lang::Ja);
    assert_eq!(lang_of(&Strings::for_lang(Lang::Ja)), Lang::Ja);
    assert_eq!(lang_of(&Strings::for_lang(Lang::En)), Lang::En);
}

#[test]
fn numbers_are_written_in_decimal() {
    for n in [0, 9, 10, 99, 100, 12345, u64::MAX] {
        assert_eq!(decimal(n), n.to_string());
    }
}

#[test]
fn texts_with_numbers_are_put_together() {
    assert_eq!(about_version_text(Lang::En, "1.2.3"), "Version 1.2.3");
    assert_eq!(about_version_text(Lang::Ja, "1.2.3"), "バージョン 1.2.3");
    assert_eq!(last_scan_text(Lang::En, 5, 120), "Last updated 5 min ago · 120 apps found");
    assert_eq!(last_scan_text(Lang::Ja, 5, 120), "最終更新: 5分前・120件のアプリを検出");
}

#[test]
fn the_tray_menu_is_matched_by_identifiers() {
    let handle = TrayHandle {
        open_id: "1".to_string(),
        settings_id: "2".to_string(),
        reindex_id: "3".to_string(),
        about_id: "4".to_string(),
    };
    assert_eq!(handle.match_menu_action("1"), Some(TrayAction::Open));
    assert_eq!(handle.match_menu_action("2"), Some(TrayAction::Settings));
    assert_eq!(handle.match_menu_action("3"), Some(TrayAction::Reindex));
    assert_eq!(handle.match_menu_action("4"), Some(TrayAction::About));
    assert_eq!(handle.match_menu_action("5"), None);
    assert_eq!(filter_menu_event(QUIT_MENU_ID), MenuOutcome::Quit);
    assert_eq!(filter_menu_event("1"), MenuOutcome::Forward);
}

#[test]
fn a_left_double_click_on_the_tray_opens() {
    let action = TrayHandle::match_tray_icon_action;
    assert_eq!(action(TrayIconEvent::DoubleClick(TrayButton::Left)), Some(TrayAction::Open));
    assert_eq!(action(TrayIconEvent::DoubleClick(TrayButton::Right)), None);
    assert_eq!(action(TrayIconEvent::Click(TrayButton::Left)), None);
    assert_eq!(action(TrayIconEvent::Other), None);
}

#[test]
fn the_tray_says_that_a_scan_runs() {
    let strings = Strings::for_lang(Lang::En);
    let busy = TrayHandle::set_scanning(&strings, true);
    assert_eq!(busy.reindex_label, strings.tray_reindex_scanning);
    assert!(!busy.reindex_enabled);
    let idle = TrayHandle::set_scanning(&strings, false);
    assert!(idle.reindex_enabled);
    assert_eq!(idle.tooltip, "Issen");
    let menu = TrayHandle::menu(&strings);
    assert_eq!(menu.len(), 7);
    assert!(matches!(menu[3], MenuLine::Separator));
    assert!(matches!(menu[6], MenuLine::Quit(label) if label == strings.tray_quit));
}

#[test]
fn colors_follow_the_theme() {
    assert!(resolve_dark(Theme::Dark, WindowAppearance::Light));
    assert!(!resolve_dark(Theme::Light, WindowAppearance::Dark));
    assert!(resolve_dark(Theme::System, WindowAppearance::VibrantDark));
    assert!(!resolve_dark(Theme::System, WindowAppearance::VibrantLight));
    assert_eq!(palette(true).text, 0xF2F4F7FF);
    assert_eq!(palette(false).text, 0x1E2024FF);
    assert_eq!(opaque_panel_bg(true) >> 8, palette(true).panel_bg >> 8);
    assert_eq!(opaque_panel_bg(false) & 0xFF, 0xFF);
    assert_eq!(accent_color(AccentColor::Purple), 0xD798FFFF);
    assert_eq!(ui_font_family(UiFont::YuGothic), "Yu Gothic");
}

#[test]
fn the_about_window_shows_name_and_version() {
    let about = AboutWindow {
        strings: Strings::for_lang(Lang::Ja),
        theme: Theme::System,
        ui_font: UiFont::Meiryo,
        font_scale_bits: 1.0f32.to_bits(),
    };
    let shown = about.render("0.9.0", WindowAppearance::Dark);
    assert_eq!(shown.title, "Issenについて");
    assert_eq!(shown.name, "Issen");
    assert_eq!(shown.version, "バージョン 0.9.0");
    assert!(shown.dark);
    assert_eq!(shown.font_family, "Meiryo");
    assert_eq!(open_about(None), OpenStep::Create);
    assert_eq!(open_about(Some(false)), OpenStep::Create);
    assert_eq!(open_about(Some(true)), OpenStep::Activated);
}

#[test]
fn one_launcher_runs_at_a_time() {
    assert!(is_already_running(183));
    assert!(!is_already_running(0));
}

#[test]
fn only_a_click_on_the_button_counts() {
    assert_eq!(wndproc(WM_COMMAND, 1001), WindowEvent::Clicked);
    assert_eq!(wndproc(WM_COMMAND, 1002), WindowEvent::Handled);
    assert_eq!(wndproc(WM_COMMAND, 1001 + (5 << 16)), WindowEvent::Handled);
    assert_eq!(wndproc(WM_DESTROY, 0), WindowEvent::Destroyed);
    assert_eq!(wndproc(0x10, 0), WindowEvent::Default);
    assert_eq!(embedded_wndproc(WM_DESTROY), WindowEvent::Handled);
    assert_eq!(embedded_wndproc(WM_COMMAND), WindowEvent::Default);
}

#[test]
fn clicks_are_counted_in_the_label() {
    let mut state = CountState { count: 0 };
    assert_eq!(state.text(), standalone_plan().controls[0].text);
    assert_eq!(state.click(), "clicked 1 times");
    assert_eq!(state.click(), "clicked 2 times");
    state.count = i32::MAX;
    assert_eq!(state.click(), "clicked -2147483648 times");
}

#[test]
fn a_tool_window_opens_once() {
    let mut gate = OpenGate { opening: false };
    assert!(gate.open_tool());
    assert!(!gate.open_tool());
    gate.closed();
    assert!(gate.open_tool());
}

#[test]
fn an_embedded_window_is_a_visible_child() {
    let style = embedded_style(WS_POPUP | 0x0000_0800);
    assert_eq!(style, WS_CHILD | WS_VISIBLE | 0x0000_0800);
    assert_eq!(embedded_plan().controls.len(), 2);
    let mut child = EmbeddedChild { handle: None, last_rect: None };
    let rect = ChildRect { x: 0, y: 28, width: 320, height: 112 };
    assert!(child.needs_child());
    assert!(!child.reposition(rect));
    child.on_created(0);
    assert!(child.needs_child());
    child.on_created(77);
    assert!(!child.needs_child());
    assert!(child.reposition(rect));
    assert!(!child.reposition(rect));
    assert!(child.reposition(ChildRect { width: 321, ..rect }));
}

#[test]
fn a_file_of_the_same_size_is_not_copied() {
    assert!(!needs_copy(Some(5), Some(5)));
    assert!(needs_copy(Some(5), Some(6)));
    assert!(needs_copy(Some(5), None));
    assert!(needs_copy(None, None));
}

#[test]
fn a_window_goes_off_the_screen_and_back() {
    let mut window = SpikeWindow { is_offscreen: false, is_tool_window: false };
    assert_eq!(window.do_toggle_offscreen(), (-10000, -10000));
    assert_eq!(window.do_toggle_offscreen(), (200, 200));
    assert_eq!(window.auto_toggle(1499), None);
    assert_eq!(window.auto_toggle(1500), Some((-10000, -10000)));
    assert_eq!(window.toggle_tool_window(1), 0x81);
    assert_eq!(window.toggle_tool_window(0x81), 1);
    let quit = window.poll_events(&Events {
        hotkey: true,
        menu: Some("issen-spike-quit".to_string()),
        icon_clicks: vec![true, false, true],
    });
    assert!(quit);
    assert!(!window.is_offscreen);
    let idle = Events { hotkey: false, menu: Some("other".to_string()), icon_clicks: Vec::new() };
    assert!(!window.poll_events(&idle));
    let icon = placeholder_icon();
    assert_eq!(icon.len(), 4096);
    assert_eq!(&icon[4..8], &[0xF2, 0xA9, 0x3B, 0xFF]);
}
