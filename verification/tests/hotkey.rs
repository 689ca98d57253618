use issen::hotkey::{
    parse_hotkey, parse_key, HotkeyListener, HotkeyUpdate, ListenerEvent, Registration, MOD_ALT,
    MOD_CONTROL, MOD_NOREPEAT, MOD_SHIFT, MOD_WIN, VK_SPACE, WM_HOTKEY, WM_UPDATE_HOTKEY,
};

#[test]
fn parses_default_hotkey() {
    let (modifiers, vk) = parse_hotkey("Alt+Space").unwrap();
    assert_eq!(modifiers, MOD_ALT);
    assert_eq!(vk, VK_SPACE);
}

#[test]
fn parses_multiple_modifiers_case_insensitively() {
    let (modifiers, vk) = parse_hotkey("ctrl+SHIFT+k").unwrap();
    assert_eq!(modifiers, MOD_CONTROL | MOD_SHIFT);
    assert_eq!(vk, 'K' as u32);
}

#[test]
fn parses_function_keys() {
    let (_, vk) = parse_hotkey("Ctrl+F12").unwrap();
    assert_eq!(vk, 0x7B);
}

#[test]
fn rejects_unknown_key() {
    assert!(parse_hotkey("Ctrl+NotAKey").is_none());
}

#[test]
fn rejects_empty_string() {
    assert!(parse_hotkey("").is_none());
}

#[test]
fn rejects_modifier_only() {
    assert!(parse_hotkey("Ctrl+").is_none());
}

#[test]
fn modifiers_in_any_order_and_number_are_the_same() {
    assert_eq!(parse_hotkey("Shift+Alt+a"), parse_hotkey("Alt+Shift+a"));
    assert_eq!(parse_hotkey("Alt+Alt+a"), parse_hotkey("Alt+a"));
    assert_eq!(parse_hotkey("Win+1").unwrap().0, MOD_WIN);
    assert_eq!(parse_hotkey(" alt + space "), Some((MOD_ALT, VK_SPACE)));
}

#[test]
fn white_space_around_the_parts_changes_nothing() {
    assert_eq!(parse_hotkey("\tCtrl  +\u{3000}Shift+ K\n"), parse_hotkey("ctrl+shift+k"));
    assert_eq!(parse_hotkey("+ +Ctrl++K"), parse_hotkey("Ctrl+K"));
    assert_eq!(parse_hotkey("Ctrl+Ctrl+Alt+CONTROL+k"), parse_hotkey("alt+control+K"));
    assert_eq!(parse_hotkey("C trl+K"), None);
    assert_eq!(parse_hotkey("Meta+Ctrl+K"), None);
}

#[test]
fn keys_have_their_codes() {
    assert_eq!(parse_key("a"), Some(0x41));
    assert_eq!(parse_key("Z"), Some(0x5A));
    assert_eq!(parse_key("7"), Some(0x37));
    assert_eq!(parse_key("F1"), Some(0x70));
    assert_eq!(parse_key("f24"), Some(0x87));
    assert_eq!(parse_key("f25"), None);
    assert_eq!(parse_key("f0"), None);
    assert_eq!(parse_key("f012"), Some(0x7B));
    assert_eq!(parse_key("f+5"), Some(0x74));
    assert_eq!(parse_key("f4294967308"), None);
    assert_eq!(parse_key("f"), Some(0x46));
    assert_eq!(parse_key("Return"), Some(0x0D));
    assert_eq!(parse_key("tab"), Some(0x09));
    assert_eq!(parse_key("Esc"), Some(0x1B));
    assert_eq!(parse_key("backspace"), Some(0x08));
    assert_eq!(parse_key("é"), None);
}

#[test]
fn a_listener_registers_without_repeats_and_falls_back() {
    let (listener, registration) = HotkeyListener::spawn(7, "Ctrl+K");
    assert_eq!(
        registration,
        Registration { modifiers: MOD_CONTROL | MOD_NOREPEAT, vk: 0x4B }
    );
    assert!(listener.can_update());
    let (idle, fallback) = HotkeyListener::spawn(0, "nonsense");
    assert_eq!(fallback, Registration { modifiers: MOD_ALT | MOD_NOREPEAT, vk: VK_SPACE });
    assert!(!idle.can_update());
}

#[test]
fn presses_are_taken_one_by_one() {
    let (mut listener, _) = HotkeyListener::spawn(1, "Alt+Space");
    assert!(!listener.try_recv_toggle());
    assert_eq!(listener.on_message(WM_HOTKEY), ListenerEvent::Toggle);
    assert_eq!(listener.on_message(WM_HOTKEY), ListenerEvent::Toggle);
    assert_eq!(listener.on_message(WM_UPDATE_HOTKEY), ListenerEvent::Update);
    assert_eq!(listener.on_message(0), ListenerEvent::Ignore);
    assert!(listener.try_recv_toggle());
    assert!(listener.try_recv_toggle());
    assert!(!listener.try_recv_toggle());
}

#[test]
fn a_half_typed_hotkey_keeps_the_current_one() {
    let (mut listener, _) = HotkeyListener::spawn(1, "Alt+Space");
    listener.on_registered(true);
    assert_eq!(listener.update_hotkey("Ctrl+"), HotkeyUpdate::Keep);
    assert_eq!(
        listener.update_hotkey("Ctrl+J"),
        HotkeyUpdate::Register {
            unregister_first: true,
            registration: Registration { modifiers: MOD_CONTROL | MOD_NOREPEAT, vk: 0x4A },
        }
    );
    listener.on_registered(false);
    assert!(matches!(
        listener.update_hotkey("Ctrl+J"),
        HotkeyUpdate::Register { unregister_first: false, .. }
    ));
}
