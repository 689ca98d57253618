use issen::i18n::{Lang, Strings};
use issen::tools::units::Category;
use issen::tools::units::CATEGORIES;
use issen::tools::{key_down, title, window_size, Drag, Tick, ToolKind, ToolsWindow};

const UP: u16 = 0;
const DOWN: u16 = 0x8000;

fn tick(escape: u16, enter: u16, pixel: Option<u32>) -> Tick {
    Tick { escape, enter, pixel }
}

#[test]
fn a_key_is_down_by_its_top_bit() {
    assert!(key_down(0x8000));
    assert!(key_down(0xFFFF));
    assert!(!key_down(0x7FFF));
}

#[test]
fn the_color_text_follows_the_color() {
    let mut window = ToolsWindow::new(ToolKind::ColorPicker);
    assert_eq!(window.hex_input.text(), "#F2A93B");
    window.sync_hex(1, 2, 255);
    assert_eq!(window.hex_input.text(), "#0102FF");
    assert_eq!(window.on_hex_edited(), Some((1, 2, 255)));
    window.hex_input.set_text("#01");
    assert_eq!(window.on_hex_edited(), None);
}

#[test]
fn the_eyedropper_samples_until_enter_goes_down() {
    let mut window = ToolsWindow::new(ToolKind::ColorPicker);
    assert!(!window.poll_eyedropper(tick(UP, UP, Some(0))).keep);
    assert!(window.start_eyedropper());
    assert!(!window.start_eyedropper());
    let first = window.poll_eyedropper(tick(UP, UP, Some(0x0000_00FF)));
    assert!(first.keep);
    assert_eq!(first.color, Some((255, 0, 0)));
    let unread = window.poll_eyedropper(tick(UP, UP, None));
    assert_eq!((unread.color, unread.keep), (None, true));
    let last = window.poll_eyedropper(tick(UP, DOWN, Some(0x0000_FF00)));
    assert_eq!((last.color, last.keep), (Some((0, 255, 0)), false));
}

#[test]
fn a_held_enter_does_not_confirm_again() {
    let mut window = ToolsWindow::new(ToolKind::ColorPicker);
    assert!(window.start_eyedropper());
    window.eyedropper_prev_confirm_key = true;
    assert!(window.poll_eyedropper(tick(UP, DOWN, None)).keep);
    assert!(window.poll_eyedropper(tick(UP, UP, None)).keep);
    assert!(!window.poll_eyedropper(tick(UP, DOWN, None)).keep);
}

#[test]
fn enter_held_since_the_start_does_not_confirm() {
    let mut window = ToolsWindow::new(ToolKind::ColorPicker);
    assert!(window.start_eyedropper());
    for _ in 0..5 {
        let outcome = window.poll_eyedropper(tick(UP, DOWN, Some(0x0000_00FF)));
        assert_eq!((outcome.color, outcome.keep), (Some((255, 0, 0)), true));
    }
    assert!(window.poll_eyedropper(tick(UP, UP, None)).keep);
    assert!(!window.poll_eyedropper(tick(UP, DOWN, None)).keep);
}

#[test]
fn escape_ends_the_eyedropper_without_a_color() {
    let mut window = ToolsWindow::new(ToolKind::ColorPicker);
    window.start_eyedropper();
    let outcome = window.poll_eyedropper(tick(DOWN, DOWN, Some(0)));
    assert_eq!((outcome.color, outcome.keep), (None, false));
    assert!(!window.picking_color);
}

#[test]
fn a_drag_belongs_to_where_it_started() {
    let mut window = ToolsWindow::new(ToolKind::ColorPicker);
    assert_eq!(window.on_root_mouse_move(), Drag::Nothing);
    assert!(!window.on_root_mouse_up());
    window.on_hue_mouse_down();
    assert_eq!(window.on_root_mouse_move(), Drag::Hue);
    window.on_sv_mouse_down();
    assert_eq!(window.on_root_mouse_move(), Drag::SatVal);
    assert!(window.on_root_mouse_up());
    assert_eq!(window.on_root_mouse_move(), Drag::Nothing);
}

#[test]
fn the_color_tab_shows_one_color_everywhere() {
    let strings = Strings::for_lang(Lang::En);
    let mut window = ToolsWindow::new(ToolKind::ColorPicker);
    let tab = window.color_tab(0xF2, 0xA9, 0x3B, &strings);
    assert_eq!(tab.swatch, 0xF2A9_3BFF);
    assert_eq!(tab.hex, "#F2A93B");
    assert_eq!(tab.rgb, "242, 169, 59");
    assert_eq!(tab.hint, None);
    window.start_eyedropper();
    assert_eq!(window.color_tab(0, 0, 0, &strings).hint, Some(strings.eyedropper_hint));
}

#[test]
fn choosing_a_category_starts_with_its_first_units() {
    let strings = Strings::for_lang(Lang::En);
    let mut window = ToolsWindow::new(ToolKind::UnitConverter);
    window.select_from(3);
    window.select_to(4);
    window.select_category(2);
    assert_eq!(CATEGORIES[window.unit_category], Category::Temperature);
    assert_eq!((window.unit_from, window.unit_to), (0, 1));
    let tab = window.units_tab(&strings);
    assert_eq!(tab.categories.len(), 8);
    assert!(tab.categories[2].selected);
    assert_eq!(tab.from.iter().map(|c| c.label).collect::<Vec<_>>(), vec!["°C", "°F", "K"]);
    assert!(tab.from[0].selected && !tab.to[0].selected && tab.to[1].selected);
    assert!(tab.conversion.is_some());
}

#[test]
fn both_tools_share_one_window() {
    let strings = Strings::for_lang(Lang::En);
    let mut window = ToolsWindow::new(ToolKind::ColorPicker);
    assert_eq!(window.kind(), ToolKind::ColorPicker);
    window.switch_to(ToolKind::UnitConverter);
    assert_eq!(window.kind(), ToolKind::UnitConverter);
    assert_eq!(window_size(ToolKind::ColorPicker), (300, 540));
    assert_eq!(window_size(ToolKind::UnitConverter), (380, 440));
    assert_eq!(title(ToolKind::UnitConverter, &strings), strings.tool_unit_converter);
}
