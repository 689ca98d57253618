use issen::text::{chars_of, is_space, slice, splice, str_bytes, trim};
use issen::text_input::{
    key_bindings, next_start, previous_start, EditOutcome, FieldAction, MouseHit, Run, Span,
    TextInput,
};

fn span(start: usize, end: usize) -> Span {
    Span { start, end }
}

fn field(text: &str) -> TextInput {
    TextInput::new(text, "hint")
}

#[test]
fn a_new_field_has_the_caret_behind_its_text() {
    let input = field("あb");
    assert_eq!(input.text(), "あb");
    assert_eq!(input.selected_range, span(4, 4));
    assert_eq!(input.cursor_offset(), 4);
}

#[test]
fn the_caret_moves_by_grapheme_clusters() {
    // "e" with a combining accent, then a family of three joined emoji.
    let text = "e\u{301}\u{1F468}\u{200D}\u{1F469}\u{200D}\u{1F467}x";
    let mut input = field(text);
    input.on_left();
    assert_eq!(input.cursor_offset(), text.len() - 1);
    input.on_left();
    assert_eq!(input.cursor_offset(), 3);
    input.on_left();
    assert_eq!(input.cursor_offset(), 0);
    input.on_left();
    assert_eq!(input.cursor_offset(), 0);
    input.on_right();
    assert_eq!(input.cursor_offset(), 3);
    input.on_end();
    input.on_right();
    assert_eq!(input.cursor_offset(), text.len());
    input.on_home();
    assert_eq!(input.cursor_offset(), 0);
}

#[test]
fn cluster_starts_give_the_neighbours() {
    let starts = vec![0, 3, 7];
    assert_eq!(previous_start(&starts, 7), 3);
    assert_eq!(previous_start(&starts, 9), 7);
    assert_eq!(previous_start(&starts, 0), 0);
    assert_eq!(next_start(&starts, 0, 9), 3);
    assert_eq!(next_start(&starts, 7, 9), 9);
    assert_eq!(next_start(&Vec::new(), 0, 0), 0);
}

#[test]
fn backspace_deletes_one_cluster_or_rings() {
    let mut input = field("ae\u{301}");
    assert_eq!(input.on_backspace(), EditOutcome::Edited);
    assert_eq!(input.text(), "a");
    assert_eq!(input.on_backspace(), EditOutcome::Edited);
    assert_eq!(input.on_backspace(), EditOutcome::Bell);
    assert_eq!(input.text(), "");
}

#[test]
fn delete_takes_what_follows_or_rings() {
    let mut input = field("xe\u{301}y");
    assert_eq!(input.on_delete(), EditOutcome::Bell);
    input.on_home();
    input.on_right();
    assert_eq!(input.on_delete(), EditOutcome::Edited);
    assert_eq!(input.text(), "xy");
    assert_eq!(input.cursor_offset(), 1);
}

#[test]
fn extending_a_selection_keeps_its_anchor() {
    let mut input = field("abcd");
    input.move_to(2);
    input.select_to(4);
    assert_eq!((input.selected_range, input.selection_reversed), (span(2, 4), false));
    input.select_to(0);
    assert_eq!((input.selected_range, input.selection_reversed), (span(0, 2), true));
    assert_eq!(input.cursor_offset(), 0);
    input.on_select_right();
    assert_eq!(input.selected_range, span(1, 2));
    input.on_select_left();
    assert_eq!(input.selected_range, span(0, 2));
    assert_eq!(input.on_copy().as_deref(), Some("ab"));
}

#[test]
fn arrows_leave_a_selection_at_its_ends() {
    let mut input = field("abcd");
    input.move_to(1);
    input.select_to(3);
    input.on_left();
    assert_eq!(input.selected_range, span(1, 1));
    input.select_to(3);
    input.on_right();
    assert_eq!(input.selected_range, span(3, 3));
}

#[test]
fn cut_and_paste_restore_the_text() {
    let mut input = field("hello world");
    input.move_to(0);
    input.select_to(6);
    let cut = input.on_cut();
    assert_eq!(cut.as_deref(), Some("hello "));
    assert_eq!(input.text(), "world");
    input.on_paste(cut.as_deref());
    assert_eq!(input.text(), "hello world");
    assert_eq!(input.on_cut(), None);
    input.on_paste(None);
    assert_eq!(input.text(), "hello world");
}

#[test]
fn pasted_lines_are_joined() {
    let mut input = field("");
    input.on_paste(Some("a\nb\r\nc"));
    assert_eq!(input.text(), "a b\r c");
}

#[test]
fn select_all_and_type_replaces_everything() {
    let mut input = field("old");
    input.on_select_all();
    input.replace_text_in_range(None, "新しい");
    assert_eq!(input.text(), "新しい");
    assert_eq!(input.selected_range, span(9, 9));
}

#[test]
fn utf16_offsets_round_trip_at_characters() {
    let input = field("a\u{1F600}é");
    assert_eq!(input.offset_to_utf16(0), 0);
    assert_eq!(input.offset_to_utf16(1), 1);
    assert_eq!(input.offset_to_utf16(5), 3);
    assert_eq!(input.offset_to_utf16(7), 4);
    for offset in [0, 1, 5, 7] {
        assert_eq!(input.offset_from_utf16(input.offset_to_utf16(offset)), offset);
    }
    // Inside a surrogate pair, and past the end.
    assert_eq!(input.offset_from_utf16(2), 5);
    assert_eq!(input.offset_from_utf16(99), 7);
    assert_eq!(input.text_for_range(span(0, 2)), ("a\u{1F600}".to_string(), span(0, 3)));
}

#[test]
fn an_input_method_composes_in_place() {
    let mut input = field("ab");
    input.move_to(1);
    input.replace_and_mark_text_in_range(None, "か", None);
    assert_eq!(input.text(), "aかb");
    assert_eq!(input.marked_range, Some(span(1, 4)));
    assert_eq!(input.marked_text_range(), Some(span(1, 2)));
    assert_eq!(input.selected_range, span(4, 4));
    let run = |len: usize, underlined: bool| Run { len, underlined };
    assert_eq!(input.text_runs(), vec![run(1, false), run(3, true), run(1, false)]);
    // The next text of the input method replaces what it composed.
    input.replace_and_mark_text_in_range(None, "かん", Some(span(0, 1)));
    assert_eq!(input.text(), "aかんb");
    assert_eq!(input.marked_range, Some(span(1, 7)));
    input.replace_text_in_range(None, "漢");
    assert_eq!(input.text(), "a漢b");
    assert_eq!(input.marked_range, None);
    input.replace_and_mark_text_in_range(Some(span(0, 1)), "", None);
    assert_eq!(input.text(), "漢b");
    assert_eq!(input.marked_range, None);
    assert_eq!(input.selected_text_range(), (span(0, 0), false));
}

#[test]
fn composing_can_be_left() {
    let mut input = field("");
    input.replace_and_mark_text_in_range(None, "x", None);
    input.unmark_text();
    assert_eq!(input.marked_text_range(), None);
    assert_eq!(input.text(), "x");
}

#[test]
fn the_mouse_places_and_drags_the_caret() {
    let mut input = field("abcd");
    input.on_mouse_down(MouseHit::Inside(1), false);
    input.on_mouse_move(MouseHit::Below);
    assert_eq!(input.selected_range, span(1, 4));
    input.on_mouse_up();
    input.on_mouse_move(MouseHit::Above);
    assert_eq!(input.selected_range, span(1, 4));
    input.on_mouse_down(MouseHit::Above, true);
    assert_eq!((input.selected_range, input.selection_reversed), (span(0, 1), true));
    assert_eq!(input.index_for_mouse_position(MouseHit::NoLayout), 0);
    assert_eq!(field("").index_for_mouse_position(MouseHit::Inside(3)), 0);
}

#[test]
fn an_empty_field_shows_its_placeholder() {
    let input = field("");
    assert_eq!(input.display_text(), ("hint", true));
    assert_eq!(input.text_runs(), vec![Run { len: 4, underlined: false }]);
    assert_eq!(field("x").display_text(), ("x", false));
}

#[test]
fn setting_the_text_ends_composing() {
    let mut input = field("");
    input.replace_and_mark_text_in_range(None, "x", None);
    input.set_text("é");
    assert_eq!((input.text(), input.marked_range), ("é", None));
    input.set_text_silent("");
    assert_eq!(input.selected_range, span(0, 0));
}

#[test]
fn every_field_action_has_one_key() {
    let keys = key_bindings();
    assert_eq!(keys.len(), 12);
    assert!(keys.contains(&("shift-left", FieldAction::FieldSelectLeft)));
    assert!(keys.contains(&("ctrl-v", FieldAction::FieldPaste)));
}

#[test]
fn white_space_is_what_unicode_says() {
    for v in 0..=0x10FFFFu32 {
        if let Some(c) = char::from_u32(v) {
            assert_eq!(is_space(c), c.is_whitespace());
        }
    }
}

#[test]
fn trimming_takes_white_space_off_both_ends() {
    assert_eq!(trim("\u{3000} a b\t\n"), "a b");
    assert_eq!(trim(" \u{a0}"), "");
    assert_eq!(trim("x"), "x");
}

#[test]
fn texts_are_cut_and_joined_at_byte_offsets() {
    assert_eq!(slice("aéb", 1, 3), "é");
    assert_eq!(splice("aéb", 1, 3, "ee"), "aeeb");
    assert_eq!(str_bytes("aé漢\u{1F600}"), 10);
    assert_eq!(chars_of("aé").len(), 2);
}
