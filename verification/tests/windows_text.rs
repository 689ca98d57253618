use issen::wide::{first_units, text_in_buffer, to_wide};

#[test]
fn texts_become_utf16_with_a_zero() {
    assert_eq!(to_wide("a\u{1F600}"), vec![0x61, 0xD83D, 0xDE00, 0]);
    assert_eq!(to_wide(""), vec![0]);
    let text = "日本語 and \u{10FFFF}";
    let expected: Vec<u16> = text.encode_utf16().chain(std::iter::once(0)).collect();
    assert_eq!(to_wide(text), expected);
}

#[test]
fn different_texts_differ_in_utf16() {
    assert_ne!(to_wide("\u{FFFF}"), to_wide("\u{10000}"));
}

#[test]
fn a_buffer_holds_as_much_text_as_it_says() {
    let buffer = to_wide("C:\\temp");
    assert_eq!(text_in_buffer(&buffer, 2), "C:");
    assert_eq!(text_in_buffer(&buffer, 7), "C:\\temp");
    assert_eq!(text_in_buffer(&buffer, 0), "");
    assert_eq!(text_in_buffer(&buffer, 99), "C:\\temp\0");
    assert_eq!(text_in_buffer(&vec![0x61, 0xD83D], 2), "a\u{FFFD}");
    assert_eq!(first_units(&buffer, 2), vec![0x43, 0x3A]);
}

#[test]
fn unpaired_surrogates_are_replaced_one_by_one() {
    let units = vec![0xDD1E, 0xD834, 0xD834, 0xDD1E, 0x78, 0xD834];
    assert_eq!(text_in_buffer(&units, 6), "\u{FFFD}\u{FFFD}\u{1D11E}x\u{FFFD}");
    assert_eq!(text_in_buffer(&units, 3), "\u{FFFD}\u{FFFD}\u{FFFD}");
}

#[test]
fn a_text_is_read_back_from_utf16() {
    let text = "a\u{FFFF}\u{10000}語\u{10FFFF}";
    let wide = to_wide(text);
    assert_eq!(text_in_buffer(&wide, wide.len() - 1), text);
}
