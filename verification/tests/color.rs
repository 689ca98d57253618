use issen::tools::color::{pack_opaque, parse_hex, pixel_color, rgb_text, to_hex};

#[test]
fn parses_hex_with_and_without_hash() {
    assert_eq!(parse_hex("#F2A93B"), Some((0xF2, 0xA9, 0x3B)));
    assert_eq!(parse_hex("F2A93B"), Some((0xF2, 0xA9, 0x3B)));
    assert_eq!(parse_hex("nope"), None);
}

#[test]
fn does_not_panic_on_non_ascii_input_with_matching_byte_length() {
    // "aé345" is 1+2+1+1+1 = 6 bytes but not 6 chars; slicing by byte index
    // would land in the middle of a character.
    assert_eq!(parse_hex("aé345"), None);
}

#[test]
fn formats_hex_uppercase() {
    assert_eq!(to_hex(0xF2, 0xA9, 0x3B), "#F2A93B");
}

#[test]
fn every_color_is_read_back_from_its_text() {
    for v in 0..=255u8 {
        assert_eq!(parse_hex(&to_hex(v, 255 - v, v / 2)), Some((v, 255 - v, v / 2)));
    }
}

#[test]
fn white_space_around_and_one_number_sign_are_ignored() {
    assert_eq!(parse_hex("  #f2a93b\n"), Some((0xF2, 0xA9, 0x3B)));
    assert_eq!(parse_hex("\tF2a93B "), Some((0xF2, 0xA9, 0x3B)));
    assert_eq!(parse_hex("##f2a93b"), None);
    assert_eq!(parse_hex("# f2a93b"), None);
    assert_eq!(parse_hex("f2a93b#"), None);
}

#[test]
fn only_six_hexadecimal_digits_are_a_color() {
    assert_eq!(parse_hex("000000"), Some((0, 0, 0)));
    assert_eq!(parse_hex("#f2a93"), None);
    assert_eq!(parse_hex("f2a93bb"), None);
    assert_eq!(parse_hex("g2a93b"), None);
    assert_eq!(parse_hex("+1+2+3"), None);
    assert_eq!(parse_hex("-1-2-3"), None);
    assert_eq!(parse_hex("#"), None);
    assert_eq!(parse_hex(""), None);
}

#[test]
fn colors_are_written_in_decimal_and_packed() {
    assert_eq!(rgb_text(242, 169, 9), "242, 169, 9");
    assert_eq!(pack_opaque(0xF2, 0xA9, 0x3B), 0xF2A9_3BFF);
}

#[test]
fn a_pixel_has_red_lowest() {
    assert_eq!(pixel_color(0x003B_A9F2), Some((0xF2, 0xA9, 0x3B)));
    assert_eq!(pixel_color(0xFFFF_FFFF), None);
}
