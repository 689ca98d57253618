//! Colors as text and as packed numbers.

use vstd::prelude::*;

use crate::hotkey::lowered;
use crate::i18n::{decimal, decimal_of};
use crate::search::fuzzy::lower;
use crate::text::{
    all_white_space, chars_of, is_white_space, lemma_trimmed_core, trim, trimmed,
};

verus! {

/// The value of a hexadecimal digit.
pub open spec fn hex_value(c: char) -> Option<nat> {
    if '0' <= c && c <= '9' {
        Some((c as u32 - '0' as u32) as nat)
    } else if 'a' <= c && c <= 'f' {
        Some((c as u32 - 'a' as u32 + 10) as nat)
    } else if 'A' <= c && c <= 'F' {
        Some((c as u32 - 'A' as u32 + 10) as nat)
    } else {
        None
    }
}

/// The value of two hexadecimal digits.
pub open spec fn pair_value(a: char, b: char) -> Option<u8> {
    match (hex_value(a), hex_value(b)) {
        (Some(x), Some(y)) => Some((16 * x + y) as u8),
        _ => None,
    }
}

/// A text without the number sign in front of it, if there is one.
pub open spec fn without_hash(s: Seq<char>) -> Seq<char> {
    if s.len() > 0 && s[0] == '#' {
        s.drop_first()
    } else {
        s
    }
}

/// Six hexadecimal digits.
pub open spec fn is_six_digits(s: Seq<char>) -> bool {
    s.len() == 6 && forall|i: int| 0 <= i < 6 ==> hex_value(#[trigger] s[i]) is Some
}

/// The color of six characters.
pub open spec fn color_of(s: Seq<char>) -> Option<(u8, u8, u8)> {
    if s.len() != 6 {
        None
    } else {
        match (pair_value(s[0], s[1]), pair_value(s[2], s[3]), pair_value(s[4], s[5])) {
            (Some(r), Some(g), Some(b)) => Some((r, g, b)),
            _ => None,
        }
    }
}

/// The color that a text stands for: `#rrggbb` or `rrggbb`, with or without white
/// space around it.
pub open spec fn hex_color(input: Seq<char>) -> Option<(u8, u8, u8)> {
    color_of(without_hash(trimmed(input)))
}

fn hex_digit(c: char) -> (r: Option<u8>)
    ensures
        match hex_value(c) {
            Some(v) => r matches Some(d) && d == v && d < 16,
            None => r is None,
        },
{
    if '0' <= c && c <= '9' {
        Some(c as u8 - 48)
    } else if 'a' <= c && c <= 'f' {
        Some(c as u8 - 87)
    } else if 'A' <= c && c <= 'F' {
        Some(c as u8 - 55)
    } else {
        None
    }
}

fn parse_pair(a: char, b: char) -> (r: Option<u8>)
    ensures
        r == pair_value(a, b),
{
    match (hex_digit(a), hex_digit(b)) {
        (Some(x), Some(y)) => Some(16 * x + y),
        _ => None,
    }
}

/// Reads a color.
pub fn parse_hex(input: &str) -> (r: Option<(u8, u8, u8)>)
    ensures
        r == hex_color(input@),
        r is Some <==> is_six_digits(without_hash(trimmed(input@))),
{
    let text = trim(input);
    let chars = chars_of(text.as_str());
    let n: usize = chars.len();
    let start: usize = if n > 0 && chars[0] == '#' {
        1
    } else {
        0
    };
    let ghost digits = without_hash(chars@);
    assert(digits =~= chars@.skip(start as int));
    if n - start != 6 {
        return None;
    }
    proof {
        lemma_color_of(digits);
    }
    match (
        parse_pair(chars[start], chars[start + 1]),
        parse_pair(chars[start + 2], chars[start + 3]),
        parse_pair(chars[start + 4], chars[start + 5]),
    ) {
        (Some(r), Some(g), Some(b)) => Some((r, g, b)),
        _ => None,
    }
}

proof fn lemma_color_of(s: Seq<char>)
    ensures
        color_of(s) is Some <==> is_six_digits(s),
{
    if color_of(s) is Some {
        assert forall|i: int| 0 <= i < 6 implies hex_value(#[trigger] s[i]) is Some by {
            assert(i == 0 || i == 1 || i == 2 || i == 3 || i == 4 || i == 5);
        }
    } else if s.len() == 6 {
        assert(hex_value(s[0]) is None || hex_value(s[1]) is None || hex_value(s[2]) is None
            || hex_value(s[3]) is None || hex_value(s[4]) is None || hex_value(s[5]) is None);
    }
}

/// A hexadecimal digit, with capital letters.
pub open spec fn hex_char(v: nat) -> char {
    if v < 10 {
        ('0' as u32 + v) as char
    } else {
        ('A' as u32 + v - 10) as char
    }
}

/// Two hexadecimal digits.
pub open spec fn hex_pair(v: u8) -> Seq<char> {
    seq![hex_char((v / 16) as nat), hex_char((v % 16) as nat)]
}

/// A color as text.
pub open spec fn hex_text(r: u8, g: u8, b: u8) -> Seq<char> {
    seq!['#'] + hex_pair(r) + hex_pair(g) + hex_pair(b)
}

fn digit_char(v: u8) -> (c: char)
    requires
        v < 16,
    ensures
        c == hex_char(v as nat),
{
    if v < 10 {
        (48 + v) as char
    } else {
        (55 + v) as char
    }
}

fn push_pair(s: &mut String, v: u8)
    ensures
        final(s)@ == old(s)@ + hex_pair(v),
{
    s.push(digit_char(v / 16));
    s.push(digit_char(v % 16));
    assert(s@ =~= old(s)@ + hex_pair(v));
}

/// Writes a color, with capital letters.
pub fn to_hex(r: u8, g: u8, b: u8) -> (s: String)
    ensures
        s@ == hex_text(r, g, b),
{
    let mut s = String::new();
    s.push('#');
    assert(s@ =~= seq!['#']);
    push_pair(&mut s, r);
    push_pair(&mut s, g);
    push_pair(&mut s, b);
    s
}

/// The three parts of a color, in decimal.
pub open spec fn rgb_line(r: u8, g: u8, b: u8) -> Seq<char> {
    decimal_of(r as nat) + ", "@ + decimal_of(g as nat) + ", "@ + decimal_of(b as nat)
}

pub fn rgb_text(r: u8, g: u8, b: u8) -> (s: String)
    ensures
        s@ == rgb_line(r, g, b),
{
    let mut s = decimal(r as u64);
    s.append(", ");
    s.append(decimal(g as u64).as_str());
    s.append(", ");
    s.append(decimal(b as u64).as_str());
    s
}

/// An opaque color as `0xRRGGBBAA`.
pub fn pack_opaque(r: u8, g: u8, b: u8) -> (v: u32)
    ensures
        v == r * 0x100_0000 + g * 0x1_0000 + b * 0x100 + 0xFF,
{
    r as u32 * 0x100_0000 + g as u32 * 0x1_0000 + b as u32 * 0x100 + 0xFF
}

/// What reading a pixel returns where it fails.
pub const CLR_INVALID: u32 = 0xFFFF_FFFF;

/// The color of a pixel: the red part is the lowest byte, then green and blue.
pub open spec fn pixel(value: u32) -> Option<(u8, u8, u8)> {
    if value == CLR_INVALID {
        None
    } else {
        Some(
            (
                (value % 0x100) as u8,
                (value / 0x100 % 0x100) as u8,
                (value / 0x1_0000 % 0x100) as u8,
            ),
        )
    }
}

pub fn pixel_color(value: u32) -> (r: Option<(u8, u8, u8)>)
    ensures
        r == pixel(value),
{
    if value == CLR_INVALID {
        None
    } else {
        Some(
            (
                (value % 0x100) as u8,
                (value / 0x100 % 0x100) as u8,
                (value / 0x1_0000 % 0x100) as u8,
            ),
        )
    }
}

proof fn lemma_hex_value_lower(c: char)
    ensures
        hex_value(lower(c)) == hex_value(c),
        hex_value(c) is Some ==> c != '#' && !is_white_space(c),
{
}

proof fn lemma_pair_round_trip(v: u8)
    ensures
        pair_value(hex_pair(v)[0], hex_pair(v)[1]) == Some(v),
{
    let (x, y) = ((v / 16) as nat, (v % 16) as nat);
    assert(x < 16 && y < 16 && 16 * x + y == v);
    assert(hex_value(hex_char(x)) == Some(x));
    assert(hex_value(hex_char(y)) == Some(y));
}

/// The six digits of a color.
pub open spec fn hex_digits(r: u8, g: u8, b: u8) -> Seq<char> {
    hex_pair(r) + hex_pair(g) + hex_pair(b)
}

/// A color is read from its six digits in capital or small letters, with or
/// without a number sign in front, and with any white space around.
pub proof fn law_hex_is_read(
    r: u8,
    g: u8,
    b: u8,
    digits: Seq<char>,
    hash: bool,
    before: Seq<char>,
    after: Seq<char>,
)
    requires
        lowered(digits) == lowered(hex_digits(r, g, b)),
        all_white_space(before),
        all_white_space(after),
    ensures
        hex_color(
            before + if hash {
                seq!['#'] + digits
            } else {
                digits
            } + after,
        ) == Some((r, g, b)),
{
    let d = hex_digits(r, g, b);
    lemma_pair_round_trip(r);
    lemma_pair_round_trip(g);
    lemma_pair_round_trip(b);
    assert(d[0] == hex_pair(r)[0] && d[1] == hex_pair(r)[1]);
    assert(d[2] == hex_pair(g)[0] && d[3] == hex_pair(g)[1]);
    assert(d[4] == hex_pair(b)[0] && d[5] == hex_pair(b)[1]);
    assert(digits.len() == lowered(digits).len() == 6);
    assert forall|i: int| 0 <= i < 6 implies hex_value(#[trigger] digits[i]) == hex_value(d[i]) by {
        lemma_hex_value_lower(digits[i]);
        lemma_hex_value_lower(d[i]);
        assert(lowered(digits)[i] == lowered(d)[i]);
    }
    assert(color_of(digits) == color_of(d));
    assert(color_of(d) == Some((r, g, b)));
    lemma_hex_value_lower(digits[0]);
    lemma_hex_value_lower(digits[5]);
    let core = if hash {
        seq!['#'] + digits
    } else {
        digits
    };
    assert(core.last() == digits[5]);
    lemma_trimmed_core(before, core, after);
    assert(without_hash(core) =~= digits);
}

/// A color is read back from its text.
pub proof fn law_hex_round_trip(r: u8, g: u8, b: u8)
    ensures
        hex_color(hex_text(r, g, b)) == Some((r, g, b)),
{
    let digits = hex_digits(r, g, b);
    let none = Seq::<char>::empty();
    law_hex_is_read(r, g, b, digits, true, none, none);
    assert(none + (seq!['#'] + digits) + none =~= hex_text(r, g, b));
}

/// A color is written as a number sign and six digits: for each part, how many sixteens
/// and how many ones, with capital letters from ten on.
pub proof fn law_hex_digits(r: u8, g: u8, b: u8)
    ensures
        ({
            let s = hex_text(r, g, b);
            let parts = seq![r, r, g, g, b, b];
            &&& s.len() == 7
            &&& s[0] == '#'
            &&& forall|i: int|
                1 <= i < 7 ==> {
                    let v = if i % 2 == 1 {
                        parts[i - 1] / 16
                    } else {
                        parts[i - 1] % 16
                    };
                    (#[trigger] s[i]) as u32 == if v < 10 {
                        48 + v
                    } else {
                        55 + v
                    }
                }
        }),
{
    lemma_hex_char((r / 16) as nat);
    lemma_hex_char((r % 16) as nat);
    lemma_hex_char((g / 16) as nat);
    lemma_hex_char((g % 16) as nat);
    lemma_hex_char((b / 16) as nat);
    lemma_hex_char((b % 16) as nat);
    let s = hex_text(r, g, b);
    assert(s[1] == hex_pair(r)[0] && s[2] == hex_pair(r)[1]);
    assert(s[3] == hex_pair(g)[0] && s[4] == hex_pair(g)[1]);
    assert(s[5] == hex_pair(b)[0] && s[6] == hex_pair(b)[1]);
}

proof fn lemma_hex_char(v: nat)
    requires
        v < 16,
    ensures
        hex_char(v) as u32 == if v < 10 {
            48 + v
        } else {
            55 + v
        },
{
    let n = if v < 10 {
        48 + v
    } else {
        55 + v
    };
    vstd::utf8::char_u32_cast(hex_char(v), n as u32);
}

/// Only a text of six hexadecimal digits, with or without a number sign in front and with
/// or without white space around it, is a color.
pub proof fn law_nothing_else_is_a_color(input: Seq<char>)
    requires
        hex_color(input) is Some,
    ensures
        ({
            let text = trimmed(input);
            let digits = if text.len() > 0 && text[0] == '#' {
                text.drop_first()
            } else {
                text
            };
            &&& digits.len() == 6
            &&& forall|i: int|
                0 <= i < 6 ==> {
                    ||| '0' <= #[trigger] digits[i] && digits[i] <= '9'
                    ||| 'a' <= digits[i] && digits[i] <= 'f'
                    ||| 'A' <= digits[i] && digits[i] <= 'F'
                }
        }),
{
    let digits = without_hash(trimmed(input));
    lemma_color_of(digits);
    assert(is_six_digits(digits));
    assert forall|i: int| 0 <= i < 6 implies {
        ||| '0' <= #[trigger] digits[i] && digits[i] <= '9'
        ||| 'a' <= digits[i] && digits[i] <= 'f'
        ||| 'A' <= digits[i] && digits[i] <= 'F'
    } by {
        assert(hex_value(digits[i]) is Some);
    }
}

/// A pixel holds its red part in the lowest byte, green in the next and blue in the third;
/// what stands for a failure is no color.
pub proof fn law_pixels_are_read(r: u8, g: u8, b: u8)
    ensures
        pixel((b * 0x1_0000 + g * 0x100 + r) as u32) == Some((r, g, b)),
        pixel(0xFFFF_FFFF) is None,
{
    let v = (b * 0x1_0000 + g * 0x100 + r) as u32;
    assert(v % 0x100 == r && v / 0x100 % 0x100 == g && v / 0x1_0000 % 0x100 == b);
}

/// The parts of a color are shown in decimal, with commas between them.
pub proof fn law_parts_are_shown(r: u8, g: u8, b: u8)
    ensures
        exists|x: Seq<char>, y: Seq<char>, z: Seq<char>|
            crate::i18n::number_of(x) == r && crate::i18n::number_of(y) == g
                && crate::i18n::number_of(z) == b && rgb_line(r, g, b) == #[trigger] (x + ", "@ + y
                + ", "@ + z),
{
    crate::i18n::law_decimal_stands_for_the_number(r as nat);
    crate::i18n::law_decimal_stands_for_the_number(g as nat);
    crate::i18n::law_decimal_stands_for_the_number(b as nat);
    let (x, y, z) = (decimal_of(r as nat), decimal_of(g as nat), decimal_of(b as nat));
    assert(rgb_line(r, g, b) == x + ", "@ + y + ", "@ + z);
}

} // verus!
