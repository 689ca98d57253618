//! UTF-16, as Windows takes and gives text.

use vstd::prelude::*;

use crate::text::{chars_of, units, width, Encoding};

verus! {

/// The UTF-16 units of a character: itself, or a surrogate pair.
pub open spec fn utf16_char(c: char) -> Seq<u16> {
    let v = c as u32;
    if v <= 0xFFFF {
        seq![v as u16]
    } else {
        seq![(0xD800 + (v - 0x10000) / 0x400) as u16, (0xDC00 + (v - 0x10000) % 0x400) as u16]
    }
}

/// A text in UTF-16.
pub open spec fn utf16(s: Seq<char>) -> Seq<u16>
    decreases s.len(),
{
    if s.len() == 0 {
        Seq::empty()
    } else {
        utf16(s.drop_last()) + utf16_char(s.last())
    }
}

/// A text in UTF-16 that ends with a zero.
pub fn to_wide(s: &str) -> (r: Vec<u16>)
    ensures
        r@ == utf16(s@).push(0),
{
    let chars = chars_of(s);
    let mut r: Vec<u16> = Vec::new();
    let mut i: usize = 0;
    while i < chars.len()
        invariant
            i <= chars@.len(),
            r@ == utf16(chars@.take(i as int)),
        decreases chars@.len() - i,
    {
        assert(chars@.take(i + 1).drop_last() =~= chars@.take(i as int));
        let v: u32 = chars[i] as u32;
        let ghost before = r@;
        if v <= 0xFFFF {
            r.push(v as u16);
        } else {
            let rest: u32 = v - 0x10000;
            r.push((0xD800 + rest / 0x400) as u16);
            r.push((0xDC00 + rest % 0x400) as u16);
        }
        assert(r@ =~= before + utf16_char(chars@[i as int]));
        i += 1;
    }
    assert(chars@.take(i as int) =~= chars@);
    r.push(0);
    r
}

/// A unit that starts a surrogate pair.
pub open spec fn is_high_surrogate(u: u16) -> bool {
    0xD800 <= u <= 0xDBFF
}

/// A unit that ends a surrogate pair.
pub open spec fn is_low_surrogate(u: u16) -> bool {
    0xDC00 <= u <= 0xDFFF
}

/// The character of a surrogate pair.
pub open spec fn pair_char(high: u16, low: u16) -> char {
    (0x10000 + (high - 0xD800) * 0x400 + (low - 0xDC00)) as u32 as char
}

/// The text of UTF-16 units: a surrogate pair is one character, a surrogate
/// without its other half is a replacement character, and any other unit is the
/// character of its number.
pub open spec fn utf16_text(v: Seq<u16>) -> Seq<char>
    decreases v.len(),
{
    if v.len() == 0 {
        Seq::empty()
    } else if v.len() > 1 && is_high_surrogate(v[0]) && is_low_surrogate(v[1]) {
        seq![pair_char(v[0], v[1])] + utf16_text(v.skip(2))
    } else if is_high_surrogate(v[0]) || is_low_surrogate(v[0]) {
        seq!['\u{FFFD}'] + utf16_text(v.skip(1))
    } else {
        seq![v[0] as u32 as char] + utf16_text(v.skip(1))
    }
}

/// Calls `String::from_utf16_lossy`. Trusted: it decodes the units, with a
/// replacement character in place of each unpaired surrogate.
#[verifier::external_body]
fn string_from_utf16_lossy(v: &Vec<u16>) -> (r: String)
    ensures
        r@ == utf16_text(v@),
{
    String::from_utf16_lossy(v.as_slice())
}

/// The text in the first `len` units of a buffer, or in all of it where `len`
/// is more.
pub fn text_in_buffer(buffer: &Vec<u16>, len: usize) -> (r: String)
    ensures
        r@ == utf16_text(
            if len <= buffer@.len() {
                buffer@.take(len as int)
            } else {
                buffer@
            },
        ),
{
    let n: usize = if len <= buffer.len() {
        len
    } else {
        buffer.len()
    };
    let filled = first_units(buffer, n);
    assert(buffer@.take(buffer@.len() as int) =~= buffer@);
    string_from_utf16_lossy(&filled)
}

/// The first units of a buffer.
pub fn first_units(buffer: &Vec<u16>, n: usize) -> (r: Vec<u16>)
    requires
        n <= buffer@.len(),
    ensures
        r@ == buffer@.take(n as int),
{
    let mut r: Vec<u16> = Vec::new();
    let mut i: usize = 0;
    while i < n
        invariant
            i <= n <= buffer@.len(),
            r@ == buffer@.take(i as int),
        decreases n - i,
    {
        r.push(buffer[i]);
        i += 1;
        assert(r@ =~= buffer@.take(i as int));
    }
    r
}

/// A text's UTF-16 form is as long as its length in UTF-16 units.
pub proof fn law_utf16_length(s: Seq<char>)
    ensures
        utf16(s).len() == units(Encoding::Utf16, s),
    decreases s.len(),
{
    if s.len() > 0 {
        law_utf16_length(s.drop_last());
        assert(utf16_char(s.last()).len() == width(Encoding::Utf16, s.last()));
    }
}

proof fn lemma_utf16_char_ends(c: char)
    ensures
        utf16_char(c).len() > 0,
        !is_high_surrogate(utf16_char(c).last()),
        c as u32 > 0xFFFF ==> is_high_surrogate(utf16_char(c)[0]) && 0xDC00
            <= utf16_char(c).last() <= 0xDFFF,
        c as u32 <= 0xFFFF ==> !(0xDC00 <= utf16_char(c).last() <= 0xDFFF),
{
    let v = c as u32;
    vstd::utf8::char_is_scalar(c);
    if v > 0xFFFF {
        assert((v - 0x10000) / 0x400 <= 0x3FF);
    }
}

proof fn lemma_utf16_char_injective(c: char, d: char)
    requires
        utf16_char(c) == utf16_char(d),
    ensures
        c == d,
{
    let (v, w) = (c as u32, d as u32);
    assert(utf16_char(c).len() == utf16_char(d).len());
    assert(utf16_char(c)[0] == utf16_char(d)[0]);
    vstd::utf8::char_is_scalar(c);
    vstd::utf8::char_is_scalar(d);
    if v > 0xFFFF {
        assert(utf16_char(c)[1] == utf16_char(d)[1]);
        let (a, b) = (v - 0x10000, w - 0x10000);
        assert(a / 0x400 <= 0x3FF && b / 0x400 <= 0x3FF);
        assert((0xD800 + a / 0x400) as u16 == 0xD800 + a / 0x400);
        assert((0xD800 + b / 0x400) as u16 == 0xD800 + b / 0x400);
        assert((0xDC00 + a % 0x400) as u16 == 0xDC00 + a % 0x400);
        assert((0xDC00 + b % 0x400) as u16 == 0xDC00 + b % 0x400);
        assert(w > 0xFFFF);
        assert(a / 0x400 == b / 0x400);
        assert(a % 0x400 == b % 0x400);
        assert(a == b);
    } else {
        assert(w <= 0xFFFF);
        assert(utf16_char(c)[0] == v as u16);
        assert(utf16_char(d)[0] == w as u16);
        assert(v as u16 == v && w as u16 == w);
        assert(v == w);
    }
}

proof fn lemma_utf16_front(s: Seq<char>)
    requires
        s.len() > 0,
    ensures
        utf16(s) == utf16_char(s[0]) + utf16(s.drop_first()),
    decreases s.len(),
{
    if s.len() == 1 {
        assert(s.drop_last() =~= Seq::empty());
        assert(s.drop_first() =~= Seq::empty());
        assert(utf16(s) =~= utf16_char(s[0]) + utf16(s.drop_first()));
    } else {
        lemma_utf16_front(s.drop_last());
        assert(s.drop_last().drop_first() =~= s.drop_first().drop_last());
        assert(utf16(s) =~= utf16_char(s[0]) + utf16(s.drop_first()));
    }
}

/// A text is read back from its UTF-16 form.
pub proof fn law_utf16_is_read_back(s: Seq<char>)
    ensures
        utf16_text(utf16(s)) == s,
    decreases s.len(),
{
    if s.len() == 0 {
        assert(utf16_text(utf16(s)) =~= s);
    } else {
        let (c, rest) = (s[0], s.drop_first());
        let v = c as u32;
        let all = utf16(s);
        lemma_utf16_front(s);
        law_utf16_is_read_back(rest);
        vstd::utf8::char_is_scalar(c);
        vstd::utf8::char_u32_cast(c, v);
        if v > 0xFFFF {
            let n = v - 0x10000;
            assert(n / 0x400 <= 0x3FF);
            assert((0xD800 + n / 0x400) as u16 == 0xD800 + n / 0x400);
            assert((0xDC00 + n % 0x400) as u16 == 0xDC00 + n % 0x400);
            assert(all[0] == 0xD800 + n / 0x400 && all[1] == 0xDC00 + n % 0x400);
            assert(n == n / 0x400 * 0x400 + n % 0x400);
            assert(pair_char(all[0], all[1]) == c);
            assert(all.skip(2) =~= utf16(rest));
        } else {
            assert(v as u16 == v);
            assert(all[0] == v);
            assert(all[0] as u32 as char == c);
            assert(all.skip(1) =~= utf16(rest));
        }
        assert(utf16_text(all) =~= seq![c] + rest);
        assert(seq![c] + rest =~= s);
    }
}

/// Different texts have different UTF-16 forms: nothing is lost.
pub proof fn law_utf16_is_injective(a: Seq<char>, b: Seq<char>)
    requires
        utf16(a) == utf16(b),
    ensures
        a == b,
    decreases a.len(),
{
    if a.len() == 0 {
        if b.len() > 0 {
            lemma_utf16_char_ends(b.last());
            assert(utf16(b).len() > 0);
        }
        assert(a =~= b);
    } else {
        lemma_utf16_char_ends(a.last());
        if b.len() == 0 {
            assert(utf16(a).len() > 0);
        } else {
            lemma_utf16_char_ends(b.last());
            let (x, y) = (utf16_char(a.last()), utf16_char(b.last()));
            let (p, q) = (utf16(a.drop_last()), utf16(b.drop_last()));
            assert((p + x).last() == x.last());
            assert((q + y).last() == y.last());
            assert(x.len() == y.len());
            assert(p =~= (p + x).take(p.len() as int));
            assert(q =~= (q + y).take(q.len() as int));
            assert(x =~= (p + x).skip(p.len() as int));
            assert(y =~= (q + y).skip(q.len() as int));
            lemma_utf16_char_injective(a.last(), b.last());
            law_utf16_is_injective(a.drop_last(), b.drop_last());
            assert(a =~= a.drop_last().push(a.last()));
            assert(b =~= b.drop_last().push(b.last()));
        }
    }
}

} // verus!
