//! Strings as sequences of characters, and their lengths in UTF-8 bytes and
//! UTF-16 units.

use vstd::prelude::*;
use vstd::utf8::encode_utf8;

verus! {

/// `String::push` appends the character to the end of the string.
pub assume_specification[ String::push ](s: &mut String, c: char)
    ensures
        final(s)@ == old(s)@.push(c),
;

/// The two encodings in which text offsets are counted: the library's own
/// offsets are UTF-8 bytes, an input method's are UTF-16 units.
#[derive(Clone, Copy, PartialEq, Eq, Structural, Debug)]
pub enum Encoding {
    Utf8,
    Utf16,
}

/// How many units one character takes.
pub open spec fn width(e: Encoding, c: char) -> nat {
    match e {
        Encoding::Utf8 => if c as u32 <= 0x7F {
            1
        } else if c as u32 <= 0x7FF {
            2
        } else if c as u32 <= 0xFFFF {
            3
        } else {
            4
        },
        Encoding::Utf16 => if c as u32 <= 0xFFFF {
            1
        } else {
            2
        },
    }
}

/// How many units a text takes.
pub open spec fn units(e: Encoding, s: Seq<char>) -> nat
    decreases s.len(),
{
    if s.len() == 0 {
        0
    } else {
        units(e, s.drop_last()) + width(e, s.last())
    }
}

/// The length of a text in UTF-8 bytes.
pub open spec fn byte_len(s: Seq<char>) -> nat {
    units(Encoding::Utf8, s)
}

/// The number of leading characters needed to cover `n` units: the fewest that
/// together take at least `n`, or all of them where the text is shorter.
pub open spec fn covering(e: Encoding, s: Seq<char>, n: int) -> nat
    decreases s.len(),
{
    if s.len() == 0 || n <= 0 {
        0
    } else {
        1 + covering(e, s.drop_first(), n - width(e, s[0]))
    }
}

/// The byte offset lies between two characters of the text, or at an end of it.
pub open spec fn is_boundary(s: Seq<char>, offset: int) -> bool {
    byte_len(before(s, offset)) == offset
}

/// The characters in front of a byte offset.
pub open spec fn before(s: Seq<char>, offset: int) -> Seq<char> {
    s.take(covering(Encoding::Utf8, s, offset) as int)
}

/// The characters from a byte offset on.
pub open spec fn after(s: Seq<char>, offset: int) -> Seq<char> {
    s.skip(covering(Encoding::Utf8, s, offset) as int)
}

/// The length of a concatenation is the sum of the lengths.
pub proof fn lemma_units_concat(e: Encoding, a: Seq<char>, b: Seq<char>)
    ensures
        units(e, a + b) == units(e, a) + units(e, b),
    decreases b.len(),
{
    if b.len() == 0 {
        assert(a + b == a);
    } else {
        assert((a + b).drop_last() == a + b.drop_last());
        lemma_units_concat(e, a, b.drop_last());
    }
}

/// The first character accounts for its width.
pub proof fn lemma_units_first(e: Encoding, s: Seq<char>)
    requires
        s.len() > 0,
    ensures
        units(e, s) == width(e, s[0]) + units(e, s.drop_first()),
{
    let one = seq![s[0]];
    assert(s == one + s.drop_first());
    lemma_units_concat(e, one, s.drop_first());
    assert(one.drop_last() == Seq::<char>::empty());
    assert(units(e, one) == units(e, one.drop_last()) + width(e, s[0]));
}

/// Prefixes grow with every character.
pub proof fn lemma_units_take(e: Encoding, s: Seq<char>, i: int, j: int)
    requires
        0 <= i <= j <= s.len(),
    ensures
        units(e, s.take(i)) + (j - i) <= units(e, s.take(j)) <= units(e, s),
        units(e, s.take(i)) + units(e, s.skip(i)) == units(e, s),
    decreases j - i,
{
    assert(s.take(i) + s.skip(i) == s);
    lemma_units_concat(e, s.take(i), s.skip(i));
    assert(s.take(j) + s.skip(j) == s);
    lemma_units_concat(e, s.take(j), s.skip(j));
    if i < j {
        lemma_units_take(e, s, i, j - 1);
        assert(s.take(j).drop_last() == s.take(j - 1));
    }
}

/// What `covering` counts: the shortest prefix that takes at least `n` units.
pub proof fn lemma_covering(e: Encoding, s: Seq<char>, n: int)
    ensures
        covering(e, s, n) <= s.len(),
        n <= 0 ==> covering(e, s, n) == 0,
        covering(e, s, n) < s.len() ==> units(e, s.take(covering(e, s, n) as int)) >= n,
        forall|k: int|
            0 <= k < covering(e, s, n) ==> units(e, #[trigger] s.take(k)) < n,
    decreases s.len(),
{
    if s.len() > 0 && n > 0 {
        let rest = s.drop_first();
        let m = n - width(e, s[0]);
        lemma_covering(e, rest, m);
        let c = covering(e, rest, m) as int;
        assert forall|k: int| 0 <= k < c + 1 implies units(e, #[trigger] s.take(k)) < n by {
            if k > 0 {
                assert(s.take(k).drop_first() == rest.take(k - 1));
                lemma_units_first(e, s.take(k));
            }
        }
        assert(s.take(c + 1).drop_first() == rest.take(c));
        lemma_units_first(e, s.take(c + 1));
    }
}

/// Every prefix is found again from its length.
pub proof fn lemma_covering_prefix(e: Encoding, s: Seq<char>, k: int)
    requires
        0 <= k <= s.len(),
    ensures
        covering(e, s, units(e, s.take(k)) as int) == k,
{
    let n = units(e, s.take(k)) as int;
    lemma_covering(e, s, n);
    let c = covering(e, s, n) as int;
    if c < k {
        lemma_units_take(e, s, c, k);
    } else if c > k {
        assert(units(e, s.take(k)) < n);
    }
}

/// The end of every prefix is a boundary, and `before` and `after` split there.
pub proof fn lemma_prefix_boundary(s: Seq<char>, k: int)
    requires
        0 <= k <= s.len(),
    ensures
        is_boundary(s, byte_len(s.take(k)) as int),
        before(s, byte_len(s.take(k)) as int) == s.take(k),
        after(s, byte_len(s.take(k)) as int) == s.skip(k),
{
    lemma_covering_prefix(Encoding::Utf8, s, k);
}

/// The ends of a text are boundaries, and no boundary lies outside.
pub proof fn lemma_boundary_ends(s: Seq<char>)
    ensures
        is_boundary(s, 0),
        is_boundary(s, byte_len(s) as int),
        forall|i: int| #[trigger] is_boundary(s, i) ==> 0 <= i <= byte_len(s),
{
    lemma_prefix_boundary(s, 0);
    assert(s.take(0) == Seq::<char>::empty());
    lemma_prefix_boundary(s, s.len() as int);
    assert(s.take(s.len() as int) == s);
    assert forall|i: int| #[trigger] is_boundary(s, i) implies 0 <= i <= byte_len(s) by {
        lemma_covering(Encoding::Utf8, s, i);
        let k = covering(Encoding::Utf8, s, i) as int;
        lemma_units_take(Encoding::Utf8, s, k, s.len() as int);
    }
}

/// `byte_len` is the length of the UTF-8 encoding.
pub proof fn lemma_byte_len(s: Seq<char>)
    ensures
        byte_len(s) == encode_utf8(s).len(),
    decreases s.len(),
{
    if s.len() > 0 {
        lemma_byte_len(s.drop_first());
        lemma_units_first(Encoding::Utf8, s);
        vstd::utf8::char_is_scalar(s[0]);
    }
}

/// How many units one character takes.
pub fn char_width(e: Encoding, c: char) -> (n: usize)
    ensures
        n == width(e, c),
        1 <= n <= 4,
{
    let v: u32 = c as u32;
    match e {
        Encoding::Utf8 => if v <= 0x7F {
            1
        } else if v <= 0x7FF {
            2
        } else if v <= 0xFFFF {
            3
        } else {
            4
        },
        Encoding::Utf16 => if v <= 0xFFFF {
            1
        } else {
            2
        },
    }
}

/// The length of a string in UTF-8 bytes.
pub fn str_bytes(s: &str) -> (n: usize)
    ensures
        n == byte_len(s@),
{
    proof {
        lemma_byte_len(s@);
    }
    s.as_bytes().len()
}

/// The characters of a string.
pub fn chars_of(s: &str) -> (chars: Vec<char>)
    ensures
        chars@ == s@,
{
    let mut chars: Vec<char> = Vec::new();
    for c in it: s.chars()
        invariant
            it.seq() == s@,
            chars@ == s@.take(it.index() as int),
    {
        chars.push(c);
    }
    assert(s@.take(s@.len() as int) == s@);
    chars
}

/// The string made of the characters `chars[from..to]`.
pub fn string_of(chars: &Vec<char>, from: usize, to: usize) -> (s: String)
    requires
        from <= to <= chars@.len(),
    ensures
        s@ == chars@.subrange(from as int, to as int),
{
    let mut s = String::new();
    let mut i: usize = from;
    while i < to
        invariant
            from <= i <= to <= chars@.len(),
            s@ == chars@.subrange(from as int, i as int),
        decreases to - i,
    {
        s.push(chars[i]);
        i += 1;
        assert(chars@.subrange(from as int, i as int) == chars@.subrange(
            from as int,
            i - 1,
        ).push(chars@[i - 1]));
    }
    s
}

/// How many leading characters cover `n` units.
pub fn chars_covering(e: Encoding, chars: &Vec<char>, n: usize) -> (k: usize)
    ensures
        k == covering(e, chars@, n as int),
        k <= chars@.len(),
{
    let mut rest: usize = n;
    let mut k: usize = 0;
    assert(chars@.skip(0) == chars@);
    while k < chars.len() && rest > 0
        invariant
            k <= chars@.len(),
            covering(e, chars@, n as int) == k + covering(e, chars@.skip(k as int), rest as int),
        decreases chars@.len() - k,
    {
        let w: usize = char_width(e, chars[k]);
        assert(chars@.skip(k as int).drop_first() == chars@.skip(k + 1));
        proof {
            lemma_covering(e, chars@.skip(k + 1), rest - w);
        }
        rest = if w < rest {
            rest - w
        } else {
            0
        };
        k += 1;
    }
    k
}

/// The length of the first `k` characters.
pub fn units_upto(e: Encoding, chars: &Vec<char>, k: usize) -> (n: usize)
    requires
        k <= chars@.len(),
        byte_len(chars@) <= usize::MAX,
    ensures
        n == units(e, chars@.take(k as int)),
{
    let mut n: usize = 0;
    let mut i: usize = 0;
    while i < k
        invariant
            i <= k <= chars@.len(),
            byte_len(chars@) <= usize::MAX,
            n == units(e, chars@.take(i as int)),
        decreases k - i,
    {
        assert(chars@.take(i + 1).drop_last() == chars@.take(i as int));
        proof {
            lemma_utf16_shorter(e, chars@.take(i + 1));
            lemma_units_take(Encoding::Utf8, chars@, i + 1, chars@.len() as int);
        }
        n += char_width(e, chars[i]);
        i += 1;
    }
    n
}

/// A text takes at most as many UTF-16 units as UTF-8 bytes.
pub proof fn lemma_utf16_shorter(e: Encoding, s: Seq<char>)
    ensures
        units(e, s) <= byte_len(s),
    decreases s.len(),
{
    if s.len() > 0 {
        lemma_utf16_shorter(e, s.drop_last());
    }
}

/// Replaces what lies between two byte offsets.
pub fn splice(text: &str, start: usize, end: usize, new_text: &str) -> (result: String)
    requires
        is_boundary(text@, start as int),
        is_boundary(text@, end as int),
    ensures
        result@ == before(text@, start as int) + new_text@ + after(text@, end as int),
{
    let chars = chars_of(text);
    let i: usize = chars_covering(Encoding::Utf8, &chars, start);
    let j: usize = chars_covering(Encoding::Utf8, &chars, end);
    let head = string_of(&chars, 0, i);
    let tail = string_of(&chars, j, chars.len());
    let mut result = head;
    result.append(new_text);
    result.append(tail.as_str());
    assert(chars@.subrange(0, i as int) == chars@.take(i as int));
    assert(chars@.subrange(j as int, chars@.len() as int) == chars@.skip(j as int));
    result
}

/// The text between two byte offsets.
pub fn slice(text: &str, start: usize, end: usize) -> (result: String)
    requires
        is_boundary(text@, start as int),
        is_boundary(text@, end as int),
        start <= end,
    ensures
        result@ == between(text@, start as int, end as int),
{
    let chars = chars_of(text);
    let i: usize = chars_covering(Encoding::Utf8, &chars, start);
    let j: usize = chars_covering(Encoding::Utf8, &chars, end);
    proof {
        lemma_covering_order(chars@, start as int, end as int);
    }
    string_of(&chars, i, j)
}

/// The characters between two byte offsets.
pub open spec fn between(s: Seq<char>, start: int, end: int) -> Seq<char> {
    s.subrange(
        covering(Encoding::Utf8, s, start) as int,
        covering(Encoding::Utf8, s, end) as int,
    )
}

/// A later offset covers at least as many characters.
pub proof fn lemma_covering_order(s: Seq<char>, start: int, end: int)
    requires
        start <= end,
    ensures
        covering(Encoding::Utf8, s, start) <= covering(Encoding::Utf8, s, end) <= s.len(),
{
    lemma_covering(Encoding::Utf8, s, start);
    lemma_covering(Encoding::Utf8, s, end);
    let i = covering(Encoding::Utf8, s, start) as int;
    let j = covering(Encoding::Utf8, s, end) as int;
    if j < i {
        assert(byte_len(s.take(j)) < start);
    }
}

/// The texts of several strings.
pub open spec fn texts(strings: Seq<String>) -> Seq<Seq<char>> {
    strings.map_values(|s: String| s@)
}

/// Whether two strings hold the same text.
pub fn same_text(a: &str, b: &str) -> (r: bool)
    ensures
        r == (a@ == b@),
{
    let x = chars_of(a);
    let y = chars_of(b);
    if x.len() != y.len() {
        return false;
    }
    let mut i: usize = 0;
    while i < x.len()
        invariant
            x@ == a@,
            y@ == b@,
            i <= x@.len() == y@.len(),
            x@.take(i as int) == y@.take(i as int),
        decreases x@.len() - i,
    {
        if x[i] != y[i] {
            return false;
        }
        assert(x@.take(i + 1) == x@.take(i as int).push(x@[i as int]));
        assert(y@.take(i + 1) == y@.take(i as int).push(y@[i as int]));
        i += 1;
    }
    assert(x@.take(i as int) == x@ && y@.take(i as int) == y@);
    true
}

/// The characters with Unicode's `White_Space` property.
pub open spec fn is_white_space(c: char) -> bool {
    let v = c as u32;
    ||| 0x9 <= v <= 0xD
    ||| v == 0x20
    ||| v == 0x85
    ||| v == 0xA0
    ||| v == 0x1680
    ||| 0x2000 <= v <= 0x200A
    ||| v == 0x2028
    ||| v == 0x2029
    ||| v == 0x202F
    ||| v == 0x205F
    ||| v == 0x3000
}

/// `char::is_whitespace` tells the characters with the `White_Space` property.
pub assume_specification[ char::is_whitespace ](c: char) -> (r: bool)
    ensures
        r == is_white_space(c),
;

/// A text without the white space in front of it.
pub open spec fn trim_front(s: Seq<char>) -> Seq<char>
    decreases s.len(),
{
    if s.len() > 0 && is_white_space(s[0]) {
        trim_front(s.drop_first())
    } else {
        s
    }
}

/// A text without the white space behind it.
pub open spec fn trim_back(s: Seq<char>) -> Seq<char>
    decreases s.len(),
{
    if s.len() > 0 && is_white_space(s.last()) {
        trim_back(s.drop_last())
    } else {
        s
    }
}

/// A text without the white space around it.
pub open spec fn trimmed(s: Seq<char>) -> Seq<char> {
    trim_back(trim_front(s))
}

/// A string without the white space around it.
pub fn trim(s: &str) -> (r: String)
    ensures
        r@ == trimmed(s@),
{
    let chars = chars_of(s);
    let n: usize = chars.len();
    let mut i: usize = 0;
    assert(chars@.skip(0) == chars@);
    while i < n && chars[i].is_whitespace()
        invariant
            i <= n == chars@.len(),
            trim_front(chars@) == trim_front(chars@.skip(i as int)),
        decreases n - i,
    {
        assert(chars@.skip(i as int).drop_first() == chars@.skip(i + 1));
        i += 1;
    }
    let mut j: usize = n;
    assert(chars@.skip(i as int) == chars@.subrange(i as int, n as int));
    while j > i && chars[j - 1].is_whitespace()
        invariant
            i <= j <= n == chars@.len(),
            trimmed(chars@) == trim_back(chars@.subrange(i as int, j as int)),
        decreases j,
    {
        assert(chars@.subrange(i as int, j as int).drop_last() == chars@.subrange(
            i as int,
            j - 1,
        ));
        j -= 1;
    }
    string_of(&chars, i, j)
}

/// Whether a character counts as white space.
pub fn is_space(c: char) -> (r: bool)
    ensures
        r == is_white_space(c),
{
    c.is_whitespace()
}

proof fn lemma_trim_back(s: Seq<char>)
    ensures
        trim_back(s).len() <= s.len(),
        trim_back(s) == s.take(trim_back(s).len() as int),
        trim_back(s).len() > 0 ==> !is_white_space(trim_back(s).last()),
        trim_back(trim_back(s)) == trim_back(s),
    decreases s.len(),
{
    if s.len() > 0 && is_white_space(s.last()) {
        lemma_trim_back(s.drop_last());
        let n = trim_back(s).len() as int;
        assert(s.drop_last().take(n) == s.take(n));
    } else {
        assert(s.take(s.len() as int) == s);
    }
}

proof fn lemma_trim_front(s: Seq<char>)
    ensures
        trim_front(s).len() > 0 ==> !is_white_space(trim_front(s)[0]),
        trim_front(s).len() <= s.len(),
    decreases s.len(),
{
    if s.len() > 0 && is_white_space(s[0]) {
        lemma_trim_front(s.drop_first());
    }
}

/// A trimmed text neither starts nor ends with white space, and trimming it
/// again changes nothing.
pub proof fn law_trimmed(s: Seq<char>)
    ensures
        trimmed(s).len() > 0 ==> !is_white_space(trimmed(s)[0]) && !is_white_space(
            trimmed(s).last(),
        ),
        trimmed(trimmed(s)) == trimmed(s),
{
    lemma_trim_front(s);
    lemma_trim_back(trim_front(s));
}

/// White space and nothing else.
pub open spec fn all_white_space(s: Seq<char>) -> bool {
    forall|i: int| 0 <= i < s.len() ==> is_white_space(#[trigger] s[i])
}

/// White space in front of a text is trimmed off.
proof fn lemma_trim_front_white(before: Seq<char>, s: Seq<char>)
    requires
        all_white_space(before),
    ensures
        trim_front(before + s) == trim_front(s),
    decreases before.len(),
{
    if before.len() == 0 {
        assert(before + s =~= s);
    } else {
        assert((before + s)[0] == before[0]);
        assert((before + s).drop_first() =~= before.drop_first() + s);
        assert forall|i: int| 0 <= i < before.drop_first().len() implies is_white_space(
            #[trigger] before.drop_first()[i],
        ) by {
            assert(before.drop_first()[i] == before[i + 1]);
        }
        lemma_trim_front_white(before.drop_first(), s);
    }
}

/// White space behind a text is trimmed off.
proof fn lemma_trim_back_white(s: Seq<char>, after: Seq<char>)
    requires
        all_white_space(after),
    ensures
        trim_back(s + after) == trim_back(s),
    decreases after.len(),
{
    if after.len() == 0 {
        assert(s + after =~= s);
    } else {
        assert((s + after).last() == after.last());
        assert((s + after).drop_last() =~= s + after.drop_last());
        assert forall|i: int| 0 <= i < after.drop_last().len() implies is_white_space(
            #[trigger] after.drop_last()[i],
        ) by {
            assert(after.drop_last()[i] == after[i]);
        }
        lemma_trim_back_white(s, after.drop_last());
    }
}

/// What neither starts nor ends with white space is left by trimming, whatever
/// white space is around it.
pub proof fn lemma_trimmed_core(before: Seq<char>, core: Seq<char>, after: Seq<char>)
    requires
        all_white_space(before),
        all_white_space(after),
        core.len() > 0,
        !is_white_space(core[0]),
        !is_white_space(core.last()),
    ensures
        trimmed(before + core + after) == core,
{
    assert(before + core + after =~= before + (core + after));
    lemma_trim_front_white(before, core + after);
    assert((core + after)[0] == core[0]);
    lemma_trim_back_white(core, after);
}

/// White space behind a text stays behind what is left of it, or goes with it.
proof fn lemma_trim_front_concat(s: Seq<char>, after: Seq<char>)
    requires
        all_white_space(after),
    ensures
        trim_front(s + after) == if trim_front(s).len() > 0 {
            trim_front(s) + after
        } else {
            Seq::empty()
        },
    decreases s.len(),
{
    if s.len() == 0 {
        assert(s + after =~= after);
        lemma_trim_front_white(after, s);
        assert(after + s =~= after);
        assert(trim_front(s) =~= Seq::empty());
    } else {
        assert((s + after)[0] == s[0]);
        if is_white_space(s[0]) {
            assert((s + after).drop_first() =~= s.drop_first() + after);
            lemma_trim_front_concat(s.drop_first(), after);
        }
    }
}

/// White space in front of a text, or behind it, is trimmed off.
pub proof fn lemma_trimmed_white(white: Seq<char>, s: Seq<char>)
    requires
        all_white_space(white),
    ensures
        trimmed(white + s) == trimmed(s),
        trimmed(s + white) == trimmed(s),
{
    lemma_trim_front_white(white, s);
    lemma_trim_front_concat(s, white);
    lemma_trim_back_white(trim_front(s), white);
    if trim_front(s).len() == 0 {
        assert(trim_front(s) =~= Seq::empty());
    }
}

/// A copy of a list of strings.
pub fn copy_strings(v: &Vec<String>) -> (r: Vec<String>)
    ensures
        r@ == v@,
{
    let mut r: Vec<String> = Vec::new();
    let mut i: usize = 0;
    while i < v.len()
        invariant
            i <= v@.len(),
            r@ == v@.take(i as int),
        decreases v@.len() - i,
    {
        r.push(v[i].clone());
        i += 1;
    }
    assert(v@.take(i as int) == v@);
    r
}

/// Trimming takes white space off both ends and nothing else: a text is its trimmed form
/// with white space around it.
pub proof fn law_trimming_takes_white_space_only(s: Seq<char>)
    ensures
        exists|i: int, j: int|
            0 <= i <= j <= s.len() && trimmed(s) == #[trigger] s.subrange(i, j) && all_white_space(
                s.take(i),
            ) && all_white_space(s.skip(j)),
        all_white_space(s) <==> trimmed(s).len() == 0,
{
    let i = s.len() - trim_front(s).len();
    lemma_trim_front_is(s);
    let rest = trim_front(s);
    lemma_trim_back_is(rest);
    let j = i + trim_back(rest).len();
    assert(trimmed(s) =~= s.subrange(i, j));
    assert forall|k: int| 0 <= k < s.skip(j).len() implies is_white_space(
        #[trigger] s.skip(j)[k],
    ) by {
        assert(s.skip(j)[k] == rest.skip(trim_back(rest).len() as int)[k]);
    }
    assert(s.subrange(i, j) == trimmed(s) && all_white_space(s.take(i)) && all_white_space(
        s.skip(j),
    ));
    if trimmed(s).len() == 0 {
        assert forall|k: int| 0 <= k < s.len() implies is_white_space(#[trigger] s[k]) by {
            if k < i {
                assert(s[k] == s.take(i)[k]);
            } else {
                assert(s[k] == s.skip(j)[k - j]);
            }
        }
    } else {
        lemma_trim_back(rest);
        assert(!is_white_space(trimmed(s).last()));
        assert(trimmed(s).last() == s[j - 1]);
    }
}

proof fn lemma_trim_front_is(s: Seq<char>)
    ensures
        trim_front(s).len() <= s.len(),
        trim_front(s) == s.skip(s.len() - trim_front(s).len()),
        all_white_space(s.take(s.len() - trim_front(s).len())),
    decreases s.len(),
{
    if s.len() > 0 && is_white_space(s[0]) {
        let rest = s.drop_first();
        lemma_trim_front_is(rest);
        let n = s.len() - trim_front(s).len();
        assert(s.skip(n) =~= rest.skip(n - 1));
        assert forall|k: int| 0 <= k < s.take(n).len() implies is_white_space(
            #[trigger] s.take(n)[k],
        ) by {
            if k > 0 {
                assert(s.take(n)[k] == rest.take(n - 1)[k - 1]);
            }
        }
    } else {
        assert(s.skip(0) =~= s);
    }
}

proof fn lemma_trim_back_is(s: Seq<char>)
    ensures
        trim_back(s).len() <= s.len(),
        trim_back(s) == s.take(trim_back(s).len() as int),
        all_white_space(s.skip(trim_back(s).len() as int)),
    decreases s.len(),
{
    if s.len() > 0 && is_white_space(s.last()) {
        let rest = s.drop_last();
        lemma_trim_back_is(rest);
        let n = trim_back(s).len() as int;
        assert(s.take(n) =~= rest.take(n));
        assert forall|k: int| 0 <= k < s.skip(n).len() implies is_white_space(
            #[trigger] s.skip(n)[k],
        ) by {
            if n + k < rest.len() {
                assert(s.skip(n)[k] == rest.skip(n)[k]);
            }
        }
    } else {
        assert(s.take(s.len() as int) =~= s);
    }
}

} // verus!
