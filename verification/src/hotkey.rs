//! The global hotkey: reading it from the settings, and keeping it registered.

use vstd::prelude::*;

use crate::i18n::{decimal_of, digit, law_decimal_stands_for_the_number};
use crate::search::fuzzy::{ascii_lower, lower};
use crate::text::{
    all_white_space, chars_of, is_white_space, lemma_trimmed_white, same_text, texts, trim,
    trim_back, trim_front, trimmed,
};

verus! {

pub const MOD_ALT: u32 = 0x1;

pub const MOD_CONTROL: u32 = 0x2;

pub const MOD_SHIFT: u32 = 0x4;

pub const MOD_WIN: u32 = 0x8;

/// No repeated presses while the keys are held.
pub const MOD_NOREPEAT: u32 = 0x4000;

pub const VK_SPACE: u32 = 0x20;

/// The first function key; the others follow it.
pub const VK_F1: u32 = 0x70;

/// The message that a press of the hotkey sends.
pub const WM_HOTKEY: u32 = 0x0312;

/// The message that a change of the hotkey sends: the first one but one of the
/// application's own range.
pub const WM_UPDATE_HOTKEY: u32 = 0x8001;

// --- Splitting ---

/// The pieces between separators.
pub open spec fn split_at(s: Seq<char>, sep: char) -> Seq<Seq<char>>
    decreases s.len(),
{
    if s.len() == 0 {
        seq![Seq::empty()]
    } else {
        let front = split_at(s.drop_last(), sep);
        if s.last() == sep {
            front.push(Seq::empty())
        } else {
            front.update(front.len() - 1, front.last().push(s.last()))
        }
    }
}

/// The pieces without the white space around them, and without empty ones.
pub open spec fn not_blank(pieces: Seq<Seq<char>>) -> Seq<Seq<char>>
    decreases pieces.len(),
{
    if pieces.len() == 0 {
        Seq::empty()
    } else {
        let rest = not_blank(pieces.drop_last());
        let piece = trimmed(pieces.last());
        if piece.len() > 0 {
            rest.push(piece)
        } else {
            rest
        }
    }
}

/// The keys that a hotkey names.
pub open spec fn parts_of(spec_text: Seq<char>) -> Seq<Seq<char>> {
    not_blank(split_at(spec_text, '+'))
}

proof fn lemma_split_nonempty(s: Seq<char>, sep: char)
    ensures
        split_at(s, sep).len() > 0,
    decreases s.len(),
{
    if s.len() > 0 {
        lemma_split_nonempty(s.drop_last(), sep);
    }
}

/// The pieces between separators.
fn split(s: &str, sep: char) -> (r: Vec<String>)
    ensures
        texts(r@) == split_at(s@, sep),
{
    let chars = chars_of(s);
    let mut r: Vec<String> = Vec::new();
    let mut piece = String::new();
    let mut i: usize = 0;
    assert(texts(r@).push(piece@) =~= split_at(chars@.take(0), sep));
    while i < chars.len()
        invariant
            i <= chars@.len(),
            texts(r@).push(piece@) == split_at(chars@.take(i as int), sep),
        decreases chars@.len() - i,
    {
        assert(chars@.take(i + 1).drop_last() =~= chars@.take(i as int));
        let ghost front = texts(r@).push(piece@);
        if chars[i] == sep {
            let ghost before = r@;
            r.push(piece);
            assert(texts(r@) =~= texts(before).push(piece@));
            piece = String::new();
            assert(texts(r@).push(piece@) =~= front.push(Seq::empty()));
        } else {
            piece.push(chars[i]);
            assert(texts(r@).push(piece@) =~= front.update(
                front.len() - 1,
                front.last().push(chars@[i as int]),
            ));
        }
        i += 1;
    }
    assert(chars@.take(i as int) =~= chars@);
    let ghost before = r@;
    r.push(piece);
    assert(texts(r@) =~= texts(before).push(piece@));
    r
}

/// The keys that a hotkey names.
fn parts(spec_text: &str) -> (r: Vec<String>)
    ensures
        texts(r@) == parts_of(spec_text@),
{
    let pieces = split(spec_text, '+');
    let ghost all = texts(pieces@);
    let mut r: Vec<String> = Vec::new();
    let mut i: usize = 0;
    assert(texts(r@) =~= not_blank(all.take(0)));
    while i < pieces.len()
        invariant
            i <= pieces@.len(),
            all == texts(pieces@),
            texts(r@) == not_blank(all.take(i as int)),
        decreases pieces@.len() - i,
    {
        assert(all.take(i + 1).drop_last() =~= all.take(i as int));
        assert(all.take(i + 1).last() == pieces@[i as int]@);
        let piece = trim(pieces[i].as_str());
        if !piece.as_str().is_empty() {
            let ghost before = r@;
            r.push(piece);
            assert(texts(r@) =~= texts(before).push(piece@));
        }
        i += 1;
    }
    assert(all.take(i as int) =~= all);
    r
}

// --- Keys ---

/// A text with small ASCII letters.
pub open spec fn lowered(s: Seq<char>) -> Seq<char> {
    s.map_values(|c: char| lower(c))
}

/// `a` to `z` become `A` to `Z`; every other character stays.
pub open spec fn upper(c: char) -> char {
    if 'a' <= c && c <= 'z' {
        (c as u32 - 32) as char
    } else {
        c
    }
}

/// A text with small ASCII letters.
fn lower_text(s: &str) -> (r: String)
    ensures
        r@ == lowered(s@),
{
    let chars = chars_of(s);
    let mut r = String::new();
    let mut i: usize = 0;
    assert(r@ =~= lowered(chars@.take(0)));
    while i < chars.len()
        invariant
            i <= chars@.len(),
            r@ == lowered(chars@.take(i as int)),
        decreases chars@.len() - i,
    {
        r.push(ascii_lower(chars[i]));
        i += 1;
        assert(r@ =~= lowered(chars@.take(i as int)));
    }
    assert(chars@.take(i as int) =~= chars@);
    r
}

/// The flag of a modifier key, in either case.
pub open spec fn modifier_of(part: Seq<char>) -> Option<u32> {
    let m = lowered(part);
    if m == "ctrl"@ || m == "control"@ {
        Some(MOD_CONTROL)
    } else if m == "alt"@ {
        Some(MOD_ALT)
    } else if m == "shift"@ {
        Some(MOD_SHIFT)
    } else if m == "win"@ || m == "windows"@ {
        Some(MOD_WIN)
    } else {
        None
    }
}

/// The flags of several modifier keys together; `None` where one is unknown.
pub open spec fn modifiers_of(parts: Seq<Seq<char>>) -> Option<u32>
    decreases parts.len(),
{
    if parts.len() == 0 {
        Some(0)
    } else {
        match (modifiers_of(parts.drop_last()), modifier_of(parts.last())) {
            (Some(a), Some(b)) => Some(a | b),
            _ => None,
        }
    }
}

/// The value of a decimal digit.
pub open spec fn digit_value(c: char) -> Option<nat> {
    if '0' <= c && c <= '9' {
        Some((c as u32 - '0' as u32) as nat)
    } else {
        None
    }
}

/// The value of decimal digits, at least one of them.
pub open spec fn digits_value(s: Seq<char>) -> Option<nat>
    decreases s.len(),
{
    if s.len() == 0 {
        None
    } else if s.len() == 1 {
        digit_value(s[0])
    } else {
        match (digits_value(s.drop_last()), digit_value(s.last())) {
            (Some(v), Some(d)) => Some(v * 10 + d),
            _ => None,
        }
    }
}

/// The value of a number that is written in digits, perhaps with a plus sign.
pub open spec fn number_value(s: Seq<char>) -> Option<nat> {
    if s.len() > 1 && s[0] == '+' {
        digits_value(s.drop_first())
    } else {
        digits_value(s)
    }
}

/// The code of a key with a name.
pub open spec fn named_key(key: Seq<char>) -> Option<u32> {
    let k = lowered(key);
    if k == "space"@ {
        Some(VK_SPACE)
    } else if k == "tab"@ {
        Some(0x09u32)
    } else if k == "enter"@ || k == "return"@ {
        Some(0x0Du32)
    } else if k == "escape"@ || k == "esc"@ {
        Some(0x1Bu32)
    } else if k == "backspace"@ {
        Some(0x08u32)
    } else {
        None
    }
}

/// The code of a function key, `F1` to `F24`.
pub open spec fn function_key(key: Seq<char>) -> Option<u32> {
    if key.len() > 0 && upper(key[0]) == 'F' {
        match number_value(key.drop_first()) {
            Some(n) => if 1 <= n <= 24 {
                Some((VK_F1 + n - 1) as u32)
            } else {
                None
            },
            None => None,
        }
    } else {
        None
    }
}

/// An ASCII letter or digit.
pub open spec fn is_ascii_alphanumeric(c: char) -> bool {
    'a' <= c && c <= 'z' || 'A' <= c && c <= 'Z' || '0' <= c && c <= '9'
}

/// The code of the base key: a letter or digit stands for itself.
pub open spec fn key_code(key: Seq<char>) -> Option<u32> {
    if key.len() == 1 && is_ascii_alphanumeric(key[0]) {
        Some(upper(key[0]) as u32)
    } else if named_key(key) is Some {
        named_key(key)
    } else {
        function_key(key)
    }
}

/// The modifiers and the base key of a hotkey: the last part is the key.
pub open spec fn hotkey_of(spec_text: Seq<char>) -> Option<(u32, u32)> {
    let parts = parts_of(spec_text);
    if parts.len() == 0 {
        None
    } else {
        match (modifiers_of(parts.drop_last()), key_code(parts.last())) {
            (Some(modifiers), Some(vk)) => Some((modifiers, vk)),
            _ => None,
        }
    }
}

fn parse_modifier(part: &str) -> (r: Option<u32>)
    ensures
        r == modifier_of(part@),
{
    let m = lower_text(part);
    let m = m.as_str();
    if same_text(m, "ctrl") || same_text(m, "control") {
        Some(MOD_CONTROL)
    } else if same_text(m, "alt") {
        Some(MOD_ALT)
    } else if same_text(m, "shift") {
        Some(MOD_SHIFT)
    } else if same_text(m, "win") || same_text(m, "windows") {
        Some(MOD_WIN)
    } else {
        None
    }
}

fn parse_named_key(key: &str) -> (r: Option<u32>)
    ensures
        r == named_key(key@),
{
    let k = lower_text(key);
    let k = k.as_str();
    if same_text(k, "space") {
        Some(VK_SPACE)
    } else if same_text(k, "tab") {
        Some(0x09)
    } else if same_text(k, "enter") || same_text(k, "return") {
        Some(0x0D)
    } else if same_text(k, "escape") || same_text(k, "esc") {
        Some(0x1B)
    } else if same_text(k, "backspace") {
        Some(0x08)
    } else {
        None
    }
}

/// The number in `chars[from..]`, if it is at most 24.
fn parse_number(chars: &Vec<char>, from: usize) -> (r: Option<u32>)
    requires
        from <= chars@.len(),
    ensures
        r == match number_value(chars@.skip(from as int)) {
            Some(n) => if n <= 24 {
                Some(n as u32)
            } else {
                None
            },
            None => None,
        },
{
    let n: usize = chars.len();
    let ghost all = chars@.skip(from as int);
    let start: usize = if n - from > 1 && chars[from] == '+' {
        from + 1
    } else {
        from
    };
    let ghost digits = chars@.skip(start as int);
    assert(all.len() > 1 && all[0] == '+' ==> digits =~= all.drop_first());
    if start == n {
        return None;
    }
    let mut v: u32 = 0;
    let mut i: usize = start;
    while i < n
        invariant
            from <= start <= i <= n == chars@.len(),
            start < n,
            digits == chars@.skip(start as int),
            number_value(chars@.skip(from as int)) == digits_value(digits),
            v <= 10_009,
            i > start ==> (digits_value(digits.take(i - start)) matches Some(w) && (v == w || v
                > 1000 && w > 1000)),
            i == start ==> v == 0,
        decreases n - i,
    {
        let c = chars[i];
        let ghost k = i - start;
        assert(digits.take(k + 1).drop_last() =~= digits.take(k));
        assert(digits.take(k + 1).last() == c);
        if !('0' <= c && c <= '9') {
            proof {
                lemma_digits_prefix(digits, k + 1);
            }
            return None;
        }
        let d: u32 = c as u32 - '0' as u32;
        if v <= 1000 {
            v = v * 10 + d;
        }
        i += 1;
        proof {
            if k > 0 {
                assert(digits_value(digits.take(k + 1)) == Some(
                    (digits_value(digits.take(k))->0 * 10 + d) as nat,
                ));
            }
        }
    }
    assert(digits.take(n - start) =~= digits);
    if v <= 24 {
        Some(v)
    } else {
        None
    }
}

/// What is not a number at some point stays so.
proof fn lemma_digits_prefix(s: Seq<char>, k: int)
    requires
        0 < k <= s.len(),
        digits_value(s.take(k)) is None,
    ensures
        digits_value(s) is None,
    decreases s.len() - k,
{
    if k < s.len() {
        assert(s.take(k + 1).drop_last() =~= s.take(k));
        lemma_digits_prefix(s, k + 1);
    } else {
        assert(s.take(k) =~= s);
    }
}

/// The code of the base key of a hotkey.
pub fn parse_key(key: &str) -> (r: Option<u32>)
    ensures
        r == key_code(key@),
{
    let chars = chars_of(key);
    if chars.len() == 1 {
        let c = chars[0];
        if 'a' <= c && c <= 'z' {
            return Some(c as u32 - 32);
        }
        if 'A' <= c && c <= 'Z' || '0' <= c && c <= '9' {
            return Some(c as u32);
        }
    }
    let named = parse_named_key(key);
    if named.is_some() {
        return named;
    }
    if chars.len() > 0 && (chars[0] == 'F' || chars[0] == 'f') {
        assert(chars@.skip(1) =~= chars@.drop_first());
        match parse_number(&chars, 1) {
            Some(n) => {
                if n >= 1 {
                    return Some(VK_F1 + (n - 1));
                }
            },
            None => {},
        }
    }
    None
}

/// Reads a hotkey such as `Ctrl+Shift+K`: modifiers in any order, then the key.
pub fn parse_hotkey(spec_text: &str) -> (r: Option<(u32, u32)>)
    ensures
        r == hotkey_of(spec_text@),
{
    let parts = parts(spec_text);
    let ghost all = texts(parts@);
    let n: usize = parts.len();
    if n == 0 {
        return None;
    }
    let mut modifiers: u32 = 0;
    let mut i: usize = 0;
    assert(modifiers_of(all.take(0)) == Some(0u32));
    while i < n - 1
        invariant
            i < n == parts@.len(),
            all == texts(parts@),
            all == parts_of(spec_text@),
            modifiers_of(all.take(i as int)) == Some(modifiers),
        decreases n - i,
    {
        assert(all.take(i + 1).drop_last() =~= all.take(i as int));
        assert(all.take(i + 1).last() == parts@[i as int]@);
        match parse_modifier(parts[i].as_str()) {
            Some(m) => {
                modifiers = modifiers | m;
            },
            None => {
                proof {
                    lemma_unknown_modifier(all.drop_last(), i + 1);
                    assert(all.drop_last().take(i + 1) =~= all.take(i + 1));
                }
                return None;
            },
        }
        i += 1;
    }
    assert(all.take(i as int) =~= all.drop_last());
    match parse_key(parts[n - 1].as_str()) {
        Some(vk) => Some((modifiers, vk)),
        None => None,
    }
}

proof fn lemma_unknown_modifier(parts: Seq<Seq<char>>, k: int)
    requires
        0 <= k <= parts.len(),
        modifiers_of(parts.take(k)) is None,
    ensures
        modifiers_of(parts) is None,
    decreases parts.len() - k,
{
    if k < parts.len() {
        assert(parts.take(k + 1).drop_last() =~= parts.take(k));
        lemma_unknown_modifier(parts, k + 1);
    } else {
        assert(parts.take(k) =~= parts);
    }
}

// --- Registration ---

/// What to register with the system.
#[derive(Clone, Copy, PartialEq, Eq, Structural, Debug)]
pub struct Registration {
    pub modifiers: u32,
    pub vk: u32,
}

/// A hotkey without repeated presses.
pub open spec fn registration(hotkey: (u32, u32)) -> Registration {
    Registration { modifiers: hotkey.0 | MOD_NOREPEAT, vk: hotkey.1 }
}

/// What is registered at the start: the hotkey of the settings, or `Alt+Space`
/// where it cannot be read.
pub open spec fn initial_registration(spec_text: Seq<char>) -> Registration {
    registration(match hotkey_of(spec_text) {
        Some(hotkey) => hotkey,
        None => (MOD_ALT, VK_SPACE),
    })
}

/// What the listener does about a message of its thread.
#[derive(Clone, Copy, PartialEq, Eq, Structural, Debug)]
pub enum ListenerEvent {
    /// The hotkey was pressed.
    Toggle,
    /// A new hotkey waits to be read.
    Update,
    Ignore,
}

/// The listener of the hotkey.
#[derive(Debug)]
pub struct HotkeyListener {
    /// The thread that messages go to; 0 while it is not known.
    pub thread_id: u32,
    /// A hotkey is registered.
    pub registered: bool,
    /// Presses that nobody took yet.
    pub toggles: u64,
}

/// What to do about a new hotkey.
#[derive(Clone, Copy, PartialEq, Eq, Structural, Debug)]
pub enum HotkeyUpdate {
    /// It cannot be read yet: the current one stays.
    Keep,
    Register { unregister_first: bool, registration: Registration },
}

impl HotkeyListener {
    /// A listener, and what it registers first.
    pub fn spawn(thread_id: u32, hotkey_spec: &str) -> (r: (Self, Registration))
        ensures
            r.0.thread_id == thread_id,
            !r.0.registered,
            r.0.toggles == 0,
            r.1 == initial_registration(hotkey_spec@),
    {
        let (modifiers, vk) = match parse_hotkey(hotkey_spec) {
            Some(hotkey) => hotkey,
            None => (MOD_ALT, VK_SPACE),
        };
        (
            HotkeyListener { thread_id, registered: false, toggles: 0 },
            Registration { modifiers: modifiers | MOD_NOREPEAT, vk },
        )
    }

    /// Whether a registration succeeded.
    pub fn on_registered(&mut self, succeeded: bool)
        ensures
            *final(self) == (HotkeyListener { registered: succeeded, ..*old(self) }),
    {
        self.registered = succeeded;
    }

    /// What a message means to the listener; a press is remembered.
    pub fn on_message(&mut self, message: u32) -> (event: ListenerEvent)
        ensures
            event == if message == WM_HOTKEY {
                ListenerEvent::Toggle
            } else if message == WM_UPDATE_HOTKEY {
                ListenerEvent::Update
            } else {
                ListenerEvent::Ignore
            },
            *final(self) == (HotkeyListener {
                toggles: if message == WM_HOTKEY && old(self).toggles < u64::MAX {
                    (old(self).toggles + 1) as u64
                } else {
                    old(self).toggles
                },
                ..*old(self)
            }),
    {
        if message == WM_HOTKEY {
            if self.toggles < u64::MAX {
                self.toggles = self.toggles + 1;
            }
            ListenerEvent::Toggle
        } else if message == WM_UPDATE_HOTKEY {
            ListenerEvent::Update
        } else {
            ListenerEvent::Ignore
        }
    }

    /// Takes one press, if there is one.
    pub fn try_recv_toggle(&mut self) -> (r: bool)
        ensures
            r == (old(self).toggles > 0),
            *final(self) == (HotkeyListener {
                toggles: if old(self).toggles > 0 {
                    (old(self).toggles - 1) as u64
                } else {
                    0
                },
                ..*old(self)
            }),
    {
        if self.toggles > 0 {
            self.toggles = self.toggles - 1;
            true
        } else {
            false
        }
    }

    /// Whether a new hotkey can be sent to the listener.
    pub fn can_update(&self) -> (r: bool)
        ensures
            r == (self.thread_id != 0),
    {
        self.thread_id != 0
    }

    /// What a new hotkey asks for. One that cannot be read, such as half-typed
    /// input, leaves the current registration alone.
    pub fn update_hotkey(&self, new_spec: &str) -> (r: HotkeyUpdate)
        ensures
            r == match hotkey_of(new_spec@) {
                Some(hotkey) => HotkeyUpdate::Register {
                    unregister_first: self.registered,
                    registration: registration(hotkey),
                },
                None => HotkeyUpdate::Keep,
            },
    {
        match parse_hotkey(new_spec) {
            Some((modifiers, vk)) => HotkeyUpdate::Register {
                unregister_first: self.registered,
                registration: Registration { modifiers: modifiers | MOD_NOREPEAT, vk },
            },
            None => HotkeyUpdate::Keep,
        }
    }
}

// --- Laws ---

pub open spec fn all_lowered(parts: Seq<Seq<char>>) -> Seq<Seq<char>> {
    parts.map_values(|p: Seq<char>| lowered(p))
}

proof fn lemma_lower(c: char)
    ensures
        lower(lower(c)) == lower(c),
        upper(lower(c)) == upper(c),
        is_ascii_alphanumeric(lower(c)) == is_ascii_alphanumeric(c),
        digit_value(lower(c)) == digit_value(c),
        is_white_space(lower(c)) == is_white_space(c),
        (lower(c) == '+') == (c == '+'),
{
}

proof fn lemma_split_lowered(s: Seq<char>)
    ensures
        split_at(lowered(s), '+') == all_lowered(split_at(s, '+')),
    decreases s.len(),
{
    assert(lowered(Seq::empty()) =~= Seq::<char>::empty());
    if s.len() == 0 {
        assert(lowered(s) =~= s);
        assert(all_lowered(split_at(s, '+')) =~= split_at(s, '+'));
    } else {
        lemma_split_lowered(s.drop_last());
        lemma_split_nonempty(s.drop_last(), '+');
        lemma_lower(s.last());
        assert(lowered(s).drop_last() =~= lowered(s.drop_last()));
        let front = split_at(s.drop_last(), '+');
        let low = all_lowered(front);
        if s.last() == '+' {
            assert(all_lowered(front.push(Seq::empty())) =~= low.push(Seq::empty()));
        } else {
            let piece = front.last().push(s.last());
            assert(lowered(piece) =~= low.last().push(lower(s.last())));
            assert(all_lowered(front.update(front.len() - 1, piece)) =~= low.update(
                low.len() - 1,
                lowered(piece),
            ));
        }
    }
}

proof fn lemma_trim_front_lowered(s: Seq<char>)
    ensures
        trim_front(lowered(s)) == lowered(trim_front(s)),
    decreases s.len(),
{
    if s.len() > 0 {
        lemma_lower(s[0]);
        assert(lowered(s).drop_first() =~= lowered(s.drop_first()));
        if is_white_space(s[0]) {
            lemma_trim_front_lowered(s.drop_first());
        }
    }
}

proof fn lemma_trim_back_lowered(s: Seq<char>)
    ensures
        trim_back(lowered(s)) == lowered(trim_back(s)),
    decreases s.len(),
{
    if s.len() > 0 {
        lemma_lower(s.last());
        assert(lowered(s).drop_last() =~= lowered(s.drop_last()));
        if is_white_space(s.last()) {
            lemma_trim_back_lowered(s.drop_last());
        }
    }
}

proof fn lemma_not_blank_lowered(pieces: Seq<Seq<char>>)
    ensures
        not_blank(all_lowered(pieces)) == all_lowered(not_blank(pieces)),
    decreases pieces.len(),
{
    if pieces.len() == 0 {
        assert(all_lowered(not_blank(pieces)) =~= not_blank(all_lowered(pieces)));
    } else {
        lemma_not_blank_lowered(pieces.drop_last());
        assert(all_lowered(pieces).drop_last() =~= all_lowered(pieces.drop_last()));
        lemma_trim_front_lowered(pieces.last());
        lemma_trim_back_lowered(trim_front(pieces.last()));
        let rest = not_blank(pieces.drop_last());
        let piece = trimmed(pieces.last());
        if piece.len() > 0 {
            assert(all_lowered(rest.push(piece)) =~= all_lowered(rest).push(lowered(piece)));
        }
    }
}

proof fn lemma_digits_lowered(s: Seq<char>)
    ensures
        digits_value(lowered(s)) == digits_value(s),
    decreases s.len(),
{
    if s.len() == 1 {
        lemma_lower(s[0]);
    } else if s.len() > 1 {
        lemma_lower(s.last());
        assert(lowered(s).drop_last() =~= lowered(s.drop_last()));
        lemma_digits_lowered(s.drop_last());
    }
}

proof fn lemma_lowered_twice(s: Seq<char>)
    ensures
        lowered(lowered(s)) == lowered(s),
{
    assert forall|i: int| 0 <= i < s.len() implies lowered(lowered(s))[i] == lowered(s)[i] by {
        lemma_lower(s[i]);
    }
    assert(lowered(lowered(s)) =~= lowered(s));
}

proof fn lemma_key_lowered(key: Seq<char>)
    ensures
        key_code(lowered(key)) == key_code(key),
        modifier_of(lowered(key)) == modifier_of(key),
{
    lemma_lowered_twice(key);
    if key.len() > 0 {
        lemma_lower(key[0]);
        let rest = key.drop_first();
        assert(lowered(key).drop_first() =~= lowered(rest));
        lemma_digits_lowered(rest);
        if rest.len() > 0 {
            lemma_lower(rest[0]);
            assert(lowered(rest).drop_first() =~= lowered(rest.drop_first()));
            lemma_digits_lowered(rest.drop_first());
        }
    }
}

proof fn lemma_modifiers_lowered(parts: Seq<Seq<char>>)
    ensures
        modifiers_of(all_lowered(parts)) == modifiers_of(parts),
    decreases parts.len(),
{
    if parts.len() > 0 {
        lemma_key_lowered(parts.last());
        assert(all_lowered(parts).drop_last() =~= all_lowered(parts.drop_last()));
        lemma_modifiers_lowered(parts.drop_last());
    }
}

proof fn lemma_hotkey_lowered(spec_text: Seq<char>)
    ensures
        hotkey_of(lowered(spec_text)) == hotkey_of(spec_text),
{
    lemma_split_lowered(spec_text);
    lemma_not_blank_lowered(split_at(spec_text, '+'));
    let parts = parts_of(spec_text);
    if parts.len() > 0 {
        lemma_key_lowered(parts.last());
        assert(all_lowered(parts).drop_last() =~= all_lowered(parts.drop_last()));
        lemma_modifiers_lowered(parts.drop_last());
    }
}

/// The case of ASCII letters does not matter.
pub proof fn law_hotkey_case_is_ignored(a: Seq<char>, b: Seq<char>)
    requires
        lowered(a) == lowered(b),
    ensures
        hotkey_of(a) == hotkey_of(b),
{
    lemma_hotkey_lowered(a);
    lemma_hotkey_lowered(b);
}

/// A modifier that is named among others adds nothing to them.
proof fn lemma_modifier_in(parts: Seq<Seq<char>>, k: int)
    requires
        0 <= k < parts.len(),
        modifiers_of(parts) is Some,
    ensures
        modifier_of(parts[k]) is Some,
        modifiers_of(parts)->0 | modifier_of(parts[k])->0 == modifiers_of(parts)->0,
    decreases parts.len(),
{
    let front = modifiers_of(parts.drop_last())->0;
    let last = modifier_of(parts.last())->0;
    if k == parts.len() - 1 {
        assert((front | last) | last == front | last) by (bit_vector);
    } else {
        lemma_modifier_in(parts.drop_last(), k);
        assert(parts.drop_last()[k] == parts[k]);
        let m = modifier_of(parts[k])->0;
        assert((front | last) | m == front | last) by (bit_vector)
            requires
                front | m == front,
        ;
    }
}

/// Modifiers that are all named among others, in any letters, add nothing to them.
proof fn lemma_modifiers_within(a: Seq<Seq<char>>, b: Seq<Seq<char>>)
    requires
        forall|m: Seq<char>| #[trigger] all_lowered(a).contains(m) ==> all_lowered(b).contains(m),
        modifiers_of(b) is Some,
    ensures
        modifiers_of(a) is Some,
        modifiers_of(b)->0 | modifiers_of(a)->0 == modifiers_of(b)->0,
    decreases a.len(),
{
    let y = modifiers_of(b)->0;
    if a.len() == 0 {
        assert(y | 0 == y) by (bit_vector);
    } else {
        let front = a.drop_last();
        assert forall|m: Seq<char>| #[trigger] all_lowered(front).contains(m) implies all_lowered(
            b,
        ).contains(m) by {
            let i = choose|i: int| 0 <= i < front.len() && all_lowered(front)[i] == m;
            assert(all_lowered(a)[i] == m);
            assert(all_lowered(a).contains(m));
        }
        lemma_modifiers_within(front, b);
        let last = lowered(a.last());
        assert(all_lowered(a)[a.len() - 1] == last);
        assert(all_lowered(a).contains(last));
        let k = choose|k: int| 0 <= k < b.len() && all_lowered(b)[k] == last;
        assert(lowered(b[k]) == last);
        lemma_key_lowered(b[k]);
        lemma_key_lowered(a.last());
        lemma_modifier_in(b, k);
        let (x, z) = (modifiers_of(front)->0, modifier_of(a.last())->0);
        assert(y | (x | z) == y) by (bit_vector)
            requires
                y | x == y,
                y | z == y,
        ;
    }
}

/// A hotkey is what its key and the set of its modifiers are: their order, how
/// often a modifier is named, the case of letters and white space around the parts
/// do not matter.
pub proof fn law_hotkey_is_its_keys(a: Seq<char>, b: Seq<char>)
    requires
        parts_of(a).len() > 0,
        parts_of(b).len() > 0,
        lowered(parts_of(a).last()) == lowered(parts_of(b).last()),
        forall|m: Seq<char>|
            #![trigger all_lowered(parts_of(a).drop_last()).contains(m)]
            #![trigger all_lowered(parts_of(b).drop_last()).contains(m)]
            all_lowered(parts_of(a).drop_last()).contains(m) <==> all_lowered(
                parts_of(b).drop_last(),
            ).contains(m),
    ensures
        hotkey_of(a) == hotkey_of(b),
{
    let (p, q) = (parts_of(a).drop_last(), parts_of(b).drop_last());
    lemma_key_lowered(parts_of(a).last());
    lemma_key_lowered(parts_of(b).last());
    if modifiers_of(p) is Some {
        lemma_modifiers_within(q, p);
    }
    if modifiers_of(q) is Some {
        lemma_modifiers_within(p, q);
    }
    if let (Some(x), Some(y)) = (modifiers_of(p), modifiers_of(q)) {
        assert(x == y) by (bit_vector)
            requires
                x | y == x,
                y | x == y,
        ;
    }
}

/// A hotkey with an unknown modifier is none.
pub proof fn law_unknown_modifier(spec_text: Seq<char>, i: int)
    requires
        0 <= i < parts_of(spec_text).len() - 1,
        modifier_of(parts_of(spec_text)[i]) is None,
    ensures
        hotkey_of(spec_text) is None,
{
    let modifiers = parts_of(spec_text).drop_last();
    if modifiers_of(modifiers) is Some {
        lemma_modifier_in(modifiers, i);
    }
}

/// The pieces of two texts together: the last one of the first goes on in the first
/// one of the second.
proof fn lemma_split_concat(x: Seq<char>, y: Seq<char>, sep: char)
    ensures
        split_at(x, sep).len() > 0,
        split_at(y, sep).len() > 0,
        split_at(x + y, sep) == split_at(x, sep).drop_last() + seq![
            split_at(x, sep).last() + split_at(y, sep)[0],
        ] + split_at(y, sep).drop_first(),
    decreases y.len(),
{
    lemma_split_nonempty(x, sep);
    lemma_split_nonempty(y, sep);
    let a = split_at(x, sep);
    let b = split_at(y, sep);
    if y.len() == 0 {
        assert(x + y =~= x);
        assert(a.last() + b[0] =~= a.last());
        assert(a =~= a.drop_last() + seq![a.last() + b[0]] + b.drop_first());
    } else {
        let short = y.drop_last();
        lemma_split_concat(x, short, sep);
        assert((x + y).drop_last() =~= x + short);
        assert((x + y).last() == y.last());
        let c = split_at(short, sep);
        let front = split_at(x + short, sep);
        assert(front =~= a.drop_last() + seq![a.last() + c[0]] + c.drop_first());
        if y.last() == sep {
            assert(front.push(Seq::empty()) =~= a.drop_last() + seq![a.last() + b[0]]
                + b.drop_first());
        } else {
            assert(b[0] == if c.len() == 1 {
                c[0].push(y.last())
            } else {
                c[0]
            });
            assert((a.last() + c[0]).push(y.last()) =~= a.last() + c[0].push(y.last()));
            assert(front.update(front.len() - 1, front.last().push(y.last())) =~= a.drop_last()
                + seq![a.last() + b[0]] + b.drop_first());
        }
    }
}

proof fn lemma_not_blank_concat(a: Seq<Seq<char>>, b: Seq<Seq<char>>)
    ensures
        not_blank(a + b) == not_blank(a) + not_blank(b),
    decreases b.len(),
{
    if b.len() == 0 {
        assert(a + b =~= a);
        assert(not_blank(a) + not_blank(b) =~= not_blank(a));
    } else {
        lemma_not_blank_concat(a, b.drop_last());
        assert((a + b).drop_last() =~= a + b.drop_last());
        assert(not_blank(a + b) =~= not_blank(a) + not_blank(b));
    }
}

/// White space without a separator is one piece.
proof fn lemma_split_white(w: Seq<char>)
    requires
        all_white_space(w),
    ensures
        split_at(w, '+') == seq![w],
    decreases w.len(),
{
    if w.len() == 0 {
        assert(w =~= Seq::<char>::empty());
    } else {
        let front = w.drop_last();
        assert forall|i: int| 0 <= i < front.len() implies is_white_space(#[trigger] front[i]) by {
            assert(front[i] == w[i]);
        }
        lemma_split_white(front);
        assert(is_white_space(w[w.len() - 1]));
        assert(front.push(w.last()) =~= w);
        assert(seq![front].update(0, w) =~= seq![w]);
    }
}

/// A text ends in an empty piece where it is empty or ends with the separator, and
/// starts with one where it starts with the separator.
proof fn lemma_split_ends(s: Seq<char>, sep: char)
    ensures
        split_at(s, sep).len() > 0,
        s.len() == 0 || s.last() == sep ==> split_at(s, sep).last().len() == 0,
        s.len() == 0 || s[0] == sep ==> split_at(s, sep)[0].len() == 0,
    decreases s.len(),
{
    if s.len() > 0 {
        lemma_split_ends(s.drop_last(), sep);
        if s[0] == sep && s.len() == 1 {
            assert(s.drop_last() =~= Seq::empty());
        } else if s[0] == sep {
            assert(s.drop_last()[0] == sep);
            let one = s.take(1);
            let rest = s.skip(1);
            assert(one + rest =~= s);
            lemma_split_concat(one, rest, sep);
            lemma_split_nonempty(one, sep);
            assert(one.drop_last() =~= Seq::<char>::empty());
            assert(split_at(one.drop_last(), sep) =~= seq![Seq::<char>::empty()]);
            assert(one.last() == sep);
            assert(split_at(one, sep) =~= seq![Seq::<char>::empty(), Seq::<char>::empty()]);
        }
    }
}

/// White space in front of a part, or behind it, does not matter.
pub proof fn law_hotkey_white_space(x: Seq<char>, white: Seq<char>, y: Seq<char>)
    requires
        all_white_space(white),
        x.len() == 0 || x.last() == '+' || y.len() == 0 || y[0] == '+',
    ensures
        parts_of(x + white + y) == parts_of(x + y),
        hotkey_of(x + white + y) == hotkey_of(x + y),
{
    let (a, b) = (split_at(x, '+'), split_at(y, '+'));
    lemma_split_ends(x, '+');
    lemma_split_ends(y, '+');
    lemma_split_white(white);
    lemma_split_concat(x, white, '+');
    lemma_split_concat(x + white, y, '+');
    lemma_split_concat(x, y, '+');
    let (start, end) = (a.last(), b[0]);
    let with = start + white + end;
    let without = start + end;
    assert(split_at(x + white, '+') =~= a.drop_last() + seq![start + white]);
    assert(split_at(x + white + y, '+') =~= a.drop_last() + seq![with] + b.drop_first());
    if start.len() == 0 {
        assert(with =~= white + end);
        assert(without =~= end);
        lemma_trimmed_white(white, end);
    } else {
        assert(with =~= start + white);
        assert(without =~= start);
        lemma_trimmed_white(white, start);
    }
    assert(trimmed(with) == trimmed(without));
    assert(seq![with].drop_last() =~= seq![without].drop_last());
    assert(not_blank(seq![with]) == not_blank(seq![without]));
    lemma_not_blank_concat(a.drop_last(), seq![with]);
    lemma_not_blank_concat(a.drop_last(), seq![without]);
    lemma_not_blank_concat(a.drop_last() + seq![with], b.drop_first());
    lemma_not_blank_concat(a.drop_last() + seq![without], b.drop_first());
}

/// A hotkey without any key is none.
pub proof fn law_no_key_no_hotkey(spec_text: Seq<char>)
    requires
        parts_of(spec_text).len() == 0,
    ensures
        hotkey_of(spec_text) is None,
        initial_registration(spec_text) == registration((MOD_ALT, VK_SPACE)),
{
}

/// The keys of a hotkey stand between plus signs: those of two texts with a plus sign
/// between them are the keys of both.
pub proof fn law_plus_signs_separate_keys(a: Seq<char>, b: Seq<char>)
    ensures
        parts_of(a + seq!['+'] + b) == parts_of(a) + parts_of(b),
{
    let plus = seq!['+'];
    let (x, y) = (split_at(a, '+'), split_at(b, '+'));
    let none = Seq::<char>::empty();
    lemma_split_nonempty(a, '+');
    lemma_split_nonempty(b, '+');
    assert(plus.drop_last() =~= none);
    reveal_with_fuel(split_at, 2);
    assert(seq![none].push(none) =~= seq![none, none]);
    assert(split_at(plus, '+') =~= seq![none, none]);
    lemma_split_concat(a, plus, '+');
    assert(x.last() + none =~= x.last());
    assert(split_at(a + plus, '+') =~= x.push(none));
    lemma_split_concat(a + plus, b, '+');
    assert(none + y[0] =~= y[0]);
    assert(split_at(a + plus + b, '+') =~= x + y);
    lemma_not_blank_concat(x, y);
}

/// A text without plus signs is one key, without the white space around it, or none
/// where it is blank.
pub proof fn law_one_key_without_plus_sign(s: Seq<char>)
    requires
        !s.contains('+'),
    ensures
        parts_of(s) == if trimmed(s).len() > 0 {
            seq![trimmed(s)]
        } else {
            Seq::<Seq<char>>::empty()
        },
{
    lemma_not_split(s);
    let one = seq![s];
    assert(one.drop_last() =~= Seq::<Seq<char>>::empty());
    assert(not_blank(one.drop_last()) =~= Seq::<Seq<char>>::empty());
    assert(Seq::<Seq<char>>::empty().push(trimmed(s)) =~= seq![trimmed(s)]);
}

proof fn lemma_not_split(s: Seq<char>)
    requires
        !s.contains('+'),
    ensures
        split_at(s, '+') == seq![s],
    decreases s.len(),
{
    if s.len() > 0 {
        let front = s.drop_last();
        assert forall|i: int| 0 <= i < front.len() implies front[i] != '+' by {
            assert(s.contains(s[i]));
        }
        lemma_not_split(front);
        assert(s.contains(s[s.len() - 1]));
        assert(front.push(s.last()) =~= s);
        assert(seq![front].update(0, s) =~= seq![s]);
    } else {
        assert(s =~= Seq::<char>::empty());
    }
}

/// The names of the modifier keys, in either case, and their flags: 1 for Alt, 2 for
/// Ctrl, 4 for Shift and 8 for the Windows key. Nothing else is a modifier.
pub proof fn law_modifiers_have_their_flags(part: Seq<char>)
    ensures
        modifier_of(part) == Some(1u32) <==> lowered(part) == "alt"@,
        modifier_of(part) == Some(2u32) <==> lowered(part) == "ctrl"@ || lowered(part)
            == "control"@,
        modifier_of(part) == Some(4u32) <==> lowered(part) == "shift"@,
        modifier_of(part) == Some(8u32) <==> lowered(part) == "win"@ || lowered(part)
            == "windows"@,
        modifier_of(part) matches Some(m) ==> m == 1 || m == 2 || m == 4 || m == 8,
{
    reveal_strlit("ctrl");
    reveal_strlit("control");
    reveal_strlit("alt");
    reveal_strlit("shift");
    reveal_strlit("win");
    reveal_strlit("windows");
    assert("ctrl"@[0] == 'c' && "ctrl"@.len() == 4);
    assert("control"@[0] == 'c' && "control"@.len() == 7);
    assert("alt"@[0] == 'a' && "alt"@.len() == 3);
    assert("shift"@[0] == 's' && "shift"@.len() == 5);
    assert("win"@[0] == 'w' && "win"@.len() == 3);
    assert("windows"@[0] == 'w' && "windows"@.len() == 7);
}

proof fn lemma_flags(parts: Seq<Seq<char>>, flag: u32)
    requires
        flag == 1 || flag == 2 || flag == 4 || flag == 8,
        modifiers_of(parts) is Some,
    ensures
        modifiers_of(parts)->0 & flag == flag <==> exists|k: int|
            0 <= k < parts.len() && modifier_of(#[trigger] parts[k]) == Some(flag),
        modifiers_of(parts)->0 < 16,
    decreases parts.len(),
{
    if parts.len() == 0 {
        assert(0u32 & flag == 0) by (bit_vector);
    } else {
        let front = parts.drop_last();
        lemma_flags(front, flag);
        law_modifiers_have_their_flags(parts.last());
        let (a, b) = (modifiers_of(front)->0, modifier_of(parts.last())->0);
        assert((a | b) & flag == flag <==> a & flag == flag || b == flag) by (bit_vector)
            requires
                flag == 1u32 || flag == 2u32 || flag == 4u32 || flag == 8u32,
                b == 1u32 || b == 2u32 || b == 4u32 || b == 8u32,
        ;
        assert((a | b) < 16) by (bit_vector)
            requires
                a < 16u32,
                b == 1u32 || b == 2u32 || b == 4u32 || b == 8u32,
        ;
        if a & flag == flag {
            let k = choose|k: int|
                0 <= k < front.len() && modifier_of(#[trigger] front[k]) == Some(flag);
            assert(parts[k] == front[k]);
        } else if b == flag {
            assert(parts[parts.len() - 1] == parts.last());
        }
        if exists|k: int|
            0 <= k < parts.len() && modifier_of(#[trigger] parts[k]) == Some(flag) {
            let k = choose|k: int|
                0 <= k < parts.len() && modifier_of(#[trigger] parts[k]) == Some(flag);
            if k < front.len() {
                assert(front[k] == parts[k]);
            }
        }
    }
}

proof fn lemma_all_modifiers(parts: Seq<Seq<char>>)
    requires
        forall|k: int| 0 <= k < parts.len() ==> modifier_of(#[trigger] parts[k]) is Some,
    ensures
        modifiers_of(parts) is Some,
    decreases parts.len(),
{
    if parts.len() > 0 {
        let front = parts.drop_last();
        assert forall|k: int| 0 <= k < front.len() implies modifier_of(
            #[trigger] front[k],
        ) is Some by {
            assert(front[k] == parts[k]);
        }
        lemma_all_modifiers(front);
        assert(parts[parts.len() - 1] == parts.last());
    }
}

/// A hotkey can be read exactly where its last part is a key and all others are
/// modifiers. It is that key, with exactly the flags of the modifiers that are named.
pub proof fn law_hotkey_is_its_parts(spec_text: Seq<char>, flag: u32)
    requires
        flag == 1 || flag == 2 || flag == 4 || flag == 8,
    ensures
        ({
            let parts = parts_of(spec_text);
            &&& hotkey_of(spec_text) is Some <==> parts.len() > 0 && key_code(parts.last()) is Some
                && forall|k: int|
                0 <= k < parts.len() - 1 ==> modifier_of(#[trigger] parts[k]) is Some
            &&& hotkey_of(spec_text) matches Some(hotkey) ==> {
                &&& key_code(parts.last()) == Some(hotkey.1)
                &&& hotkey.0 < 16
                &&& hotkey.0 & flag == flag <==> exists|k: int|
                    0 <= k < parts.len() - 1 && modifier_of(#[trigger] parts[k]) == Some(flag)
            }
        }),
{
    let parts = parts_of(spec_text);
    if parts.len() > 0 {
        let modifiers = parts.drop_last();
        assert(forall|k: int| 0 <= k < modifiers.len() ==> #[trigger] modifiers[k] == parts[k]);
        if modifiers_of(modifiers) is Some {
            lemma_flags(modifiers, flag);
            assert forall|k: int| 0 <= k < parts.len() - 1 implies modifier_of(
                #[trigger] parts[k],
            ) is Some by {
                lemma_modifier_in(modifiers, k);
                assert(modifiers[k] == parts[k]);
            }
            if exists|k: int|
                0 <= k < parts.len() - 1 && modifier_of(#[trigger] parts[k]) == Some(flag) {
                let k = choose|k: int|
                    0 <= k < parts.len() - 1 && modifier_of(#[trigger] parts[k]) == Some(flag);
                assert(modifiers[k] == parts[k]);
            }
            if exists|k: int|
                0 <= k < modifiers.len() && modifier_of(#[trigger] modifiers[k]) == Some(flag) {
                let k = choose|k: int|
                    0 <= k < modifiers.len() && modifier_of(#[trigger] modifiers[k]) == Some(flag);
                assert(modifiers[k] == parts[k]);
            }
        } else if forall|k: int|
            0 <= k < parts.len() - 1 ==> modifier_of(#[trigger] parts[k]) is Some {
            assert forall|k: int| 0 <= k < modifiers.len() implies modifier_of(
                #[trigger] modifiers[k],
            ) is Some by {
                assert(modifiers[k] == parts[k]);
            }
            lemma_all_modifiers(modifiers);
        }
    }
}

/// A letter or a digit is the key with the number of the capital letter or the digit.
pub proof fn law_letters_and_digits_are_keys(c: char)
    ensures
        'A' <= c && c <= 'Z' ==> key_code(seq![c]) == Some(c as u32),
        'a' <= c && c <= 'z' ==> key_code(seq![c]) == Some((c as u32 - 32) as u32),
        '0' <= c && c <= '9' ==> key_code(seq![c]) == Some(c as u32),
{
    if 'a' <= c && c <= 'z' {
        vstd::utf8::char_u32_cast((c as u32 - 32) as char, (c as u32 - 32) as u32);
    }
}

/// The keys with names, in either case, and their numbers.
pub proof fn law_named_keys(key: Seq<char>)
    ensures
        lowered(key) == "space"@ ==> key_code(key) == Some(0x20u32),
        lowered(key) == "tab"@ ==> key_code(key) == Some(0x09u32),
        lowered(key) == "enter"@ || lowered(key) == "return"@ ==> key_code(key) == Some(0x0Du32),
        lowered(key) == "escape"@ || lowered(key) == "esc"@ ==> key_code(key) == Some(0x1Bu32),
        lowered(key) == "backspace"@ ==> key_code(key) == Some(0x08u32),
{
    reveal_strlit("space");
    reveal_strlit("tab");
    reveal_strlit("enter");
    reveal_strlit("return");
    reveal_strlit("escape");
    reveal_strlit("esc");
    reveal_strlit("backspace");
    assert("space"@[0] == 's' && "space"@.len() == 5);
    assert("tab"@[0] == 't' && "tab"@.len() == 3);
    assert("enter"@[0] == 'e' && "enter"@.len() == 5);
    assert("return"@[0] == 'r' && "return"@.len() == 6);
    assert("escape"@[0] == 'e' && "escape"@.len() == 6);
    assert("esc"@[0] == 'e' && "esc"@.len() == 3);
    assert("backspace"@[0] == 'b' && "backspace"@.len() == 9);
    assert(lowered(key).len() == key.len());
}

proof fn lemma_decimal_is_read(n: nat)
    ensures
        digits_value(decimal_of(n)) == Some(n),
    decreases n,
{
    let d = (n % 10) as nat;
    vstd::utf8::char_u32_cast(digit(d), (48 + d) as u32);
    assert(digit_value(digit(d)) == Some(d));
    law_decimal_stands_for_the_number(n);
    if n >= 10 {
        lemma_decimal_is_read(n / 10);
        law_decimal_stands_for_the_number(n / 10);
        assert(decimal_of(n).drop_last() =~= decimal_of(n / 10));
    }
}

/// An `F` in either case and a number from 1 to 24 is that function key: `F1` has the
/// number 0x70, and the others follow it. There are no other function keys.
pub proof fn law_function_keys(f: char, n: nat)
    requires
        f == 'f' || f == 'F',
    ensures
        key_code(seq![f] + decimal_of(n)) == if 1 <= n <= 24 {
            Some((0x6F + n) as u32)
        } else {
            None
        },
{
    let key = seq![f] + decimal_of(n);
    lemma_decimal_is_read(n);
    law_decimal_stands_for_the_number(n);
    assert(key.drop_first() =~= decimal_of(n));
    assert(decimal_of(n)[0] != '+');
    vstd::utf8::char_u32_cast(upper('f'), 70);
    assert(upper(f) == 'F');
    assert(named_key(key) is None) by {
        reveal_strlit("space");
        reveal_strlit("tab");
        reveal_strlit("enter");
        reveal_strlit("return");
        reveal_strlit("escape");
        reveal_strlit("esc");
        reveal_strlit("backspace");
        vstd::utf8::char_u32_cast(lower('F'), 102);
        assert(lowered(key)[0] == 'f');
    }
}

/// What neither is a letter or a digit, nor has one of the names, nor is a function key,
/// is no key.
pub proof fn law_no_other_keys(key: Seq<char>)
    requires
        key_code(key) is Some,
    ensures
        ({
            let k = lowered(key);
            ||| key.len() == 1 && ('a' <= key[0] && key[0] <= 'z' || 'A' <= key[0] && key[0] <= 'Z'
                || '0' <= key[0] && key[0] <= '9')
            ||| k == "space"@ || k == "tab"@ || k == "enter"@ || k == "return"@ || k == "escape"@ || k
                == "esc"@ || k == "backspace"@
            ||| key.len() > 1 && (key[0] == 'f' || key[0] == 'F') && (number_value(
                key.drop_first(),
            ) matches Some(n) && 1 <= n <= 24)
        }),
{
    if key.len() > 0 && upper(key[0]) == 'F' {
        let c = key[0];
        if 'a' <= c && c <= 'z' {
            vstd::utf8::char_u32_cast(upper(c), (c as u32 - 32) as u32);
        }
        assert(c == 'f' || c == 'F');
    }
}

/// A registered hotkey has its key and its modifiers, and does not repeat while it is
/// held. A text that cannot be read is registered as Alt and the space bar at the start.
pub proof fn law_registrations(hotkey: (u32, u32), spec_text: Seq<char>)
    requires
        hotkey.0 < 16,
    ensures
        registration(hotkey).vk == hotkey.1,
        registration(hotkey).modifiers == 0x4000 + hotkey.0,
        hotkey_of(spec_text) matches Some(h) ==> initial_registration(spec_text) == registration(h),
        hotkey_of(spec_text) is None ==> initial_registration(spec_text) == (Registration {
            modifiers: 0x4001,
            vk: 0x20,
        }),
{
    let m = hotkey.0;
    assert(m | 0x4000u32 == 0x4000 + m) by (bit_vector)
        requires
            m < 16u32,
    ;
    assert(1u32 | 0x4000u32 == 0x4001u32) by (bit_vector);
}

/// The messages of the system's hotkeys and of the application's own range.
pub proof fn law_message_numbers()
    ensures
        WM_HOTKEY == 0x0312,
        WM_UPDATE_HOTKEY == 0x8000 + 1,
{
}

} // verus!
