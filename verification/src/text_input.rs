//! A single-line text field: its text, its selection, and the span that an
//! input method is still composing. Offsets are UTF-8 byte offsets unless a
//! name says `utf16`.

use vstd::prelude::*;
use vstd::utf8::encode_utf8;

use crate::text::{
    after, before, between, byte_len, chars_covering, chars_of, covering, is_boundary,
    lemma_boundary_ends, lemma_byte_len, lemma_covering, lemma_covering_order, lemma_covering_prefix,
    lemma_prefix_boundary, lemma_units_concat, lemma_units_take, lemma_utf16_shorter, slice, splice, str_bytes, units,
    units_upto, Encoding,
};
use crate::wide::{law_utf16_length, utf16};

verus! {

/// A pair of offsets. It holds no text where `start` is not below `end`.
#[derive(Clone, Copy, PartialEq, Eq, Structural, Debug)]
pub struct Span {
    pub start: usize,
    pub end: usize,
}

impl Span {
    pub open spec fn spec_is_empty(self) -> bool {
        self.start >= self.end
    }

    /// Both ends lie between characters of the text.
    pub open spec fn fits(self, text: Seq<char>) -> bool {
        is_boundary(text, self.start as int) && is_boundary(text, self.end as int)
    }

    pub fn is_empty(self) -> (r: bool)
        ensures
            r == self.spec_is_empty(),
    {
        self.start >= self.end
    }
}

/// The empty span at an offset.
pub open spec fn caret(offset: int) -> Span {
    Span { start: offset as usize, end: offset as usize }
}

/// Where a mouse position falls, as the laid-out line reports it.
#[derive(Clone, Copy, PartialEq, Eq, Structural, Debug)]
pub enum MouseHit {
    /// The field has not been laid out yet.
    NoLayout,
    Above,
    Below,
    /// On the line, closest to this offset.
    Inside(usize),
}

/// What a key that deletes text did.
#[derive(Clone, Copy, PartialEq, Eq, Structural, Debug)]
pub enum EditOutcome {
    /// There was nothing to delete: sound the system bell.
    Bell,
    Edited,
}

/// A stretch of the displayed text that is drawn in one style.
#[derive(Clone, Copy, PartialEq, Eq, Structural, Debug)]
pub struct Run {
    pub len: usize,
    pub underlined: bool,
}

/// `UnicodeSegmentation::grapheme_indices` with extended clusters: the byte
/// offset at which each grapheme cluster of a text starts, in order.
pub uninterp spec fn grapheme_starts(text: Seq<char>) -> Seq<usize>;

/// Calls `UnicodeSegmentation::grapheme_indices(text, true)` and keeps the
/// offsets. Trusted: the offsets depend on the text alone, they ascend, each is
/// the start of a character of the text, and the first is the start of the text.
#[verifier::external_body]
fn grapheme_offsets(text: &str) -> (starts: Vec<usize>)
    ensures
        starts@ == grapheme_starts(text@),
        forall|i: int, j: int| 0 <= i < j < starts@.len() ==> starts@[i] < starts@[j],
        forall|i: int|
            0 <= i < starts@.len() ==> is_boundary(text@, #[trigger] starts@[i] as int) && starts@[i]
                < byte_len(text@),
        text@.len() > 0 ==> starts@.len() > 0 && starts@[0] == 0,
{
    unicode_segmentation::UnicodeSegmentation::grapheme_indices(text, true)
        .map(|(start, _)| start)
        .collect()
}

/// The last of the ascending `starts` below `offset`, or 0.
pub open spec fn last_below(starts: Seq<usize>, offset: usize) -> usize
    decreases starts.len(),
{
    if starts.len() == 0 {
        0
    } else if starts.last() < offset {
        starts.last()
    } else {
        last_below(starts.drop_last(), offset)
    }
}

/// The first of `starts` above `offset`, or `len`.
pub open spec fn first_above(starts: Seq<usize>, offset: usize, len: usize) -> usize
    decreases starts.len(),
{
    if starts.len() == 0 {
        len
    } else if starts[0] > offset {
        starts[0]
    } else {
        first_above(starts.drop_first(), offset, len)
    }
}

/// Where the caret goes one cluster to the left of `offset`, given where the
/// clusters start.
pub fn previous_start(starts: &Vec<usize>, offset: usize) -> (r: usize)
    ensures
        r == last_below(starts@, offset),
        starts@.len() > 0 && starts@[0] == 0 && offset > 0 ==> r < offset,
        r == 0 || exists|i: int| 0 <= i < starts@.len() && starts@[i] == r && r < offset,
{
    let mut i: usize = starts.len();
    assert(starts@.take(i as int) == starts@);
    while i > 0
        invariant
            i <= starts@.len(),
            last_below(starts@, offset) == last_below(starts@.take(i as int), offset),
        decreases i,
    {
        i -= 1;
        assert(starts@.take(i + 1).drop_last() == starts@.take(i as int));
        if starts[i] < offset {
            return starts[i];
        }
    }
    0
}

/// Where the caret goes one cluster to the right of `offset`, given where the
/// clusters start and where the text ends.
pub fn next_start(starts: &Vec<usize>, offset: usize, len: usize) -> (r: usize)
    ensures
        r == first_above(starts@, offset, len),
        r == len || exists|i: int| 0 <= i < starts@.len() && starts@[i] == r && r > offset,
{
    let mut i: usize = 0;
    assert(starts@.skip(0) == starts@);
    while i < starts.len()
        invariant
            i <= starts@.len(),
            first_above(starts@, offset, len) == first_above(starts@.skip(i as int), offset, len),
        decreases starts@.len() - i,
    {
        if starts[i] > offset {
            return starts[i];
        }
        assert(starts@.skip(i as int).drop_first() == starts@.skip(i + 1));
        i += 1;
    }
    len
}

/// What a text field holds.
pub struct InputState {
    pub text: Seq<char>,
    pub placeholder: Seq<char>,
    pub selection: Span,
    /// The caret is at the start of the selection.
    pub reversed: bool,
    pub marked: Option<Span>,
    /// The mouse button is down and extends the selection.
    pub selecting: bool,
}

impl InputState {
    /// The selection and the composed span lie between characters of the text.
    pub open spec fn wf(self) -> bool {
        &&& self.selection.fits(self.text)
        &&& self.marked_wf()
    }

    /// A composed span is not empty and lies between characters of the text.
    pub open spec fn marked_wf(self) -> bool {
        self.marked matches Some(m) ==> m.fits(self.text) && m.start < m.end
    }

    /// The span that an edit without a range replaces can be cut out.
    pub open spec fn editable(self) -> bool {
        self.edited_span(None).fits(self.text)
    }

    pub open spec fn cursor(self) -> usize {
        if self.reversed {
            self.selection.start
        } else {
            self.selection.end
        }
    }

    /// The end of the selection that stays put while the caret moves.
    pub open spec fn anchor(self) -> usize {
        if self.reversed {
            self.selection.end
        } else {
            self.selection.start
        }
    }

    pub open spec fn previous(self, offset: usize) -> usize {
        last_below(grapheme_starts(self.text), offset)
    }

    pub open spec fn next(self, offset: usize) -> usize {
        first_above(grapheme_starts(self.text), offset, byte_len(self.text) as usize)
    }

    /// All of the text replaced, the caret behind it.
    pub open spec fn with_text(self, text: Seq<char>) -> InputState {
        InputState { text, selection: caret(byte_len(text) as int), marked: None, ..self }
    }

    pub open spec fn moved_to(self, offset: usize) -> InputState {
        InputState { selection: caret(offset as int), ..self }
    }

    /// The caret moved, the anchor kept.
    pub open spec fn selected_to(self, offset: usize) -> InputState {
        let (start, end) = if self.reversed {
            (offset, self.selection.end)
        } else {
            (self.selection.start, offset)
        };
        if end < start {
            InputState {
                selection: Span { start: end, end: start },
                reversed: !self.reversed,
                ..self
            }
        } else {
            InputState { selection: Span { start, end }, ..self }
        }
    }

    pub open spec fn left(self) -> InputState {
        if self.selection.spec_is_empty() {
            self.moved_to(self.previous(self.cursor()))
        } else {
            self.moved_to(self.selection.start)
        }
    }

    pub open spec fn right(self) -> InputState {
        if self.selection.spec_is_empty() {
            self.moved_to(self.next(self.selection.end))
        } else {
            self.moved_to(self.selection.end)
        }
    }

    pub open spec fn all_selected(self) -> InputState {
        self.moved_to(0).selected_to(byte_len(self.text) as usize)
    }

    /// The span that an edit replaces: the given one, else the composed one,
    /// else the selection.
    pub open spec fn edited_span(self, range_utf16: Option<Span>) -> Span {
        match range_utf16 {
            Some(r) => span_from_utf16(self.text, r),
            None => match self.marked {
                Some(m) => m,
                None => self.selection,
            },
        }
    }

    pub open spec fn text_with(self, span: Span, new_text: Seq<char>) -> Seq<char> {
        before(self.text, span.start as int) + new_text + after(self.text, span.end as int)
    }

    /// A span replaced, the caret behind the new text, nothing composed.
    pub open spec fn replaced(self, span: Span, new_text: Seq<char>) -> InputState {
        InputState {
            text: self.text_with(span, new_text),
            selection: caret(span.start + byte_len(new_text)),
            marked: None,
            ..self
        }
    }

    /// A span replaced by text that is still being composed.
    pub open spec fn composed(
        self,
        span: Span,
        new_text: Seq<char>,
        new_selected_utf16: Option<Span>,
    ) -> InputState {
        let text = self.text_with(span, new_text);
        let end = span.start + byte_len(new_text);
        InputState {
            text,
            marked: if new_text.len() == 0 {
                None
            } else {
                Some(Span { start: span.start, end: end as usize })
            },
            selection: match new_selected_utf16 {
                Some(r) => {
                    let inner = span_from_utf16(text, r);
                    Span {
                        start: inner.start.wrapping_add(span.start),
                        end: inner.end.wrapping_add(span.end),
                    }
                },
                None => caret(end),
            },
            ..self
        }
    }

    /// The selection deleted, or, where it is empty, what lies between it and
    /// `neighbour`. `None` where there is nothing to delete.
    pub open spec fn deleted_to(self, neighbour: usize) -> Option<InputState> {
        if !self.selection.spec_is_empty() {
            Some(self.replaced(self.edited_span(None), Seq::empty()))
        } else if self.cursor() == neighbour {
            None
        } else {
            let s = self.selected_to(neighbour);
            Some(s.replaced(s.edited_span(None), Seq::empty()))
        }
    }

    /// The selected text, if any.
    pub open spec fn selected_text(self) -> Option<Seq<char>> {
        if self.selection.spec_is_empty() {
            None
        } else {
            Some(between(self.text, self.selection.start as int, self.selection.end as int))
        }
    }

    /// The offset that a mouse position stands for.
    pub open spec fn offset_at(self, hit: MouseHit) -> usize {
        if self.text.len() == 0 {
            0
        } else {
            match hit {
                MouseHit::NoLayout => 0,
                MouseHit::Above => 0,
                MouseHit::Below => byte_len(self.text) as usize,
                MouseHit::Inside(offset) => offset,
            }
        }
    }

    /// The text that is drawn: the placeholder while there is no other.
    pub open spec fn displayed(self) -> Seq<char> {
        if self.text.len() == 0 {
            self.placeholder
        } else {
            self.text
        }
    }
}

/// The byte offset of a UTF-16 offset, rounded up to the next character.
pub open spec fn from_utf16(text: Seq<char>, offset: usize) -> usize {
    byte_len(text.take(covering(Encoding::Utf16, text, offset as int) as int)) as usize
}

/// The UTF-16 offset of a byte offset, rounded up to the next character.
pub open spec fn to_utf16(text: Seq<char>, offset: usize) -> usize {
    units(Encoding::Utf16, before(text, offset as int)) as usize
}

pub open spec fn span_from_utf16(text: Seq<char>, span: Span) -> Span {
    Span { start: from_utf16(text, span.start), end: from_utf16(text, span.end) }
}

pub open spec fn span_to_utf16(text: Seq<char>, span: Span) -> Span {
    Span { start: to_utf16(text, span.start), end: to_utf16(text, span.end) }
}

/// A text pasted into a single line: every line feed becomes a space.
pub open spec fn on_one_line(text: Seq<char>) -> Seq<char> {
    text.map_values(|c: char| if c == '\n' { ' ' } else { c })
}

/// How the displayed text is split into runs: the composed span is underlined,
/// and no run is empty.
pub open spec fn runs(len: usize, marked: Option<Span>) -> Seq<Run> {
    match marked {
        None => seq![Run { len, underlined: false }],
        Some(m) => run(m.start, false) + run((m.end - m.start) as usize, true) + run(
            (len - m.end) as usize,
            false,
        ),
    }
}

pub open spec fn run(len: usize, underlined: bool) -> Seq<Run> {
    if len > 0 {
        seq![Run { len, underlined }]
    } else {
        Seq::empty()
    }
}

/// The text field.
pub struct TextInput {
    pub content: String,
    pub placeholder: String,
    pub selected_range: Span,
    pub selection_reversed: bool,
    pub marked_range: Option<Span>,
    pub is_selecting: bool,
}

impl View for TextInput {
    type V = InputState;

    open spec fn view(&self) -> InputState {
        InputState {
            text: self.content@,
            placeholder: self.placeholder@,
            selection: self.selected_range,
            reversed: self.selection_reversed,
            marked: self.marked_range,
            selecting: self.is_selecting,
        }
    }
}

impl TextInput {
    /// A field with the caret behind its initial text.
    pub fn new(initial: &str, placeholder: &str) -> (input: Self)
        ensures
            input@ == (InputState {
                text: initial@,
                placeholder: placeholder@,
                selection: caret(byte_len(initial@) as int),
                reversed: false,
                marked: None,
                selecting: false,
            }),
            input@.wf(),
    {
        let end: usize = str_bytes(initial);
        proof {
            lemma_boundary_ends(initial@);
        }
        TextInput {
            content: initial.to_owned(),
            placeholder: placeholder.to_owned(),
            selected_range: Span { start: end, end },
            selection_reversed: false,
            marked_range: None,
            is_selecting: false,
        }
    }

    pub fn text(&self) -> (r: &str)
        ensures
            r@ == self@.text,
    {
        self.content.as_str()
    }

    /// Overwrites the text and puts the caret behind it.
    pub fn set_text(&mut self, text: &str)
        ensures
            final(self)@ == old(self)@.with_text(text@),
            final(self)@.wf(),
    {
        self.set_text_silent(text);
    }

    /// `set_text` for a caller that reports the change itself.
    pub fn set_text_silent(&mut self, text: &str)
        ensures
            final(self)@ == old(self)@.with_text(text@),
            final(self)@.wf(),
    {
        let end: usize = str_bytes(text);
        proof {
            lemma_boundary_ends(text@);
        }
        self.content = text.to_owned();
        self.selected_range = Span { start: end, end };
        self.marked_range = None;
    }

    pub fn cursor_offset(&self) -> (r: usize)
        ensures
            r == self@.cursor(),
    {
        if self.selection_reversed {
            self.selected_range.start
        } else {
            self.selected_range.end
        }
    }

    pub fn move_to(&mut self, offset: usize)
        ensures
            final(self)@ == old(self)@.moved_to(offset),
    {
        self.selected_range = Span { start: offset, end: offset };
    }

    pub fn select_to(&mut self, offset: usize)
        ensures
            final(self)@ == old(self)@.selected_to(offset),
    {
        if self.selection_reversed {
            self.selected_range = Span { start: offset, end: self.selected_range.end };
        } else {
            self.selected_range = Span { start: self.selected_range.start, end: offset };
        }
        if self.selected_range.end < self.selected_range.start {
            self.selection_reversed = !self.selection_reversed;
            self.selected_range = Span {
                start: self.selected_range.end,
                end: self.selected_range.start,
            };
        }
    }

    /// The start of the grapheme cluster in front of `offset`.
    pub fn previous_boundary(&self, offset: usize) -> (r: usize)
        ensures
            r == self@.previous(offset),
            is_boundary(self@.text, r as int),
            r <= offset,
            self@.text.len() > 0 && offset > 0 ==> r < offset,
    {
        let starts = grapheme_offsets(self.content.as_str());
        proof {
            lemma_boundary_ends(self@.text);
        }
        previous_start(&starts, offset)
    }

    /// The start of the next grapheme cluster behind `offset`, or the end.
    pub fn next_boundary(&self, offset: usize) -> (r: usize)
        ensures
            r == self@.next(offset),
            is_boundary(self@.text, r as int),
            offset < byte_len(self@.text) ==> r > offset,
            offset >= byte_len(self@.text) ==> r == byte_len(self@.text),
    {
        let starts = grapheme_offsets(self.content.as_str());
        let len: usize = str_bytes(self.content.as_str());
        proof {
            lemma_boundary_ends(self@.text);
        }
        next_start(&starts, offset, len)
    }

    pub fn offset_from_utf16(&self, offset: usize) -> (r: usize)
        ensures
            r == from_utf16(self@.text, offset),
            is_boundary(self@.text, r as int),
    {
        let chars = chars_of(self.content.as_str());
        let len: usize = str_bytes(self.content.as_str());
        let k: usize = chars_covering(Encoding::Utf16, &chars, offset);
        proof {
            assert(len == byte_len(chars@));
            lemma_prefix_boundary(chars@, k as int);
        }
        units_upto(Encoding::Utf8, &chars, k)
    }

    pub fn offset_to_utf16(&self, offset: usize) -> (r: usize)
        ensures
            r == to_utf16(self@.text, offset),
    {
        let chars = chars_of(self.content.as_str());
        let len: usize = str_bytes(self.content.as_str());
        let k: usize = chars_covering(Encoding::Utf8, &chars, offset);
        assert(len == byte_len(chars@));
        units_upto(Encoding::Utf16, &chars, k)
    }

    pub fn range_to_utf16(&self, range: Span) -> (r: Span)
        ensures
            r == span_to_utf16(self@.text, range),
    {
        Span { start: self.offset_to_utf16(range.start), end: self.offset_to_utf16(range.end) }
    }

    pub fn range_from_utf16(&self, range_utf16: Span) -> (r: Span)
        ensures
            r == span_from_utf16(self@.text, range_utf16),
            r.fits(self@.text),
    {
        Span {
            start: self.offset_from_utf16(range_utf16.start),
            end: self.offset_from_utf16(range_utf16.end),
        }
    }

    pub fn index_for_mouse_position(&self, hit: MouseHit) -> (r: usize)
        ensures
            r == self@.offset_at(hit),
    {
        if self.content.as_str().is_empty() {
            return 0;
        }
        match hit {
            MouseHit::NoLayout => 0,
            MouseHit::Above => 0,
            MouseHit::Below => str_bytes(self.content.as_str()),
            MouseHit::Inside(offset) => offset,
        }
    }

    /// Where the caret goes to the left: one cluster, or the start of the selection.
    pub fn on_left(&mut self)
        ensures
            final(self)@ == old(self)@.left(),
            old(self)@.wf() ==> final(self)@.wf(),
    {
        if self.selected_range.is_empty() {
            let offset: usize = self.previous_boundary(self.cursor_offset());
            self.move_to(offset);
        } else {
            self.move_to(self.selected_range.start);
        }
    }

    pub fn on_right(&mut self)
        ensures
            final(self)@ == old(self)@.right(),
            old(self)@.wf() ==> final(self)@.wf(),
    {
        if self.selected_range.is_empty() {
            let offset: usize = self.next_boundary(self.selected_range.end);
            self.move_to(offset);
        } else {
            self.move_to(self.selected_range.end);
        }
    }

    pub fn on_select_left(&mut self)
        ensures
            final(self)@ == old(self)@.selected_to(old(self)@.previous(old(self)@.cursor())),
            old(self)@.wf() ==> final(self)@.wf(),
    {
        let offset: usize = self.previous_boundary(self.cursor_offset());
        self.select_to(offset);
    }

    pub fn on_select_right(&mut self)
        ensures
            final(self)@ == old(self)@.selected_to(old(self)@.next(old(self)@.cursor())),
            old(self)@.wf() ==> final(self)@.wf(),
    {
        let offset: usize = self.next_boundary(self.cursor_offset());
        self.select_to(offset);
    }

    pub fn on_select_all(&mut self)
        ensures
            final(self)@ == old(self)@.all_selected(),
            old(self)@.wf() ==> final(self)@.wf(),
    {
        proof {
            lemma_boundary_ends(self@.text);
        }
        self.move_to(0);
        let end: usize = str_bytes(self.content.as_str());
        self.select_to(end);
    }

    pub fn on_home(&mut self)
        ensures
            final(self)@ == old(self)@.moved_to(0),
            old(self)@.wf() ==> final(self)@.wf(),
    {
        proof {
            lemma_boundary_ends(self@.text);
        }
        self.move_to(0);
    }

    pub fn on_end(&mut self)
        ensures
            final(self)@ == old(self)@.moved_to(byte_len(old(self)@.text) as usize),
            old(self)@.wf() ==> final(self)@.wf(),
    {
        proof {
            lemma_boundary_ends(self@.text);
        }
        let end: usize = str_bytes(self.content.as_str());
        self.move_to(end);
    }

    /// Deletes the selection, or the grapheme cluster in front of the caret.
    pub fn on_backspace(&mut self) -> (outcome: EditOutcome)
        requires
            old(self)@.editable(),
        ensures
            match old(self)@.deleted_to(old(self)@.previous(old(self)@.cursor())) {
                Some(s) => outcome == EditOutcome::Edited && final(self)@ == s,
                None => outcome == EditOutcome::Bell && final(self)@ == old(self)@,
            },
            old(self)@.wf() ==> final(self)@.wf(),
    {
        if self.selected_range.is_empty() {
            let prev: usize = self.previous_boundary(self.cursor_offset());
            if self.cursor_offset() == prev {
                return EditOutcome::Bell;
            }
            self.select_to(prev);
        }
        self.replace_text_in_range(None, "");
        proof {
            reveal_strlit("");
            assert(""@ == Seq::<char>::empty());
        }
        EditOutcome::Edited
    }

    /// Deletes the selection, or the grapheme cluster behind the caret.
    pub fn on_delete(&mut self) -> (outcome: EditOutcome)
        requires
            old(self)@.editable(),
        ensures
            match old(self)@.deleted_to(old(self)@.next(old(self)@.cursor())) {
                Some(s) => outcome == EditOutcome::Edited && final(self)@ == s,
                None => outcome == EditOutcome::Bell && final(self)@ == old(self)@,
            },
            old(self)@.wf() ==> final(self)@.wf(),
    {
        if self.selected_range.is_empty() {
            let next: usize = self.next_boundary(self.cursor_offset());
            if self.cursor_offset() == next {
                return EditOutcome::Bell;
            }
            self.select_to(next);
        }
        self.replace_text_in_range(None, "");
        proof {
            reveal_strlit("");
            assert(""@ == Seq::<char>::empty());
        }
        EditOutcome::Edited
    }

    /// Puts the caret under the mouse, or extends the selection to it.
    pub fn on_mouse_down(&mut self, hit: MouseHit, shift: bool)
        ensures
            final(self)@ == (InputState {
                selecting: true,
                ..if shift {
                    old(self)@.selected_to(old(self)@.offset_at(hit))
                } else {
                    old(self)@.moved_to(old(self)@.offset_at(hit))
                }
            }),
    {
        self.is_selecting = true;
        let offset: usize = self.index_for_mouse_position(hit);
        if shift {
            self.select_to(offset);
        } else {
            self.move_to(offset);
        }
    }

    pub fn on_mouse_up(&mut self)
        ensures
            final(self)@ == (InputState { selecting: false, ..old(self)@ }),
    {
        self.is_selecting = false;
    }

    pub fn on_mouse_move(&mut self, hit: MouseHit)
        ensures
            final(self)@ == if old(self)@.selecting {
                old(self)@.selected_to(old(self)@.offset_at(hit))
            } else {
                old(self)@
            },
    {
        if self.is_selecting {
            let offset: usize = self.index_for_mouse_position(hit);
            self.select_to(offset);
        }
    }

    /// Replaces the selection by the clipboard's text, if it holds any.
    pub fn on_paste(&mut self, clipboard: Option<&str>)
        requires
            old(self)@.editable(),
        ensures
            final(self)@ == match clipboard {
                Some(text) => old(self)@.replaced(
                    old(self)@.edited_span(None),
                    on_one_line(text@),
                ),
                None => old(self)@,
            },
            old(self)@.wf() ==> final(self)@.wf(),
    {
        if let Some(text) = clipboard {
            let line = single_line(text);
            self.replace_text_in_range(None, line.as_str());
        }
    }

    /// What goes to the clipboard.
    pub fn on_copy(&self) -> (r: Option<String>)
        requires
            self@.selection.spec_is_empty() || self@.selection.fits(self@.text),
        ensures
            match self@.selected_text() {
                Some(text) => r matches Some(s) && s@ == text,
                None => r is None,
            },
    {
        if self.selected_range.is_empty() {
            None
        } else {
            Some(slice(self.content.as_str(), self.selected_range.start, self.selected_range.end))
        }
    }

    /// What goes to the clipboard, taken out of the text.
    pub fn on_cut(&mut self) -> (r: Option<String>)
        requires
            old(self)@.selection.spec_is_empty() || old(self)@.editable() && old(
                self,
            )@.selection.fits(old(self)@.text),
        ensures
            match old(self)@.selected_text() {
                Some(text) => r matches Some(s) && s@ == text && final(self)@ == old(
                    self,
                )@.replaced(old(self)@.edited_span(None), Seq::empty()),
                None => r is None && final(self)@ == old(self)@,
            },
            old(self)@.wf() ==> final(self)@.wf(),
    {
        let r = self.on_copy();
        if r.is_some() {
            self.replace_text_in_range(None, "");
            proof {
                reveal_strlit("");
                assert(""@ == Seq::<char>::empty());
            }
        }
        r
    }

    /// The text in a UTF-16 range, and the range rounded to whole characters.
    pub fn text_for_range(&self, range_utf16: Span) -> (r: (String, Span))
        requires
            from_utf16(self@.text, range_utf16.start) <= from_utf16(self@.text, range_utf16.end),
        ensures
            r.0@ == between(
                self@.text,
                from_utf16(self@.text, range_utf16.start) as int,
                from_utf16(self@.text, range_utf16.end) as int,
            ),
            r.1 == span_to_utf16(self@.text, span_from_utf16(self@.text, range_utf16)),
    {
        let range = self.range_from_utf16(range_utf16);
        let actual = self.range_to_utf16(range);
        (slice(self.content.as_str(), range.start, range.end), actual)
    }

    /// The selection in UTF-16, and whether the caret is at its start.
    pub fn selected_text_range(&self) -> (r: (Span, bool))
        ensures
            r == (span_to_utf16(self@.text, self@.selection), self@.reversed),
    {
        (self.range_to_utf16(self.selected_range), self.selection_reversed)
    }

    pub fn marked_text_range(&self) -> (r: Option<Span>)
        ensures
            r == match self@.marked {
                Some(m) => Some(span_to_utf16(self@.text, m)),
                None => None,
            },
    {
        match self.marked_range {
            Some(m) => Some(self.range_to_utf16(m)),
            None => None,
        }
    }

    pub fn unmark_text(&mut self)
        ensures
            final(self)@ == (InputState { marked: None, ..old(self)@ }),
            old(self)@.wf() ==> final(self)@.wf(),
    {
        self.marked_range = None;
    }

    fn range_to_edit(&self, range_utf16: Option<Span>) -> (r: Span)
        ensures
            r == self@.edited_span(range_utf16),
            range_utf16 is Some ==> r.fits(self@.text),
    {
        match range_utf16 {
            Some(r) => self.range_from_utf16(r),
            None => match self.marked_range {
                Some(m) => m,
                None => self.selected_range,
            },
        }
    }

    /// Puts new text in place of a span and returns the span and the offset
    /// behind the new text.
    fn put(&mut self, range_utf16: Option<Span>, new_text: &str) -> (r: (Span, usize))
        requires
            range_utf16 is None ==> old(self)@.editable(),
        ensures
            r.0 == old(self)@.edited_span(range_utf16),
            r.1 == r.0.start + byte_len(new_text@),
            final(self)@ == (InputState {
                text: old(self)@.text_with(r.0, new_text@),
                ..old(self)@
            }),
            is_boundary(final(self)@.text, r.0.start as int),
            is_boundary(final(self)@.text, r.1 as int),
    {
        let span = self.range_to_edit(range_utf16);
        let content = splice(self.content.as_str(), span.start, span.end, new_text);
        let total: usize = str_bytes(content.as_str());
        let added: usize = str_bytes(new_text);
        proof {
            lemma_text_with(self@, span, new_text@);
        }
        self.content = content;
        (span, span.start + added)
    }

    /// Replaces the given span, else the composed one, else the selection.
    pub fn replace_text_in_range(&mut self, range_utf16: Option<Span>, new_text: &str)
        requires
            range_utf16 is None ==> old(self)@.editable(),
        ensures
            final(self)@ == old(self)@.replaced(
                old(self)@.edited_span(range_utf16),
                new_text@,
            ),
            final(self)@.wf(),
    {
        let (_, end) = self.put(range_utf16, new_text);
        self.selected_range = Span { start: end, end };
        self.marked_range = None;
    }

    /// Replaces the given span, else the composed one, else the selection, by
    /// text that an input method is still composing.
    pub fn replace_and_mark_text_in_range(
        &mut self,
        range_utf16: Option<Span>,
        new_text: &str,
        new_selected_range_utf16: Option<Span>,
    )
        requires
            range_utf16 is None ==> old(self)@.editable(),
        ensures
            final(self)@ == old(self)@.composed(
                old(self)@.edited_span(range_utf16),
                new_text@,
                new_selected_range_utf16,
            ),
            final(self)@.marked_wf(),
            new_selected_range_utf16 is None ==> final(self)@.wf(),
    {
        let (span, end) = self.put(range_utf16, new_text);
        self.marked_range = if new_text.is_empty() {
            None
        } else {
            Some(Span { start: span.start, end })
        };
        proof {
            if new_text@.len() > 0 {
                lemma_units_take(Encoding::Utf8, new_text@, 0, new_text@.len() as int);
                assert(new_text@.take(new_text@.len() as int) == new_text@);
            }
        }
        self.selected_range = match new_selected_range_utf16 {
            Some(r) => {
                let inner = self.range_from_utf16(r);
                Span {
                    start: inner.start.wrapping_add(span.start),
                    end: inner.end.wrapping_add(span.end),
                }
            },
            None => Span { start: end, end },
        };
    }

    /// The text to draw: the placeholder while there is no other.
    pub fn display_text(&self) -> (r: (&str, bool))
        ensures
            r.0@ == self@.displayed(),
            r.1 == (self@.text.len() == 0),
    {
        if self.content.as_str().is_empty() {
            (self.placeholder.as_str(), true)
        } else {
            (self.content.as_str(), false)
        }
    }

    /// The runs in which the displayed text is drawn.
    pub fn text_runs(&self) -> (r: Vec<Run>)
        requires
            self@.marked_wf(),
        ensures
            r@ == runs(byte_len(self@.displayed()) as usize, self@.marked),
    {
        let (text, _) = self.display_text();
        let len: usize = str_bytes(text);
        let mut r: Vec<Run> = Vec::new();
        match self.marked_range {
            None => {
                r.push(Run { len, underlined: false });
            },
            Some(m) => {
                proof {
                    lemma_boundary_ends(self@.text);
                }
                push_run(&mut r, m.start, false);
                push_run(&mut r, m.end - m.start, true);
                push_run(&mut r, len - m.end, false);
            },
        }
        r
    }
}

fn push_run(r: &mut Vec<Run>, len: usize, underlined: bool)
    ensures
        final(r)@ == old(r)@ + run(len, underlined),
{
    if len > 0 {
        r.push(Run { len, underlined });
    }
}

/// Every line feed becomes a space.
fn single_line(text: &str) -> (r: String)
    ensures
        r@ == on_one_line(text@),
{
    let mut r = String::new();
    for c in it: text.chars()
        invariant
            it.seq() == text@,
            r@ == on_one_line(text@.take(it.index() as int)),
    {
        proof {
            assert(text@.take(it.index() + 1) == text@.take(it.index() as int).push(c));
        }
        if c == '\n' {
            r.push(' ');
        } else {
            r.push(c);
        }
        assert(r@ == on_one_line(text@.take(it.index() + 1)));
    }
    assert(text@.take(text@.len() as int) == text@);
    r
}

/// The keys of a field while it has the focus.
pub const FIELD_KEY_CONTEXT: &'static str = "issen-field";

#[derive(Clone, Copy, PartialEq, Eq, Structural, Debug)]
pub enum FieldAction {
    FieldBackspace,
    FieldDelete,
    FieldLeft,
    FieldRight,
    FieldSelectLeft,
    FieldSelectRight,
    FieldSelectAll,
    FieldHome,
    FieldEnd,
    FieldPaste,
    FieldCut,
    FieldCopy,
}

/// The keystroke of an action.
pub open spec fn keystroke(action: FieldAction) -> Seq<char> {
    match action {
        FieldAction::FieldBackspace => "backspace"@,
        FieldAction::FieldDelete => "delete"@,
        FieldAction::FieldLeft => "left"@,
        FieldAction::FieldRight => "right"@,
        FieldAction::FieldSelectLeft => "shift-left"@,
        FieldAction::FieldSelectRight => "shift-right"@,
        FieldAction::FieldSelectAll => "ctrl-a"@,
        FieldAction::FieldHome => "home"@,
        FieldAction::FieldEnd => "end"@,
        FieldAction::FieldPaste => "ctrl-v"@,
        FieldAction::FieldCut => "ctrl-x"@,
        FieldAction::FieldCopy => "ctrl-c"@,
    }
}

/// Every action of a field, with its keystroke.
pub fn key_bindings() -> (r: Vec<(&'static str, FieldAction)>)
    ensures
        forall|i: int| 0 <= i < r@.len() ==> (#[trigger] r@[i]).0@ == keystroke(r@[i].1),
        r@.map_values(|b: (&'static str, FieldAction)| b.1) == seq![
            FieldAction::FieldBackspace,
            FieldAction::FieldDelete,
            FieldAction::FieldLeft,
            FieldAction::FieldRight,
            FieldAction::FieldSelectLeft,
            FieldAction::FieldSelectRight,
            FieldAction::FieldSelectAll,
            FieldAction::FieldHome,
            FieldAction::FieldEnd,
            FieldAction::FieldPaste,
            FieldAction::FieldCut,
            FieldAction::FieldCopy,
        ],
{
    vec![
        ("backspace", FieldAction::FieldBackspace),
        ("delete", FieldAction::FieldDelete),
        ("left", FieldAction::FieldLeft),
        ("right", FieldAction::FieldRight),
        ("shift-left", FieldAction::FieldSelectLeft),
        ("shift-right", FieldAction::FieldSelectRight),
        ("ctrl-a", FieldAction::FieldSelectAll),
        ("home", FieldAction::FieldHome),
        ("end", FieldAction::FieldEnd),
        ("ctrl-v", FieldAction::FieldPaste),
        ("ctrl-x", FieldAction::FieldCut),
        ("ctrl-c", FieldAction::FieldCopy),
    ]
}

/// Where an edit leaves the ends of the new text.
proof fn lemma_text_with(s: InputState, span: Span, new_text: Seq<char>)
    requires
        span.fits(s.text),
    ensures
        span.start + byte_len(new_text) <= byte_len(s.text_with(span, new_text)),
        is_boundary(s.text_with(span, new_text), span.start as int),
        is_boundary(s.text_with(span, new_text), span.start + byte_len(new_text)),
        before(s.text_with(span, new_text), span.start + byte_len(new_text)) == before(
            s.text,
            span.start as int,
        ) + new_text,
        before(s.text_with(span, new_text), span.start as int) == before(
            s.text,
            span.start as int,
        ),
        after(s.text_with(span, new_text), span.start + byte_len(new_text)) == after(
            s.text,
            span.end as int,
        ),
        after(s.text_with(span, new_text), span.start as int) == new_text + after(
            s.text,
            span.end as int,
        ),
{
    let a = before(s.text, span.start as int);
    let b = after(s.text, span.end as int);
    let t = a + new_text + b;
    lemma_covering(Encoding::Utf8, s.text, span.start as int);
    lemma_covering(Encoding::Utf8, s.text, span.end as int);
    lemma_units_concat(Encoding::Utf8, a, new_text);
    lemma_units_concat(Encoding::Utf8, a + new_text, b);
    let k = (a.len() + new_text.len()) as int;
    assert(t.take(k) == a + new_text);
    assert(t.skip(k) == b);
    assert(t.take(a.len() as int) == a);
    assert(t.skip(a.len() as int) == new_text + b);
    lemma_prefix_boundary(t, k);
    lemma_prefix_boundary(t, a.len() as int);
}

/// Extending the selection puts the caret at the offset and leaves the anchor.
pub proof fn law_select_keeps_anchor(s: InputState, offset: usize)
    ensures
        s.selected_to(offset).cursor() == offset,
        s.selected_to(offset).anchor() == s.anchor(),
        s.selected_to(offset).text == s.text,
        s.anchor() == s.selection.start && s.cursor() == s.selection.end || s.anchor()
            == s.selection.end && s.cursor() == s.selection.start,
        s.selection.start <= s.selection.end ==> s.selected_to(offset).selection.start
            <= s.selected_to(offset).selection.end,
{
}

/// A byte offset between two characters survives the way to UTF-16 and back.
pub proof fn law_utf16_round_trip(text: Seq<char>, offset: usize)
    requires
        is_boundary(text, offset as int),
        byte_len(text) <= usize::MAX,
    ensures
        from_utf16(text, to_utf16(text, offset)) == offset,
{
    let k = covering(Encoding::Utf8, text, offset as int) as int;
    lemma_covering(Encoding::Utf8, text, offset as int);
    lemma_utf16_shorter(Encoding::Utf16, text.take(k));
    lemma_units_take(Encoding::Utf8, text, k, text.len() as int);
    lemma_covering_prefix(Encoding::Utf16, text, k);
}

/// An edit changes nothing outside of the span that it replaces, and leaves the
/// caret right behind the new text.
pub proof fn law_edit_is_local(s: InputState, span: Span, new_text: Seq<char>)
    requires
        span.fits(s.text),
        byte_len(s.text_with(span, new_text)) <= usize::MAX,
    ensures
        ({
            let r = s.replaced(span, new_text);
            &&& before(r.text, r.cursor() as int) == before(s.text, span.start as int) + new_text
            &&& after(r.text, r.cursor() as int) == after(s.text, span.end as int)
            &&& r.selection.spec_is_empty()
            &&& r.wf()
        }),
{
    lemma_text_with(s, span, new_text);
}

/// Putting back what an edit took out restores the text.
pub proof fn law_edit_is_undone(s: InputState, span: Span, new_text: Seq<char>)
    requires
        span.fits(s.text),
        span.start <= span.end,
        byte_len(s.text_with(span, new_text)) <= usize::MAX,
    ensures
        ({
            let r = s.replaced(span, new_text);
            let back = Span { start: span.start, end: r.cursor() };
            let taken = between(s.text, span.start as int, span.end as int);
            r.replaced(back, taken).text == s.text
        }),
{
    lemma_text_with(s, span, new_text);
    lemma_covering_order(s.text, span.start as int, span.end as int);
    let i = covering(Encoding::Utf8, s.text, span.start as int) as int;
    let j = covering(Encoding::Utf8, s.text, span.end as int) as int;
    assert(s.text.take(i) + s.text.subrange(i, j) + s.text.skip(j) == s.text);
}

/// Cutting a selection and pasting it back restores the text, where the
/// selection holds no line feed and nothing is being composed.
pub proof fn law_cut_then_paste(s: InputState)
    requires
        s.wf(),
        s.marked is None,
        s.selected_text() is Some,
        byte_len(s.text) <= usize::MAX,
        !s.selected_text()->0.contains('\n'),
    ensures
        ({
            let cut = s.replaced(s.edited_span(None), Seq::empty());
            let pasted = cut.replaced(cut.edited_span(None), on_one_line(s.selected_text()->0));
            pasted.text == s.text
        }),
{
    let taken = s.selected_text()->0;
    assert forall|i: int| 0 <= i < taken.len() implies on_one_line(taken)[i] == taken[i] by {
        assert(taken.contains(taken[i]));
    }
    assert(on_one_line(taken) == taken);
    lemma_text_with(s, s.selection, Seq::empty());
    let (a, b) = (before(s.text, s.selection.start as int), after(s.text, s.selection.end as int));
    assert(a + Seq::<char>::empty() + b == a + b);
    lemma_units_concat(Encoding::Utf8, a, b);
    lemma_covering(Encoding::Utf8, s.text, s.selection.end as int);
    let j = covering(Encoding::Utf8, s.text, s.selection.end as int) as int;
    lemma_units_take(Encoding::Utf8, s.text, j, s.text.len() as int);
    law_edit_is_undone(s, s.selection, Seq::empty());
}

/// Replacing everything that is selected leaves the new text alone.
pub proof fn law_replace_all(s: InputState, new_text: Seq<char>)
    requires
        byte_len(s.text) <= usize::MAX,
    ensures
        s.all_selected().replaced(s.all_selected().selection, new_text).text == new_text,
{
    let n = s.text.len() as int;
    lemma_covering_prefix(Encoding::Utf8, s.text, n);
    assert(s.text.take(n) == s.text);
    assert(s.all_selected().selection == (Span { start: 0, end: byte_len(s.text) as usize }));
    assert(s.text.take(0) + new_text + s.text.skip(n) == new_text);
}

/// One cluster to the left of an offset is the nearest start of a cluster in front of it,
/// or the start of the text; one to the right is the nearest start behind it, or the end.
pub proof fn law_clusters_are_neighbours(starts: Seq<usize>, offset: usize, len: usize)
    requires
        forall|i: int, j: int| 0 <= i < j < starts.len() ==> starts[i] < starts[j],
    ensures
        last_below(starts, offset) == 0 || starts.contains(last_below(starts, offset)) && last_below(
            starts,
            offset,
        ) < offset,
        forall|i: int|
            0 <= i < starts.len() && #[trigger] starts[i] < offset ==> starts[i] <= last_below(
                starts,
                offset,
            ),
        first_above(starts, offset, len) == len || starts.contains(first_above(starts, offset, len))
            && first_above(starts, offset, len) > offset,
        forall|i: int|
            0 <= i < starts.len() && #[trigger] starts[i] > offset ==> first_above(
                starts,
                offset,
                len,
            ) <= starts[i],
{
    lemma_last_below(starts, offset);
    lemma_first_above(starts, offset, len);
}

proof fn lemma_last_below(starts: Seq<usize>, offset: usize)
    requires
        forall|i: int, j: int| 0 <= i < j < starts.len() ==> starts[i] < starts[j],
    ensures
        last_below(starts, offset) == 0 || starts.contains(last_below(starts, offset)) && last_below(
            starts,
            offset,
        ) < offset,
        forall|i: int|
            0 <= i < starts.len() && #[trigger] starts[i] < offset ==> starts[i] <= last_below(
                starts,
                offset,
            ),
    decreases starts.len(),
{
    if starts.len() > 0 {
        let front = starts.drop_last();
        assert(starts[starts.len() - 1] == starts.last());
        lemma_last_below(front, offset);
        assert(forall|i: int| 0 <= i < front.len() ==> #[trigger] front[i] == starts[i]);
        if starts.last() >= offset && front.contains(last_below(front, offset)) {
            let k = choose|k: int| 0 <= k < front.len() && front[k] == last_below(front, offset);
            assert(starts[k] == last_below(front, offset));
        }
        assert forall|i: int| 0 <= i < starts.len() && #[trigger] starts[i]
            < offset implies starts[i] <= last_below(starts, offset) by {
            if i < front.len() {
                assert(front[i] == starts[i]);
                assert(starts[i] < starts[starts.len() - 1]);
            }
        }
    }
}

proof fn lemma_first_above(starts: Seq<usize>, offset: usize, len: usize)
    requires
        forall|i: int, j: int| 0 <= i < j < starts.len() ==> starts[i] < starts[j],
    ensures
        first_above(starts, offset, len) == len || starts.contains(first_above(starts, offset, len))
            && first_above(starts, offset, len) > offset,
        forall|i: int|
            0 <= i < starts.len() && #[trigger] starts[i] > offset ==> first_above(
                starts,
                offset,
                len,
            ) <= starts[i],
    decreases starts.len(),
{
    if starts.len() > 0 {
        let rest = starts.drop_first();
        assert(forall|i: int| 0 <= i < rest.len() ==> #[trigger] rest[i] == starts[i + 1]);
        lemma_first_above(rest, offset, len);
        if starts[0] > offset {
            assert(starts.contains(starts[0]));
            assert forall|i: int| 0 <= i < starts.len() && #[trigger] starts[i]
                > offset implies first_above(starts, offset, len) <= starts[i] by {
                if i > 0 {
                    assert(starts[0] < starts[i]);
                }
            }
        } else {
            let r = first_above(rest, offset, len);
            if rest.contains(r) {
                let k = choose|k: int| 0 <= k < rest.len() && rest[k] == r;
                assert(starts[k + 1] == r);
            }
            assert forall|i: int| 0 <= i < starts.len() && #[trigger] starts[i]
                > offset implies first_above(starts, offset, len) <= starts[i] by {
                assert(rest[i - 1] == starts[i]);
            }
        }
    }
}

/// The arrow keys move the caret by one cluster. Where text is selected, they put it at
/// the left or the right end of the selection instead. The text stays.
pub proof fn law_arrows_move_the_caret(s: InputState)
    ensures
        s.left().text == s.text,
        s.right().text == s.text,
        s.left().selected_text() is None,
        s.right().selected_text() is None,
        s.selection.start < s.selection.end ==> s.left().cursor() == s.selection.start
            && s.right().cursor() == s.selection.end,
        s.selection.start >= s.selection.end ==> s.left().cursor() == last_below(
            grapheme_starts(s.text),
            s.cursor(),
        ) && s.right().cursor() == first_above(
            grapheme_starts(s.text),
            s.selection.end,
            byte_len(s.text) as usize,
        ),
{
}

/// Deleting takes the selected text out, or, where none is selected, what lies between
/// the caret and its neighbour on either side; where there is nothing between them,
/// nothing is deleted. The caret stands where the text was.
pub proof fn law_delete_takes_one_piece(s: InputState, neighbour: usize)
    requires
        s.marked is None,
        s.selection.start <= s.selection.end,
    ensures
        s.selection.start < s.selection.end ==> (s.deleted_to(neighbour) matches Some(r)
            && r.text == before(s.text, s.selection.start as int) + after(
            s.text,
            s.selection.end as int,
        ) && r.cursor() == s.selection.start),
        s.selection.start == s.selection.end && neighbour == s.cursor() ==> s.deleted_to(
            neighbour,
        ) is None,
        s.selection.start == s.selection.end && neighbour < s.cursor() ==> (s.deleted_to(
            neighbour,
        ) matches Some(r) && r.text == before(s.text, neighbour as int) + after(
            s.text,
            s.cursor() as int,
        ) && r.cursor() == neighbour),
        s.selection.start == s.selection.end && neighbour > s.cursor() ==> (s.deleted_to(
            neighbour,
        ) matches Some(r) && r.text == before(s.text, s.cursor() as int) + after(
            s.text,
            neighbour as int,
        ) && r.cursor() == s.cursor()),
{
    if let Some(r) = s.deleted_to(neighbour) {
        assert(byte_len(Seq::<char>::empty()) == 0);
        let t = s.selected_to(neighbour);
        let one = if s.selection.start < s.selection.end {
            s.selection
        } else {
            t.selection
        };
        assert(before(s.text, one.start as int) + Seq::<char>::empty() + after(
            s.text,
            one.end as int,
        ) =~= before(s.text, one.start as int) + after(s.text, one.end as int));
    }
}

/// Pasted text goes on one line: line feeds become spaces, and everything else stays.
pub proof fn law_paste_is_one_line(text: Seq<char>, i: int)
    requires
        0 <= i < text.len(),
    ensures
        on_one_line(text).len() == text.len(),
        on_one_line(text)[i] == if text[i] == '\n' {
            ' '
        } else {
            text[i]
        },
{
}

/// A new text replaces all of the old one, with the caret behind it and nothing selected
/// or composed. Selecting everything reaches from the start to the end.
pub proof fn law_new_text(s: InputState, text: Seq<char>)
    requires
        byte_len(text) <= usize::MAX,
        byte_len(s.text) <= usize::MAX,
    ensures
        s.with_text(text).text == text,
        s.with_text(text).cursor() == byte_len(text),
        s.with_text(text).selected_text() is None,
        s.with_text(text).marked is None,
        s.with_text(text).placeholder == s.placeholder,
        s.all_selected().text == s.text,
        s.text.len() > 0 ==> s.all_selected().selected_text() == Some(s.text),
        s.text.len() > 0 ==> s.displayed() == s.text,
        s.text.len() == 0 ==> s.displayed() == s.placeholder,
{
    let n = s.text.len() as int;
    lemma_covering_prefix(Encoding::Utf8, s.text, n);
    assert(s.text.take(n) =~= s.text);
    assert(s.text.subrange(0, n) =~= s.text);
    assert(s.all_selected().selection == (Span { start: 0, end: byte_len(s.text) as usize }));
    if n > 0 {
        lemma_units_concat(Encoding::Utf8, s.text.drop_last(), seq![s.text.last()]);
        assert(byte_len(s.text) > 0);
    }
}

/// A click puts the caret where it falls: at the start above the line, at the end below it,
/// and at the start of a field without text.
pub proof fn law_clicks_find_their_offset(s: InputState, offset: usize)
    ensures
        s.text.len() == 0 ==> s.offset_at(MouseHit::Inside(offset)) == 0 && s.offset_at(
            MouseHit::Below,
        ) == 0,
        s.text.len() > 0 ==> s.offset_at(MouseHit::Inside(offset)) == offset,
        s.text.len() > 0 ==> s.offset_at(MouseHit::Below) == byte_len(s.text) as usize,
        s.offset_at(MouseHit::Above) == 0,
        s.offset_at(MouseHit::NoLayout) == 0,
        s.moved_to(offset).cursor() == offset,
        s.moved_to(offset).selected_text() is None,
        s.moved_to(offset).text == s.text,
{
}

/// What an edit replaces: the span that an input method names, else what is being
/// composed, else what is selected.
pub proof fn law_edits_find_their_span(s: InputState, span: Span)
    ensures
        s.edited_span(Some(span)).start == from_utf16(s.text, span.start),
        s.edited_span(Some(span)).end == from_utf16(s.text, span.end),
        s.marked == Some(span) ==> s.edited_span(None) == span,
        s.marked is None ==> s.edited_span(None) == s.selection,
{
}

/// Text that is being composed is put in like any other and marked as long as it is not
/// empty; the caret stands behind it, unless the input method says otherwise.
pub proof fn law_composed_text_is_marked(
    s: InputState,
    span: Span,
    new_text: Seq<char>,
    selected: Span,
)
    requires
        span.start + byte_len(new_text) <= usize::MAX,
    ensures
        ({
            let r = s.composed(span, new_text, None);
            &&& r.text == s.replaced(span, new_text).text
            &&& r.cursor() == s.replaced(span, new_text).cursor()
            &&& new_text.len() == 0 ==> r.marked is None
            &&& new_text.len() > 0 ==> r.marked == Some(
                Span { start: span.start, end: (span.start + byte_len(new_text)) as usize },
            )
            &&& s.composed(span, new_text, Some(selected)).text == r.text
            &&& s.composed(span, new_text, Some(selected)).marked == r.marked
            &&& from_utf16(r.text, selected.start) + span.start <= usize::MAX ==> s.composed(
                span,
                new_text,
                Some(selected),
            ).selection.start == from_utf16(r.text, selected.start) + span.start
            &&& from_utf16(r.text, selected.end) + span.end <= usize::MAX ==> s.composed(
                span,
                new_text,
                Some(selected),
            ).selection.end == from_utf16(r.text, selected.end) + span.end
        }),
{
}

/// The length of runs together.
pub open spec fn runs_len(runs: Seq<Run>) -> int
    decreases runs.len(),
{
    if runs.len() == 0 {
        0
    } else {
        runs_len(runs.drop_last()) + runs.last().len
    }
}

/// The text is drawn from its start to its end, and exactly what is being composed is
/// underlined.
pub proof fn law_composed_text_is_underlined(len: usize, m: Span)
    requires
        0 < m.start < m.end < len,
    ensures
        runs(len, None) == seq![Run { len, underlined: false }],
        runs(len, Some(m)) == seq![
            Run { len: m.start, underlined: false },
            Run { len: (m.end - m.start) as usize, underlined: true },
            Run { len: (len - m.end) as usize, underlined: false },
        ],
        runs_len(runs(len, Some(m))) == len,
        runs(len, Some(Span { start: 0, end: len })) == seq![Run { len, underlined: true }],
{
    let (a, b, c) = (
        Run { len: m.start, underlined: false },
        Run { len: (m.end - m.start) as usize, underlined: true },
        Run { len: (len - m.end) as usize, underlined: false },
    );
    assert(runs(len, Some(m)) =~= seq![a, b, c]);
    assert(runs(len, Some(Span { start: 0, end: len })) =~= seq![Run { len, underlined: true }]);
    reveal_with_fuel(runs_len, 4);
    assert(seq![a, b, c].drop_last() =~= seq![a, b]);
    assert(seq![a, b].drop_last() =~= seq![a]);
    assert(seq![a].drop_last() =~= Seq::<Run>::empty());
}

/// The keys of a text field.
pub proof fn law_keys_of_a_field()
    ensures
        keystroke(FieldAction::FieldBackspace) == "backspace"@,
        keystroke(FieldAction::FieldDelete) == "delete"@,
        keystroke(FieldAction::FieldLeft) == "left"@,
        keystroke(FieldAction::FieldRight) == "right"@,
        keystroke(FieldAction::FieldSelectLeft) == "shift-left"@,
        keystroke(FieldAction::FieldSelectRight) == "shift-right"@,
        keystroke(FieldAction::FieldSelectAll) == "ctrl-a"@,
        keystroke(FieldAction::FieldHome) == "home"@,
        keystroke(FieldAction::FieldEnd) == "end"@,
        keystroke(FieldAction::FieldPaste) == "ctrl-v"@,
        keystroke(FieldAction::FieldCut) == "ctrl-x"@,
        keystroke(FieldAction::FieldCopy) == "ctrl-c"@,
{
}

/// Between bytes and UTF-16: the offset behind the first characters of a text is as many
/// units of the one as of the other as these characters take.
pub proof fn law_offsets_count_the_same_characters(text: Seq<char>, k: int)
    requires
        0 <= k <= text.len(),
        byte_len(text) <= usize::MAX,
    ensures
        to_utf16(text, byte_len(text.take(k)) as usize) == utf16(text.take(k)).len(),
        from_utf16(text, utf16(text.take(k)).len() as usize) == encode_utf8(text.take(k)).len(),
{
    lemma_units_take(Encoding::Utf8, text, k, text.len() as int);
    lemma_covering_prefix(Encoding::Utf8, text, k);
    lemma_covering_prefix(Encoding::Utf16, text, k);
    lemma_utf16_shorter(Encoding::Utf16, text.take(k));
    law_utf16_length(text.take(k));
    lemma_byte_len(text.take(k));
}

/// The selected text is what stands between the ends of the selection: what is in front of
/// it, the selected text and what is behind it are the whole text.
pub proof fn law_selected_text_is_between(s: InputState)
    requires
        s.selection.start < s.selection.end,
        s.selection.fits(s.text),
    ensures
        s.selected_text() matches Some(t) && s.text == before(s.text, s.selection.start as int) + t
            + after(s.text, s.selection.end as int),
        s.selected_text()->0.len() > 0,
{
    lemma_covering_order(s.text, s.selection.start as int, s.selection.end as int);
    let i = covering(Encoding::Utf8, s.text, s.selection.start as int) as int;
    let j = covering(Encoding::Utf8, s.text, s.selection.end as int) as int;
    assert(s.text.take(i) + s.text.subrange(i, j) + s.text.skip(j) =~= s.text);
    if i == j {
        assert(byte_len(s.text.take(i)) == s.selection.start);
        assert(byte_len(s.text.take(j)) == s.selection.end);
    }
}

/// A field is what its fields hold.
pub proof fn law_field_is_its_fields(input: TextInput)
    ensures
        input@.text == input.content@,
        input@.placeholder == input.placeholder@,
        input@.selection == input.selected_range,
        input@.reversed == input.selection_reversed,
        input@.marked == input.marked_range,
        input@.selecting == input.is_selecting,
{
}

/// The keys of a field act in fields alone, not in the main window.
pub proof fn law_field_keys_have_their_own_context()
    ensures
        FIELD_KEY_CONTEXT@ == "issen-field"@,
{
}

} // verus!
