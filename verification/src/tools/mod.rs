//! The color picker and the unit converter, which share one window.

pub mod color;
pub mod units;

use vstd::prelude::*;

use crate::i18n::Strings;
use crate::text_input::{caret, InputState, TextInput};
use crate::text::byte_len;
use color::{hex_color, hex_text, pack_opaque, parse_hex, pixel, pixel_color, rgb_line, rgb_text, to_hex};
use units::{
    category_label, category_name, conversion_of, convert, units_of, Category, Conversion, Unit,
    CATEGORIES,
};

verus! {

#[derive(Clone, Copy, PartialEq, Eq, Structural, Debug)]
pub enum ToolKind {
    ColorPicker,
    UnitConverter,
}

/// The size of a tool's window, in pixels.
pub fn window_size(kind: ToolKind) -> (r: (u32, u32))
    ensures
        r == match kind {
            ToolKind::ColorPicker => (300u32, 540u32),
            ToolKind::UnitConverter => (380u32, 440u32),
        },
{
    match kind {
        ToolKind::ColorPicker => (300, 540),
        ToolKind::UnitConverter => (380, 440),
    }
}

/// The title of a tool's window.
pub fn title(kind: ToolKind, strings: &Strings) -> (r: &'static str)
    ensures
        r == match kind {
            ToolKind::ColorPicker => strings.tool_color_picker,
            ToolKind::UnitConverter => strings.tool_unit_converter,
        },
{
    match kind {
        ToolKind::ColorPicker => strings.tool_color_picker,
        ToolKind::UnitConverter => strings.tool_unit_converter,
    }
}

/// The color that the picker starts with.
pub const INITIAL_COLOR: (u8, u8, u8) = (0xF2, 0xA9, 0x3B);

/// What a mouse move drags.
#[derive(Clone, Copy, PartialEq, Eq, Structural, Debug)]
pub enum Drag {
    Nothing,
    /// The point in the square of saturation and value.
    SatVal,
    /// The mark on the hue bar.
    Hue,
}

/// What a tick of the eyedropper saw.
#[derive(Clone, Copy, PartialEq, Eq, Structural, Debug)]
pub struct Tick {
    /// The state of the Escape key, as the system reports it.
    pub escape: u16,
    /// The state of the Enter key.
    pub enter: u16,
    /// The pixel under the cursor, where it could be read.
    pub pixel: Option<u32>,
}

/// What a tick of the eyedropper does.
#[derive(Clone, Copy, Debug)]
pub struct TickOutcome {
    /// The color to take over.
    pub color: Option<(u8, u8, u8)>,
    /// Another tick follows.
    pub keep: bool,
}

/// A key is down: the top bit of its state is set.
pub open spec fn is_down(state: u16) -> bool {
    state >= 0x8000
}

/// Whether a key is down.
pub fn key_down(state: u16) -> (r: bool)
    ensures
        r == is_down(state),
        r == (state & 0x8000 != 0),
{
    assert((state >= 0x8000) == (state & 0x8000 != 0)) by (bit_vector);
    state & 0x8000 != 0
}

/// One choice among several.
#[derive(Clone, Copy, Debug)]
pub struct Chip {
    pub label: &'static str,
    pub selected: bool,
}

/// What the unit converter shows.
#[derive(Debug)]
pub struct UnitsTab {
    pub categories: Vec<Chip>,
    pub from: Vec<Chip>,
    pub to: Vec<Chip>,
    pub conversion: Option<Conversion>,
}

/// What the color picker shows of a color.
#[derive(Debug)]
pub struct ColorTab {
    /// The swatch, as `0xRRGGBBAA`.
    pub swatch: u32,
    pub hex: String,
    pub rgb: String,
    /// How to use the eyedropper, while it is in use.
    pub hint: Option<&'static str>,
    pub label_rgb: &'static str,
    pub label_hsl: &'static str,
}

/// What the tools window holds.
pub struct ToolsState {
    pub kind: ToolKind,
    pub hex: InputState,
    pub picking: bool,
    pub confirm_was_down: bool,
    pub sv_dragging: bool,
    pub hue_dragging: bool,
    pub category: usize,
    pub from: usize,
    pub to: usize,
    pub input: InputState,
}

/// The category at an index.
pub open spec fn category_at(i: int) -> Category {
    CATEGORIES@[i]
}

impl ToolsState {
    /// The chosen units exist.
    pub open spec fn wf(self) -> bool {
        &&& self.category < 8
        &&& self.from < units_of(category_at(self.category as int)).len()
        &&& self.to < units_of(category_at(self.category as int)).len()
    }

    /// What the mouse drags.
    pub open spec fn drag(self) -> Drag {
        if self.sv_dragging {
            Drag::SatVal
        } else if self.hue_dragging {
            Drag::Hue
        } else {
            Drag::Nothing
        }
    }

    /// The first two units of another category.
    pub open spec fn with_category(self, i: usize) -> ToolsState {
        ToolsState { category: i, from: 0, to: 1, ..self }
    }

    /// The state after the eyedropper was started.
    pub open spec fn started(self) -> ToolsState {
        if self.picking {
            self
        } else {
            ToolsState { picking: true, confirm_was_down: true, ..self }
        }
    }

    /// The state after a tick. Enter counts only at the moment at which it goes
    /// down, not while it is held.
    pub open spec fn ticked(self, tick: Tick) -> ToolsState {
        if !self.picking {
            self
        } else if is_down(tick.escape) {
            ToolsState { picking: false, ..self }
        } else {
            ToolsState {
                picking: !(is_down(tick.enter) && !self.confirm_was_down),
                confirm_was_down: is_down(tick.enter),
                ..self
            }
        }
    }

    /// The state after ticks.
    pub open spec fn ticked_by(self, ticks: Seq<Tick>) -> ToolsState
        decreases ticks.len(),
    {
        if ticks.len() == 0 {
            self
        } else {
            self.ticked_by(ticks.drop_last()).ticked(ticks.last())
        }
    }

    /// The color that a tick takes over.
    pub open spec fn sampled(self, tick: Tick) -> Option<(u8, u8, u8)> {
        if !self.picking || is_down(tick.escape) {
            None
        } else {
            match tick.pixel {
                Some(p) => pixel(p),
                None => None,
            }
        }
    }
}

/// The tools window.
pub struct ToolsWindow {
    pub kind: ToolKind,
    pub hex_input: TextInput,
    pub picking_color: bool,
    pub eyedropper_prev_confirm_key: bool,
    pub sv_dragging: bool,
    pub hue_dragging: bool,
    pub unit_category: usize,
    pub unit_from: usize,
    pub unit_to: usize,
    pub unit_input: TextInput,
}

impl View for ToolsWindow {
    type V = ToolsState;

    open spec fn view(&self) -> ToolsState {
        ToolsState {
            kind: self.kind,
            hex: self.hex_input@,
            picking: self.picking_color,
            confirm_was_down: self.eyedropper_prev_confirm_key,
            sv_dragging: self.sv_dragging,
            hue_dragging: self.hue_dragging,
            category: self.unit_category,
            from: self.unit_from,
            to: self.unit_to,
            input: self.unit_input@,
        }
    }
}

/// A field that holds a text, with the caret behind it.
pub open spec fn fresh_input(text: Seq<char>) -> InputState {
    InputState {
        text,
        placeholder: ""@,
        selection: caret(byte_len(text) as int),
        reversed: false,
        marked: None,
        selecting: false,
    }
}

/// The choices among categories.
pub open spec fn category_chips(strings: Strings, selected: usize) -> Seq<Chip> {
    Seq::new(
        8,
        |i: int| Chip { label: category_name(category_at(i), strings), selected: i == selected },
    )
}

/// The choices among units.
pub open spec fn unit_chips(units: Seq<Unit>, selected: usize) -> Seq<Chip> {
    Seq::new(units.len(), |i: int| Chip { label: units[i].symbol, selected: i == selected })
}

fn chips_of_units(units: &Vec<Unit>, selected: usize) -> (r: Vec<Chip>)
    ensures
        r@ == unit_chips(units@, selected),
{
    let mut r: Vec<Chip> = Vec::new();
    let mut i: usize = 0;
    while i < units.len()
        invariant
            i <= units@.len(),
            r@.len() == i,
            forall|j: int| 0 <= j < i ==> r@[j] == unit_chips(units@, selected)[j],
        decreases units@.len() - i,
    {
        r.push(Chip { label: units[i].symbol, selected: i == selected });
        i += 1;
    }
    assert(r@ =~= unit_chips(units@, selected));
    r
}

impl ToolsWindow {
    pub fn new(kind: ToolKind) -> (r: Self)
        ensures
            r@ == (ToolsState {
                kind,
                hex: fresh_input(hex_text(INITIAL_COLOR.0, INITIAL_COLOR.1, INITIAL_COLOR.2)),
                picking: false,
                confirm_was_down: false,
                sv_dragging: false,
                hue_dragging: false,
                category: 0,
                from: 0,
                to: 1,
                input: fresh_input("1"@),
            }),
            r@.wf(),
    {
        let (red, green, blue) = INITIAL_COLOR;
        let hex = to_hex(red, green, blue);
        ToolsWindow {
            kind,
            hex_input: TextInput::new(hex.as_str(), ""),
            picking_color: false,
            eyedropper_prev_confirm_key: false,
            sv_dragging: false,
            hue_dragging: false,
            unit_category: 0,
            unit_from: 0,
            unit_to: 1,
            unit_input: TextInput::new("1", ""),
        }
    }

    /// Which tool shows.
    pub fn kind(&self) -> (r: ToolKind)
        ensures
            r == self@.kind,
    {
        self.kind
    }

    /// Shows the other tool in the same window.
    pub fn switch_to(&mut self, kind: ToolKind)
        ensures
            final(self)@ == (ToolsState { kind, ..old(self)@ }),
    {
        self.kind = kind;
    }

    /// The color to take over after the user edited the text of the color.
    pub fn on_hex_edited(&self) -> (r: Option<(u8, u8, u8)>)
        ensures
            r == hex_color(self@.hex.text),
    {
        parse_hex(self.hex_input.text())
    }

    /// Shows a color as text, without treating that as an edit.
    pub fn sync_hex(&mut self, r: u8, g: u8, b: u8)
        ensures
            final(self)@ == (ToolsState {
                hex: old(self)@.hex.with_text(hex_text(r, g, b)),
                ..old(self)@
            }),
    {
        let hex = to_hex(r, g, b);
        self.hex_input.set_text_silent(hex.as_str());
    }

    pub fn on_sv_mouse_down(&mut self)
        ensures
            final(self)@ == (ToolsState { sv_dragging: true, ..old(self)@ }),
    {
        self.sv_dragging = true;
    }

    pub fn on_hue_mouse_down(&mut self)
        ensures
            final(self)@ == (ToolsState { hue_dragging: true, ..old(self)@ }),
    {
        self.hue_dragging = true;
    }

    /// What a mouse move anywhere in the window drags.
    pub fn on_root_mouse_move(&self) -> (r: Drag)
        ensures
            r == self@.drag(),
    {
        if self.sv_dragging {
            Drag::SatVal
        } else if self.hue_dragging {
            Drag::Hue
        } else {
            Drag::Nothing
        }
    }

    /// Ends a drag; tells whether there was one.
    pub fn on_root_mouse_up(&mut self) -> (r: bool)
        ensures
            r == (old(self)@.drag() != Drag::Nothing),
            final(self)@ == (ToolsState {
                sv_dragging: false,
                hue_dragging: false,
                ..old(self)@
            }),
    {
        let dragging = self.sv_dragging || self.hue_dragging;
        self.sv_dragging = false;
        self.hue_dragging = false;
        dragging
    }

    /// Starts the eyedropper; tells whether ticks have to be started, too. Enter counts
    /// as down at first, so that the press that started the eyedropper does not end it.
    pub fn start_eyedropper(&mut self) -> (r: bool)
        ensures
            r == !old(self)@.picking,
            final(self)@ == old(self)@.started(),
    {
        if self.picking_color {
            return false;
        }
        self.picking_color = true;
        self.eyedropper_prev_confirm_key = true;
        true
    }

    /// One tick of the eyedropper.
    pub fn poll_eyedropper(&mut self, tick: Tick) -> (r: TickOutcome)
        ensures
            final(self)@ == old(self)@.ticked(tick),
            r.color == old(self)@.sampled(tick),
            r.keep == final(self)@.picking,
    {
        if !self.picking_color {
            return TickOutcome { color: None, keep: false };
        }
        if key_down(tick.escape) {
            self.picking_color = false;
            return TickOutcome { color: None, keep: false };
        }
        let color = match tick.pixel {
            Some(p) => pixel_color(p),
            None => None,
        };
        let confirm_down = key_down(tick.enter);
        if confirm_down && !self.eyedropper_prev_confirm_key {
            self.picking_color = false;
        }
        self.eyedropper_prev_confirm_key = confirm_down;
        TickOutcome { color, keep: self.picking_color }
    }

    /// What the color picker shows of a color.
    pub fn color_tab(&self, r: u8, g: u8, b: u8, strings: &Strings) -> (tab: ColorTab)
        ensures
            tab.swatch == r * 0x100_0000 + g * 0x1_0000 + b * 0x100 + 0xFF,
            tab.hex@ == hex_text(r, g, b),
            tab.rgb@ == rgb_line(r, g, b),
            tab.hint == if self@.picking {
                Some(strings.eyedropper_hint)
            } else {
                None
            },
            tab.label_rgb == strings.label_rgb,
            tab.label_hsl == strings.label_hsl,
    {
        ColorTab {
            swatch: pack_opaque(r, g, b),
            hex: to_hex(r, g, b),
            rgb: rgb_text(r, g, b),
            hint: if self.picking_color {
                Some(strings.eyedropper_hint)
            } else {
                None
            },
            label_rgb: strings.label_rgb,
            label_hsl: strings.label_hsl,
        }
    }

    /// Chooses a category, and its first two units.
    pub fn select_category(&mut self, i: usize)
        requires
            i < 8,
        ensures
            final(self)@ == old(self)@.with_category(i),
            final(self)@.wf(),
    {
        self.unit_category = i;
        self.unit_from = 0;
        let n: usize = CATEGORIES[i].units().len();
        proof {
            units::law_units_are_usable(category_at(i as int));
        }
        self.unit_to = if n > 1 {
            1
        } else {
            0
        };
    }

    pub fn select_from(&mut self, i: usize)
        requires
            i < units_of(category_at(old(self)@.category as int)).len(),
        ensures
            final(self)@ == (ToolsState { from: i, ..old(self)@ }),
            old(self)@.wf() ==> final(self)@.wf(),
    {
        self.unit_from = i;
    }

    pub fn select_to(&mut self, i: usize)
        requires
            i < units_of(category_at(old(self)@.category as int)).len(),
        ensures
            final(self)@ == (ToolsState { to: i, ..old(self)@ }),
            old(self)@.wf() ==> final(self)@.wf(),
    {
        self.unit_to = i;
    }

    /// What the unit converter shows.
    pub fn units_tab(&self, strings: &Strings) -> (tab: UnitsTab)
        requires
            self@.wf(),
        ensures
            tab.categories@ == category_chips(*strings, self@.category),
            tab.from@ == unit_chips(units_of(category_at(self@.category as int)), self@.from),
            tab.to@ == unit_chips(units_of(category_at(self@.category as int)), self@.to),
            tab.conversion == conversion_of(
                category_at(self@.category as int),
                self@.from as int,
                self@.to as int,
            ),
            tab.conversion is Some,
    {
        let mut categories: Vec<Chip> = Vec::new();
        let mut i: usize = 0;
        while i < 8
            invariant
                i <= 8,
                categories@.len() == i,
                forall|j: int|
                    0 <= j < i ==> categories@[j] == category_chips(
                        *strings,
                        self.unit_category,
                    )[j],
            decreases 8 - i,
        {
            categories.push(
                Chip {
                    label: category_label(CATEGORIES[i], strings),
                    selected: i == self.unit_category,
                },
            );
            i += 1;
        }
        assert(categories@ =~= category_chips(*strings, self.unit_category));
        let category = CATEGORIES[self.unit_category];
        let units = category.units();
        UnitsTab {
            categories,
            from: chips_of_units(&units, self.unit_from),
            to: chips_of_units(&units, self.unit_to),
            conversion: convert(category, self.unit_from, self.unit_to),
        }
    }
}

/// A tick at which only Enter is down.
pub open spec fn confirms(tick: Tick) -> bool {
    !is_down(tick.escape) && is_down(tick.enter)
}

/// A tick at which neither Enter nor Escape is down.
pub open spec fn waits(tick: Tick) -> bool {
    !is_down(tick.escape) && !is_down(tick.enter)
}

/// Enter that is held on, or not pressed at all, does not end the eyedropper.
proof fn lemma_enter_stays(s: ToolsState, ticks: Seq<Tick>, down: bool)
    requires
        s.picking,
        down ==> s.confirm_was_down,
        forall|i: int|
            0 <= i < ticks.len() ==> if down {
                confirms(#[trigger] ticks[i])
            } else {
                waits(ticks[i])
            },
    ensures
        s.ticked_by(ticks).picking,
        ticks.len() > 0 || down ==> s.ticked_by(ticks).confirm_was_down == down,
    decreases ticks.len(),
{
    if ticks.len() > 0 {
        assert forall|i: int| 0 <= i < ticks.len() - 1 implies ticks.drop_last()[i] == ticks[i] by {
        }
        lemma_enter_stays(s, ticks.drop_last(), down);
        let last = ticks[ticks.len() - 1];
        assert(if down { confirms(last) } else { waits(last) });
    }
}

/// Enter that is held since the eyedropper was started does not end it, however many
/// ticks see it down. Once a tick has seen Enter up, the next press ends the eyedropper.
pub proof fn law_enter_held_from_the_start(
    s: ToolsState,
    held: Seq<Tick>,
    released: Seq<Tick>,
    pressed: Tick,
)
    requires
        !s.picking,
        forall|i: int| 0 <= i < held.len() ==> confirms(#[trigger] held[i]),
        released.len() > 0,
        forall|i: int| 0 <= i < released.len() ==> waits(#[trigger] released[i]),
        confirms(pressed),
    ensures
        s.started().ticked_by(held).picking,
        s.started().ticked_by(held).ticked_by(released).picking,
        !s.started().ticked_by(held).ticked_by(released).ticked(pressed).picking,
{
    lemma_enter_stays(s.started(), held, true);
    lemma_enter_stays(s.started().ticked_by(held), released, false);
}

/// Enter ends the eyedropper exactly at the tick that sees it go down.
pub proof fn law_enter_confirms_on_press(s: ToolsState, tick: Tick)
    requires
        s.picking,
        !is_down(tick.escape),
    ensures
        s.ticked(tick).picking == !(is_down(tick.enter) && !s.confirm_was_down),
        s.ticked(tick).confirm_was_down == is_down(tick.enter),
{
}

/// Escape ends the eyedropper at once, and takes no color over.
pub proof fn law_escape_cancels(s: ToolsState, tick: Tick)
    requires
        is_down(tick.escape),
    ensures
        !s.ticked(tick).picking,
        s.sampled(tick) is None,
{
}

/// What the window shows of a color is read back as that color.
pub proof fn law_synced_text_is_the_color(s: ToolsState, r: u8, g: u8, b: u8)
    ensures
        hex_color(s.hex.with_text(hex_text(r, g, b)).text) == Some((r, g, b)),
{
    color::law_hex_round_trip(r, g, b);
}

/// While the eyedropper picks, a tick takes over the color under the cursor, unless Escape
/// is down or the pixel cannot be read; otherwise it takes none.
pub proof fn law_ticks_take_the_color(s: ToolsState, tick: Tick, r: u8, g: u8, b: u8)
    ensures
        !s.picking ==> s.sampled(tick) is None && s.ticked(tick) == s,
        s.picking && tick.escape < 0x8000 && tick.pixel == Some(
            (b * 0x1_0000 + g * 0x100 + r) as u32,
        ) ==> s.sampled(tick) == Some((r, g, b)),
        tick.pixel is None || tick.pixel == Some(0xFFFF_FFFFu32) ==> s.sampled(tick) is None,
        tick.escape >= 0x8000 ==> s.sampled(tick) is None && !s.ticked(tick).picking,
        s.picking && tick.escape < 0x8000 && tick.enter < 0x8000 ==> s.ticked(tick).picking
            && !s.ticked(tick).confirm_was_down,
        s.ticked(tick).hex == s.hex,
        s.ticked(tick).kind == s.kind,
{
    color::law_pixels_are_read(r, g, b);
}

/// The categories are offered in their order and by their own names, and the chosen one is
/// marked; so are the units of the category, by their symbols.
pub proof fn law_choices_are_offered(strings: Strings, selected: usize, units: Seq<Unit>, i: int)
    ensures
        category_chips(strings, selected).len() == 8,
        0 <= i < 8 ==> category_chips(strings, selected)[i].selected == (i == selected),
        category_at(0) == Category::Length && category_chips(strings, selected)[0].label
            == strings.unit_length,
        category_at(1) == Category::Mass && category_chips(strings, selected)[1].label
            == strings.unit_mass,
        category_at(2) == Category::Temperature && category_chips(strings, selected)[2].label
            == strings.unit_temperature,
        category_at(3) == Category::Area && category_chips(strings, selected)[3].label
            == strings.unit_area,
        category_at(4) == Category::Volume && category_chips(strings, selected)[4].label
            == strings.unit_volume,
        category_at(5) == Category::Speed && category_chips(strings, selected)[5].label
            == strings.unit_speed,
        category_at(6) == Category::Time && category_chips(strings, selected)[6].label
            == strings.unit_time,
        category_at(7) == Category::Data && category_chips(strings, selected)[7].label
            == strings.unit_data,
        unit_chips(units, selected).len() == units.len(),
        0 <= i < units.len() ==> unit_chips(units, selected)[i].label == units[i].symbol
            && unit_chips(units, selected)[i].selected == (i == selected),
{
}

/// Another category starts with its first two units, and keeps the number that was typed.
/// The mouse drags what it took hold of.
pub proof fn law_category_starts_over(s: ToolsState, i: usize)
    requires
        i < 8,
    ensures
        s.with_category(i).category == i,
        s.with_category(i).from == 0,
        s.with_category(i).to == 1,
        s.with_category(i).input == s.input,
        s.with_category(i).hex == s.hex,
        s.with_category(i).wf(),
        s.drag() == Drag::SatVal <==> s.sv_dragging,
        s.drag() == Drag::Hue <==> s.hue_dragging && !s.sv_dragging,
{
    units::law_units_are_usable(category_at(i as int));
}

/// A field that was filled holds the text, with the caret behind it and nothing selected.
pub proof fn law_filled_field(text: Seq<char>)
    requires
        byte_len(text) <= usize::MAX,
    ensures
        fresh_input(text).text == text,
        fresh_input(text).cursor() == byte_len(text),
        fresh_input(text).selected_text() is None,
        fresh_input(text).marked is None,
        !fresh_input(text).selecting,
{
}

/// The window is what its fields hold.
pub proof fn law_tools_window_is_its_fields(w: ToolsWindow)
    ensures
        w@.kind == w.kind,
        w@.hex == w.hex_input@,
        w@.picking == w.picking_color,
        w@.confirm_was_down == w.eyedropper_prev_confirm_key,
        w@.sv_dragging == w.sv_dragging,
        w@.hue_dragging == w.hue_dragging,
        w@.category == w.unit_category,
        w@.from == w.unit_from,
        w@.to == w.unit_to,
        w@.input == w.unit_input@,
{
}

/// The picker starts with an orange.
pub proof fn law_initial_color()
    ensures
        INITIAL_COLOR == (0xF2u8, 0xA9u8, 0x3Bu8),
{
}

} // verus!
