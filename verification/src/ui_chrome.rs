//! The colors of the windows, as `0xRRGGBBAA`.

use vstd::prelude::*;

use crate::config::{AccentColor, Theme};

verus! {

/// The look that the system gives a window.
#[derive(Clone, Copy, PartialEq, Eq, Structural, Debug)]
pub enum WindowAppearance {
    Light,
    VibrantLight,
    Dark,
    VibrantDark,
}

/// Light and dark are what they say; the system theme follows the window.
pub open spec fn is_dark(theme: Theme, appearance: WindowAppearance) -> bool {
    match theme {
        Theme::Light => false,
        Theme::Dark => true,
        Theme::System => appearance == WindowAppearance::Dark || appearance
            == WindowAppearance::VibrantDark,
    }
}

/// Whether a window is painted dark.
pub fn resolve_dark(theme: Theme, appearance: WindowAppearance) -> (r: bool)
    ensures
        r == is_dark(theme, appearance),
{
    match theme {
        Theme::Light => false,
        Theme::Dark => true,
        Theme::System => appearance == WindowAppearance::Dark || appearance
            == WindowAppearance::VibrantDark,
    }
}

/// The color of an accent.
pub open spec fn accent_value(accent: AccentColor) -> u32 {
    match accent {
        AccentColor::Lime => 0xC4F252FF,
        AccentColor::Red => 0xFF746EFF,
        AccentColor::Orange => 0xFFA63DFF,
        AccentColor::Blue => 0x6CC3FFFF,
        AccentColor::Purple => 0xD798FFFF,
    }
}

pub fn accent_color(accent: AccentColor) -> (r: u32)
    ensures
        r == accent_value(accent),
{
    match accent {
        AccentColor::Lime => 0xC4F252FF,
        AccentColor::Red => 0xFF746EFF,
        AccentColor::Orange => 0xFFA63DFF,
        AccentColor::Blue => 0x6CC3FFFF,
        AccentColor::Purple => 0xD798FFFF,
    }
}

/// The colors of a glass panel.
#[derive(Clone, Copy, PartialEq, Eq, Structural, Debug)]
pub struct GlassPalette {
    pub panel_bg: u32,
    pub border: u32,
    pub text: u32,
    pub subtext: u32,
    pub divider: u32,
    pub control_bg: u32,
    pub control_border: u32,
}

/// The colors of a dark or a light panel.
pub open spec fn palette_of(dark: bool) -> GlassPalette {
    if dark {
        GlassPalette {
            panel_bg: 0x12141A96,
            border: 0xFFFFFF24,
            text: 0xF2F4F7FF,
            subtext: 0xFFFFFF8F,
            divider: 0xFFFFFF1A,
            control_bg: 0xFFFFFF0F,
            control_border: 0xFFFFFF1E,
        }
    } else {
        GlassPalette {
            panel_bg: 0xFAFAFCC3,
            border: 0x00000012,
            text: 0x1E2024FF,
            subtext: 0x000000A0,
            divider: 0x00000012,
            control_bg: 0x0000000A,
            control_border: 0x0000001A,
        }
    }
}

pub fn palette(dark: bool) -> (r: GlassPalette)
    ensures
        r == palette_of(dark),
{
    if dark {
        GlassPalette {
            panel_bg: 0x12141A96,
            border: 0xFFFFFF24,
            text: 0xF2F4F7FF,
            subtext: 0xFFFFFF8F,
            divider: 0xFFFFFF1A,
            control_bg: 0xFFFFFF0F,
            control_border: 0xFFFFFF1E,
        }
    } else {
        GlassPalette {
            panel_bg: 0xFAFAFCC3,
            border: 0x00000012,
            text: 0x1E2024FF,
            subtext: 0x000000A0,
            divider: 0x00000012,
            control_bg: 0x0000000A,
            control_border: 0x0000001A,
        }
    }
}

/// The panel background without its translucency.
pub fn opaque_panel_bg(dark: bool) -> (r: u32)
    ensures
        r == opaque_background(dark),
{
    if dark {
        0x12141AFF
    } else {
        0xFAFAFCFF
    }
}

pub open spec fn opaque_background(dark: bool) -> u32 {
    if dark {
        0x12141AFF
    } else {
        0xFAFAFCFF
    }
}

/// The opaque background has the hue of the panel background, and full alpha.
pub proof fn law_opaque_panel_keeps_hue(dark: bool)
    ensures
        opaque_background(dark) / 0x100 == palette_of(dark).panel_bg / 0x100,
        opaque_background(dark) % 0x100 == 0xFF,
{
}

/// The light and the dark theme do not depend on the system; the system theme is dark
/// exactly where the system is.
pub proof fn law_theme_decides(appearance: WindowAppearance)
    ensures
        !is_dark(Theme::Light, appearance),
        is_dark(Theme::Dark, appearance),
        !is_dark(Theme::System, WindowAppearance::Light),
        !is_dark(Theme::System, WindowAppearance::VibrantLight),
        is_dark(Theme::System, WindowAppearance::Dark),
        is_dark(Theme::System, WindowAppearance::VibrantDark),
{
}

/// The red, green and blue parts and the opacity of a color.
pub open spec fn parts_of(color: u32) -> (int, int, int, int) {
    (
        color as int / 0x100_0000,
        color as int / 0x1_0000 % 0x100,
        color as int / 0x100 % 0x100,
        color as int % 0x100,
    )
}

/// The accents have the colors of their names, and are opaque.
pub proof fn law_accents_have_their_colors()
    ensures
        parts_of(accent_value(AccentColor::Lime)) == (0xC4int, 0xF2int, 0x52int, 0xFFint),
        parts_of(accent_value(AccentColor::Red)) == (0xFFint, 0x74int, 0x6Eint, 0xFFint),
        parts_of(accent_value(AccentColor::Orange)) == (0xFFint, 0xA6int, 0x3Dint, 0xFFint),
        parts_of(accent_value(AccentColor::Blue)) == (0x6Cint, 0xC3int, 0xFFint, 0xFFint),
        parts_of(accent_value(AccentColor::Purple)) == (0xD7int, 0x98int, 0xFFint, 0xFFint),
{
}

/// Dark panels have light text and light borders, light panels the other way round. Text
/// is opaque; everything else lets the background through.
pub proof fn law_palettes_contrast()
    ensures
        ({
            let (dark, light) = (palette_of(true), palette_of(false));
            let (p, t) = (parts_of(dark.panel_bg), parts_of(dark.text));
            let (q, u) = (parts_of(light.panel_bg), parts_of(light.text));
            &&& p == (0x12int, 0x14int, 0x1Aint, 0x96int)
            &&& t == (0xF2int, 0xF4int, 0xF7int, 0xFFint)
            &&& q == (0xFAint, 0xFAint, 0xFCint, 0xC3int)
            &&& u == (0x1Eint, 0x20int, 0x24int, 0xFFint)
            &&& parts_of(dark.border) == (0xFFint, 0xFFint, 0xFFint, 0x24int)
            &&& parts_of(dark.subtext) == (0xFFint, 0xFFint, 0xFFint, 0x8Fint)
            &&& parts_of(dark.divider) == (0xFFint, 0xFFint, 0xFFint, 0x1Aint)
            &&& parts_of(dark.control_bg) == (0xFFint, 0xFFint, 0xFFint, 0x0Fint)
            &&& parts_of(dark.control_border) == (0xFFint, 0xFFint, 0xFFint, 0x1Eint)
            &&& parts_of(light.border) == (0int, 0int, 0int, 0x12int)
            &&& parts_of(light.subtext) == (0int, 0int, 0int, 0xA0int)
            &&& parts_of(light.divider) == (0int, 0int, 0int, 0x12int)
            &&& parts_of(light.control_bg) == (0int, 0int, 0int, 0x0Aint)
            &&& parts_of(light.control_border) == (0int, 0int, 0int, 0x1Aint)
        }),
{
}

} // verus!
