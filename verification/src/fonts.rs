//! Typefaces.

use vstd::prelude::*;

use crate::config::UiFont;

verus! {

/// The family name of a typeface.
pub open spec fn font_family(font: UiFont) -> &'static str {
    match font {
        UiFont::SegoeUi => "Segoe UI",
        UiFont::YuGothic => "Yu Gothic",
        UiFont::Meiryo => "Meiryo",
    }
}

/// The family name of a typeface.
pub fn ui_font_family(font: UiFont) -> (r: &'static str)
    ensures
        r == font_family(font),
{
    match font {
        UiFont::SegoeUi => "Segoe UI",
        UiFont::YuGothic => "Yu Gothic",
        UiFont::Meiryo => "Meiryo",
    }
}

/// Every typeface has a family of its own.
pub proof fn law_fonts_have_their_families()
    ensures
        font_family(UiFont::SegoeUi)@ == "Segoe UI"@,
        font_family(UiFont::YuGothic)@ == "Yu Gothic"@,
        font_family(UiFont::Meiryo)@ == "Meiryo"@,
{
}

} // verus!
