//! The About window.

use vstd::prelude::*;

use crate::config::{Theme, UiFont, APP_NAME};
use crate::fonts::{font_family, ui_font_family};
use crate::i18n::{about_version, about_version_text, lang_of, Strings};
use crate::ui_chrome::{is_dark, resolve_dark, WindowAppearance};

verus! {

/// The size of the window, in pixels.
pub const WINDOW_SIZE: (u32, u32) = (320, 160);

/// Where the window opens, in pixels.
pub const WINDOW_ORIGIN: (u32, u32) = (100, 100);

/// The About window, with the settings of the moment when it was opened.
#[derive(Clone, Copy)]
pub struct AboutWindow {
    pub strings: Strings,
    pub theme: Theme,
    pub ui_font: UiFont,
    pub font_scale_bits: u32,
}

/// What opening the window takes.
#[derive(Clone, Copy, PartialEq, Eq, Structural, Debug)]
pub enum OpenStep {
    /// The window that is open already comes to the front.
    Activated,
    /// A window has to be made.
    Create,
}

/// Decides how the window is opened. `activated` tells whether a window from
/// before could be brought to the front, or that there was none.
pub fn open(activated: Option<bool>) -> (r: OpenStep)
    ensures
        r == if activated == Some(true) {
            OpenStep::Activated
        } else {
            OpenStep::Create
        },
{
    match activated {
        Some(true) => OpenStep::Activated,
        _ => OpenStep::Create,
    }
}

/// What the window shows.
#[derive(Debug)]
pub struct AboutView {
    pub title: &'static str,
    pub name: &'static str,
    pub version: String,
    pub dark: bool,
    pub font_family: &'static str,
}

impl AboutWindow {
    /// What the window shows, for the version of the launcher and the system's
    /// appearance.
    pub fn render(&self, version: &str, appearance: WindowAppearance) -> (r: AboutView)
        ensures
            r.title == self.strings.about_title,
            r.name == APP_NAME,
            r.version@ == about_version(self.strings.lang, version@),
            r.dark == is_dark(self.theme, appearance),
            r.font_family == font_family(self.ui_font),
    {
        AboutView {
            title: self.strings.about_title,
            name: APP_NAME,
            version: about_version_text(lang_of(&self.strings), version),
            dark: resolve_dark(self.theme, appearance),
            font_family: ui_font_family(self.ui_font),
        }
    }
}

/// Where the window opens, and how large it is.
pub proof fn law_window_bounds()
    ensures
        WINDOW_SIZE == (320u32, 160u32),
        WINDOW_ORIGIN == (100u32, 100u32),
{
}

} // verus!
