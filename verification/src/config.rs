//! What the user can set.

use vstd::prelude::*;

use crate::text::{copy_strings, texts};

verus! {

pub const APP_NAME: &'static str = "Issen";

#[derive(Clone, Copy, PartialEq, Eq, Structural, Debug)]
pub enum Theme {
    Light,
    Dark,
    System,
}

/// The accent color, whatever the theme.
#[derive(Clone, Copy, PartialEq, Eq, Structural, Debug)]
pub enum AccentColor {
    Lime,
    Red,
    Orange,
    Blue,
    Purple,
}

/// Which display the search window shows on.
#[derive(Clone, Copy, PartialEq, Eq, Structural, Debug)]
pub enum DisplayTarget {
    Cursor,
    Primary,
    FocusedWindow,
}

/// The Latin typeface of the user interface: one that Windows always ships.
#[derive(Clone, Copy, PartialEq, Eq, Structural, Debug)]
pub enum UiFont {
    SegoeUi,
    YuGothic,
    Meiryo,
}

/// The display language. `System` follows the display language of Windows.
#[derive(Clone, Copy, PartialEq, Eq, Structural, Debug)]
pub enum Language {
    System,
    En,
    Ja,
}

/// A command name that stands for a launch target.
#[derive(Debug)]
pub struct AliasEntry {
    pub name: String,
    pub target: String,
    pub args: String,
}

pub struct AliasView {
    pub name: Seq<char>,
    pub target: Seq<char>,
    pub args: Seq<char>,
}

impl View for AliasEntry {
    type V = AliasView;

    open spec fn view(&self) -> AliasView {
        AliasView { name: self.name@, target: self.target@, args: self.args@ }
    }
}

/// A Windows settings page that the user added to the built-in ones.
#[derive(Debug)]
pub struct WindowsShortcutEntry {
    pub label: String,
    pub uri: String,
}

pub struct ShortcutView {
    pub label: Seq<char>,
    pub uri: Seq<char>,
}

impl View for WindowsShortcutEntry {
    type V = ShortcutView;

    open spec fn view(&self) -> ShortcutView {
        ShortcutView { label: self.label@, uri: self.uri@ }
    }
}

/// The settings.
#[derive(Debug)]
pub struct Config {
    pub hotkey: String,
    pub autostart: bool,
    pub max_results: u32,
    pub theme: Theme,
    pub accent_color: AccentColor,
    /// The font size multiplier, as the bits of a 32-bit IEEE 754 number.
    pub font_scale_bits: u32,
    pub language: Language,
    pub display_target: DisplayTarget,
    pub everything_enabled: bool,
    pub index_folders: Vec<String>,
    pub exclude_patterns: Vec<String>,
    pub aliases: Vec<AliasEntry>,
    pub custom_windows_shortcuts: Vec<WindowsShortcutEntry>,
    pub ui_font: UiFont,
}

#[verifier::ext_equal]
pub struct ConfigView {
    pub hotkey: Seq<char>,
    pub autostart: bool,
    pub max_results: u32,
    pub theme: Theme,
    pub accent_color: AccentColor,
    pub font_scale_bits: u32,
    pub language: Language,
    pub display_target: DisplayTarget,
    pub everything_enabled: bool,
    pub index_folders: Seq<Seq<char>>,
    pub exclude_patterns: Seq<Seq<char>>,
    pub aliases: Seq<AliasView>,
    pub custom_windows_shortcuts: Seq<ShortcutView>,
    pub ui_font: UiFont,
}

pub open spec fn alias_views(aliases: Seq<AliasEntry>) -> Seq<AliasView> {
    aliases.map_values(|a: AliasEntry| a@)
}

pub open spec fn shortcut_views(shortcuts: Seq<WindowsShortcutEntry>) -> Seq<ShortcutView> {
    shortcuts.map_values(|s: WindowsShortcutEntry| s@)
}

impl View for Config {
    type V = ConfigView;

    open spec fn view(&self) -> ConfigView {
        ConfigView {
            hotkey: self.hotkey@,
            autostart: self.autostart,
            max_results: self.max_results,
            theme: self.theme,
            accent_color: self.accent_color,
            font_scale_bits: self.font_scale_bits,
            language: self.language,
            display_target: self.display_target,
            everything_enabled: self.everything_enabled,
            index_folders: texts(self.index_folders@),
            exclude_patterns: texts(self.exclude_patterns@),
            aliases: alias_views(self.aliases@),
            custom_windows_shortcuts: shortcut_views(self.custom_windows_shortcuts@),
            ui_font: self.ui_font,
        }
    }
}

impl Clone for AliasEntry {
    fn clone(&self) -> (r: Self)
        ensures
            r == *self,
    {
        AliasEntry {
            name: self.name.clone(),
            target: self.target.clone(),
            args: self.args.clone(),
        }
    }
}

impl Clone for WindowsShortcutEntry {
    fn clone(&self) -> (r: Self)
        ensures
            r == *self,
    {
        WindowsShortcutEntry { label: self.label.clone(), uri: self.uri.clone() }
    }
}

fn copy_aliases(v: &Vec<AliasEntry>) -> (r: Vec<AliasEntry>)
    ensures
        r@ == v@,
{
    let mut r: Vec<AliasEntry> = Vec::new();
    let mut i: usize = 0;
    while i < v.len()
        invariant
            i <= v@.len(),
            r@ == v@.take(i as int),
        decreases v@.len() - i,
    {
        r.push(v[i].clone());
        i += 1;
    }
    assert(v@.take(i as int) == v@);
    r
}

fn copy_shortcuts(v: &Vec<WindowsShortcutEntry>) -> (r: Vec<WindowsShortcutEntry>)
    ensures
        r@ == v@,
{
    let mut r: Vec<WindowsShortcutEntry> = Vec::new();
    let mut i: usize = 0;
    while i < v.len()
        invariant
            i <= v@.len(),
            r@ == v@.take(i as int),
        decreases v@.len() - i,
    {
        r.push(v[i].clone());
        i += 1;
    }
    assert(v@.take(i as int) == v@);
    r
}

impl Clone for Config {
    fn clone(&self) -> (r: Self)
        ensures
            r@ == self@,
    {
        Config {
            hotkey: self.hotkey.clone(),
            autostart: self.autostart,
            max_results: self.max_results,
            theme: self.theme,
            accent_color: self.accent_color,
            font_scale_bits: self.font_scale_bits,
            language: self.language,
            display_target: self.display_target,
            everything_enabled: self.everything_enabled,
            index_folders: copy_strings(&self.index_folders),
            exclude_patterns: copy_strings(&self.exclude_patterns),
            aliases: copy_aliases(&self.aliases),
            custom_windows_shortcuts: copy_shortcuts(&self.custom_windows_shortcuts),
            ui_font: self.ui_font,
        }
    }
}

/// The bits of a font size multiplier of 1.
pub const FONT_SCALE_ONE: u32 = 0x3F80_0000;

/// The settings before the user changed any.
pub open spec fn default_config() -> ConfigView {
    ConfigView {
        hotkey: "Alt+Space"@,
        autostart: true,
        max_results: 6,
        theme: Theme::System,
        accent_color: AccentColor::Lime,
        font_scale_bits: FONT_SCALE_ONE,
        language: Language::System,
        display_target: DisplayTarget::Cursor,
        everything_enabled: false,
        index_folders: Seq::empty(),
        exclude_patterns: seq!["(?i)^(Uninstall|アンインストール)"@],
        aliases: Seq::empty(),
        custom_windows_shortcuts: Seq::empty(),
        ui_font: UiFont::SegoeUi,
    }
}

impl Default for Config {
    fn default() -> (c: Self)
        ensures
            c@ == default_config(),
    {
        let c = Config {
            hotkey: "Alt+Space".to_owned(),
            autostart: true,
            max_results: 6,
            theme: Theme::System,
            accent_color: AccentColor::Lime,
            font_scale_bits: FONT_SCALE_ONE,
            language: Language::System,
            display_target: DisplayTarget::Cursor,
            everything_enabled: false,
            index_folders: Vec::new(),
            exclude_patterns: vec!["(?i)^(Uninstall|アンインストール)".to_owned()],
            aliases: Vec::new(),
            custom_windows_shortcuts: Vec::new(),
            ui_font: UiFont::SegoeUi,
        };
        assert(c@ =~= default_config());
        c
    }
}

impl Default for Theme {
    fn default() -> (r: Self)
        ensures
            r == Theme::System,
    {
        Theme::System
    }
}

impl Default for AccentColor {
    fn default() -> (r: Self)
        ensures
            r == AccentColor::Lime,
    {
        AccentColor::Lime
    }
}

impl Default for DisplayTarget {
    fn default() -> (r: Self)
        ensures
            r == DisplayTarget::Cursor,
    {
        DisplayTarget::Cursor
    }
}

impl Default for UiFont {
    fn default() -> (r: Self)
        ensures
            r == UiFont::SegoeUi,
    {
        UiFont::SegoeUi
    }
}

impl Default for Language {
    fn default() -> (r: Self)
        ensures
            r == Language::System,
    {
        Language::System
    }
}

/// Before the user changes anything, `Alt+Space` shows the launcher, which starts with
/// Windows, shows six results on the display with the mouse cursor, follows Windows in
/// theme and language, leaves the file search off, and hides uninstallers; there are no
/// folders, aliases or settings pages of the user's own.
pub proof fn law_default_settings()
    ensures
        ({
            let c = default_config();
            &&& c.hotkey == "Alt+Space"@
            &&& c.autostart
            &&& c.max_results == 6
            &&& c.theme == Theme::System
            &&& c.accent_color == AccentColor::Lime
            &&& c.font_scale_bits == 0x3F80_0000
            &&& c.language == Language::System
            &&& c.display_target == DisplayTarget::Cursor
            &&& !c.everything_enabled
            &&& c.index_folders.len() == 0
            &&& c.exclude_patterns == seq!["(?i)^(Uninstall|アンインストール)"@]
            &&& c.aliases.len() == 0
            &&& c.custom_windows_shortcuts.len() == 0
            &&& c.ui_font == UiFont::SegoeUi
        }),
{
}

/// The settings are what their fields hold.
pub proof fn law_settings_are_their_fields(c: Config, i: int)
    ensures
        c@.hotkey == c.hotkey@,
        c@.autostart == c.autostart,
        c@.max_results == c.max_results,
        c@.theme == c.theme,
        c@.accent_color == c.accent_color,
        c@.font_scale_bits == c.font_scale_bits,
        c@.language == c.language,
        c@.display_target == c.display_target,
        c@.everything_enabled == c.everything_enabled,
        c@.ui_font == c.ui_font,
        c@.index_folders.len() == c.index_folders@.len(),
        0 <= i < c.index_folders@.len() ==> c@.index_folders[i] == c.index_folders@[i]@,
        c@.exclude_patterns.len() == c.exclude_patterns@.len(),
        0 <= i < c.exclude_patterns@.len() ==> c@.exclude_patterns[i] == c.exclude_patterns@[i]@,
        c@.aliases.len() == c.aliases@.len(),
        0 <= i < c.aliases@.len() ==> {
            &&& c@.aliases[i].name == c.aliases@[i].name@
            &&& c@.aliases[i].target == c.aliases@[i].target@
            &&& c@.aliases[i].args == c.aliases@[i].args@
        },
        c@.custom_windows_shortcuts.len() == c.custom_windows_shortcuts@.len(),
        0 <= i < c.custom_windows_shortcuts@.len() ==> {
            &&& c@.custom_windows_shortcuts[i].label == c.custom_windows_shortcuts@[i].label@
            &&& c@.custom_windows_shortcuts[i].uri == c.custom_windows_shortcuts@[i].uri@
        },
{
}

} // verus!
