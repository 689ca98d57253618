//! The settings window: what it shows, and what its controls do.

use vstd::prelude::*;

use crate::config::{
    alias_views, shortcut_views, AccentColor, AliasEntry, AliasView, Config, ConfigView,
    DisplayTarget, Language, ShortcutView, Theme, UiFont, WindowsShortcutEntry,
};
use crate::i18n::{lang_of, last_scan, last_scan_text, Strings};
use crate::text::{texts, trim, trimmed};
use crate::text_input::{InputState, TextInput};
use crate::tools::fresh_input;
use crate::ui_chrome::{accent_color, accent_value};

verus! {

/// The most results that the user can ask for: as many rows as are ever shown.
pub const MAX_VISIBLE_ROWS: u32 = 8;

#[derive(Clone, Copy, PartialEq, Eq, Structural, Debug)]
pub enum SettingsTab {
    General,
    Appearance,
    Index,
    Aliases,
    WindowsShortcuts,
    Everything,
}

/// A text field of the window.
#[derive(Clone, Copy, PartialEq, Eq, Structural, Debug)]
pub enum Field {
    Hotkey,
    NewPattern,
    AliasName,
    AliasTarget,
    AliasArgs,
    ShortcutLabel,
    ShortcutUri,
}

/// What a control does when it is clicked.
#[derive(Clone, Copy, PartialEq, Eq, Structural, Debug)]
pub enum Command {
    ToggleAutostart,
    ToggleEverything,
    LowerMaxResults,
    RaiseMaxResults,
    LowerFontScale,
    RaiseFontScale,
    ChooseLanguage(Language),
    ChooseDisplay(DisplayTarget),
    ChooseTheme(Theme),
    ChooseAccent(AccentColor),
    ChooseFont(UiFont),
    PickFolder,
    RemoveFolder(usize),
    AddPattern,
    RemovePattern(usize),
    AddAlias,
    RemoveAlias(usize),
    AddShortcut,
    RemoveShortcut(usize),
    Rescan,
}

/// What is left to do after a command.
#[derive(Clone, Copy, PartialEq, Eq, Structural, Debug)]
pub enum AfterCommand {
    Nothing,
    /// Use the new language.
    ApplyLanguage,
    /// Ask the user for a folder.
    OpenFolderDialog,
    /// Scan for apps.
    StartScan,
    /// Change the font size multiplier by a twentieth.
    StepFontScale { up: bool },
}

/// The number that a stepper shows.
#[derive(Clone, Copy, PartialEq, Eq, Structural, Debug)]
pub enum StepValue {
    Number(u32),
    /// The bits of a font size multiplier.
    FontScale(u32),
}

/// One control of a tab, from top to bottom.
#[derive(Debug)]
pub enum Row {
    Heading(&'static str),
    Label(&'static str),
    Note(&'static str),
    Checkbox { label: &'static str, checked: bool, command: Command },
    Input { caption: Option<&'static str>, field: Field },
    Stepper { label: &'static str, value: StepValue, down: Command, up: Command },
    Choice { label: &'static str, selected: bool, command: Command },
    Swatch { name: &'static str, color: u32, selected: bool, command: Command },
    Item { primary: String, secondary: Option<String>, button: &'static str, command: Command },
    Button { label: &'static str, enabled: bool, command: Command },
    Status(String),
}

pub enum RowView {
    Heading(&'static str),
    Label(&'static str),
    Note(&'static str),
    Checkbox { label: &'static str, checked: bool, command: Command },
    Input { caption: Option<&'static str>, field: Field },
    Stepper { label: &'static str, value: StepValue, down: Command, up: Command },
    Choice { label: &'static str, selected: bool, command: Command },
    Swatch { name: &'static str, color: u32, selected: bool, command: Command },
    Item {
        primary: Seq<char>,
        secondary: Option<Seq<char>>,
        button: &'static str,
        command: Command,
    },
    Button { label: &'static str, enabled: bool, command: Command },
    Status(Seq<char>),
}

impl View for Row {
    type V = RowView;

    open spec fn view(&self) -> RowView {
        match *self {
            Row::Heading(label) => RowView::Heading(label),
            Row::Label(label) => RowView::Label(label),
            Row::Note(label) => RowView::Note(label),
            Row::Checkbox { label, checked, command } => RowView::Checkbox {
                label,
                checked,
                command,
            },
            Row::Input { caption, field } => RowView::Input { caption, field },
            Row::Stepper { label, value, down, up } => RowView::Stepper { label, value, down, up },
            Row::Choice { label, selected, command } => RowView::Choice {
                label,
                selected,
                command,
            },
            Row::Swatch { name, color, selected, command } => RowView::Swatch {
                name,
                color,
                selected,
                command,
            },
            Row::Item { primary, secondary, button, command } => RowView::Item {
                primary: primary@,
                secondary: match secondary {
                    Some(s) => Some(s@),
                    None => None,
                },
                button,
                command,
            },
            Row::Button { label, enabled, command } => RowView::Button { label, enabled, command },
            Row::Status(text) => RowView::Status(text@),
        }
    }
}

pub open spec fn row_views(rows: Seq<Row>) -> Seq<RowView> {
    rows.map_values(|r: Row| r@)
}

/// What the window shows of the launcher.
#[derive(Debug)]
pub struct AppSnapshot {
    pub config: Config,
    pub strings: Strings,
    pub scanning: bool,
    /// The minutes since the last scan finished, if one did.
    pub minutes_since_scan: Option<u64>,
    pub last_scan_count: usize,
}

// --- The tabs ---

pub open spec fn choice(label: &'static str, selected: bool, command: Command) -> RowView {
    RowView::Choice { label, selected, command }
}

pub open spec fn general_rows(c: ConfigView, s: Strings) -> Seq<RowView> {
    seq![
        RowView::Heading(s.section_general),
        RowView::Checkbox {
            label: s.label_autostart,
            checked: c.autostart,
            command: Command::ToggleAutostart,
        },
        RowView::Input { caption: Some(s.label_hotkey), field: Field::Hotkey },
        RowView::Stepper {
            label: s.label_max_results,
            value: StepValue::Number(c.max_results),
            down: Command::LowerMaxResults,
            up: Command::RaiseMaxResults,
        },
        RowView::Label(s.label_language),
        choice(
            s.language_system,
            c.language == Language::System,
            Command::ChooseLanguage(Language::System),
        ),
        choice(s.language_en, c.language == Language::En, Command::ChooseLanguage(Language::En)),
        choice(s.language_ja, c.language == Language::Ja, Command::ChooseLanguage(Language::Ja)),
        RowView::Label(s.label_display_target),
        choice(
            s.display_target_cursor,
            c.display_target == DisplayTarget::Cursor,
            Command::ChooseDisplay(DisplayTarget::Cursor),
        ),
        choice(
            s.display_target_primary,
            c.display_target == DisplayTarget::Primary,
            Command::ChooseDisplay(DisplayTarget::Primary),
        ),
        choice(
            s.display_target_focused,
            c.display_target == DisplayTarget::FocusedWindow,
            Command::ChooseDisplay(DisplayTarget::FocusedWindow),
        ),
    ]
}

fn choice_row(label: &'static str, selected: bool, command: Command) -> (r: Row)
    ensures
        r@ == choice(label, selected, command),
{
    Row::Choice { label, selected, command }
}

/// General settings.
pub fn tab_general(c: &Config, s: &Strings) -> (r: Vec<Row>)
    ensures
        row_views(r@) == general_rows(c@, *s),
{
    let r = vec![
        Row::Heading(s.section_general),
        Row::Checkbox {
            label: s.label_autostart,
            checked: c.autostart,
            command: Command::ToggleAutostart,
        },
        Row::Input { caption: Some(s.label_hotkey), field: Field::Hotkey },
        Row::Stepper {
            label: s.label_max_results,
            value: StepValue::Number(c.max_results),
            down: Command::LowerMaxResults,
            up: Command::RaiseMaxResults,
        },
        Row::Label(s.label_language),
        choice_row(
            s.language_system,
            c.language == Language::System,
            Command::ChooseLanguage(Language::System),
        ),
        choice_row(
            s.language_en,
            c.language == Language::En,
            Command::ChooseLanguage(Language::En),
        ),
        choice_row(
            s.language_ja,
            c.language == Language::Ja,
            Command::ChooseLanguage(Language::Ja),
        ),
        Row::Label(s.label_display_target),
        choice_row(
            s.display_target_cursor,
            c.display_target == DisplayTarget::Cursor,
            Command::ChooseDisplay(DisplayTarget::Cursor),
        ),
        choice_row(
            s.display_target_primary,
            c.display_target == DisplayTarget::Primary,
            Command::ChooseDisplay(DisplayTarget::Primary),
        ),
        choice_row(
            s.display_target_focused,
            c.display_target == DisplayTarget::FocusedWindow,
            Command::ChooseDisplay(DisplayTarget::FocusedWindow),
        ),
    ];
    assert(row_views(r@) =~= general_rows(c@, *s));
    r
}

pub open spec fn swatch(name: &'static str, accent: AccentColor, chosen: AccentColor) -> RowView {
    RowView::Swatch {
        name,
        color: accent_value(accent),
        selected: chosen == accent,
        command: Command::ChooseAccent(accent),
    }
}

pub open spec fn appearance_rows(c: ConfigView, s: Strings) -> Seq<RowView> {
    seq![
        RowView::Heading(s.section_appearance),
        RowView::Label(s.label_theme),
        choice(s.theme_system, c.theme == Theme::System, Command::ChooseTheme(Theme::System)),
        choice(s.theme_light, c.theme == Theme::Light, Command::ChooseTheme(Theme::Light)),
        choice(s.theme_dark, c.theme == Theme::Dark, Command::ChooseTheme(Theme::Dark)),
        RowView::Label(s.label_accent_color),
        swatch(s.accent_color_lime, AccentColor::Lime, c.accent_color),
        swatch(s.accent_color_red, AccentColor::Red, c.accent_color),
        swatch(s.accent_color_orange, AccentColor::Orange, c.accent_color),
        swatch(s.accent_color_blue, AccentColor::Blue, c.accent_color),
        swatch(s.accent_color_purple, AccentColor::Purple, c.accent_color),
        RowView::Label(s.label_font),
        choice(
            s.font_segoe_ui,
            c.ui_font == UiFont::SegoeUi,
            Command::ChooseFont(UiFont::SegoeUi),
        ),
        choice(
            s.font_yu_gothic,
            c.ui_font == UiFont::YuGothic,
            Command::ChooseFont(UiFont::YuGothic),
        ),
        choice(s.font_meiryo, c.ui_font == UiFont::Meiryo, Command::ChooseFont(UiFont::Meiryo)),
        RowView::Stepper {
            label: s.label_font_size,
            value: StepValue::FontScale(c.font_scale_bits),
            down: Command::LowerFontScale,
            up: Command::RaiseFontScale,
        },
    ]
}

fn swatch_row(name: &'static str, accent: AccentColor, chosen: AccentColor) -> (r: Row)
    ensures
        r@ == swatch(name, accent, chosen),
{
    Row::Swatch {
        name,
        color: accent_color(accent),
        selected: chosen == accent,
        command: Command::ChooseAccent(accent),
    }
}

/// Theme, accent color, typeface and font size.
pub fn tab_appearance(c: &Config, s: &Strings) -> (r: Vec<Row>)
    ensures
        row_views(r@) == appearance_rows(c@, *s),
{
    let r = vec![
        Row::Heading(s.section_appearance),
        Row::Label(s.label_theme),
        choice_row(s.theme_system, c.theme == Theme::System, Command::ChooseTheme(Theme::System)),
        choice_row(s.theme_light, c.theme == Theme::Light, Command::ChooseTheme(Theme::Light)),
        choice_row(s.theme_dark, c.theme == Theme::Dark, Command::ChooseTheme(Theme::Dark)),
        Row::Label(s.label_accent_color),
        swatch_row(s.accent_color_lime, AccentColor::Lime, c.accent_color),
        swatch_row(s.accent_color_red, AccentColor::Red, c.accent_color),
        swatch_row(s.accent_color_orange, AccentColor::Orange, c.accent_color),
        swatch_row(s.accent_color_blue, AccentColor::Blue, c.accent_color),
        swatch_row(s.accent_color_purple, AccentColor::Purple, c.accent_color),
        Row::Label(s.label_font),
        choice_row(
            s.font_segoe_ui,
            c.ui_font == UiFont::SegoeUi,
            Command::ChooseFont(UiFont::SegoeUi),
        ),
        choice_row(
            s.font_yu_gothic,
            c.ui_font == UiFont::YuGothic,
            Command::ChooseFont(UiFont::YuGothic),
        ),
        choice_row(
            s.font_meiryo,
            c.ui_font == UiFont::Meiryo,
            Command::ChooseFont(UiFont::Meiryo),
        ),
        Row::Stepper {
            label: s.label_font_size,
            value: StepValue::FontScale(c.font_scale_bits),
            down: Command::LowerFontScale,
            up: Command::RaiseFontScale,
        },
    ];
    assert(row_views(r@) =~= appearance_rows(c@, *s));
    r
}

/// An item of a list, with a button that removes it.
pub open spec fn item(
    primary: Seq<char>,
    secondary: Option<Seq<char>>,
    s: Strings,
    command: Command,
) -> RowView {
    RowView::Item { primary, secondary, button: s.button_delete, command }
}

pub open spec fn folder_items(folders: Seq<Seq<char>>, s: Strings) -> Seq<RowView> {
    Seq::new(
        folders.len(),
        |i: int| item(folders[i], None, s, Command::RemoveFolder(i as usize)),
    )
}

pub open spec fn pattern_items(patterns: Seq<Seq<char>>, s: Strings) -> Seq<RowView> {
    Seq::new(
        patterns.len(),
        |i: int| item(patterns[i], None, s, Command::RemovePattern(i as usize)),
    )
}

/// An alias's target, and its arguments if it has any.
pub open spec fn alias_line(alias: AliasView) -> Seq<char> {
    if alias.args.len() == 0 {
        alias.target
    } else {
        alias.target + "  "@ + alias.args
    }
}

pub open spec fn alias_items(aliases: Seq<AliasView>, s: Strings) -> Seq<RowView> {
    Seq::new(
        aliases.len(),
        |i: int|
            item(
                aliases[i].name,
                Some(alias_line(aliases[i])),
                s,
                Command::RemoveAlias(i as usize),
            ),
    )
}

pub open spec fn shortcut_items(shortcuts: Seq<ShortcutView>, s: Strings) -> Seq<RowView> {
    Seq::new(
        shortcuts.len(),
        |i: int|
            item(
                shortcuts[i].label,
                Some(shortcuts[i].uri),
                s,
                Command::RemoveShortcut(i as usize),
            ),
    )
}

fn push_string_items(rows: &mut Vec<Row>, list: &Vec<String>, s: &Strings, folders: bool)
    ensures
        row_views(final(rows)@) == row_views(old(rows)@) + (if folders {
            folder_items(texts(list@), *s)
        } else {
            pattern_items(texts(list@), *s)
        }),
{
    let ghost start = row_views(rows@);
    let ghost all = if folders {
        folder_items(texts(list@), *s)
    } else {
        pattern_items(texts(list@), *s)
    };
    let mut i: usize = 0;
    assert(start + all.take(0) =~= start);
    while i < list.len()
        invariant
            i <= list@.len() == all.len(),
            all == (if folders {
                folder_items(texts(list@), *s)
            } else {
                pattern_items(texts(list@), *s)
            }),
            row_views(rows@) == start + all.take(i as int),
        decreases list@.len() - i,
    {
        let ghost before = rows@;
        let row = Row::Item {
            primary: list[i].clone(),
            secondary: None,
            button: s.button_delete,
            command: if folders {
                Command::RemoveFolder(i)
            } else {
                Command::RemovePattern(i)
            },
        };
        rows.push(row);
        assert(row_views(rows@) =~= row_views(before).push(row@));
        assert(row@ == all[i as int]);
        assert(all.take(i + 1) =~= all.take(i as int).push(all[i as int]));
        i += 1;
        assert(row_views(rows@) =~= start + all.take(i as int));
    }
    assert(all.take(i as int) =~= all);
}

fn push_alias_items(rows: &mut Vec<Row>, list: &Vec<AliasEntry>, s: &Strings)
    ensures
        row_views(final(rows)@) == row_views(old(rows)@) + alias_items(alias_views(list@), *s),
{
    let ghost start = row_views(rows@);
    let ghost all = alias_items(alias_views(list@), *s);
    let mut i: usize = 0;
    assert(start + all.take(0) =~= start);
    while i < list.len()
        invariant
            i <= list@.len() == all.len(),
            all == alias_items(alias_views(list@), *s),
            row_views(rows@) == start + all.take(i as int),
        decreases list@.len() - i,
    {
        let ghost before = rows@;
        let row = Row::Item {
            primary: list[i].name.clone(),
            secondary: Some(alias_text(&list[i])),
            button: s.button_delete,
            command: Command::RemoveAlias(i),
        };
        rows.push(row);
        assert(row_views(rows@) =~= row_views(before).push(row@));
        assert(alias_views(list@)[i as int] == list@[i as int]@);
        assert(row@ == all[i as int]);
        assert(all.take(i + 1) =~= all.take(i as int).push(all[i as int]));
        i += 1;
        assert(row_views(rows@) =~= start + all.take(i as int));
    }
    assert(all.take(i as int) =~= all);
}

/// An alias's target, and its arguments if it has any.
fn alias_text(alias: &AliasEntry) -> (r: String)
    ensures
        r@ == alias_line(alias@),
{
    let mut r = alias.target.clone();
    if !alias.args.as_str().is_empty() {
        r.append("  ");
        r.append(alias.args.as_str());
    }
    r
}

fn push_shortcut_items(rows: &mut Vec<Row>, list: &Vec<WindowsShortcutEntry>, s: &Strings)
    ensures
        row_views(final(rows)@) == row_views(old(rows)@) + shortcut_items(
            shortcut_views(list@),
            *s,
        ),
{
    let ghost start = row_views(rows@);
    let ghost all = shortcut_items(shortcut_views(list@), *s);
    let mut i: usize = 0;
    assert(start + all.take(0) =~= start);
    while i < list.len()
        invariant
            i <= list@.len() == all.len(),
            all == shortcut_items(shortcut_views(list@), *s),
            row_views(rows@) == start + all.take(i as int),
        decreases list@.len() - i,
    {
        let ghost before = rows@;
        let row = Row::Item {
            primary: list[i].label.clone(),
            secondary: Some(list[i].uri.clone()),
            button: s.button_delete,
            command: Command::RemoveShortcut(i),
        };
        rows.push(row);
        assert(row_views(rows@) =~= row_views(before).push(row@));
        assert(shortcut_views(list@)[i as int] == list@[i as int]@);
        assert(row@ == all[i as int]);
        assert(all.take(i + 1) =~= all.take(i as int).push(all[i as int]));
        i += 1;
        assert(row_views(rows@) =~= start + all.take(i as int));
    }
    assert(all.take(i as int) =~= all);
}

fn push_row(rows: &mut Vec<Row>, row: Row)
    ensures
        row_views(final(rows)@) == row_views(old(rows)@).push(row@),
{
    rows.push(row);
    assert(row_views(rows@) =~= row_views(old(rows)@).push(row@));
}

/// What is said about the last scan: that one runs, how long ago it was, or
/// nothing.
pub open spec fn scan_status(
    s: Strings,
    scanning: bool,
    minutes: Option<u64>,
    count: usize,
) -> Option<Seq<char>> {
    if scanning {
        Some(s.scanning@)
    } else {
        match minutes {
            Some(m) => Some(last_scan(s.lang, m as nat, count as nat)),
            None => None,
        }
    }
}

pub open spec fn index_rows(
    c: ConfigView,
    s: Strings,
    picking: bool,
    scanning: bool,
    minutes: Option<u64>,
    count: usize,
) -> Seq<RowView> {
    let rows = (seq![
        RowView::Heading(s.section_index),
        RowView::Label(s.label_custom_folders),
    ] + folder_items(c.index_folders, s)).push(
        RowView::Button {
            label: s.button_add_folder,
            enabled: !picking,
            command: Command::PickFolder,
        },
    ).push(RowView::Label(s.label_exclude_patterns)) + pattern_items(c.exclude_patterns, s);
    let rows = rows.push(RowView::Input { caption: None, field: Field::NewPattern }).push(
        RowView::Button { label: s.button_add, enabled: true, command: Command::AddPattern },
    ).push(
        RowView::Button {
            label: s.button_rescan_now,
            enabled: !scanning,
            command: Command::Rescan,
        },
    );
    match scan_status(s, scanning, minutes, count) {
        Some(text) => rows.push(RowView::Status(text)),
        None => rows,
    }
}

/// Folders, exclude patterns and rescanning.
pub fn tab_index(
    c: &Config,
    s: &Strings,
    picking: bool,
    scanning: bool,
    minutes: Option<u64>,
    count: usize,
) -> (r: Vec<Row>)
    ensures
        row_views(r@) == index_rows(c@, *s, picking, scanning, minutes, count),
{
    let mut r = vec![Row::Heading(s.section_index), Row::Label(s.label_custom_folders)];
    assert(row_views(r@) =~= seq![
        RowView::Heading(s.section_index),
        RowView::Label(s.label_custom_folders),
    ]);
    push_string_items(&mut r, &c.index_folders, s, true);
    push_row(
        &mut r,
        Row::Button {
            label: s.button_add_folder,
            enabled: !picking,
            command: Command::PickFolder,
        },
    );
    push_row(&mut r, Row::Label(s.label_exclude_patterns));
    push_string_items(&mut r, &c.exclude_patterns, s, false);
    push_row(&mut r, Row::Input { caption: None, field: Field::NewPattern });
    push_row(
        &mut r,
        Row::Button { label: s.button_add, enabled: true, command: Command::AddPattern },
    );
    push_row(
        &mut r,
        Row::Button {
            label: s.button_rescan_now,
            enabled: !scanning,
            command: Command::Rescan,
        },
    );
    if scanning {
        push_row(&mut r, Row::Status(s.scanning.to_owned()));
    } else if let Some(m) = minutes {
        push_row(&mut r, Row::Status(last_scan_text(lang_of(s), m, count)));
    }
    r
}

pub open spec fn alias_rows(c: ConfigView, s: Strings) -> Seq<RowView> {
    (seq![RowView::Heading(s.section_aliases)] + alias_items(c.aliases, s)).push(
        RowView::Input { caption: Some(s.label_alias_name), field: Field::AliasName },
    ).push(RowView::Input { caption: Some(s.label_alias_target), field: Field::AliasTarget }).push(
        RowView::Input { caption: Some(s.label_alias_args), field: Field::AliasArgs },
    ).push(
        RowView::Button { label: s.button_add_alias, enabled: true, command: Command::AddAlias },
    )
}

/// Command aliases.
pub fn tab_aliases(c: &Config, s: &Strings) -> (r: Vec<Row>)
    ensures
        row_views(r@) == alias_rows(c@, *s),
{
    let mut r = vec![Row::Heading(s.section_aliases)];
    assert(row_views(r@) =~= seq![RowView::Heading(s.section_aliases)]);
    push_alias_items(&mut r, &c.aliases, s);
    push_row(&mut r, Row::Input { caption: Some(s.label_alias_name), field: Field::AliasName });
    push_row(&mut r, Row::Input { caption: Some(s.label_alias_target), field: Field::AliasTarget });
    push_row(&mut r, Row::Input { caption: Some(s.label_alias_args), field: Field::AliasArgs });
    push_row(
        &mut r,
        Row::Button { label: s.button_add_alias, enabled: true, command: Command::AddAlias },
    );
    r
}

pub open spec fn shortcut_rows(c: ConfigView, s: Strings) -> Seq<RowView> {
    (seq![RowView::Heading(s.section_windows_shortcuts)] + shortcut_items(
        c.custom_windows_shortcuts,
        s,
    )).push(
        RowView::Input { caption: Some(s.label_shortcut_label), field: Field::ShortcutLabel },
    ).push(RowView::Input { caption: Some(s.label_shortcut_uri), field: Field::ShortcutUri }).push(
        RowView::Button {
            label: s.button_add_shortcut,
            enabled: true,
            command: Command::AddShortcut,
        },
    )
}

/// Settings pages that the user added.
pub fn tab_windows_shortcuts(c: &Config, s: &Strings) -> (r: Vec<Row>)
    ensures
        row_views(r@) == shortcut_rows(c@, *s),
{
    let mut r = vec![Row::Heading(s.section_windows_shortcuts)];
    assert(row_views(r@) =~= seq![RowView::Heading(s.section_windows_shortcuts)]);
    push_shortcut_items(&mut r, &c.custom_windows_shortcuts, s);
    push_row(
        &mut r,
        Row::Input { caption: Some(s.label_shortcut_label), field: Field::ShortcutLabel },
    );
    push_row(
        &mut r,
        Row::Input { caption: Some(s.label_shortcut_uri), field: Field::ShortcutUri },
    );
    push_row(
        &mut r,
        Row::Button {
            label: s.button_add_shortcut,
            enabled: true,
            command: Command::AddShortcut,
        },
    );
    r
}

pub open spec fn everything_rows(c: ConfigView, s: Strings) -> Seq<RowView> {
    seq![
        RowView::Heading(s.section_everything),
        RowView::Note(s.everything_connected),
        RowView::Checkbox {
            label: s.label_everything_enabled,
            checked: c.everything_enabled,
            command: Command::ToggleEverything,
        },
    ]
}

/// File search through Everything.
pub fn tab_everything(c: &Config, s: &Strings) -> (r: Vec<Row>)
    ensures
        row_views(r@) == everything_rows(c@, *s),
{
    let r = vec![
        Row::Heading(s.section_everything),
        Row::Note(s.everything_connected),
        Row::Checkbox {
            label: s.label_everything_enabled,
            checked: c.everything_enabled,
            command: Command::ToggleEverything,
        },
    ];
    assert(row_views(r@) =~= everything_rows(c@, *s));
    r
}

/// A button below the tabs.
#[derive(Clone, Copy, Debug)]
pub enum FooterButton {
    /// Saves the settings.
    Save { label: &'static str },
    /// Closes the window.
    Close { label: &'static str },
}

/// The buttons below the tabs: changes apply at once, and are saved on request.
pub fn footer(s: &Strings) -> (r: Vec<FooterButton>)
    ensures
        r@ == seq![
            FooterButton::Save { label: s.button_save },
            FooterButton::Close { label: s.button_close },
        ],
{
    vec![
        FooterButton::Save { label: s.button_save },
        FooterButton::Close { label: s.button_close },
    ]
}

/// An entry of the sidebar.
#[derive(Clone, Copy, Debug)]
pub struct NavItem {
    pub tab: SettingsTab,
    pub label: &'static str,
    pub selected: bool,
}

pub open spec fn nav_item(tab: SettingsTab, label: &'static str, current: SettingsTab) -> NavItem {
    NavItem { tab, label, selected: current == tab }
}

/// The sidebar. Everything has an entry only while it can be reached.
pub open spec fn nav_items(s: Strings, current: SettingsTab, everything: bool) -> Seq<NavItem> {
    let items = seq![
        nav_item(SettingsTab::General, s.section_general, current),
        nav_item(SettingsTab::Appearance, s.section_appearance, current),
        nav_item(SettingsTab::Index, s.section_index, current),
        nav_item(SettingsTab::Aliases, s.section_aliases, current),
        nav_item(SettingsTab::WindowsShortcuts, s.section_windows_shortcuts, current),
    ];
    if everything {
        items.push(nav_item(SettingsTab::Everything, s.section_everything, current))
    } else {
        items
    }
}

// --- Editing the settings ---

impl ConfigView {
    /// The settings after a command that needs nothing but them.
    pub open spec fn commanded(self, command: Command) -> ConfigView {
        match command {
            Command::ToggleAutostart => ConfigView { autostart: !self.autostart, ..self },
            Command::ToggleEverything => ConfigView {
                everything_enabled: !self.everything_enabled,
                ..self
            },
            Command::LowerMaxResults => ConfigView {
                max_results: if self.max_results > 1 {
                    (self.max_results - 1) as u32
                } else {
                    1
                },
                ..self
            },
            Command::RaiseMaxResults => ConfigView {
                max_results: if self.max_results < MAX_VISIBLE_ROWS {
                    (self.max_results + 1) as u32
                } else {
                    MAX_VISIBLE_ROWS
                },
                ..self
            },
            Command::ChooseLanguage(language) => ConfigView { language, ..self },
            Command::ChooseDisplay(display_target) => ConfigView { display_target, ..self },
            Command::ChooseTheme(theme) => ConfigView { theme, ..self },
            Command::ChooseAccent(accent_color) => ConfigView { accent_color, ..self },
            Command::ChooseFont(ui_font) => ConfigView { ui_font, ..self },
            Command::RemoveFolder(i) => ConfigView {
                index_folders: removed(self.index_folders, i),
                ..self
            },
            Command::RemovePattern(i) => ConfigView {
                exclude_patterns: removed(self.exclude_patterns, i),
                ..self
            },
            Command::RemoveAlias(i) => ConfigView { aliases: removed(self.aliases, i), ..self },
            Command::RemoveShortcut(i) => ConfigView {
                custom_windows_shortcuts: removed(self.custom_windows_shortcuts, i),
                ..self
            },
            _ => self,
        }
    }
}

/// A list without the item at an index, if there is one.
pub open spec fn removed<A>(s: Seq<A>, i: usize) -> Seq<A> {
    if i < s.len() {
        s.remove(i as int)
    } else {
        s
    }
}

/// Changes the settings.
fn edit_config(c: &mut Config, command: Command)
    ensures
        final(c)@ == old(c)@.commanded(command),
{
    match command {
        Command::ToggleAutostart => {
            c.autostart = !c.autostart;
        },
        Command::ToggleEverything => {
            c.everything_enabled = !c.everything_enabled;
        },
        Command::LowerMaxResults => {
            c.max_results = if c.max_results > 1 {
                c.max_results - 1
            } else {
                1
            };
        },
        Command::RaiseMaxResults => {
            c.max_results = if c.max_results < MAX_VISIBLE_ROWS {
                c.max_results + 1
            } else {
                MAX_VISIBLE_ROWS
            };
        },
        Command::ChooseLanguage(language) => {
            c.language = language;
        },
        Command::ChooseDisplay(display_target) => {
            c.display_target = display_target;
        },
        Command::ChooseTheme(theme) => {
            c.theme = theme;
        },
        Command::ChooseAccent(accent) => {
            c.accent_color = accent;
        },
        Command::ChooseFont(ui_font) => {
            c.ui_font = ui_font;
        },
        Command::RemoveFolder(i) => {
            if i < c.index_folders.len() {
                c.index_folders.remove(i);
            }
        },
        Command::RemovePattern(i) => {
            if i < c.exclude_patterns.len() {
                c.exclude_patterns.remove(i);
            }
        },
        Command::RemoveAlias(i) => {
            if i < c.aliases.len() {
                c.aliases.remove(i);
            }
        },
        Command::RemoveShortcut(i) => {
            if i < c.custom_windows_shortcuts.len() {
                c.custom_windows_shortcuts.remove(i);
            }
        },
        _ => {},
    }
    assert(c@ =~= old(c)@.commanded(command));
}

/// What the window holds besides the settings.
#[verifier::ext_equal]
pub struct SettingsState {
    pub tab: SettingsTab,
    pub everything_available: bool,
    pub picking: bool,
    pub hotkey: InputState,
    pub pattern: InputState,
    pub alias_name: InputState,
    pub alias_target: InputState,
    pub alias_args: InputState,
    pub shortcut_label: InputState,
    pub shortcut_uri: InputState,
}

/// The settings window.
pub struct SettingsWindow {
    pub tab: SettingsTab,
    pub everything_available: bool,
    pub pending_folder_pick: bool,
    pub hotkey_input: TextInput,
    pub new_exclude_pattern_input: TextInput,
    pub new_alias_name_input: TextInput,
    pub new_alias_target_input: TextInput,
    pub new_alias_args_input: TextInput,
    pub new_shortcut_label_input: TextInput,
    pub new_shortcut_uri_input: TextInput,
}

impl View for SettingsWindow {
    type V = SettingsState;

    open spec fn view(&self) -> SettingsState {
        SettingsState {
            tab: self.tab,
            everything_available: self.everything_available,
            picking: self.pending_folder_pick,
            hotkey: self.hotkey_input@,
            pattern: self.new_exclude_pattern_input@,
            alias_name: self.new_alias_name_input@,
            alias_target: self.new_alias_target_input@,
            alias_args: self.new_alias_args_input@,
            shortcut_label: self.new_shortcut_label_input@,
            shortcut_uri: self.new_shortcut_uri_input@,
        }
    }
}

impl SettingsState {
    /// The shown tab is in the sidebar.
    pub open spec fn wf(self) -> bool {
        self.tab == SettingsTab::Everything ==> self.everything_available
    }

    /// A field emptied after its text was used.
    pub open spec fn cleared(input: InputState) -> InputState {
        input.with_text(Seq::empty())
    }

    /// The new pattern, if it is not blank.
    pub open spec fn new_pattern(self) -> Option<Seq<char>> {
        let text = trimmed(self.pattern.text);
        if text.len() == 0 {
            None
        } else {
            Some(text)
        }
    }

    /// The new alias, if its name and target are not blank.
    pub open spec fn new_alias(self) -> Option<AliasView> {
        let name = trimmed(self.alias_name.text);
        let target = trimmed(self.alias_target.text);
        if name.len() == 0 || target.len() == 0 {
            None
        } else {
            Some(AliasView { name, target, args: trimmed(self.alias_args.text) })
        }
    }

    /// The new settings page, if its label and address are not blank.
    pub open spec fn new_shortcut(self) -> Option<ShortcutView> {
        let label = trimmed(self.shortcut_label.text);
        let uri = trimmed(self.shortcut_uri.text);
        if label.len() == 0 || uri.len() == 0 {
            None
        } else {
            Some(ShortcutView { label, uri })
        }
    }

    /// The window and the settings after a command.
    pub open spec fn after(self, c: ConfigView, command: Command) -> (SettingsState, ConfigView) {
        match command {
            Command::AddPattern => match self.new_pattern() {
                Some(p) => (
                    SettingsState { pattern: Self::cleared(self.pattern), ..self },
                    ConfigView { exclude_patterns: c.exclude_patterns.push(p), ..c },
                ),
                None => (self, c),
            },
            Command::AddAlias => match self.new_alias() {
                Some(a) => (
                    SettingsState {
                        alias_name: Self::cleared(self.alias_name),
                        alias_target: Self::cleared(self.alias_target),
                        alias_args: Self::cleared(self.alias_args),
                        ..self
                    },
                    ConfigView { aliases: c.aliases.push(a), ..c },
                ),
                None => (self, c),
            },
            Command::AddShortcut => match self.new_shortcut() {
                Some(s) => (
                    SettingsState {
                        shortcut_label: Self::cleared(self.shortcut_label),
                        shortcut_uri: Self::cleared(self.shortcut_uri),
                        ..self
                    },
                    ConfigView {
                        custom_windows_shortcuts: c.custom_windows_shortcuts.push(s),
                        ..c
                    },
                ),
                None => (self, c),
            },
            Command::PickFolder => (SettingsState { picking: true, ..self }, c),
            _ => (self, c.commanded(command)),
        }
    }

    /// What is left to do after a command.
    pub open spec fn effect(self, command: Command) -> AfterCommand {
        match command {
            Command::ChooseLanguage(_) => AfterCommand::ApplyLanguage,
            Command::PickFolder => if self.picking {
                AfterCommand::Nothing
            } else {
                AfterCommand::OpenFolderDialog
            },
            Command::Rescan => AfterCommand::StartScan,
            Command::LowerFontScale => AfterCommand::StepFontScale { up: false },
            Command::RaiseFontScale => AfterCommand::StepFontScale { up: true },
            _ => AfterCommand::Nothing,
        }
    }
}

impl SettingsWindow {
    /// A window that shows the general settings.
    pub fn new(config: &Config, everything_available: bool) -> (r: Self)
        ensures
            r@ == (SettingsState {
                tab: SettingsTab::General,
                everything_available,
                picking: false,
                hotkey: fresh_input(config@.hotkey),
                pattern: fresh_input(""@),
                alias_name: fresh_input(""@),
                alias_target: fresh_input(""@),
                alias_args: fresh_input(""@),
                shortcut_label: fresh_input(""@),
                shortcut_uri: fresh_input(""@),
            }),
            r@.wf(),
    {
        SettingsWindow {
            tab: SettingsTab::General,
            everything_available,
            pending_folder_pick: false,
            hotkey_input: TextInput::new(config.hotkey.as_str(), ""),
            new_exclude_pattern_input: TextInput::new("", ""),
            new_alias_name_input: TextInput::new("", ""),
            new_alias_target_input: TextInput::new("", ""),
            new_alias_args_input: TextInput::new("", ""),
            new_shortcut_label_input: TextInput::new("", ""),
            new_shortcut_uri_input: TextInput::new("", ""),
        }
    }

    /// The window is brought to the front again: whether Everything can be
    /// reached may have changed, and its tab goes with it.
    pub fn reopen(&mut self, everything_available: bool)
        ensures
            final(self)@ == (SettingsState {
                everything_available,
                tab: if !everything_available && old(self)@.tab == SettingsTab::Everything {
                    SettingsTab::General
                } else {
                    old(self)@.tab
                },
                ..old(self)@
            }),
            final(self)@.wf(),
    {
        self.everything_available = everything_available;
        if !everything_available && self.tab == SettingsTab::Everything {
            self.tab = SettingsTab::General;
        }
    }

    /// Shows another tab.
    pub fn select_tab(&mut self, tab: SettingsTab)
        ensures
            final(self)@ == (SettingsState { tab, ..old(self)@ }),
    {
        self.tab = tab;
    }

    /// The sidebar.
    pub fn nav(&self, s: &Strings) -> (r: Vec<NavItem>)
        ensures
            r@ == nav_items(*s, self@.tab, self@.everything_available),
    {
        let mut r = vec![
            NavItem {
                tab: SettingsTab::General,
                label: s.section_general,
                selected: self.tab == SettingsTab::General,
            },
            NavItem {
                tab: SettingsTab::Appearance,
                label: s.section_appearance,
                selected: self.tab == SettingsTab::Appearance,
            },
            NavItem {
                tab: SettingsTab::Index,
                label: s.section_index,
                selected: self.tab == SettingsTab::Index,
            },
            NavItem {
                tab: SettingsTab::Aliases,
                label: s.section_aliases,
                selected: self.tab == SettingsTab::Aliases,
            },
            NavItem {
                tab: SettingsTab::WindowsShortcuts,
                label: s.section_windows_shortcuts,
                selected: self.tab == SettingsTab::WindowsShortcuts,
            },
        ];
        if self.everything_available {
            r.push(
                NavItem {
                    tab: SettingsTab::Everything,
                    label: s.section_everything,
                    selected: self.tab == SettingsTab::Everything,
                },
            );
        }
        assert(r@ =~= nav_items(*s, self@.tab, self@.everything_available));
        r
    }

    /// The controls of the shown tab.
    pub fn content(&self, snapshot: &AppSnapshot) -> (r: Vec<Row>)
        ensures
            row_views(r@) == self@.rows(*snapshot),
    {
        let c = &snapshot.config;
        let s = &snapshot.strings;
        match self.tab {
            SettingsTab::General => tab_general(c, s),
            SettingsTab::Appearance => tab_appearance(c, s),
            SettingsTab::Index => tab_index(
                c,
                s,
                self.pending_folder_pick,
                snapshot.scanning,
                snapshot.minutes_since_scan,
                snapshot.last_scan_count,
            ),
            SettingsTab::Aliases => tab_aliases(c, s),
            SettingsTab::WindowsShortcuts => tab_windows_shortcuts(c, s),
            SettingsTab::Everything => tab_everything(c, s),
        }
    }

    /// The hotkey after its field was edited.
    pub fn on_hotkey_edited(&self, config: &mut Config)
        ensures
            final(config)@ == (ConfigView { hotkey: self@.hotkey.text, ..old(config)@ }),
    {
        config.hotkey = self.hotkey_input.text().to_owned();
        assert(config@ =~= (ConfigView { hotkey: self@.hotkey.text, ..old(config)@ }));
    }

    /// The folder that the user picked, or `None` where the dialog was left.
    pub fn on_folder_picked(&mut self, config: &mut Config, folder: Option<String>)
        ensures
            final(self)@ == (SettingsState { picking: false, ..old(self)@ }),
            final(config)@ == match folder {
                Some(f) => ConfigView {
                    index_folders: old(config)@.index_folders.push(f@),
                    ..old(config)@
                },
                None => old(config)@,
            },
    {
        self.pending_folder_pick = false;
        if let Some(f) = folder {
            config.index_folders.push(f);
            assert(config@ =~= (ConfigView {
                index_folders: old(config)@.index_folders.push(f@),
                ..old(config)@
            }));
        }
    }

    /// Fills the fields for a new alias, and shows them.
    pub fn prefill_alias(&mut self, title: &str, target: &str)
        ensures
            final(self)@ == (SettingsState {
                tab: SettingsTab::Aliases,
                alias_name: old(self)@.alias_name.with_text(title@),
                alias_target: old(self)@.alias_target.with_text(target@),
                ..old(self)@
            }),
    {
        self.tab = SettingsTab::Aliases;
        self.new_alias_name_input.set_text(title);
        self.new_alias_target_input.set_text(target);
    }

    /// Does what a control asks for.
    pub fn run(&mut self, config: &mut Config, command: Command) -> (effect: AfterCommand)
        ensures
            (final(self)@, final(config)@) == old(self)@.after(old(config)@, command),
            effect == old(self)@.effect(command),
    {
        match command {
            Command::AddPattern => {
                self.add_pattern(config);
                AfterCommand::Nothing
            },
            Command::AddAlias => {
                self.add_alias(config);
                AfterCommand::Nothing
            },
            Command::AddShortcut => {
                self.add_shortcut(config);
                AfterCommand::Nothing
            },
            Command::PickFolder => {
                if self.pending_folder_pick {
                    AfterCommand::Nothing
                } else {
                    self.pending_folder_pick = true;
                    AfterCommand::OpenFolderDialog
                }
            },
            Command::Rescan => AfterCommand::StartScan,
            Command::LowerFontScale => AfterCommand::StepFontScale { up: false },
            Command::RaiseFontScale => AfterCommand::StepFontScale { up: true },
            Command::ChooseLanguage(_) => {
                edit_config(config, command);
                AfterCommand::ApplyLanguage
            },
            _ => {
                edit_config(config, command);
                AfterCommand::Nothing
            },
        }
    }

    fn add_pattern(&mut self, config: &mut Config)
        ensures
            (final(self)@, final(config)@) == old(self)@.after(old(config)@, Command::AddPattern),
    {
        let text = trim(self.new_exclude_pattern_input.text());
        if text.as_str().is_empty() {
            return;
        }
        config.exclude_patterns.push(text);
        self.new_exclude_pattern_input.set_text("");
        proof {
            reveal_strlit("");
            assert(""@ =~= Seq::<char>::empty());
            assert(config@ =~= old(self)@.after(old(config)@, Command::AddPattern).1);
        }
    }

    fn add_alias(&mut self, config: &mut Config)
        ensures
            (final(self)@, final(config)@) == old(self)@.after(old(config)@, Command::AddAlias),
    {
        let name = trim(self.new_alias_name_input.text());
        let target = trim(self.new_alias_target_input.text());
        let args = trim(self.new_alias_args_input.text());
        if name.as_str().is_empty() || target.as_str().is_empty() {
            return;
        }
        config.aliases.push(AliasEntry { name, target, args });
        self.new_alias_name_input.set_text("");
        self.new_alias_target_input.set_text("");
        self.new_alias_args_input.set_text("");
        proof {
            reveal_strlit("");
            assert(""@ =~= Seq::<char>::empty());
            assert(config@ =~= old(self)@.after(old(config)@, Command::AddAlias).1);
        }
    }

    fn add_shortcut(&mut self, config: &mut Config)
        ensures
            (final(self)@, final(config)@) == old(self)@.after(old(config)@, Command::AddShortcut),
    {
        let label = trim(self.new_shortcut_label_input.text());
        let uri = trim(self.new_shortcut_uri_input.text());
        if label.as_str().is_empty() || uri.as_str().is_empty() {
            return;
        }
        config.custom_windows_shortcuts.push(WindowsShortcutEntry { label, uri });
        self.new_shortcut_label_input.set_text("");
        self.new_shortcut_uri_input.set_text("");
        proof {
            reveal_strlit("");
            assert(""@ =~= Seq::<char>::empty());
            assert(config@ =~= old(self)@.after(old(config)@, Command::AddShortcut).1);
        }
    }
}

impl SettingsState {
    /// The controls of the shown tab.
    pub open spec fn rows(self, snapshot: AppSnapshot) -> Seq<RowView> {
        let c = snapshot.config@;
        let s = snapshot.strings;
        match self.tab {
            SettingsTab::General => general_rows(c, s),
            SettingsTab::Appearance => appearance_rows(c, s),
            SettingsTab::Index => index_rows(
                c,
                s,
                self.picking,
                snapshot.scanning,
                snapshot.minutes_since_scan,
                snapshot.last_scan_count,
            ),
            SettingsTab::Aliases => alias_rows(c, s),
            SettingsTab::WindowsShortcuts => shortcut_rows(c, s),
            SettingsTab::Everything => everything_rows(c, s),
        }
    }
}

/// Raising the number of results takes it between one and the rows that are shown,
/// wherever it was before. Lowering it leaves at least one, and keeps it in that range.
pub proof fn law_max_results_range(c: ConfigView)
    ensures
        1 <= c.commanded(Command::RaiseMaxResults).max_results <= MAX_VISIBLE_ROWS,
        1 <= c.commanded(Command::LowerMaxResults).max_results,
        c.max_results <= MAX_VISIBLE_ROWS ==> c.commanded(Command::LowerMaxResults).max_results
            <= MAX_VISIBLE_ROWS,
{
}

/// A new entry goes to the end of its list, so that removing the last item takes
/// it away again.
pub proof fn law_add_then_remove_alias(w: SettingsState, c: ConfigView)
    requires
        w.new_alias() is Some,
        c.aliases.len() < usize::MAX,
    ensures
        w.after(c, Command::AddAlias).1.commanded(Command::RemoveAlias(c.aliases.len() as usize))
            == c,
{
    let added = c.aliases.push(w.new_alias()->0);
    assert(added.remove(c.aliases.len() as int) =~= c.aliases);
}

/// Toggling twice changes nothing.
pub proof fn law_toggle_twice(c: ConfigView)
    ensures
        c.commanded(Command::ToggleAutostart).commanded(Command::ToggleAutostart) == c,
        c.commanded(Command::ToggleEverything).commanded(Command::ToggleEverything) == c,
{
}

/// Blank fields add nothing.
pub proof fn law_blank_fields_add_nothing(w: SettingsState, c: ConfigView)
    ensures
        trimmed(w.pattern.text).len() == 0 ==> w.after(c, Command::AddPattern) == (w, c),
        trimmed(w.alias_name.text).len() == 0 ==> w.after(c, Command::AddAlias) == (w, c),
        trimmed(w.alias_target.text).len() == 0 ==> w.after(c, Command::AddAlias) == (w, c),
        trimmed(w.shortcut_label.text).len() == 0 ==> w.after(c, Command::AddShortcut) == (w, c),
        trimmed(w.shortcut_uri.text).len() == 0 ==> w.after(c, Command::AddShortcut) == (w, c),
{
}

/// A choice sets its own setting to what was chosen, and no other one; a checkbox turns
/// its own setting over; a stepper moves the number of results by one, between one and
/// eight.
pub proof fn law_controls_change_their_setting(
    c: ConfigView,
    language: Language,
    display: DisplayTarget,
    theme: Theme,
    accent: AccentColor,
    font: UiFont,
)
    ensures
        c.commanded(Command::ChooseLanguage(language)) == (ConfigView { language, ..c }),
        c.commanded(Command::ChooseDisplay(display)) == (ConfigView {
            display_target: display,
            ..c
        }),
        c.commanded(Command::ChooseTheme(theme)) == (ConfigView { theme, ..c }),
        c.commanded(Command::ChooseAccent(accent)) == (ConfigView { accent_color: accent, ..c }),
        c.commanded(Command::ChooseFont(font)) == (ConfigView { ui_font: font, ..c }),
        c.commanded(Command::ToggleAutostart) == (ConfigView { autostart: !c.autostart, ..c }),
        c.commanded(Command::ToggleEverything) == (ConfigView {
            everything_enabled: !c.everything_enabled,
            ..c
        }),
        c.commanded(Command::RaiseMaxResults) == (ConfigView {
            max_results: if c.max_results < 8 {
                (c.max_results + 1) as u32
            } else {
                8
            },
            ..c
        }),
        c.commanded(Command::LowerMaxResults) == (ConfigView {
            max_results: if c.max_results > 1 {
                (c.max_results - 1) as u32
            } else {
                1
            },
            ..c
        }),
{
}

/// A list after an item was removed from it: the others stay in their order.
pub open spec fn is_without<A>(after: Seq<A>, before: Seq<A>, i: int) -> bool {
    &&& after.len() == before.len() - 1
    &&& forall|k: int| 0 <= k < i ==> #[trigger] after[k] == before[k]
    &&& forall|k: int| i <= k < after.len() ==> #[trigger] after[k] == before[k + 1]
}

/// A button that removes an item removes that item from its own list, and changes
/// nothing else; an item that is not there is not removed.
pub proof fn law_remove_takes_its_item(c: ConfigView, i: usize)
    ensures
        ({
            let r = c.commanded(Command::RemoveFolder(i));
            &&& r == (ConfigView { index_folders: r.index_folders, ..c })
            &&& i < c.index_folders.len() ==> is_without(
                r.index_folders,
                c.index_folders,
                i as int,
            )
            &&& i >= c.index_folders.len() ==> r == c
        }),
        ({
            let r = c.commanded(Command::RemovePattern(i));
            &&& r == (ConfigView { exclude_patterns: r.exclude_patterns, ..c })
            &&& i < c.exclude_patterns.len() ==> is_without(
                r.exclude_patterns,
                c.exclude_patterns,
                i as int,
            )
            &&& i >= c.exclude_patterns.len() ==> r == c
        }),
        ({
            let r = c.commanded(Command::RemoveAlias(i));
            &&& r == (ConfigView { aliases: r.aliases, ..c })
            &&& i < c.aliases.len() ==> is_without(r.aliases, c.aliases, i as int)
            &&& i >= c.aliases.len() ==> r == c
        }),
        ({
            let r = c.commanded(Command::RemoveShortcut(i));
            &&& r == (ConfigView { custom_windows_shortcuts: r.custom_windows_shortcuts, ..c })
            &&& i < c.custom_windows_shortcuts.len() ==> is_without(
                r.custom_windows_shortcuts,
                c.custom_windows_shortcuts,
                i as int,
            )
            &&& i >= c.custom_windows_shortcuts.len() ==> r == c
        }),
{
}

/// What is added goes to the end of its list, without the white space around it, and
/// its fields are emptied. An alias needs a name and a target, a settings page a label
/// and an address, and a pattern a text; otherwise nothing happens.
pub proof fn law_add_takes_the_fields(w: SettingsState, c: ConfigView)
    ensures
        ({
            let (after, settings) = w.after(c, Command::AddAlias);
            let (name, target) = (trimmed(w.alias_name.text), trimmed(w.alias_target.text));
            if name.len() > 0 && target.len() > 0 {
                &&& settings == (ConfigView { aliases: settings.aliases, ..c })
                &&& settings.aliases.len() == c.aliases.len() + 1
                &&& settings.aliases.drop_last() == c.aliases
                &&& settings.aliases.last().name == name
                &&& settings.aliases.last().target == target
                &&& settings.aliases.last().args == trimmed(w.alias_args.text)
                &&& after.alias_name.text.len() == 0
                &&& after.alias_target.text.len() == 0
                &&& after.alias_args.text.len() == 0
            } else {
                (after, settings) == (w, c)
            }
        }),
        ({
            let (after, settings) = w.after(c, Command::AddShortcut);
            let (label, uri) = (trimmed(w.shortcut_label.text), trimmed(w.shortcut_uri.text));
            let list = settings.custom_windows_shortcuts;
            if label.len() > 0 && uri.len() > 0 {
                &&& settings == (ConfigView { custom_windows_shortcuts: list, ..c })
                &&& list.len() == c.custom_windows_shortcuts.len() + 1
                &&& list.drop_last() == c.custom_windows_shortcuts
                &&& list.last().label == label
                &&& list.last().uri == uri
                &&& after.shortcut_label.text.len() == 0
                &&& after.shortcut_uri.text.len() == 0
            } else {
                (after, settings) == (w, c)
            }
        }),
        ({
            let (after, settings) = w.after(c, Command::AddPattern);
            let pattern = trimmed(w.pattern.text);
            if pattern.len() > 0 {
                &&& settings == (ConfigView { exclude_patterns: settings.exclude_patterns, ..c })
                &&& settings.exclude_patterns == c.exclude_patterns.push(pattern)
                &&& after.pattern.text.len() == 0
            } else {
                (after, settings) == (w, c)
            }
        }),
{
    assert(c.aliases.push(w.new_alias()->0).drop_last() =~= c.aliases);
    assert(c.custom_windows_shortcuts.push(w.new_shortcut()->0).drop_last()
        =~= c.custom_windows_shortcuts);
}

/// What a command leaves to do: a chosen language is applied, a folder is asked for
/// once at a time, a rescan starts a scan, and the font size is stepped up or down. Other
/// commands leave nothing to do. Commands that are no edits leave the settings alone.
pub proof fn law_commands_have_their_effect(w: SettingsState, c: ConfigView, language: Language)
    ensures
        w.effect(Command::ChooseLanguage(language)) == AfterCommand::ApplyLanguage,
        w.effect(Command::Rescan) == AfterCommand::StartScan,
        !w.picking ==> w.effect(Command::PickFolder) == AfterCommand::OpenFolderDialog,
        w.picking ==> w.effect(Command::PickFolder) == AfterCommand::Nothing,
        w.after(c, Command::PickFolder).0.picking,
        w.after(c, Command::PickFolder).1 == c,
        w.after(c, Command::Rescan) == (w, c),
        w.after(c, Command::LowerFontScale) == (w, c),
        w.after(c, Command::RaiseFontScale) == (w, c),
        w.effect(Command::RaiseFontScale) == (AfterCommand::StepFontScale { up: true }),
        w.effect(Command::LowerFontScale) == (AfterCommand::StepFontScale { up: false }),
        w.effect(Command::AddAlias) == AfterCommand::Nothing,
        w.effect(Command::ToggleEverything) == AfterCommand::Nothing,
{
}

/// A row shows the setting that it changes, under the label for what it sets.
pub open spec fn row_fits(row: RowView, c: ConfigView, s: Strings) -> bool {
    match row {
        RowView::Checkbox { label, checked, command } => {
            ||| command == Command::ToggleAutostart && checked == c.autostart && label
                == s.label_autostart
            ||| command == Command::ToggleEverything && checked == c.everything_enabled && label
                == s.label_everything_enabled
        },
        RowView::Stepper { label, value, down, up } => {
            ||| up == Command::RaiseMaxResults && down == Command::LowerMaxResults && value
                == StepValue::Number(c.max_results) && label == s.label_max_results
            ||| up == Command::RaiseFontScale && down == Command::LowerFontScale && value
                == StepValue::FontScale(c.font_scale_bits) && label == s.label_font_size
        },
        RowView::Choice { label, selected, command } => match command {
            Command::ChooseLanguage(v) => selected == (c.language == v) && label == match v {
                Language::System => s.language_system,
                Language::En => s.language_en,
                Language::Ja => s.language_ja,
            },
            Command::ChooseDisplay(v) => selected == (c.display_target == v) && label == match v {
                DisplayTarget::Cursor => s.display_target_cursor,
                DisplayTarget::Primary => s.display_target_primary,
                DisplayTarget::FocusedWindow => s.display_target_focused,
            },
            Command::ChooseTheme(v) => selected == (c.theme == v) && label == match v {
                Theme::System => s.theme_system,
                Theme::Light => s.theme_light,
                Theme::Dark => s.theme_dark,
            },
            Command::ChooseFont(v) => selected == (c.ui_font == v) && label == match v {
                UiFont::SegoeUi => s.font_segoe_ui,
                UiFont::YuGothic => s.font_yu_gothic,
                UiFont::Meiryo => s.font_meiryo,
            },
            _ => false,
        },
        RowView::Swatch { name, color, selected, command } => match command {
            Command::ChooseAccent(v) => selected == (c.accent_color == v) && color == accent_value(
                v,
            ) && name == match v {
                AccentColor::Lime => s.accent_color_lime,
                AccentColor::Red => s.accent_color_red,
                AccentColor::Orange => s.accent_color_orange,
                AccentColor::Blue => s.accent_color_blue,
                AccentColor::Purple => s.accent_color_purple,
            },
            _ => false,
        },
        RowView::Item { primary, secondary, button, command } => button == s.button_delete
            && match command {
            Command::RemoveFolder(i) => i < c.index_folders.len() && primary
                == c.index_folders[i as int] && secondary is None,
            Command::RemovePattern(i) => i < c.exclude_patterns.len() && primary
                == c.exclude_patterns[i as int] && secondary is None,
            Command::RemoveAlias(i) => i < c.aliases.len() && primary == c.aliases[i as int].name
                && secondary == Some(
                if c.aliases[i as int].args.len() == 0 {
                    c.aliases[i as int].target
                } else {
                    c.aliases[i as int].target + "  "@ + c.aliases[i as int].args
                },
            ),
            Command::RemoveShortcut(i) => i < c.custom_windows_shortcuts.len() && primary
                == c.custom_windows_shortcuts[i as int].label && secondary == Some(
                c.custom_windows_shortcuts[i as int].uri,
            ),
            _ => false,
        },
        RowView::Input { caption, field } => caption == match field {
            Field::Hotkey => Some(s.label_hotkey),
            Field::NewPattern => None,
            Field::AliasName => Some(s.label_alias_name),
            Field::AliasTarget => Some(s.label_alias_target),
            Field::AliasArgs => Some(s.label_alias_args),
            Field::ShortcutLabel => Some(s.label_shortcut_label),
            Field::ShortcutUri => Some(s.label_shortcut_uri),
        },
        RowView::Button { label, enabled, command } => {
            ||| command == Command::PickFolder && label == s.button_add_folder
            ||| command == Command::AddPattern && label == s.button_add && enabled
            ||| command == Command::AddAlias && label == s.button_add_alias && enabled
            ||| command == Command::AddShortcut && label == s.button_add_shortcut && enabled
            ||| command == Command::Rescan && label == s.button_rescan_now
        },
        _ => true,
    }
}

/// Every row of every tab shows the setting that it changes, under its own label.
pub proof fn law_rows_show_their_settings(w: SettingsState, snapshot: AppSnapshot, i: int)
    requires
        0 <= i < w.rows(snapshot).len(),
        snapshot.config@.index_folders.len() <= usize::MAX,
        snapshot.config@.exclude_patterns.len() <= usize::MAX,
        snapshot.config@.aliases.len() <= usize::MAX,
        snapshot.config@.custom_windows_shortcuts.len() <= usize::MAX,
    ensures
        row_fits(w.rows(snapshot)[i], snapshot.config@, snapshot.strings),
{
    let c = snapshot.config@;
    let s = snapshot.strings;
    let rows = w.rows(snapshot);
    match w.tab {
        SettingsTab::Index => {
            let (f, p) = (folder_items(c.index_folders, s), pattern_items(c.exclude_patterns, s));
            let n = f.len() as int;
            let m = p.len() as int;
            if 2 <= i < 2 + n {
                assert(rows[i] == f[i - 2]);
            } else if 4 + n <= i < 4 + n + m {
                assert(rows[i] == p[i - 4 - n]);
            } else {
                assert(i < 2 || i == 2 + n || i == 3 + n || i == 4 + n + m || i == 5 + n + m || i
                    == 6 + n + m || i == 7 + n + m);
            }
        },
        SettingsTab::Aliases => {
            let items = alias_items(c.aliases, s);
            if 1 <= i < 1 + items.len() {
                assert(rows[i] == items[i - 1]);
            }
        },
        SettingsTab::WindowsShortcuts => {
            let items = shortcut_items(c.custom_windows_shortcuts, s);
            if 1 <= i < 1 + items.len() {
                assert(rows[i] == items[i - 1]);
            }
        },
        _ => {},
    }
}

/// The list tabs show every item of their lists, in order, with the button that removes
/// it.
pub proof fn law_lists_are_shown(c: ConfigView, s: Strings, i: int)
    ensures
        0 <= i < c.aliases.len() ==> alias_rows(c, s)[1 + i] == (RowView::Item {
            primary: c.aliases[i].name,
            secondary: Some(alias_line(c.aliases[i])),
            button: s.button_delete,
            command: Command::RemoveAlias(i as usize),
        }),
        0 <= i < c.custom_windows_shortcuts.len() ==> shortcut_rows(c, s)[1 + i] == (
        RowView::Item {
            primary: c.custom_windows_shortcuts[i].label,
            secondary: Some(c.custom_windows_shortcuts[i].uri),
            button: s.button_delete,
            command: Command::RemoveShortcut(i as usize),
        }),
        alias_rows(c, s).len() == c.aliases.len() + 5,
        alias_rows(c, s).last() == (RowView::Button {
            label: s.button_add_alias,
            enabled: true,
            command: Command::AddAlias,
        }),
        shortcut_rows(c, s).len() == c.custom_windows_shortcuts.len() + 4,
        shortcut_rows(c, s).last() == (RowView::Button {
            label: s.button_add_shortcut,
            enabled: true,
            command: Command::AddShortcut,
        }),
{
}

/// The index tab shows the folders and the patterns, each with the button that removes
/// it, offers to add and to rescan, except while one is being picked or a scan runs, and
/// tells of the last scan, if there was one.
pub proof fn law_index_tab(
    c: ConfigView,
    s: Strings,
    picking: bool,
    scanning: bool,
    minutes: Option<u64>,
    count: usize,
    i: int,
)
    ensures
        ({
            let rows = index_rows(c, s, picking, scanning, minutes, count);
            let (n, m) = (c.index_folders.len() as int, c.exclude_patterns.len() as int);
            &&& 0 <= i < n ==> rows[2 + i] == (RowView::Item {
                primary: c.index_folders[i],
                secondary: None,
                button: s.button_delete,
                command: Command::RemoveFolder(i as usize),
            })
            &&& 0 <= i < m ==> rows[4 + n + i] == (RowView::Item {
                primary: c.exclude_patterns[i],
                secondary: None,
                button: s.button_delete,
                command: Command::RemovePattern(i as usize),
            })
            &&& rows[2 + n] == (RowView::Button {
                label: s.button_add_folder,
                enabled: !picking,
                command: Command::PickFolder,
            })
            &&& rows[4 + n + m] == (RowView::Input { caption: None, field: Field::NewPattern })
            &&& rows[5 + n + m] == (RowView::Button {
                label: s.button_add,
                enabled: true,
                command: Command::AddPattern,
            })
            &&& rows[6 + n + m] == (RowView::Button {
                label: s.button_rescan_now,
                enabled: !scanning,
                command: Command::Rescan,
            })
            &&& scanning ==> rows.len() == 8 + n + m && rows.last() == RowView::Status(s.scanning@)
            &&& !scanning && minutes is None ==> rows.len() == 7 + n + m
            &&& !scanning && minutes is Some ==> rows.len() == 8 + n + m && rows.last()
                == RowView::Status(last_scan(s.lang, minutes->0 as nat, count as nat))
        }),
{
    let (f, p) = (folder_items(c.index_folders, s), pattern_items(c.exclude_patterns, s));
    let rows = index_rows(c, s, picking, scanning, minutes, count);
    let (n, m) = (f.len() as int, p.len() as int);
    if 0 <= i < n {
        assert(rows[2 + i] == f[i]);
    }
    if 0 <= i < m {
        assert(rows[4 + n + i] == p[i]);
    }
}

/// The general tab offers every language and every display, the number of results, the
/// hotkey and the start with Windows; the appearance tab every theme, accent and
/// typeface, and the font size; and the last tab the file search.
pub proof fn law_every_option_is_offered(
    c: ConfigView,
    s: Strings,
    language: Language,
    display: DisplayTarget,
    theme: Theme,
    accent: AccentColor,
    font: UiFont,
)
    ensures
        exists|i: int|
            0 <= i < general_rows(c, s).len() && ((#[trigger] general_rows(
                c,
                s,
            )[i]) matches RowView::Choice { command, .. } && command == Command::ChooseLanguage(
                language,
            )),
        exists|i: int|
            0 <= i < general_rows(c, s).len() && ((#[trigger] general_rows(
                c,
                s,
            )[i]) matches RowView::Choice { command, .. } && command == Command::ChooseDisplay(
                display,
            )),
        exists|i: int|
            0 <= i < general_rows(c, s).len() && ((#[trigger] general_rows(
                c,
                s,
            )[i]) matches RowView::Stepper { up, .. } && up == Command::RaiseMaxResults),
        exists|i: int|
            0 <= i < general_rows(c, s).len() && ((#[trigger] general_rows(
                c,
                s,
            )[i]) matches RowView::Input { field, .. } && field == Field::Hotkey),
        exists|i: int|
            0 <= i < general_rows(c, s).len() && ((#[trigger] general_rows(
                c,
                s,
            )[i]) matches RowView::Checkbox { command, .. } && command
                == Command::ToggleAutostart),
        exists|i: int|
            0 <= i < appearance_rows(c, s).len() && ((#[trigger] appearance_rows(
                c,
                s,
            )[i]) matches RowView::Choice { command, .. } && command == Command::ChooseTheme(
                theme,
            )),
        exists|i: int|
            0 <= i < appearance_rows(c, s).len() && ((#[trigger] appearance_rows(
                c,
                s,
            )[i]) matches RowView::Swatch { command, .. } && command == Command::ChooseAccent(
                accent,
            )),
        exists|i: int|
            0 <= i < appearance_rows(c, s).len() && ((#[trigger] appearance_rows(
                c,
                s,
            )[i]) matches RowView::Choice { command, .. } && command == Command::ChooseFont(font)),
        exists|i: int|
            0 <= i < appearance_rows(c, s).len() && ((#[trigger] appearance_rows(
                c,
                s,
            )[i]) matches RowView::Stepper { up, .. } && up == Command::RaiseFontScale),
        exists|i: int|
            0 <= i < everything_rows(c, s).len() && ((#[trigger] everything_rows(
                c,
                s,
            )[i]) matches RowView::Checkbox { command, .. } && command
                == Command::ToggleEverything),
{
    let g = general_rows(c, s);
    let a = appearance_rows(c, s);
    let e = everything_rows(c, s);
    assert(g[1] is Checkbox && g[2] is Input && g[3] is Stepper);
    assert(g[5] is Choice && g[6] is Choice && g[7] is Choice);
    assert(g[9] is Choice && g[10] is Choice && g[11] is Choice);
    assert(a[2] is Choice && a[3] is Choice && a[4] is Choice);
    assert(a[6] is Swatch && a[7] is Swatch && a[8] is Swatch && a[9] is Swatch && a[10] is Swatch);
    assert(a[12] is Choice && a[13] is Choice && a[14] is Choice && a[15] is Stepper);
    assert(e[2] is Checkbox);
}

/// The sidebar leads to every tab by its own name, and to the file search exactly while
/// it can be reached; the entry of the shown tab is marked.
pub proof fn law_sidebar(s: Strings, current: SettingsTab, everything: bool, i: int)
    requires
        0 <= i < nav_items(s, current, everything).len(),
    ensures
        nav_items(s, current, everything).len() == if everything {
            6nat
        } else {
            5nat
        },
        ({
            let item = nav_items(s, current, everything)[i];
            &&& item.tab == seq![
                SettingsTab::General,
                SettingsTab::Appearance,
                SettingsTab::Index,
                SettingsTab::Aliases,
                SettingsTab::WindowsShortcuts,
                SettingsTab::Everything,
            ][i]
            &&& item.selected == (item.tab == current)
            &&& item.label == match item.tab {
                SettingsTab::General => s.section_general,
                SettingsTab::Appearance => s.section_appearance,
                SettingsTab::Index => s.section_index,
                SettingsTab::Aliases => s.section_aliases,
                SettingsTab::WindowsShortcuts => s.section_windows_shortcuts,
                SettingsTab::Everything => s.section_everything,
            }
        }),
{
}

/// Every tab shows its own rows, below its own heading.
pub proof fn law_tabs_show_their_rows(w: SettingsState, snapshot: AppSnapshot)
    ensures
        ({
            let (c, s) = (snapshot.config@, snapshot.strings);
            let rows = w.rows(snapshot);
            &&& w.tab == SettingsTab::General ==> rows == general_rows(c, s) && rows[0]
                == RowView::Heading(s.section_general) && rows[4] == RowView::Label(
                s.label_language,
            ) && rows[8] == RowView::Label(s.label_display_target) && rows.len() == 12
            &&& w.tab == SettingsTab::Appearance ==> rows == appearance_rows(c, s) && rows[0]
                == RowView::Heading(s.section_appearance) && rows[1] == RowView::Label(
                s.label_theme,
            ) && rows[5] == RowView::Label(s.label_accent_color) && rows[11] == RowView::Label(
                s.label_font,
            ) && rows.len() == 16
            &&& w.tab == SettingsTab::Index ==> rows == index_rows(
                c,
                s,
                w.picking,
                snapshot.scanning,
                snapshot.minutes_since_scan,
                snapshot.last_scan_count,
            ) && rows[0] == RowView::Heading(s.section_index) && rows[1] == RowView::Label(
                s.label_custom_folders,
            ) && rows[3 + c.index_folders.len() as int] == RowView::Label(s.label_exclude_patterns)
            &&& w.tab == SettingsTab::Aliases ==> rows == alias_rows(c, s) && rows[0]
                == RowView::Heading(s.section_aliases)
            &&& w.tab == SettingsTab::WindowsShortcuts ==> rows == shortcut_rows(c, s) && rows[0]
                == RowView::Heading(s.section_windows_shortcuts)
            &&& w.tab == SettingsTab::Everything ==> rows == everything_rows(c, s) && rows[0]
                == RowView::Heading(s.section_everything) && rows[1] == RowView::Note(
                s.everything_connected,
            ) && rows.len() == 3
        }),
{
}

/// The fields for a new alias and for a new settings page come in their order.
pub proof fn law_fields_for_new_entries(c: ConfigView, s: Strings)
    ensures
        ({
            let (rows, n) = (alias_rows(c, s), c.aliases.len() as int);
            &&& rows[n + 1] is Input && rows[n + 1]->field == Field::AliasName
            &&& rows[n + 2] is Input && rows[n + 2]->field == Field::AliasTarget
            &&& rows[n + 3] is Input && rows[n + 3]->field == Field::AliasArgs
        }),
        ({
            let (rows, n) = (shortcut_rows(c, s), c.custom_windows_shortcuts.len() as int);
            &&& rows[n + 1] is Input && rows[n + 1]->field == Field::ShortcutLabel
            &&& rows[n + 2] is Input && rows[n + 2]->field == Field::ShortcutUri
        }),
{
}

} // verus!
