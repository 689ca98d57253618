//! The texts of the user interface, in two languages.

use vstd::prelude::*;

use crate::config::Language;

verus! {

#[derive(Clone, Copy, PartialEq, Eq, Structural, Debug)]
pub enum Lang {
    En,
    Ja,
}

/// The primary language identifier of Japanese in a Windows language identifier.
pub const LANG_JAPANESE: u16 = 0x11;

/// The bits of a Windows language identifier that hold the primary language.
pub const PRIMARY_LANGUAGE_MASK: u16 = 0x3FF;

/// The language of a Windows display language.
pub open spec fn system_lang(langid: u16) -> Lang {
    if langid & PRIMARY_LANGUAGE_MASK == LANG_JAPANESE {
        Lang::Ja
    } else {
        Lang::En
    }
}

/// The language that a setting stands for.
pub open spec fn lang_for(setting: Language, langid: u16) -> Lang {
    match setting {
        Language::En => Lang::En,
        Language::Ja => Lang::Ja,
        Language::System => system_lang(langid),
    }
}

/// The language to use, given the display language of Windows.
pub fn resolve(setting: Language, langid: u16) -> (r: Lang)
    ensures
        r == lang_for(setting, langid),
{
    match setting {
        Language::En => Lang::En,
        Language::Ja => Lang::Ja,
        Language::System => detect_system_lang(langid),
    }
}

/// Japanese for a Japanese display language, else English.
pub fn detect_system_lang(langid: u16) -> (r: Lang)
    ensures
        r == system_lang(langid),
{
    if langid & PRIMARY_LANGUAGE_MASK == LANG_JAPANESE {
        Lang::Ja
    } else {
        Lang::En
    }
}

/// Every text, in one language.
#[derive(Clone, Copy, Debug)]
pub struct Strings {
    pub lang: Lang,
    pub tray_open: &'static str,
    pub tray_settings: &'static str,
    pub tray_reindex: &'static str,
    pub tray_reindex_scanning: &'static str,
    pub tray_about: &'static str,
    pub tray_quit: &'static str,
    pub tray_tooltip_scanning: &'static str,
    pub search_hint: &'static str,
    pub windows_settings_subtitle: &'static str,
    pub action_run: &'static str,
    pub action_run_as_admin: &'static str,
    pub action_open_location: &'static str,
    pub action_copy_path: &'static str,
    pub action_register_alias: &'static str,
    pub action_pin: &'static str,
    pub action_unpin: &'static str,
    pub settings_title: &'static str,
    pub section_general: &'static str,
    pub section_appearance: &'static str,
    pub section_index: &'static str,
    pub section_aliases: &'static str,
    pub section_windows_shortcuts: &'static str,
    pub section_everything: &'static str,
    pub label_autostart: &'static str,
    pub label_hotkey: &'static str,
    pub label_language: &'static str,
    pub language_system: &'static str,
    pub language_en: &'static str,
    pub language_ja: &'static str,
    pub label_max_results: &'static str,
    pub label_display_target: &'static str,
    pub display_target_cursor: &'static str,
    pub display_target_primary: &'static str,
    pub display_target_focused: &'static str,
    pub label_theme: &'static str,
    pub theme_light: &'static str,
    pub theme_dark: &'static str,
    pub theme_system: &'static str,
    pub label_accent_color: &'static str,
    pub accent_color_lime: &'static str,
    pub accent_color_red: &'static str,
    pub accent_color_orange: &'static str,
    pub accent_color_blue: &'static str,
    pub accent_color_purple: &'static str,
    pub label_font_size: &'static str,
    pub label_font: &'static str,
    pub font_segoe_ui: &'static str,
    pub font_yu_gothic: &'static str,
    pub font_meiryo: &'static str,
    pub label_custom_folders: &'static str,
    pub button_add_folder: &'static str,
    pub button_remove: &'static str,
    pub label_exclude_patterns: &'static str,
    pub exclude_pattern_placeholder: &'static str,
    pub button_add: &'static str,
    pub button_rescan_now: &'static str,
    pub scanning: &'static str,
    pub label_alias_name: &'static str,
    pub label_alias_target: &'static str,
    pub label_alias_args: &'static str,
    pub button_add_alias: &'static str,
    pub button_delete: &'static str,
    pub label_shortcut_label: &'static str,
    pub label_shortcut_uri: &'static str,
    pub button_add_shortcut: &'static str,
    pub label_everything_enabled: &'static str,
    pub everything_connected: &'static str,
    pub button_save: &'static str,
    pub button_close: &'static str,
    pub about_title: &'static str,
    pub about_close: &'static str,
    pub tool_color_picker: &'static str,
    pub tool_unit_converter: &'static str,
    pub tool_history: &'static str,
    pub history_empty: &'static str,
    pub tool_eyedropper: &'static str,
    pub eyedropper_hint: &'static str,
    pub label_hex: &'static str,
    pub label_rgb: &'static str,
    pub label_hsl: &'static str,
    pub unit_length: &'static str,
    pub unit_mass: &'static str,
    pub unit_temperature: &'static str,
    pub unit_area: &'static str,
    pub unit_volume: &'static str,
    pub unit_speed: &'static str,
    pub unit_time: &'static str,
    pub unit_data: &'static str,
}

/// The texts in English.
pub open spec fn english() -> Strings {
    Strings {
        lang: Lang::En,
        tray_open: "Open Issen",
        tray_settings: "Settings",
        tray_reindex: "Rebuild Index",
        tray_reindex_scanning: "Rebuilding Index…",
        tray_about: "About",
        tray_quit: "Quit",
        tray_tooltip_scanning: "Issen - Rebuilding index…",
        search_hint: "Search apps, files, commands…",
        windows_settings_subtitle: "Windows Settings",
        action_run: "Run",
        action_run_as_admin: "Run as administrator",
        action_open_location: "Open file location",
        action_copy_path: "Copy path",
        action_register_alias: "Register as alias",
        action_pin: "Pin to top results",
        action_unpin: "Unpin from top results",
        settings_title: "Issen Settings",
        section_general: "General",
        section_appearance: "Appearance",
        section_index: "Index",
        section_aliases: "Command Aliases",
        section_windows_shortcuts: "Windows Settings Shortcuts",
        section_everything: "Everything Integration",
        label_autostart: "Launch Issen when Windows starts",
        label_hotkey: "Global hotkey",
        label_language: "Display language",
        language_system: "Match Windows",
        language_en: "English",
        language_ja: "日本語",
        label_max_results: "Maximum results shown",
        label_display_target: "Show launcher on",
        display_target_cursor: "The display the mouse cursor is on",
        display_target_primary: "The primary display",
        display_target_focused: "The display of the focused window",
        label_theme: "Theme",
        theme_light: "Light",
        theme_dark: "Dark",
        theme_system: "Match Windows",
        label_accent_color: "Accent color",
        accent_color_lime: "Lime",
        accent_color_red: "Red",
        accent_color_orange: "Orange",
        accent_color_blue: "Blue",
        accent_color_purple: "Purple",
        label_font_size: "Font size",
        label_font: "Font",
        font_segoe_ui: "Segoe UI (default)",
        font_yu_gothic: "Yu Gothic",
        font_meiryo: "Meiryo",
        label_custom_folders: "Custom folders to index",
        button_add_folder: "Add folder…",
        button_remove: "Remove",
        label_exclude_patterns: "Exclude patterns (regular expressions)",
        exclude_pattern_placeholder: "e.g. ^(Uninstall|Update)",
        button_add: "Add",
        button_rescan_now: "Rescan now",
        scanning: "Scanning…",
        label_alias_name: "Name",
        label_alias_target: "Target",
        label_alias_args: "Arguments",
        button_add_alias: "Add alias",
        button_delete: "Delete",
        label_shortcut_label: "Display name",
        label_shortcut_uri: "ms-settings: URI",
        button_add_shortcut: "Add shortcut",
        label_everything_enabled: "Enable Everything search",
        everything_connected: "Connected to Everything",
        button_save: "Save",
        button_close: "Close",
        about_title: "About Issen",
        about_close: "Close",
        tool_color_picker: "Color Picker",
        tool_unit_converter: "Unit Converter",
        tool_history: "Search history",
        history_empty: "No search history yet",
        tool_eyedropper: "Eyedropper",
        eyedropper_hint: "Move the cursor over any pixel on screen, then press Enter to pick it (Esc to cancel)",
        label_hex: "Hex",
        label_rgb: "RGB",
        label_hsl: "HSL",
        unit_length: "Length",
        unit_mass: "Mass",
        unit_temperature: "Temperature",
        unit_area: "Area",
        unit_volume: "Volume",
        unit_speed: "Speed",
        unit_time: "Time",
        unit_data: "Data size",
    }
}

fn english_strings() -> (r: Strings)
    ensures
        r == english(),
{
    Strings {
        lang: Lang::En,
        tray_open: "Open Issen",
        tray_settings: "Settings",
        tray_reindex: "Rebuild Index",
        tray_reindex_scanning: "Rebuilding Index…",
        tray_about: "About",
        tray_quit: "Quit",
        tray_tooltip_scanning: "Issen - Rebuilding index…",
        search_hint: "Search apps, files, commands…",
        windows_settings_subtitle: "Windows Settings",
        action_run: "Run",
        action_run_as_admin: "Run as administrator",
        action_open_location: "Open file location",
        action_copy_path: "Copy path",
        action_register_alias: "Register as alias",
        action_pin: "Pin to top results",
        action_unpin: "Unpin from top results",
        settings_title: "Issen Settings",
        section_general: "General",
        section_appearance: "Appearance",
        section_index: "Index",
        section_aliases: "Command Aliases",
        section_windows_shortcuts: "Windows Settings Shortcuts",
        section_everything: "Everything Integration",
        label_autostart: "Launch Issen when Windows starts",
        label_hotkey: "Global hotkey",
        label_language: "Display language",
        language_system: "Match Windows",
        language_en: "English",
        language_ja: "日本語",
        label_max_results: "Maximum results shown",
        label_display_target: "Show launcher on",
        display_target_cursor: "The display the mouse cursor is on",
        display_target_primary: "The primary display",
        display_target_focused: "The display of the focused window",
        label_theme: "Theme",
        theme_light: "Light",
        theme_dark: "Dark",
        theme_system: "Match Windows",
        label_accent_color: "Accent color",
        accent_color_lime: "Lime",
        accent_color_red: "Red",
        accent_color_orange: "Orange",
        accent_color_blue: "Blue",
        accent_color_purple: "Purple",
        label_font_size: "Font size",
        label_font: "Font",
        font_segoe_ui: "Segoe UI (default)",
        font_yu_gothic: "Yu Gothic",
        font_meiryo: "Meiryo",
        label_custom_folders: "Custom folders to index",
        button_add_folder: "Add folder…",
        button_remove: "Remove",
        label_exclude_patterns: "Exclude patterns (regular expressions)",
        exclude_pattern_placeholder: "e.g. ^(Uninstall|Update)",
        button_add: "Add",
        button_rescan_now: "Rescan now",
        scanning: "Scanning…",
        label_alias_name: "Name",
        label_alias_target: "Target",
        label_alias_args: "Arguments",
        button_add_alias: "Add alias",
        button_delete: "Delete",
        label_shortcut_label: "Display name",
        label_shortcut_uri: "ms-settings: URI",
        button_add_shortcut: "Add shortcut",
        label_everything_enabled: "Enable Everything search",
        everything_connected: "Connected to Everything",
        button_save: "Save",
        button_close: "Close",
        about_title: "About Issen",
        about_close: "Close",
        tool_color_picker: "Color Picker",
        tool_unit_converter: "Unit Converter",
        tool_history: "Search history",
        history_empty: "No search history yet",
        tool_eyedropper: "Eyedropper",
        eyedropper_hint: "Move the cursor over any pixel on screen, then press Enter to pick it (Esc to cancel)",
        label_hex: "Hex",
        label_rgb: "RGB",
        label_hsl: "HSL",
        unit_length: "Length",
        unit_mass: "Mass",
        unit_temperature: "Temperature",
        unit_area: "Area",
        unit_volume: "Volume",
        unit_speed: "Speed",
        unit_time: "Time",
        unit_data: "Data size",
    }
}

/// The texts in Japanese.
pub open spec fn japanese() -> Strings {
    Strings {
        lang: Lang::Ja,
        tray_open: "Issenを開く",
        tray_settings: "設定",
        tray_reindex: "インデックスを再構築",
        tray_reindex_scanning: "インデックスを再構築中…",
        tray_about: "バージョン情報",
        tray_quit: "終了",
        tray_tooltip_scanning: "Issen - インデックスを再構築中…",
        search_hint: "アプリケーション、ファイル、コマンドを検索…",
        windows_settings_subtitle: "Windows設定",
        action_run: "実行",
        action_run_as_admin: "管理者として実行",
        action_open_location: "ファイルの場所を開く",
        action_copy_path: "パスをコピー",
        action_register_alias: "エイリアスとして登録",
        action_pin: "上位表示にピン留め",
        action_unpin: "上位表示のピン留めを解除",
        settings_title: "Issenの設定",
        section_general: "一般",
        section_appearance: "外観",
        section_index: "インデックス",
        section_aliases: "コマンドエイリアス",
        section_windows_shortcuts: "Windows設定ショートカット",
        section_everything: "Everything連携",
        label_autostart: "Windowsスタートアップ時に自動起動する",
        label_hotkey: "グローバルホットキー",
        label_language: "表示言語",
        language_system: "システムに合わせる",
        language_en: "English",
        language_ja: "日本語",
        label_max_results: "検索結果の最大表示件数",
        label_display_target: "結果ウィンドウを表示するディスプレイ",
        display_target_cursor: "マウスカーソルのあるディスプレイ",
        display_target_primary: "プライマリディスプレイ",
        display_target_focused: "フォーカス中のウィンドウのディスプレイ",
        label_theme: "テーマ",
        theme_light: "ライト",
        theme_dark: "ダーク",
        theme_system: "システムに合わせる",
        label_accent_color: "アクセントカラー",
        accent_color_lime: "ライム",
        accent_color_red: "レッド",
        accent_color_orange: "オレンジ",
        accent_color_blue: "ブルー",
        accent_color_purple: "パープル",
        label_font_size: "フォントサイズ",
        label_font: "フォント",
        font_segoe_ui: "Segoe UI(既定)",
        font_yu_gothic: "游ゴシック",
        font_meiryo: "メイリオ",
        label_custom_folders: "インデックス対象のカスタムフォルダ",
        button_add_folder: "フォルダを追加…",
        button_remove: "削除",
        label_exclude_patterns: "除外パターン(正規表現)",
        exclude_pattern_placeholder: "例: ^(Uninstall|Update)",
        button_add: "追加",
        button_rescan_now: "今すぐ再構築",
        scanning: "スキャン中…",
        label_alias_name: "名前",
        label_alias_target: "実行対象",
        label_alias_args: "引数",
        button_add_alias: "エイリアスを追加",
        button_delete: "削除",
        label_shortcut_label: "表示名",
        label_shortcut_uri: "ms-settings: のURI",
        button_add_shortcut: "ショートカットを追加",
        label_everything_enabled: "Everything検索を有効にする",
        everything_connected: "Everythingに接続しました",
        button_save: "保存",
        button_close: "閉じる",
        about_title: "Issenについて",
        about_close: "閉じる",
        tool_color_picker: "カラーピッカー",
        tool_unit_converter: "単位コンバーター",
        tool_history: "検索履歴",
        history_empty: "検索履歴はまだありません",
        tool_eyedropper: "スポイト",
        eyedropper_hint: "画面上の好きな場所にカーソルを合わせてEnterで確定(Escでキャンセル)",
        label_hex: "Hex",
        label_rgb: "RGB",
        label_hsl: "HSL",
        unit_length: "長さ",
        unit_mass: "質量",
        unit_temperature: "温度",
        unit_area: "面積",
        unit_volume: "体積",
        unit_speed: "速度",
        unit_time: "時間",
        unit_data: "情報量",
    }
}

fn japanese_strings() -> (r: Strings)
    ensures
        r == japanese(),
{
    Strings {
        lang: Lang::Ja,
        tray_open: "Issenを開く",
        tray_settings: "設定",
        tray_reindex: "インデックスを再構築",
        tray_reindex_scanning: "インデックスを再構築中…",
        tray_about: "バージョン情報",
        tray_quit: "終了",
        tray_tooltip_scanning: "Issen - インデックスを再構築中…",
        search_hint: "アプリケーション、ファイル、コマンドを検索…",
        windows_settings_subtitle: "Windows設定",
        action_run: "実行",
        action_run_as_admin: "管理者として実行",
        action_open_location: "ファイルの場所を開く",
        action_copy_path: "パスをコピー",
        action_register_alias: "エイリアスとして登録",
        action_pin: "上位表示にピン留め",
        action_unpin: "上位表示のピン留めを解除",
        settings_title: "Issenの設定",
        section_general: "一般",
        section_appearance: "外観",
        section_index: "インデックス",
        section_aliases: "コマンドエイリアス",
        section_windows_shortcuts: "Windows設定ショートカット",
        section_everything: "Everything連携",
        label_autostart: "Windowsスタートアップ時に自動起動する",
        label_hotkey: "グローバルホットキー",
        label_language: "表示言語",
        language_system: "システムに合わせる",
        language_en: "English",
        language_ja: "日本語",
        label_max_results: "検索結果の最大表示件数",
        label_display_target: "結果ウィンドウを表示するディスプレイ",
        display_target_cursor: "マウスカーソルのあるディスプレイ",
        display_target_primary: "プライマリディスプレイ",
        display_target_focused: "フォーカス中のウィンドウのディスプレイ",
        label_theme: "テーマ",
        theme_light: "ライト",
        theme_dark: "ダーク",
        theme_system: "システムに合わせる",
        label_accent_color: "アクセントカラー",
        accent_color_lime: "ライム",
        accent_color_red: "レッド",
        accent_color_orange: "オレンジ",
        accent_color_blue: "ブルー",
        accent_color_purple: "パープル",
        label_font_size: "フォントサイズ",
        label_font: "フォント",
        font_segoe_ui: "Segoe UI(既定)",
        font_yu_gothic: "游ゴシック",
        font_meiryo: "メイリオ",
        label_custom_folders: "インデックス対象のカスタムフォルダ",
        button_add_folder: "フォルダを追加…",
        button_remove: "削除",
        label_exclude_patterns: "除外パターン(正規表現)",
        exclude_pattern_placeholder: "例: ^(Uninstall|Update)",
        button_add: "追加",
        button_rescan_now: "今すぐ再構築",
        scanning: "スキャン中…",
        label_alias_name: "名前",
        label_alias_target: "実行対象",
        label_alias_args: "引数",
        button_add_alias: "エイリアスを追加",
        button_delete: "削除",
        label_shortcut_label: "表示名",
        label_shortcut_uri: "ms-settings: のURI",
        button_add_shortcut: "ショートカットを追加",
        label_everything_enabled: "Everything検索を有効にする",
        everything_connected: "Everythingに接続しました",
        button_save: "保存",
        button_close: "閉じる",
        about_title: "Issenについて",
        about_close: "閉じる",
        tool_color_picker: "カラーピッカー",
        tool_unit_converter: "単位コンバーター",
        tool_history: "検索履歴",
        history_empty: "検索履歴はまだありません",
        tool_eyedropper: "スポイト",
        eyedropper_hint: "画面上の好きな場所にカーソルを合わせてEnterで確定(Escでキャンセル)",
        label_hex: "Hex",
        label_rgb: "RGB",
        label_hsl: "HSL",
        unit_length: "長さ",
        unit_mass: "質量",
        unit_temperature: "温度",
        unit_area: "面積",
        unit_volume: "体積",
        unit_speed: "速度",
        unit_time: "時間",
        unit_data: "情報量",
    }
}

impl Strings {
    /// The texts of a language.
    pub fn for_lang(lang: Lang) -> (r: Strings)
        ensures
            r == strings_in(lang),
    {
        match lang {
            Lang::En => english_strings(),
            Lang::Ja => japanese_strings(),
        }
    }
}

/// The texts of a language.
pub open spec fn strings_in(lang: Lang) -> Strings {
    match lang {
        Lang::En => english(),
        Lang::Ja => japanese(),
    }
}

/// The language of a set of texts.
pub fn lang_of(strings: &Strings) -> (r: Lang)
    ensures
        r == strings.lang,
{
    strings.lang
}

/// The texts of a language know their language.
pub proof fn law_lang_of_strings(lang: Lang)
    ensures
        strings_in(lang).lang == lang,
{
}

/// A decimal digit.
pub open spec fn digit(d: nat) -> char {
    (('0' as u32) + d) as char
}

/// A number in decimal, without leading zeros.
pub open spec fn decimal_of(n: nat) -> Seq<char>
    decreases n,
{
    if n < 10 {
        seq![digit(n)]
    } else {
        decimal_of(n / 10).push(digit(n % 10))
    }
}

/// A number in decimal.
pub fn decimal(n: u64) -> (r: String)
    ensures
        r@ == decimal_of(n as nat),
    decreases n,
{
    let d: u8 = 48 + (n % 10) as u8;
    let mut r = if n < 10 {
        String::new()
    } else {
        decimal(n / 10)
    };
    r.push(d as char);
    assert(r@ =~= decimal_of(n as nat));
    r
}

/// How long ago the index was updated, and what it holds.
pub open spec fn last_scan(lang: Lang, minutes_ago: nat, count: nat) -> Seq<char> {
    match lang {
        Lang::En => "Last updated "@ + decimal_of(minutes_ago) + " min ago · "@ + decimal_of(count)
            + " apps found"@,
        Lang::Ja => "最終更新: "@ + decimal_of(minutes_ago) + "分前・"@ + decimal_of(count)
            + "件のアプリを検出"@,
    }
}

/// The text about the last index update.
pub fn last_scan_text(lang: Lang, minutes_ago: u64, count: usize) -> (r: String)
    ensures
        r@ == last_scan(lang, minutes_ago as nat, count as nat),
{
    let minutes = decimal(minutes_ago);
    let apps = decimal(count as u64);
    let (head, middle, tail) = match lang {
        Lang::En => ("Last updated ", " min ago · ", " apps found"),
        Lang::Ja => ("最終更新: ", "分前・", "件のアプリを検出"),
    };
    let mut r = head.to_owned();
    r.append(minutes.as_str());
    r.append(middle);
    r.append(apps.as_str());
    r.append(tail);
    r
}

/// The version, as the about window shows it.
pub open spec fn about_version(lang: Lang, version: Seq<char>) -> Seq<char> {
    match lang {
        Lang::En => "Version "@ + version,
        Lang::Ja => "バージョン "@ + version,
    }
}

/// The text about the version.
pub fn about_version_text(lang: Lang, version: &str) -> (r: String)
    ensures
        r@ == about_version(lang, version@),
{
    let head = match lang {
        Lang::En => "Version ",
        Lang::Ja => "バージョン ",
    };
    let mut r = head.to_owned();
    r.append(version);
    r
}

/// The language of Windows is Japanese where its primary language, the lowest ten bits
/// of the identifier, is; every other language gets English. A chosen language does not
/// depend on Windows.
pub proof fn law_language_follows_windows(langid: u16)
    ensures
        lang_for(Language::System, langid) == Lang::Ja <==> langid % 0x400 == 0x11,
        lang_for(Language::En, langid) == Lang::En,
        lang_for(Language::Ja, langid) == Lang::Ja,
{
    assert(langid & 0x3FF == langid % 0x400) by (bit_vector);
}

/// The number that decimal digits stand for.
pub open spec fn number_of(s: Seq<char>) -> int
    decreases s.len(),
{
    if s.len() == 0 {
        0
    } else {
        number_of(s.drop_last()) * 10 + (s.last() as u32 - 48)
    }
}

/// A number in decimal consists of digits that stand for the number, and does not start
/// with a zero, except for zero itself.
pub proof fn law_decimal_stands_for_the_number(n: nat)
    ensures
        number_of(decimal_of(n)) == n,
        decimal_of(n).len() > 0,
        forall|i: int|
            0 <= i < decimal_of(n).len() ==> '0' <= #[trigger] decimal_of(n)[i] && decimal_of(n)[i]
                <= '9',
        n > 0 ==> decimal_of(n)[0] != '0',
        n == 0 ==> decimal_of(n).len() == 1,
    decreases n,
{
    let d = (n % 10) as nat;
    vstd::utf8::char_u32_cast(digit(d), (48 + d) as u32);
    reveal_with_fuel(number_of, 2);
    let s = decimal_of(n);
    if n >= 10 {
        let front = decimal_of(n / 10);
        law_decimal_stands_for_the_number(n / 10);
        assert(s.drop_last() =~= front);
        assert forall|i: int| 0 <= i < s.len() implies '0' <= #[trigger] s[i] && s[i] <= '9' by {
            if i < front.len() {
                assert(s[i] == front[i]);
            }
        }
        assert(s[0] == front[0]);
    } else {
        assert(s.drop_last() =~= Seq::<char>::empty());
    }
}

/// The texts about a scan and about the version name what they are told, in the language.
pub proof fn law_texts_name_what_they_are_told(minutes: nat, count: nat, version: Seq<char>)
    ensures
        exists|m: Seq<char>, c: Seq<char>|
            number_of(m) == minutes && number_of(c) == count && last_scan(
                Lang::En,
                minutes,
                count,
            ) == #[trigger] ("Last updated "@ + m + " min ago · "@ + c + " apps found"@),
        exists|m: Seq<char>, c: Seq<char>|
            number_of(m) == minutes && number_of(c) == count && last_scan(
                Lang::Ja,
                minutes,
                count,
            ) == #[trigger] ("最終更新: "@ + m + "分前・"@ + c + "件のアプリを検出"@),
        about_version(Lang::En, version) == "Version "@ + version,
        about_version(Lang::Ja, version) == "バージョン "@ + version,
{
    law_decimal_stands_for_the_number(minutes);
    law_decimal_stands_for_the_number(count);
    let (m, c) = (decimal_of(minutes), decimal_of(count));
    assert(last_scan(Lang::En, minutes, count) == "Last updated "@ + m + " min ago · "@ + c
        + " apps found"@);
    assert(last_scan(Lang::Ja, minutes, count) == "最終更新: "@ + m + "分前・"@ + c
        + "件のアプリを検出"@);
}

/// What the English user interface says.
pub proof fn law_english_texts()
    ensures
        ({
            let s = strings_in(Lang::En);
            &&& s.tray_open == "Open Issen"
            &&& s.tray_settings == "Settings"
            &&& s.tray_reindex == "Rebuild Index"
            &&& s.tray_reindex_scanning == "Rebuilding Index…"
            &&& s.tray_about == "About"
            &&& s.tray_quit == "Quit"
            &&& s.tray_tooltip_scanning == "Issen - Rebuilding index…"
            &&& s.search_hint == "Search apps, files, commands…"
            &&& s.windows_settings_subtitle == "Windows Settings"
            &&& s.action_run == "Run"
            &&& s.action_run_as_admin == "Run as administrator"
            &&& s.action_open_location == "Open file location"
            &&& s.action_copy_path == "Copy path"
            &&& s.action_register_alias == "Register as alias"
            &&& s.action_pin == "Pin to top results"
            &&& s.action_unpin == "Unpin from top results"
            &&& s.settings_title == "Issen Settings"
            &&& s.section_general == "General"
            &&& s.section_appearance == "Appearance"
            &&& s.section_index == "Index"
            &&& s.section_aliases == "Command Aliases"
            &&& s.section_windows_shortcuts == "Windows Settings Shortcuts"
            &&& s.section_everything == "Everything Integration"
            &&& s.label_autostart == "Launch Issen when Windows starts"
            &&& s.label_hotkey == "Global hotkey"
            &&& s.label_language == "Display language"
            &&& s.language_system == "Match Windows"
            &&& s.language_en == "English"
            &&& s.language_ja == "日本語"
            &&& s.label_max_results == "Maximum results shown"
            &&& s.label_display_target == "Show launcher on"
            &&& s.display_target_cursor == "The display the mouse cursor is on"
            &&& s.display_target_primary == "The primary display"
            &&& s.display_target_focused == "The display of the focused window"
            &&& s.label_theme == "Theme"
            &&& s.theme_light == "Light"
            &&& s.theme_dark == "Dark"
            &&& s.theme_system == "Match Windows"
            &&& s.label_accent_color == "Accent color"
            &&& s.accent_color_lime == "Lime"
            &&& s.accent_color_red == "Red"
            &&& s.accent_color_orange == "Orange"
            &&& s.accent_color_blue == "Blue"
            &&& s.accent_color_purple == "Purple"
            &&& s.label_font_size == "Font size"
            &&& s.label_font == "Font"
            &&& s.font_segoe_ui == "Segoe UI (default)"
            &&& s.font_yu_gothic == "Yu Gothic"
            &&& s.font_meiryo == "Meiryo"
            &&& s.label_custom_folders == "Custom folders to index"
            &&& s.button_add_folder == "Add folder…"
            &&& s.button_remove == "Remove"
            &&& s.label_exclude_patterns == "Exclude patterns (regular expressions)"
            &&& s.exclude_pattern_placeholder == "e.g. ^(Uninstall|Update)"
            &&& s.button_add == "Add"
            &&& s.button_rescan_now == "Rescan now"
            &&& s.scanning == "Scanning…"
            &&& s.label_alias_name == "Name"
            &&& s.label_alias_target == "Target"
            &&& s.label_alias_args == "Arguments"
            &&& s.button_add_alias == "Add alias"
            &&& s.button_delete == "Delete"
            &&& s.label_shortcut_label == "Display name"
            &&& s.label_shortcut_uri == "ms-settings: URI"
            &&& s.button_add_shortcut == "Add shortcut"
            &&& s.label_everything_enabled == "Enable Everything search"
            &&& s.everything_connected == "Connected to Everything"
            &&& s.button_save == "Save"
            &&& s.button_close == "Close"
            &&& s.about_title == "About Issen"
            &&& s.about_close == "Close"
            &&& s.tool_color_picker == "Color Picker"
            &&& s.tool_unit_converter == "Unit Converter"
            &&& s.tool_history == "Search history"
            &&& s.history_empty == "No search history yet"
            &&& s.tool_eyedropper == "Eyedropper"
            &&& s.eyedropper_hint == "Move the cursor over any pixel on screen, then press Enter to pick it (Esc to cancel)"
            &&& s.label_hex == "Hex"
            &&& s.label_rgb == "RGB"
            &&& s.label_hsl == "HSL"
            &&& s.unit_length == "Length"
            &&& s.unit_mass == "Mass"
            &&& s.unit_temperature == "Temperature"
            &&& s.unit_area == "Area"
            &&& s.unit_volume == "Volume"
            &&& s.unit_speed == "Speed"
            &&& s.unit_time == "Time"
            &&& s.unit_data == "Data size"
        }),
{
}

/// What the Japanese user interface says.
pub proof fn law_japanese_texts()
    ensures
        ({
            let s = strings_in(Lang::Ja);
            &&& s.tray_open == "Issenを開く"
            &&& s.tray_settings == "設定"
            &&& s.tray_reindex == "インデックスを再構築"
            &&& s.tray_reindex_scanning == "インデックスを再構築中…"
            &&& s.tray_about == "バージョン情報"
            &&& s.tray_quit == "終了"
            &&& s.tray_tooltip_scanning == "Issen - インデックスを再構築中…"
            &&& s.search_hint == "アプリケーション、ファイル、コマンドを検索…"
            &&& s.windows_settings_subtitle == "Windows設定"
            &&& s.action_run == "実行"
            &&& s.action_run_as_admin == "管理者として実行"
            &&& s.action_open_location == "ファイルの場所を開く"
            &&& s.action_copy_path == "パスをコピー"
            &&& s.action_register_alias == "エイリアスとして登録"
            &&& s.action_pin == "上位表示にピン留め"
            &&& s.action_unpin == "上位表示のピン留めを解除"
            &&& s.settings_title == "Issenの設定"
            &&& s.section_general == "一般"
            &&& s.section_appearance == "外観"
            &&& s.section_index == "インデックス"
            &&& s.section_aliases == "コマンドエイリアス"
            &&& s.section_windows_shortcuts == "Windows設定ショートカット"
            &&& s.section_everything == "Everything連携"
            &&& s.label_autostart == "Windowsスタートアップ時に自動起動する"
            &&& s.label_hotkey == "グローバルホットキー"
            &&& s.label_language == "表示言語"
            &&& s.language_system == "システムに合わせる"
            &&& s.language_en == "English"
            &&& s.language_ja == "日本語"
            &&& s.label_max_results == "検索結果の最大表示件数"
            &&& s.label_display_target == "結果ウィンドウを表示するディスプレイ"
            &&& s.display_target_cursor == "マウスカーソルのあるディスプレイ"
            &&& s.display_target_primary == "プライマリディスプレイ"
            &&& s.display_target_focused == "フォーカス中のウィンドウのディスプレイ"
            &&& s.label_theme == "テーマ"
            &&& s.theme_light == "ライト"
            &&& s.theme_dark == "ダーク"
            &&& s.theme_system == "システムに合わせる"
            &&& s.label_accent_color == "アクセントカラー"
            &&& s.accent_color_lime == "ライム"
            &&& s.accent_color_red == "レッド"
            &&& s.accent_color_orange == "オレンジ"
            &&& s.accent_color_blue == "ブルー"
            &&& s.accent_color_purple == "パープル"
            &&& s.label_font_size == "フォントサイズ"
            &&& s.label_font == "フォント"
            &&& s.font_segoe_ui == "Segoe UI(既定)"
            &&& s.font_yu_gothic == "游ゴシック"
            &&& s.font_meiryo == "メイリオ"
            &&& s.label_custom_folders == "インデックス対象のカスタムフォルダ"
            &&& s.button_add_folder == "フォルダを追加…"
            &&& s.button_remove == "削除"
            &&& s.label_exclude_patterns == "除外パターン(正規表現)"
            &&& s.exclude_pattern_placeholder == "例: ^(Uninstall|Update)"
            &&& s.button_add == "追加"
            &&& s.button_rescan_now == "今すぐ再構築"
            &&& s.scanning == "スキャン中…"
            &&& s.label_alias_name == "名前"
            &&& s.label_alias_target == "実行対象"
            &&& s.label_alias_args == "引数"
            &&& s.button_add_alias == "エイリアスを追加"
            &&& s.button_delete == "削除"
            &&& s.label_shortcut_label == "表示名"
            &&& s.label_shortcut_uri == "ms-settings: のURI"
            &&& s.button_add_shortcut == "ショートカットを追加"
            &&& s.label_everything_enabled == "Everything検索を有効にする"
            &&& s.everything_connected == "Everythingに接続しました"
            &&& s.button_save == "保存"
            &&& s.button_close == "閉じる"
            &&& s.about_title == "Issenについて"
            &&& s.about_close == "閉じる"
            &&& s.tool_color_picker == "カラーピッカー"
            &&& s.tool_unit_converter == "単位コンバーター"
            &&& s.tool_history == "検索履歴"
            &&& s.history_empty == "検索履歴はまだありません"
            &&& s.tool_eyedropper == "スポイト"
            &&& s.eyedropper_hint == "画面上の好きな場所にカーソルを合わせてEnterで確定(Escでキャンセル)"
            &&& s.label_hex == "Hex"
            &&& s.label_rgb == "RGB"
            &&& s.label_hsl == "HSL"
            &&& s.unit_length == "長さ"
            &&& s.unit_mass == "質量"
            &&& s.unit_temperature == "温度"
            &&& s.unit_area == "面積"
            &&& s.unit_volume == "体積"
            &&& s.unit_speed == "速度"
            &&& s.unit_time == "時間"
            &&& s.unit_data == "情報量"
        }),
{
}

} // verus!
