//! Windows settings pages.

use vstd::prelude::*;

use super::fuzzy::{fuzzy_i32, fuzzy_match, is_subsequence, law_score_is_handed_out};
use super::{result_views, with_finding, Action, ActionView, ResultView, SearchProvider, SearchResult};
use crate::config::{shortcut_views, ShortcutView, WindowsShortcutEntry};
use crate::i18n::{strings_in, Lang, Strings};

verus! {

/// A built-in settings page. Its keywords are in both languages, whatever the
/// display language is.
pub struct Entry {
    pub label_en: &'static str,
    pub label_ja: &'static str,
    pub keywords: Vec<&'static str>,
    pub uri: &'static str,
}

#[verifier::ext_equal]
pub struct EntryView {
    pub label_en: Seq<char>,
    pub label_ja: Seq<char>,
    pub keywords: Seq<Seq<char>>,
    pub uri: Seq<char>,
}

pub open spec fn words(v: Seq<&'static str>) -> Seq<Seq<char>> {
    v.map_values(|s: &'static str| s@)
}

impl View for Entry {
    type V = EntryView;

    open spec fn view(&self) -> EntryView {
        EntryView {
            label_en: self.label_en@,
            label_ja: self.label_ja@,
            keywords: words(self.keywords@),
            uri: self.uri@,
        }
    }
}

impl EntryView {
    pub open spec fn label(self, lang: Lang) -> Seq<char> {
        match lang {
            Lang::En => self.label_en,
            Lang::Ja => self.label_ja,
        }
    }
}

pub open spec fn entry_views(entries: Seq<Entry>) -> Seq<EntryView> {
    entries.map_values(|e: Entry| e@)
}

impl Entry {
    /// The label in the display language.
    pub fn label(&self, lang: Lang) -> (r: &'static str)
        ensures
            r@ == self@.label(lang),
    {
        match lang {
            Lang::En => self.label_en,
            Lang::Ja => self.label_ja,
        }
    }
}

/// The built-in settings pages.
pub open spec fn builtin() -> Seq<EntryView> {
    seq![
        EntryView {
            label_en: "About"@,
            label_ja: "このPCについて"@,
            keywords: seq!["about"@],
            uri: "ms-settings:about"@,
        },
        EntryView {
            label_en: "Display"@,
            label_ja: "ディスプレイ"@,
            keywords: seq!["display"@, "画面"@],
            uri: "ms-settings:display"@,
        },
        EntryView {
            label_en: "Sound"@,
            label_ja: "サウンド"@,
            keywords: seq!["sound"@, "音量"@],
            uri: "ms-settings:sound"@,
        },
        EntryView {
            label_en: "Power & sleep"@,
            label_ja: "電源とスリープ"@,
            keywords: seq!["power"@, "sleep"@, "電源"@],
            uri: "ms-settings:powersleep"@,
        },
        EntryView {
            label_en: "Storage"@,
            label_ja: "ストレージ"@,
            keywords: seq!["storage"@, "容量"@],
            uri: "ms-settings:storagesense"@,
        },
        EntryView {
            label_en: "Bluetooth"@,
            label_ja: "Bluetooth"@,
            keywords: seq!["bluetooth"@],
            uri: "ms-settings:bluetooth"@,
        },
        EntryView {
            label_en: "Printers & scanners"@,
            label_ja: "プリンターとスキャナー"@,
            keywords: seq!["printer"@, "印刷"@],
            uri: "ms-settings:printers"@,
        },
        EntryView {
            label_en: "Mouse & touchpad"@,
            label_ja: "マウスとタッチパッド"@,
            keywords: seq!["mouse"@, "touchpad"@],
            uri: "ms-settings:mousetouchpad"@,
        },
        EntryView {
            label_en: "Connected devices"@,
            label_ja: "接続デバイス"@,
            keywords: seq!["device"@, "デバイス"@],
            uri: "ms-settings:connecteddevices"@,
        },
        EntryView {
            label_en: "Wi-Fi"@,
            label_ja: "Wi-Fi"@,
            keywords: seq!["wifi"@, "無線"@],
            uri: "ms-settings:network-wifi"@,
        },
        EntryView {
            label_en: "Ethernet"@,
            label_ja: "イーサネット"@,
            keywords: seq!["ethernet"@, "有線"@],
            uri: "ms-settings:network-ethernet"@,
        },
        EntryView {
            label_en: "VPN"@,
            label_ja: "VPN"@,
            keywords: seq!["vpn"@],
            uri: "ms-settings:network-vpn"@,
        },
        EntryView {
            label_en: "Airplane mode"@,
            label_ja: "機内モード"@,
            keywords: seq!["airplane"@, "機内"@],
            uri: "ms-settings:network-airplanemode"@,
        },
        EntryView {
            label_en: "Background"@,
            label_ja: "背景"@,
            keywords: seq!["background"@, "壁紙"@],
            uri: "ms-settings:personalization-background"@,
        },
        EntryView {
            label_en: "Colors"@,
            label_ja: "色"@,
            keywords: seq!["colors"@, "テーマカラー"@],
            uri: "ms-settings:personalization-colors"@,
        },
        EntryView {
            label_en: "Lock screen"@,
            label_ja: "ロック画面"@,
            keywords: seq!["lockscreen"@],
            uri: "ms-settings:lockscreen"@,
        },
        EntryView {
            label_en: "Themes"@,
            label_ja: "テーマ"@,
            keywords: seq!["themes"@],
            uri: "ms-settings:themes"@,
        },
        EntryView {
            label_en: "Taskbar"@,
            label_ja: "タスクバー"@,
            keywords: seq!["taskbar"@],
            uri: "ms-settings:taskbar"@,
        },
        EntryView {
            label_en: "Apps & features"@,
            label_ja: "アプリと機能"@,
            keywords: seq!["apps"@, "uninstall"@, "アンインストール"@],
            uri: "ms-settings:appsfeatures"@,
        },
        EntryView {
            label_en: "Default apps"@,
            label_ja: "既定のアプリ"@,
            keywords: seq!["defaultapps"@, "既定"@],
            uri: "ms-settings:defaultapps"@,
        },
        EntryView {
            label_en: "Startup"@,
            label_ja: "スタートアップ"@,
            keywords: seq!["startup"@, "自動起動"@],
            uri: "ms-settings:startupapps"@,
        },
        EntryView {
            label_en: "Your info"@,
            label_ja: "ユーザーの情報"@,
            keywords: seq!["account"@, "アカウント"@],
            uri: "ms-settings:yourinfo"@,
        },
        EntryView {
            label_en: "Sign-in options"@,
            label_ja: "サインインオプション"@,
            keywords: seq!["signin"@, "パスワード"@, "pin"@],
            uri: "ms-settings:signinoptions"@,
        },
        EntryView {
            label_en: "Date & time"@,
            label_ja: "日付と時刻"@,
            keywords: seq!["date"@, "time"@, "時刻"@],
            uri: "ms-settings:dateandtime"@,
        },
        EntryView {
            label_en: "Language"@,
            label_ja: "言語"@,
            keywords: seq!["language"@, "言語"@, "ime"@],
            uri: "ms-settings:regionlanguage"@,
        },
        EntryView {
            label_en: "Game Mode"@,
            label_ja: "ゲームモード"@,
            keywords: seq!["gamemode"@],
            uri: "ms-settings:gaming-gamemode"@,
        },
        EntryView {
            label_en: "Xbox Game Bar"@,
            label_ja: "Xbox Game Bar"@,
            keywords: seq!["gamebar"@],
            uri: "ms-settings:gaming-gamebar"@,
        },
        EntryView {
            label_en: "Narrator"@,
            label_ja: "ナレーター"@,
            keywords: seq!["narrator"@],
            uri: "ms-settings:easeofaccess-narrator"@,
        },
        EntryView {
            label_en: "Magnifier"@,
            label_ja: "拡大鏡"@,
            keywords: seq!["magnifier"@],
            uri: "ms-settings:easeofaccess-magnifier"@,
        },
        EntryView {
            label_en: "High contrast"@,
            label_ja: "ハイコントラスト"@,
            keywords: seq!["highcontrast"@],
            uri: "ms-settings:easeofaccess-highcontrast"@,
        },
        EntryView {
            label_en: "Camera"@,
            label_ja: "カメラ"@,
            keywords: seq!["camera"@, "webcam"@],
            uri: "ms-settings:privacy-webcam"@,
        },
        EntryView {
            label_en: "Microphone"@,
            label_ja: "マイク"@,
            keywords: seq!["microphone"@, "mic"@],
            uri: "ms-settings:privacy-microphone"@,
        },
        EntryView {
            label_en: "Location"@,
            label_ja: "位置情報"@,
            keywords: seq!["location"@],
            uri: "ms-settings:privacy-location"@,
        },
        EntryView {
            label_en: "Windows Update"@,
            label_ja: "Windows Update"@,
            keywords: seq!["update"@, "更新"@],
            uri: "ms-settings:windowsupdate"@,
        },
        EntryView {
            label_en: "Windows Security"@,
            label_ja: "Windowsセキュリティ"@,
            keywords: seq!["security"@, "defender"@, "ウイルス"@],
            uri: "ms-settings:windowsdefender"@,
        },
        EntryView {
            label_en: "Recovery"@,
            label_ja: "回復"@,
            keywords: seq!["recovery"@, "リセット"@],
            uri: "ms-settings:recovery"@,
        },
    ]
}

fn one_keyword(a: &'static str) -> (r: Vec<&'static str>)
    ensures
        words(r@) == seq![a@],
{
    vec![a]
}

fn two_keywords(a: &'static str, b: &'static str) -> (r: Vec<&'static str>)
    ensures
        words(r@) == seq![a@, b@],
{
    vec![a, b]
}

fn three_keywords(a: &'static str, b: &'static str, c: &'static str) -> (r: Vec<&'static str>)
    ensures
        words(r@) == seq![a@, b@, c@],
{
    vec![a, b, c]
}

fn add_entry(
    entries: &mut Vec<Entry>,
    label_en: &'static str,
    label_ja: &'static str,
    keywords: Vec<&'static str>,
    uri: &'static str,
)
    ensures
        entry_views(final(entries)@) == entry_views(old(entries)@).push(
            EntryView {
                label_en: label_en@,
                label_ja: label_ja@,
                keywords: words(keywords@),
                uri: uri@,
            },
        ),
{
    entries.push(Entry { label_en, label_ja, keywords, uri });
}

/// The built-in settings pages.
pub fn builtin_entries() -> (entries: Vec<Entry>)
    ensures
        entry_views(entries@) == builtin(),
{
    let mut entries: Vec<Entry> = Vec::new();
    assert(entry_views(entries@) == Seq::<EntryView>::empty());
    add_entry(&mut entries, "About", "このPCについて", one_keyword("about"), "ms-settings:about");
    add_entry(&mut entries, "Display", "ディスプレイ", two_keywords("display", "画面"), "ms-settings:display");
    add_entry(&mut entries, "Sound", "サウンド", two_keywords("sound", "音量"), "ms-settings:sound");
    add_entry(&mut entries, "Power & sleep", "電源とスリープ", three_keywords("power", "sleep", "電源"), "ms-settings:powersleep");
    add_entry(&mut entries, "Storage", "ストレージ", two_keywords("storage", "容量"), "ms-settings:storagesense");
    add_entry(&mut entries, "Bluetooth", "Bluetooth", one_keyword("bluetooth"), "ms-settings:bluetooth");
    add_entry(&mut entries, "Printers & scanners", "プリンターとスキャナー", two_keywords("printer", "印刷"), "ms-settings:printers");
    add_entry(&mut entries, "Mouse & touchpad", "マウスとタッチパッド", two_keywords("mouse", "touchpad"), "ms-settings:mousetouchpad");
    add_entry(&mut entries, "Connected devices", "接続デバイス", two_keywords("device", "デバイス"), "ms-settings:connecteddevices");
    add_entry(&mut entries, "Wi-Fi", "Wi-Fi", two_keywords("wifi", "無線"), "ms-settings:network-wifi");
    add_entry(&mut entries, "Ethernet", "イーサネット", two_keywords("ethernet", "有線"), "ms-settings:network-ethernet");
    add_entry(&mut entries, "VPN", "VPN", one_keyword("vpn"), "ms-settings:network-vpn");
    add_entry(&mut entries, "Airplane mode", "機内モード", two_keywords("airplane", "機内"), "ms-settings:network-airplanemode");
    add_entry(&mut entries, "Background", "背景", two_keywords("background", "壁紙"), "ms-settings:personalization-background");
    add_entry(&mut entries, "Colors", "色", two_keywords("colors", "テーマカラー"), "ms-settings:personalization-colors");
    add_entry(&mut entries, "Lock screen", "ロック画面", one_keyword("lockscreen"), "ms-settings:lockscreen");
    add_entry(&mut entries, "Themes", "テーマ", one_keyword("themes"), "ms-settings:themes");
    add_entry(&mut entries, "Taskbar", "タスクバー", one_keyword("taskbar"), "ms-settings:taskbar");
    add_entry(&mut entries, "Apps & features", "アプリと機能", three_keywords("apps", "uninstall", "アンインストール"), "ms-settings:appsfeatures");
    add_entry(&mut entries, "Default apps", "既定のアプリ", two_keywords("defaultapps", "既定"), "ms-settings:defaultapps");
    add_entry(&mut entries, "Startup", "スタートアップ", two_keywords("startup", "自動起動"), "ms-settings:startupapps");
    add_entry(&mut entries, "Your info", "ユーザーの情報", two_keywords("account", "アカウント"), "ms-settings:yourinfo");
    add_entry(&mut entries, "Sign-in options", "サインインオプション", three_keywords("signin", "パスワード", "pin"), "ms-settings:signinoptions");
    add_entry(&mut entries, "Date & time", "日付と時刻", three_keywords("date", "time", "時刻"), "ms-settings:dateandtime");
    add_entry(&mut entries, "Language", "言語", three_keywords("language", "言語", "ime"), "ms-settings:regionlanguage");
    add_entry(&mut entries, "Game Mode", "ゲームモード", one_keyword("gamemode"), "ms-settings:gaming-gamemode");
    add_entry(&mut entries, "Xbox Game Bar", "Xbox Game Bar", one_keyword("gamebar"), "ms-settings:gaming-gamebar");
    add_entry(&mut entries, "Narrator", "ナレーター", one_keyword("narrator"), "ms-settings:easeofaccess-narrator");
    add_entry(&mut entries, "Magnifier", "拡大鏡", one_keyword("magnifier"), "ms-settings:easeofaccess-magnifier");
    add_entry(&mut entries, "High contrast", "ハイコントラスト", one_keyword("highcontrast"), "ms-settings:easeofaccess-highcontrast");
    add_entry(&mut entries, "Camera", "カメラ", two_keywords("camera", "webcam"), "ms-settings:privacy-webcam");
    add_entry(&mut entries, "Microphone", "マイク", two_keywords("microphone", "mic"), "ms-settings:privacy-microphone");
    add_entry(&mut entries, "Location", "位置情報", one_keyword("location"), "ms-settings:privacy-location");
    add_entry(&mut entries, "Windows Update", "Windows Update", two_keywords("update", "更新"), "ms-settings:windowsupdate");
    add_entry(&mut entries, "Windows Security", "Windowsセキュリティ", three_keywords("security", "defender", "ウイルス"), "ms-settings:windowsdefender");
    add_entry(&mut entries, "Recovery", "回復", two_keywords("recovery", "リセット"), "ms-settings:recovery");
    entries
}

/// The better one of two scores.
pub open spec fn better(a: Option<i32>, b: Option<i32>) -> Option<i32> {
    match (a, b) {
        (Some(x), Some(y)) => Some(if x >= y {
            x
        } else {
            y
        }),
        (Some(x), None) => Some(x),
        (None, _) => b,
    }
}

fn better_of(a: Option<i32>, b: Option<i32>) -> (r: Option<i32>)
    ensures
        r == better(a, b),
{
    match (a, b) {
        (Some(x), Some(y)) => Some(if x >= y {
            x
        } else {
            y
        }),
        (Some(x), None) => Some(x),
        (None, _) => b,
    }
}

/// The best score of a query against several words.
pub open spec fn best_word(query: Seq<char>, words: Seq<Seq<char>>) -> Option<i32>
    decreases words.len(),
{
    if words.len() == 0 {
        None
    } else {
        better(best_word(query, words.drop_last()), fuzzy_i32(query, words.last()))
    }
}

/// The best score of a query against a page's label and keywords.
pub open spec fn entry_score(entry: EntryView, lang: Lang, query: Seq<char>) -> Option<i32> {
    better(fuzzy_i32(query, entry.label(lang)), best_word(query, entry.keywords))
}

/// A settings page that was found.
pub open spec fn page(lang: Lang, label: Seq<char>, uri: Seq<char>, score: i32) -> ResultView {
    ResultView {
        title: label,
        subtitle: strings_in(lang).windows_settings_subtitle@,
        action: ActionView::OpenUri(uri),
        score,
    }
}

/// What is found among built-in pages, in their order.
pub open spec fn builtin_findings(
    entries: Seq<EntryView>,
    lang: Lang,
    query: Seq<char>,
) -> Seq<ResultView>
    decreases entries.len(),
{
    if entries.len() == 0 {
        Seq::empty()
    } else {
        let entry = entries.last();
        with_finding(
            builtin_findings(entries.drop_last(), lang, query),
            match entry_score(entry, lang, query) {
                Some(score) => Some(page(lang, entry.label(lang), entry.uri, score)),
                None => None,
            },
        )
    }
}

/// What is found among the user's pages, in their order.
pub open spec fn custom_findings(
    custom: Seq<ShortcutView>,
    lang: Lang,
    query: Seq<char>,
) -> Seq<ResultView>
    decreases custom.len(),
{
    if custom.len() == 0 {
        Seq::empty()
    } else {
        let entry = custom.last();
        with_finding(
            custom_findings(custom.drop_last(), lang, query),
            match fuzzy_i32(query, entry.label) {
                Some(score) => Some(page(lang, entry.label, entry.uri, score)),
                None => None,
            },
        )
    }
}

/// What is found among all pages: the built-in ones, then the user's.
pub open spec fn settings_findings(
    custom: Seq<ShortcutView>,
    lang: Lang,
    query: Seq<char>,
) -> Seq<ResultView> {
    if query.len() == 0 {
        Seq::empty()
    } else {
        builtin_findings(builtin(), lang, query) + custom_findings(custom, lang, query)
    }
}

/// Finds settings pages: the built-in ones, then the user's.
pub struct WindowsSettingsProvider<'a> {
    pub lang: Lang,
    pub custom: &'a Vec<WindowsShortcutEntry>,
}

impl<'a> WindowsSettingsProvider<'a> {
    pub fn with_custom(lang: Lang, custom: &'a Vec<WindowsShortcutEntry>) -> (p: Self)
        ensures
            p.lang == lang,
            p.custom@ == custom@,
    {
        WindowsSettingsProvider { lang, custom }
    }

    fn page_result(&self, label: &str, uri: &str, score: i32) -> (r: SearchResult)
        ensures
            r@ == page(self.lang, label@, uri@, score),
    {
        SearchResult {
            title: label.to_owned(),
            subtitle: Strings::for_lang(self.lang).windows_settings_subtitle.to_owned(),
            action: Action::OpenUri(uri.to_owned()),
            score,
        }
    }

    /// The best score of a query against several words.
    fn best_keyword(query: &str, keywords: &Vec<&'static str>) -> (r: Option<i32>)
        ensures
            r == best_word(query@, words(keywords@)),
    {
        let ghost all = words(keywords@);
        let mut best: Option<i32> = None;
        let mut i: usize = 0;
        while i < keywords.len()
            invariant
                i <= keywords@.len(),
                all == words(keywords@),
                best == best_word(query@, all.take(i as int)),
            decreases keywords@.len() - i,
        {
            assert(all.take(i + 1).drop_last() == all.take(i as int));
            assert(all.take(i + 1).last() == keywords@[i as int]@);
            best = better_of(best, fuzzy_match(query, keywords[i]));
            i += 1;
        }
        assert(all.take(i as int) == all);
        best
    }

    fn search_builtin(&self, query: &str, found: &mut Vec<SearchResult>)
        requires
            old(found)@.len() == 0,
        ensures
            result_views(final(found)@) == builtin_findings(builtin(), self.lang, query@),
    {
        let entries = builtin_entries();
        let ghost all = builtin();
        let mut i: usize = 0;
        assert(result_views(found@) == builtin_findings(all.take(0), self.lang, query@));
        while i < entries.len()
            invariant
                i <= entries@.len(),
                all == entry_views(entries@),
                result_views(found@) == builtin_findings(all.take(i as int), self.lang, query@),
            decreases entries@.len() - i,
        {
            let entry = &entries[i];
            assert(all.take(i + 1).drop_last() == all.take(i as int));
            assert(all.take(i + 1).last() == entry@);
            let label = entry.label(self.lang);
            let score = better_of(
                fuzzy_match(query, label),
                Self::best_keyword(query, &entry.keywords),
            );
            if let Some(score) = score {
                let result = self.page_result(label, entry.uri, score);
                let ghost before = found@;
                found.push(result);
                assert(result_views(found@) == result_views(before).push(result@));
            }
            i += 1;
        }
        assert(all.take(i as int) == all);
    }

    fn search_custom(&self, query: &str, found: &mut Vec<SearchResult>)
        ensures
            result_views(final(found)@) == result_views(old(found)@) + custom_findings(
                shortcut_views(self.custom@),
                self.lang,
                query@,
            ),
    {
        let ghost all = shortcut_views(self.custom@);
        let ghost start = result_views(found@);
        let mut i: usize = 0;
        assert(start + custom_findings(all.take(0), self.lang, query@) == start);
        while i < self.custom.len()
            invariant
                i <= self.custom@.len(),
                all == shortcut_views(self.custom@),
                result_views(found@) == start + custom_findings(
                    all.take(i as int),
                    self.lang,
                    query@,
                ),
            decreases self.custom@.len() - i,
        {
            let entry = &self.custom[i];
            assert(all.take(i + 1).drop_last() == all.take(i as int));
            assert(all.take(i + 1).last() == entry@);
            if let Some(score) = fuzzy_match(query, entry.label.as_str()) {
                let result = self.page_result(entry.label.as_str(), entry.uri.as_str(), score);
                let ghost before = found@;
                found.push(result);
                assert(result_views(found@) == result_views(before).push(result@));
                assert(start + custom_findings(all.take(i as int), self.lang, query@).push(result@)
                    == (start + custom_findings(all.take(i as int), self.lang, query@)).push(
                    result@,
                ));
            }
            i += 1;
        }
        assert(all.take(i as int) == all);
    }
}

impl SearchProvider for WindowsSettingsProvider<'_> {
    open spec fn accepts(&self, query: Seq<char>) -> bool {
        true
    }

    open spec fn findings(&self, query: Seq<char>) -> Seq<ResultView> {
        settings_findings(shortcut_views(self.custom@), self.lang, query)
    }

    fn search(&self, query: &str) -> (r: Vec<SearchResult>) {
        let mut found: Vec<SearchResult> = Vec::new();
        if query.is_empty() {
            assert(result_views(found@) == Seq::<ResultView>::empty());
            return found;
        }
        self.search_builtin(query, &mut found);
        self.search_custom(query, &mut found);
        found
    }
}

/// The best one of several scores is one of them, and none is better.
proof fn lemma_best_word_is_best(query: Seq<char>, words: Seq<Seq<char>>)
    ensures
        best_word(query, words) matches Some(best) ==> {
            &&& exists|k: int|
                0 <= k < words.len() && fuzzy_i32(query, #[trigger] words[k]) == Some(best)
            &&& forall|k: int|
                0 <= k < words.len() ==> (fuzzy_i32(query, #[trigger] words[k]) matches Some(s)
                    ==> s <= best)
        },
        best_word(query, words) is None ==> forall|k: int|
            0 <= k < words.len() ==> fuzzy_i32(query, #[trigger] words[k]) is None,
    decreases words.len(),
{
    if words.len() > 0 {
        let front = words.drop_last();
        let last = words.len() - 1;
        lemma_best_word_is_best(query, front);
        assert forall|k: int| 0 <= k < words.len() implies (match (
            fuzzy_i32(query, #[trigger] words[k]),
            best_word(query, words),
        ) {
            (Some(s), Some(best)) => s <= best,
            (Some(_), None) => false,
            (None, _) => true,
        }) by {
            if k < last {
                assert(front[k] == words[k]);
            }
        }
        if let Some(best) = best_word(query, words) {
            if fuzzy_i32(query, words[last]) != Some(best) {
                let k = choose|k: int|
                    0 <= k < front.len() && fuzzy_i32(query, #[trigger] front[k]) == Some(best);
                assert(front[k] == words[k]);
            }
        }
    }
}

/// The score of a page is the best one of its label and all its keywords: one of
/// them has it, and none has a better one.
pub proof fn law_page_score_is_best(entry: EntryView, lang: Lang, query: Seq<char>)
    ensures
        entry_score(entry, lang, query) matches Some(best) ==> {
            &&& fuzzy_i32(query, entry.label(lang)) == Some(best) || exists|k: int|
                0 <= k < entry.keywords.len() && fuzzy_i32(query, #[trigger] entry.keywords[k])
                    == Some(best)
            &&& fuzzy_i32(query, entry.label(lang)) matches Some(s) ==> s <= best
            &&& forall|k: int|
                0 <= k < entry.keywords.len() ==> (fuzzy_i32(
                    query,
                    #[trigger] entry.keywords[k],
                ) matches Some(s) ==> s <= best)
        },
        entry_score(entry, lang, query) is None ==> {
            &&& fuzzy_i32(query, entry.label(lang)) is None
            &&& forall|k: int|
                0 <= k < entry.keywords.len() ==> fuzzy_i32(
                    query,
                    #[trigger] entry.keywords[k],
                ) is None
        },
{
    lemma_best_word_is_best(query, entry.keywords);
}

/// No two pages have the same address.
pub open spec fn uris_distinct(entries: Seq<EntryView>) -> bool {
    forall|i: int, j: int| 0 <= i < j < entries.len() ==> entries[i].uri != entries[j].uri
}

/// The built-in page with an address, told by the address's length and the two
/// characters behind its scheme.
spec fn page_place(uri: Seq<char>) -> int {
    let mark = (uri.len() as int, uri[12], uri[13]);
    if mark == (17int, 'a', 'b') {
        0
        } else if mark == (19int, 'd', 'i') {
        1
        } else if mark == (17int, 's', 'o') {
        2
        } else if mark == (22int, 'p', 'o') {
        3
        } else if mark == (24int, 's', 't') {
        4
        } else if mark == (21int, 'b', 'l') {
        5
        } else if mark == (20int, 'p', 'r') {
        6
        } else if mark == (25int, 'm', 'o') {
        7
        } else if mark == (28int, 'c', 'o') {
        8
        } else if mark == (24int, 'n', 'e') {
        9
        } else if mark == (28int, 'n', 'e') {
        10
        } else if mark == (23int, 'n', 'e') {
        11
        } else if mark == (32int, 'n', 'e') {
        12
        } else if mark == (38int, 'p', 'e') {
        13
        } else if mark == (34int, 'p', 'e') {
        14
        } else if mark == (22int, 'l', 'o') {
        15
        } else if mark == (18int, 't', 'h') {
        16
        } else if mark == (19int, 't', 'a') {
        17
        } else if mark == (24int, 'a', 'p') {
        18
        } else if mark == (23int, 'd', 'e') {
        19
        } else if mark == (23int, 's', 't') {
        20
        } else if mark == (20int, 'y', 'o') {
        21
        } else if mark == (25int, 's', 'i') {
        22
        } else if mark == (23int, 'd', 'a') {
        23
        } else if mark == (26int, 'r', 'e') {
        24
        } else if mark == (27int, 'g', 'a') {
        25
        } else if mark == (26int, 'g', 'a') {
        26
        } else if mark == (33int, 'e', 'a') {
        27
        } else if mark == (34int, 'e', 'a') {
        28
        } else if mark == (37int, 'e', 'a') {
        29
        } else if mark == (26int, 'p', 'r') {
        30
        } else if mark == (30int, 'p', 'r') {
        31
        } else if mark == (28int, 'p', 'r') {
        32
        } else if mark == (25int, 'w', 'i') {
        33
        } else if mark == (27int, 'w', 'i') {
        34
    } else {
        35
    }
}

proof fn lemma_page_places(i: int)
    requires
        0 <= i < builtin().len(),
    ensures
        page_place(builtin()[i].uri) == i,
{
    reveal_strlit("ms-settings:about");
    reveal_strlit("ms-settings:display");
    reveal_strlit("ms-settings:sound");
    reveal_strlit("ms-settings:powersleep");
    reveal_strlit("ms-settings:storagesense");
    reveal_strlit("ms-settings:bluetooth");
    reveal_strlit("ms-settings:printers");
    reveal_strlit("ms-settings:mousetouchpad");
    reveal_strlit("ms-settings:connecteddevices");
    reveal_strlit("ms-settings:network-wifi");
    reveal_strlit("ms-settings:network-ethernet");
    reveal_strlit("ms-settings:network-vpn");
    reveal_strlit("ms-settings:network-airplanemode");
    reveal_strlit("ms-settings:personalization-background");
    reveal_strlit("ms-settings:personalization-colors");
    reveal_strlit("ms-settings:lockscreen");
    reveal_strlit("ms-settings:themes");
    reveal_strlit("ms-settings:taskbar");
    reveal_strlit("ms-settings:appsfeatures");
    reveal_strlit("ms-settings:defaultapps");
    reveal_strlit("ms-settings:startupapps");
    reveal_strlit("ms-settings:yourinfo");
    reveal_strlit("ms-settings:signinoptions");
    reveal_strlit("ms-settings:dateandtime");
    reveal_strlit("ms-settings:regionlanguage");
    reveal_strlit("ms-settings:gaming-gamemode");
    reveal_strlit("ms-settings:gaming-gamebar");
    reveal_strlit("ms-settings:easeofaccess-narrator");
    reveal_strlit("ms-settings:easeofaccess-magnifier");
    reveal_strlit("ms-settings:easeofaccess-highcontrast");
    reveal_strlit("ms-settings:privacy-webcam");
    reveal_strlit("ms-settings:privacy-microphone");
    reveal_strlit("ms-settings:privacy-location");
    reveal_strlit("ms-settings:windowsupdate");
    reveal_strlit("ms-settings:windowsdefender");
    reveal_strlit("ms-settings:recovery");
}

/// No two built-in pages have the same address.
pub proof fn law_builtin_uris_are_distinct()
    ensures
        uris_distinct(builtin()),
{
    assert forall|i: int, j: int| 0 <= i < j < builtin().len() implies builtin()[i].uri
        != builtin()[j].uri by {
        lemma_page_places(i);
        lemma_page_places(j);
    }
}

/// A result stands at an index, and its action is that of no other one.
pub open spec fn is_only_at(found: Seq<ResultView>, k: int, one: ResultView) -> bool {
    &&& 0 <= k < found.len()
    &&& found[k] == one
    &&& forall|l: int| 0 <= l < found.len() && l != k ==> (#[trigger] found[l]).action != one.action
}

/// An address that no page has is not found.
proof fn lemma_other_uris(entries: Seq<EntryView>, lang: Lang, query: Seq<char>, uri: Seq<char>)
    requires
        forall|j: int| 0 <= j < entries.len() ==> (#[trigger] entries[j]).uri != uri,
    ensures
        forall|k: int|
            0 <= k < builtin_findings(entries, lang, query).len() ==> (
            #[trigger] builtin_findings(entries, lang, query)[k]).action != ActionView::OpenUri(uri),
    decreases entries.len(),
{
    if entries.len() > 0 {
        let shorter = entries.drop_last();
        assert forall|j: int| 0 <= j < shorter.len() implies (#[trigger] shorter[j]).uri != uri by {
            assert(shorter[j] == entries[j]);
        }
        lemma_other_uris(shorter, lang, query, uri);
        let before = builtin_findings(shorter, lang, query);
        let all = builtin_findings(entries, lang, query);
        assert forall|k: int| 0 <= k < all.len() implies (#[trigger] all[k]).action
            != ActionView::OpenUri(uri) by {
            if k < before.len() {
                assert(all[k] == before[k]);
            } else {
                assert(entries[entries.len() - 1].uri != uri);
            }
        }
    }
}

proof fn lemma_page_is_found(entries: Seq<EntryView>, i: int, lang: Lang, query: Seq<char>)
    requires
        0 <= i < entries.len(),
        uris_distinct(entries),
        entry_score(entries[i], lang, query) is Some,
    ensures
        exists|k: int| #[trigger]
            is_only_at(
                builtin_findings(entries, lang, query),
                k,
                page(
                    lang,
                    entries[i].label(lang),
                    entries[i].uri,
                    entry_score(entries[i], lang, query)->0,
                ),
            ),
    decreases entries.len(),
{
    let entry = entries[i];
    let one = page(lang, entry.label(lang), entry.uri, entry_score(entry, lang, query)->0);
    let all = builtin_findings(entries, lang, query);
    let shorter = entries.drop_last();
    let before = builtin_findings(shorter, lang, query);
    assert(forall|l: int| 0 <= l < before.len() ==> #[trigger] all[l] == before[l]);
    if i == entries.len() - 1 {
        assert forall|j: int| 0 <= j < shorter.len() implies (
        #[trigger] shorter[j]).uri != entry.uri by {
            assert(entries[j].uri != entries[i].uri);
        }
        lemma_other_uris(shorter, lang, query, entry.uri);
        assert forall|l: int| 0 <= l < all.len() && l != before.len() implies (
        #[trigger] all[l]).action != one.action by {
            assert(before[l].action != ActionView::OpenUri(entry.uri));
        }
        assert(is_only_at(all, before.len() as int, one));
    } else {
        assert(shorter[i] == entry);
        assert forall|a: int, b: int| 0 <= a < b < shorter.len() implies shorter[a].uri
            != shorter[b].uri by {
            assert(entries[a].uri != entries[b].uri);
        }
        lemma_page_is_found(shorter, i, lang, query);
        let k = choose|k: int| #[trigger] is_only_at(before, k, one);
        assert(entries[i].uri != entries[entries.len() - 1].uri);
        assert forall|l: int| 0 <= l < all.len() && l != k implies (
        #[trigger] all[l]).action != one.action by {
            if l < before.len() {
                assert(before[l].action != one.action);
            }
        }
        assert(is_only_at(all, k, one));
    }
}

/// A built-in page is found by each of its keywords and by its label, in either
/// display language: it is listed exactly once among the built-in ones, under its
/// label in that language and with its best score, and the user's pages follow all
/// built-in ones.
pub proof fn law_page_is_found_once(
    custom: Seq<ShortcutView>,
    i: int,
    lang: Lang,
    query: Seq<char>,
)
    requires
        query.len() > 0,
        0 <= i < builtin().len(),
        fuzzy_i32(query, builtin()[i].label(lang)) is Some || exists|k: int|
            0 <= k < builtin()[i].keywords.len() && fuzzy_i32(
                query,
                #[trigger] builtin()[i].keywords[k],
            ) is Some,
    ensures
        entry_score(builtin()[i], lang, query) is Some,
        exists|k: int| #[trigger]
            is_only_at(
                builtin_findings(builtin(), lang, query),
                k,
                page(
                    lang,
                    builtin()[i].label(lang),
                    builtin()[i].uri,
                    entry_score(builtin()[i], lang, query)->0,
                ),
            ),
        settings_findings(custom, lang, query) == builtin_findings(builtin(), lang, query)
            + custom_findings(custom, lang, query),
{
    law_page_score_is_best(builtin()[i], lang, query);
    law_builtin_uris_are_distinct();
    lemma_page_is_found(builtin(), i, lang, query);
}

/// What the results of a search for settings pages are made of: each is a page that
/// the query matches.
proof fn lemma_findings_are_pages(entries: Seq<EntryView>, lang: Lang, query: Seq<char>, k: int)
    requires
        0 <= k < builtin_findings(entries, lang, query).len(),
    ensures
        exists|j: int|
            0 <= j < entries.len() && entry_score(#[trigger] entries[j], lang, query) is Some
                && builtin_findings(entries, lang, query)[k] == page(
                lang,
                entries[j].label(lang),
                entries[j].uri,
                entry_score(entries[j], lang, query)->0,
            ),
    decreases entries.len(),
{
    let shorter = entries.drop_last();
    let before = builtin_findings(shorter, lang, query);
    if k < before.len() {
        lemma_findings_are_pages(shorter, lang, query, k);
        let j = choose|j: int|
            0 <= j < shorter.len() && entry_score(#[trigger] shorter[j], lang, query) is Some
                && before[k] == page(
                lang,
                shorter[j].label(lang),
                shorter[j].uri,
                entry_score(shorter[j], lang, query)->0,
            );
        assert(entries[j] == shorter[j]);
    } else {
        assert(entries[entries.len() - 1] == entries.last());
    }
}

/// A page with these labels and keywords is listed exactly where the query is a
/// subsequence of its label in the display language or of one of its keywords; choosing
/// it opens the address, and it is listed under the label.
pub open spec fn leads_to(
    lang: Lang,
    query: Seq<char>,
    label_en: Seq<char>,
    label_ja: Seq<char>,
    keywords: Seq<Seq<char>>,
    uri: Seq<char>,
) -> bool {
    let found = settings_findings(Seq::empty(), lang, query);
    let label = if lang == Lang::En {
        label_en
    } else {
        label_ja
    };
    &&& (exists|k: int|
        0 <= k < found.len() && (#[trigger] found[k]).action == ActionView::OpenUri(uri)) <==> (
    is_subsequence(query, label) || exists|k: int|
        0 <= k < keywords.len() && is_subsequence(query, #[trigger] keywords[k]))
    &&& forall|k: int|
        0 <= k < found.len() && (#[trigger] found[k]).action == ActionView::OpenUri(uri)
            ==> found[k].title == label
}

proof fn lemma_page_leads(i: int, lang: Lang, query: Seq<char>)
    requires
        0 <= i < builtin().len(),
        query.len() > 0,
    ensures
        leads_to(
            lang,
            query,
            builtin()[i].label_en,
            builtin()[i].label_ja,
            builtin()[i].keywords,
            builtin()[i].uri,
        ),
{
    let all = builtin();
    let one = all[i];
    let found = settings_findings(Seq::empty(), lang, query);
    assert(found =~= builtin_findings(all, lang, query));
    law_page_score_is_best(one, lang, query);
    law_score_is_handed_out(query, one.label(lang));
    assert forall|k: int| 0 <= k < one.keywords.len() implies (fuzzy_i32(
        query,
        #[trigger] one.keywords[k],
    ) is Some <==> is_subsequence(query, one.keywords[k])) by {
        law_score_is_handed_out(query, one.keywords[k]);
    }
    law_builtin_uris_are_distinct();
    assert forall|k: int|
        0 <= k < found.len() && (#[trigger] found[k]).action == ActionView::OpenUri(
            one.uri,
        ) implies found[k].title == one.label(lang) && entry_score(one, lang, query) is Some by {
        lemma_findings_are_pages(all, lang, query, k);
        let j = choose|j: int|
            0 <= j < all.len() && entry_score(#[trigger] all[j], lang, query) is Some && found[k]
                == page(
                lang,
                all[j].label(lang),
                all[j].uri,
                entry_score(all[j], lang, query)->0,
            );
        if j < i {
            assert(all[j].uri != all[i].uri);
        } else if i < j {
            assert(all[i].uri != all[j].uri);
        }
    }
    if entry_score(one, lang, query) is Some {
        lemma_page_is_found(all, i, lang, query);
        let shown = page(lang, one.label(lang), one.uri, entry_score(one, lang, query)->0);
        let k = choose|k: int| #[trigger] is_only_at(found, k, shown);
        assert(found[k].action == ActionView::OpenUri(one.uri));
    }
}

/// Every built-in page is found by its own words and opens its own address: for every
/// query, in either display language.
pub proof fn law_words_lead_to_their_pages(lang: Lang, query: Seq<char>)
    requires
        query.len() > 0,
    ensures
        leads_to(
            lang,
            query,
            "About"@,
            "このPCについて"@,
            seq!["about"@],
            "ms-settings:about"@,
        ),
        leads_to(
            lang,
            query,
            "Display"@,
            "ディスプレイ"@,
            seq!["display"@, "画面"@],
            "ms-settings:display"@,
        ),
        leads_to(
            lang,
            query,
            "Sound"@,
            "サウンド"@,
            seq!["sound"@, "音量"@],
            "ms-settings:sound"@,
        ),
        leads_to(
            lang,
            query,
            "Power & sleep"@,
            "電源とスリープ"@,
            seq!["power"@, "sleep"@, "電源"@],
            "ms-settings:powersleep"@,
        ),
        leads_to(
            lang,
            query,
            "Storage"@,
            "ストレージ"@,
            seq!["storage"@, "容量"@],
            "ms-settings:storagesense"@,
        ),
        leads_to(
            lang,
            query,
            "Bluetooth"@,
            "Bluetooth"@,
            seq!["bluetooth"@],
            "ms-settings:bluetooth"@,
        ),
        leads_to(
            lang,
            query,
            "Printers & scanners"@,
            "プリンターとスキャナー"@,
            seq!["printer"@, "印刷"@],
            "ms-settings:printers"@,
        ),
        leads_to(
            lang,
            query,
            "Mouse & touchpad"@,
            "マウスとタッチパッド"@,
            seq!["mouse"@, "touchpad"@],
            "ms-settings:mousetouchpad"@,
        ),
        leads_to(
            lang,
            query,
            "Connected devices"@,
            "接続デバイス"@,
            seq!["device"@, "デバイス"@],
            "ms-settings:connecteddevices"@,
        ),
        leads_to(
            lang,
            query,
            "Wi-Fi"@,
            "Wi-Fi"@,
            seq!["wifi"@, "無線"@],
            "ms-settings:network-wifi"@,
        ),
        leads_to(
            lang,
            query,
            "Ethernet"@,
            "イーサネット"@,
            seq!["ethernet"@, "有線"@],
            "ms-settings:network-ethernet"@,
        ),
        leads_to(
            lang,
            query,
            "VPN"@,
            "VPN"@,
            seq!["vpn"@],
            "ms-settings:network-vpn"@,
        ),
        leads_to(
            lang,
            query,
            "Airplane mode"@,
            "機内モード"@,
            seq!["airplane"@, "機内"@],
            "ms-settings:network-airplanemode"@,
        ),
        leads_to(
            lang,
            query,
            "Background"@,
            "背景"@,
            seq!["background"@, "壁紙"@],
            "ms-settings:personalization-background"@,
        ),
        leads_to(
            lang,
            query,
            "Colors"@,
            "色"@,
            seq!["colors"@, "テーマカラー"@],
            "ms-settings:personalization-colors"@,
        ),
        leads_to(
            lang,
            query,
            "Lock screen"@,
            "ロック画面"@,
            seq!["lockscreen"@],
            "ms-settings:lockscreen"@,
        ),
        leads_to(
            lang,
            query,
            "Themes"@,
            "テーマ"@,
            seq!["themes"@],
            "ms-settings:themes"@,
        ),
        leads_to(
            lang,
            query,
            "Taskbar"@,
            "タスクバー"@,
            seq!["taskbar"@],
            "ms-settings:taskbar"@,
        ),
        leads_to(
            lang,
            query,
            "Apps & features"@,
            "アプリと機能"@,
            seq!["apps"@, "uninstall"@, "アンインストール"@],
            "ms-settings:appsfeatures"@,
        ),
        leads_to(
            lang,
            query,
            "Default apps"@,
            "既定のアプリ"@,
            seq!["defaultapps"@, "既定"@],
            "ms-settings:defaultapps"@,
        ),
        leads_to(
            lang,
            query,
            "Startup"@,
            "スタートアップ"@,
            seq!["startup"@, "自動起動"@],
            "ms-settings:startupapps"@,
        ),
        leads_to(
            lang,
            query,
            "Your info"@,
            "ユーザーの情報"@,
            seq!["account"@, "アカウント"@],
            "ms-settings:yourinfo"@,
        ),
        leads_to(
            lang,
            query,
            "Sign-in options"@,
            "サインインオプション"@,
            seq!["signin"@, "パスワード"@, "pin"@],
            "ms-settings:signinoptions"@,
        ),
        leads_to(
            lang,
            query,
            "Date & time"@,
            "日付と時刻"@,
            seq!["date"@, "time"@, "時刻"@],
            "ms-settings:dateandtime"@,
        ),
        leads_to(
            lang,
            query,
            "Language"@,
            "言語"@,
            seq!["language"@, "言語"@, "ime"@],
            "ms-settings:regionlanguage"@,
        ),
        leads_to(
            lang,
            query,
            "Game Mode"@,
            "ゲームモード"@,
            seq!["gamemode"@],
            "ms-settings:gaming-gamemode"@,
        ),
        leads_to(
            lang,
            query,
            "Xbox Game Bar"@,
            "Xbox Game Bar"@,
            seq!["gamebar"@],
            "ms-settings:gaming-gamebar"@,
        ),
        leads_to(
            lang,
            query,
            "Narrator"@,
            "ナレーター"@,
            seq!["narrator"@],
            "ms-settings:easeofaccess-narrator"@,
        ),
        leads_to(
            lang,
            query,
            "Magnifier"@,
            "拡大鏡"@,
            seq!["magnifier"@],
            "ms-settings:easeofaccess-magnifier"@,
        ),
        leads_to(
            lang,
            query,
            "High contrast"@,
            "ハイコントラスト"@,
            seq!["highcontrast"@],
            "ms-settings:easeofaccess-highcontrast"@,
        ),
        leads_to(
            lang,
            query,
            "Camera"@,
            "カメラ"@,
            seq!["camera"@, "webcam"@],
            "ms-settings:privacy-webcam"@,
        ),
        leads_to(
            lang,
            query,
            "Microphone"@,
            "マイク"@,
            seq!["microphone"@, "mic"@],
            "ms-settings:privacy-microphone"@,
        ),
        leads_to(
            lang,
            query,
            "Location"@,
            "位置情報"@,
            seq!["location"@],
            "ms-settings:privacy-location"@,
        ),
        leads_to(
            lang,
            query,
            "Windows Update"@,
            "Windows Update"@,
            seq!["update"@, "更新"@],
            "ms-settings:windowsupdate"@,
        ),
        leads_to(
            lang,
            query,
            "Windows Security"@,
            "Windowsセキュリティ"@,
            seq!["security"@, "defender"@, "ウイルス"@],
            "ms-settings:windowsdefender"@,
        ),
        leads_to(
            lang,
            query,
            "Recovery"@,
            "回復"@,
            seq!["recovery"@, "リセット"@],
            "ms-settings:recovery"@,
        ),
{
    lemma_page_leads(0, lang, query);
    lemma_page_leads(1, lang, query);
    lemma_page_leads(2, lang, query);
    lemma_page_leads(3, lang, query);
    lemma_page_leads(4, lang, query);
    lemma_page_leads(5, lang, query);
    lemma_page_leads(6, lang, query);
    lemma_page_leads(7, lang, query);
    lemma_page_leads(8, lang, query);
    lemma_page_leads(9, lang, query);
    lemma_page_leads(10, lang, query);
    lemma_page_leads(11, lang, query);
    lemma_page_leads(12, lang, query);
    lemma_page_leads(13, lang, query);
    lemma_page_leads(14, lang, query);
    lemma_page_leads(15, lang, query);
    lemma_page_leads(16, lang, query);
    lemma_page_leads(17, lang, query);
    lemma_page_leads(18, lang, query);
    lemma_page_leads(19, lang, query);
    lemma_page_leads(20, lang, query);
    lemma_page_leads(21, lang, query);
    lemma_page_leads(22, lang, query);
    lemma_page_leads(23, lang, query);
    lemma_page_leads(24, lang, query);
    lemma_page_leads(25, lang, query);
    lemma_page_leads(26, lang, query);
    lemma_page_leads(27, lang, query);
    lemma_page_leads(28, lang, query);
    lemma_page_leads(29, lang, query);
    lemma_page_leads(30, lang, query);
    lemma_page_leads(31, lang, query);
    lemma_page_leads(32, lang, query);
    lemma_page_leads(33, lang, query);
    lemma_page_leads(34, lang, query);
    lemma_page_leads(35, lang, query);
}

/// The built-in pages come in this order, which decides between equally good matches.
pub proof fn law_builtin_pages_are_in_order()
    ensures
        builtin().map_values(|e: EntryView| e.uri) == seq![
            "ms-settings:about"@,
            "ms-settings:display"@,
            "ms-settings:sound"@,
            "ms-settings:powersleep"@,
            "ms-settings:storagesense"@,
            "ms-settings:bluetooth"@,
            "ms-settings:printers"@,
            "ms-settings:mousetouchpad"@,
            "ms-settings:connecteddevices"@,
            "ms-settings:network-wifi"@,
            "ms-settings:network-ethernet"@,
            "ms-settings:network-vpn"@,
            "ms-settings:network-airplanemode"@,
            "ms-settings:personalization-background"@,
            "ms-settings:personalization-colors"@,
            "ms-settings:lockscreen"@,
            "ms-settings:themes"@,
            "ms-settings:taskbar"@,
            "ms-settings:appsfeatures"@,
            "ms-settings:defaultapps"@,
            "ms-settings:startupapps"@,
            "ms-settings:yourinfo"@,
            "ms-settings:signinoptions"@,
            "ms-settings:dateandtime"@,
            "ms-settings:regionlanguage"@,
            "ms-settings:gaming-gamemode"@,
            "ms-settings:gaming-gamebar"@,
            "ms-settings:easeofaccess-narrator"@,
            "ms-settings:easeofaccess-magnifier"@,
            "ms-settings:easeofaccess-highcontrast"@,
            "ms-settings:privacy-webcam"@,
            "ms-settings:privacy-microphone"@,
            "ms-settings:privacy-location"@,
            "ms-settings:windowsupdate"@,
            "ms-settings:windowsdefender"@,
            "ms-settings:recovery"@,
        ],
{
}

/// The user's pages are listed behind the built-in ones: exactly those of whose labels
/// the query is a subsequence, each once and in their order. Each is listed under its
/// label and opens its address. The empty query finds nothing.
pub proof fn law_custom_pages_are_found_by_label(
    custom: Seq<ShortcutView>,
    lang: Lang,
    query: Seq<char>,
)
    ensures
        query.len() == 0 ==> settings_findings(custom, lang, query).len() == 0,
        query.len() > 0 ==> settings_findings(custom, lang, query) == settings_findings(
            Seq::empty(),
            lang,
            query,
        ) + custom.filter(|c: ShortcutView| is_subsequence(query, c.label)).map_values(
            |c: ShortcutView|
                ResultView {
                    title: c.label,
                    subtitle: strings_in(lang).windows_settings_subtitle@,
                    action: ActionView::OpenUri(c.uri),
                    score: fuzzy_i32(query, c.label)->0,
                },
        ),
{
    let own = builtin_findings(builtin(), lang, query);
    lemma_custom_findings(custom, lang, query);
    assert(own + custom_findings(Seq::empty(), lang, query) =~= own);
}

proof fn lemma_custom_findings(custom: Seq<ShortcutView>, lang: Lang, query: Seq<char>)
    ensures
        custom_findings(custom, lang, query) == custom.filter(
            |c: ShortcutView| is_subsequence(query, c.label),
        ).map_values(
            |c: ShortcutView|
                ResultView {
                    title: c.label,
                    subtitle: strings_in(lang).windows_settings_subtitle@,
                    action: ActionView::OpenUri(c.uri),
                    score: fuzzy_i32(query, c.label)->0,
                },
        ),
    decreases custom.len(),
{
    reveal(Seq::filter);
    let p = |c: ShortcutView| is_subsequence(query, c.label);
    let f = |c: ShortcutView|
        ResultView {
            title: c.label,
            subtitle: strings_in(lang).windows_settings_subtitle@,
            action: ActionView::OpenUri(c.uri),
            score: fuzzy_i32(query, c.label)->0,
        };
    if custom.len() == 0 {
        assert(custom.filter(p).map_values(f) =~= Seq::<ResultView>::empty());
    } else {
        let last = custom.last();
        lemma_custom_findings(custom.drop_last(), lang, query);
        law_score_is_handed_out(query, last.label);
        let before = custom.drop_last().filter(p);
        assert(before.push(last).map_values(f) =~= before.map_values(f).push(f(last)));
    }
}

} // verus!
