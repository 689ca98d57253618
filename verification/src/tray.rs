//! The tray icon and its menu.

use vstd::prelude::*;

use crate::config::APP_NAME;
use crate::i18n::Strings;
use crate::text::same_text;

verus! {

/// The fixed identifier of the menu's Quit item.
pub const QUIT_MENU_ID: &'static str = "issen-tray-quit";

/// What the tray asks of the launcher. Quit is not among them: it ends the
/// process at once.
#[derive(Clone, Copy, PartialEq, Eq, Structural, Debug)]
pub enum TrayAction {
    Open,
    Settings,
    Reindex,
    About,
}

/// What a menu event does.
#[derive(Clone, Copy, PartialEq, Eq, Structural, Debug)]
pub enum MenuOutcome {
    Quit,
    Forward,
}

/// Whether a menu event ends the process or goes on to the launcher.
pub fn filter_menu_event(id: &str) -> (r: MenuOutcome)
    ensures
        r == if id@ == QUIT_MENU_ID@ {
            MenuOutcome::Quit
        } else {
            MenuOutcome::Forward
        },
{
    if same_text(id, QUIT_MENU_ID) {
        MenuOutcome::Quit
    } else {
        MenuOutcome::Forward
    }
}

/// The identifiers of the menu's other items.
#[derive(Debug)]
pub struct TrayHandle {
    pub open_id: String,
    pub settings_id: String,
    pub reindex_id: String,
    pub about_id: String,
}

/// One line of the menu.
#[derive(Clone, Copy, Debug)]
pub enum MenuLine {
    Open(&'static str),
    Settings(&'static str),
    Reindex(&'static str),
    Separator,
    About(&'static str),
    Quit(&'static str),
}

/// How the reindex item and the icon's tooltip look.
#[derive(Clone, Copy, Debug)]
pub struct ScanDisplay {
    pub reindex_label: &'static str,
    pub reindex_enabled: bool,
    pub tooltip: &'static str,
}

/// A mouse button on the tray icon.
#[derive(Clone, Copy, PartialEq, Eq, Structural, Debug)]
pub enum TrayButton {
    Left,
    Right,
    Middle,
}

/// What happened on the tray icon.
#[derive(Clone, Copy, PartialEq, Eq, Structural, Debug)]
pub enum TrayIconEvent {
    Click(TrayButton),
    DoubleClick(TrayButton),
    Other,
}

impl TrayHandle {
    /// The menu, from top to bottom.
    pub fn menu(strings: &Strings) -> (r: Vec<MenuLine>)
        ensures
            r@ == seq![
                MenuLine::Open(strings.tray_open),
                MenuLine::Settings(strings.tray_settings),
                MenuLine::Reindex(strings.tray_reindex),
                MenuLine::Separator,
                MenuLine::About(strings.tray_about),
                MenuLine::Separator,
                MenuLine::Quit(strings.tray_quit),
            ],
    {
        vec![
            MenuLine::Open(strings.tray_open),
            MenuLine::Settings(strings.tray_settings),
            MenuLine::Reindex(strings.tray_reindex),
            MenuLine::Separator,
            MenuLine::About(strings.tray_about),
            MenuLine::Separator,
            MenuLine::Quit(strings.tray_quit),
        ]
    }

    /// While a scan runs, the reindex item says so and cannot be chosen, and
    /// the tooltip says so too.
    pub fn set_scanning(strings: &Strings, scanning: bool) -> (r: ScanDisplay)
        ensures
            r == scan_display(*strings, scanning),
    {
        if scanning {
            ScanDisplay {
                reindex_label: strings.tray_reindex_scanning,
                reindex_enabled: false,
                tooltip: strings.tray_tooltip_scanning,
            }
        } else {
            ScanDisplay {
                reindex_label: strings.tray_reindex,
                reindex_enabled: true,
                tooltip: APP_NAME,
            }
        }
    }

    /// The action of a menu item, by its identifier; the first one that has it.
    pub open spec fn action_of(self, id: Seq<char>) -> Option<TrayAction> {
        if id == self.open_id@ {
            Some(TrayAction::Open)
        } else if id == self.settings_id@ {
            Some(TrayAction::Settings)
        } else if id == self.reindex_id@ {
            Some(TrayAction::Reindex)
        } else if id == self.about_id@ {
            Some(TrayAction::About)
        } else {
            None
        }
    }

    pub fn match_menu_action(&self, id: &str) -> (r: Option<TrayAction>)
        ensures
            r == self.action_of(id@),
    {
        if same_text(id, self.open_id.as_str()) {
            Some(TrayAction::Open)
        } else if same_text(id, self.settings_id.as_str()) {
            Some(TrayAction::Settings)
        } else if same_text(id, self.reindex_id.as_str()) {
            Some(TrayAction::Reindex)
        } else if same_text(id, self.about_id.as_str()) {
            Some(TrayAction::About)
        } else {
            None
        }
    }

    /// A double click with the left button opens the launcher.
    pub fn match_tray_icon_action(event: TrayIconEvent) -> (r: Option<TrayAction>)
        ensures
            r == if event == TrayIconEvent::DoubleClick(TrayButton::Left) {
                Some(TrayAction::Open)
            } else {
                None
            },
    {
        match event {
            TrayIconEvent::DoubleClick(TrayButton::Left) => Some(TrayAction::Open),
            _ => None,
        }
    }
}

/// How the reindex item and the tooltip look.
pub open spec fn scan_display(strings: Strings, scanning: bool) -> ScanDisplay {
    if scanning {
        ScanDisplay {
            reindex_label: strings.tray_reindex_scanning,
            reindex_enabled: false,
            tooltip: strings.tray_tooltip_scanning,
        }
    } else {
        ScanDisplay {
            reindex_label: strings.tray_reindex,
            reindex_enabled: true,
            tooltip: APP_NAME,
        }
    }
}

/// Each item of the menu has its own action, and an identifier of none of them has none.
pub proof fn law_menu_items_have_their_actions(tray: TrayHandle, id: Seq<char>)
    requires
        tray.open_id@ != tray.settings_id@,
        tray.open_id@ != tray.reindex_id@,
        tray.open_id@ != tray.about_id@,
        tray.settings_id@ != tray.reindex_id@,
        tray.settings_id@ != tray.about_id@,
        tray.reindex_id@ != tray.about_id@,
    ensures
        tray.action_of(id) == Some(TrayAction::Open) <==> id == tray.open_id@,
        tray.action_of(id) == Some(TrayAction::Settings) <==> id == tray.settings_id@,
        tray.action_of(id) == Some(TrayAction::Reindex) <==> id == tray.reindex_id@,
        tray.action_of(id) == Some(TrayAction::About) <==> id == tray.about_id@,
{
}

/// The index can be rebuilt exactly while no scan runs, and both the item and the
/// tooltip tell whether one does.
pub proof fn law_scan_is_shown(strings: Strings)
    ensures
        scan_display(strings, false).reindex_enabled,
        scan_display(strings, false).reindex_label == strings.tray_reindex,
        scan_display(strings, false).tooltip == "Issen",
        !scan_display(strings, true).reindex_enabled,
        scan_display(strings, true).reindex_label == strings.tray_reindex_scanning,
        scan_display(strings, true).tooltip == strings.tray_tooltip_scanning,
{
}

/// The Quit item has a fixed identifier.
pub proof fn law_quit_has_its_identifier()
    ensures
        QUIT_MENU_ID@ == "issen-tray-quit"@,
        APP_NAME@ == "Issen"@,
{
}

} // verus!
