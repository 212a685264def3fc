//! The tray menu: its entries, and what a click on an item asks the
//! application to do.

use vstd::prelude::*;

use crate::capture::CaptureMode;
use crate::i18n::{t, translation, I18n};
use crate::settings::{shortcut_of, Settings};
use crate::shortcuts::ShortcutAction;
use crate::text::{chars_of, concat, digits_value, is_digit, parse_u64, parse_u64_exec, slice_chars, starts_with, starts_with_exec, str_equals};

verus! {

/// The command behind a tray-menu item id.
#[derive(Debug, Clone, Copy, PartialEq, Eq, Structural)]
pub enum MenuAction {
    Capture(CaptureMode),
    ScrollingCapture,
    /// A self-timer capture after this many seconds.
    Timer(u32),
    History,
    Welcome,
    Updates,
    Settings,
    Quit,
    /// Unknown ids, and timer ids without a valid number, do nothing.
    Ignore,
}

pub open spec fn timer_prefix() -> Seq<char> {
    seq!['t', 'i', 'm', 'e', 'r', '_']
}

/// What `u32::from_str` returns: `u64::from_str`'s number when it fits.
pub open spec fn parse_u32(s: Seq<char>) -> Option<u32> {
    match parse_u64(s) {
        Some(v) => if v <= u32::MAX {
            Some(v as u32)
        } else {
            None
        },
        None => None,
    }
}

/// The action of each menu item id.
pub open spec fn menu_action_spec(id: Seq<char>) -> MenuAction {
    if id == "capture_area"@ {
        MenuAction::Capture(CaptureMode::Area)
    } else if id == "capture_window"@ {
        MenuAction::Capture(CaptureMode::Window)
    } else if id == "capture_fullscreen"@ {
        MenuAction::Capture(CaptureMode::Fullscreen)
    } else if id == "capture_scrolling"@ {
        MenuAction::ScrollingCapture
    } else if starts_with(id, timer_prefix()) {
        match parse_u32(id.subrange(6, id.len() as int)) {
            Some(seconds) => MenuAction::Timer(seconds),
            None => MenuAction::Ignore,
        }
    } else if id == "history"@ {
        MenuAction::History
    } else if id == "welcome"@ {
        MenuAction::Welcome
    } else if id == "updates"@ {
        MenuAction::Updates
    } else if id == "settings"@ {
        MenuAction::Settings
    } else if id == "quit"@ {
        MenuAction::Quit
    } else {
        MenuAction::Ignore
    }
}

/// Decode a tray-menu item id.
pub fn menu_action(id: &str) -> (action: MenuAction)
    ensures
        action == menu_action_spec(id@),
{
    if str_equals(id, "capture_area") {
        return MenuAction::Capture(CaptureMode::Area);
    }
    if str_equals(id, "capture_window") {
        return MenuAction::Capture(CaptureMode::Window);
    }
    if str_equals(id, "capture_fullscreen") {
        return MenuAction::Capture(CaptureMode::Fullscreen);
    }
    if str_equals(id, "capture_scrolling") {
        return MenuAction::ScrollingCapture;
    }
    let chars = chars_of(id);
    let prefix = vec!['t', 'i', 'm', 'e', 'r', '_'];
    assert(prefix@ =~= timer_prefix());
    if starts_with_exec(chars.as_slice(), prefix.as_slice()) {
        let digits = slice_chars(chars.as_slice(), 6, chars.len());
        return match parse_u64_exec(digits.as_slice()) {
            Some(v) => if v <= 0xffff_ffff {
                MenuAction::Timer(v as u32)
            } else {
                MenuAction::Ignore
            },
            None => MenuAction::Ignore,
        };
    }
    if str_equals(id, "history") {
        MenuAction::History
    } else if str_equals(id, "welcome") {
        MenuAction::Welcome
    } else if str_equals(id, "updates") {
        MenuAction::Updates
    } else if str_equals(id, "settings") {
        MenuAction::Settings
    } else if str_equals(id, "quit") {
        MenuAction::Quit
    } else {
        MenuAction::Ignore
    }
}


/// The platform a menu is built for.
#[derive(Debug, Clone, Copy, PartialEq, Eq, Structural)]
pub enum Platform {
    MacOs,
    Linux,
    Other,
}

/// One clickable menu item: its id, its label and its accelerator hint.
#[derive(Debug, Clone, PartialEq, Eq)]
pub struct MenuItemSpec {
    pub id: String,
    pub label: String,
    pub accelerator: Option<String>,
}

/// One entry of the tray menu.
#[derive(Debug, Clone, PartialEq, Eq)]
pub enum MenuEntry {
    Item(MenuItemSpec),
    Separator,
    /// A labelled submenu of plain items.
    Submenu(String, Vec<MenuItemSpec>),
}

/// A menu item as text.
pub struct ItemModel {
    pub id: Seq<char>,
    pub label: Seq<char>,
    pub accelerator: Option<Seq<char>>,
}

/// A menu entry as text.
pub enum EntryModel {
    Item(ItemModel),
    Separator,
    Submenu(Seq<char>, Seq<ItemModel>),
}

pub open spec fn item_view(it: MenuItemSpec) -> ItemModel {
    ItemModel {
        id: it.id@,
        label: it.label@,
        accelerator: match it.accelerator {
            Some(a) => Some(a@),
            None => None,
        },
    }
}

pub open spec fn entry_view(e: MenuEntry) -> EntryModel {
    match e {
        MenuEntry::Item(it) => EntryModel::Item(item_view(it)),
        MenuEntry::Separator => EntryModel::Separator,
        MenuEntry::Submenu(label, items) => EntryModel::Submenu(label@, items@.map_values(|it: MenuItemSpec| item_view(it))),
    }
}

/// An item with the translation of `key` as its label and no accelerator.
pub open spec fn plain_item_spec(i18n: I18n, id: Seq<char>, key: Seq<char>) -> ItemModel {
    ItemModel { id, label: translation(i18n, key), accelerator: None }
}

/// On Linux the interactive captures open the portal's own dialog, which
/// their labels announce with an ellipsis.
pub open spec fn dialog_suffix(platform: Platform) -> Seq<char> {
    if platform == Platform::Linux {
        seq!['…']
    } else {
        Seq::empty()
    }
}

/// The tray menu: the three captures with their shortcuts, scrolling capture
/// (macOS only), the self-timer submenu, history, welcome, updates, settings
/// and quit, in groups divided by separators.
pub open spec fn menu_spec(i18n: I18n, settings: Settings, platform: Platform) -> Seq<EntryModel> {
    let head = seq![
        EntryModel::Item(ItemModel {
            id: "capture_area"@,
            label: translation(i18n, "tray.capture_area"@) + dialog_suffix(platform),
            accelerator: Some(shortcut_of(settings, ShortcutAction::Area)),
        }),
        EntryModel::Item(ItemModel {
            id: "capture_window"@,
            label: translation(i18n, "tray.capture_window"@) + dialog_suffix(platform),
            accelerator: Some(shortcut_of(settings, ShortcutAction::Window)),
        }),
        EntryModel::Item(ItemModel {
            id: "capture_fullscreen"@,
            label: translation(i18n, "tray.capture_fullscreen"@),
            accelerator: Some(shortcut_of(settings, ShortcutAction::Fullscreen)),
        }),
        EntryModel::Separator,
    ];
    let scrolling = if platform == Platform::MacOs {
        seq![EntryModel::Item(plain_item_spec(i18n, "capture_scrolling"@, "tray.capture_scrolling"@))]
    } else {
        Seq::empty()
    };
    let tail = seq![
        EntryModel::Submenu(
            translation(i18n, "tray.self_timer"@),
            seq![
                plain_item_spec(i18n, "timer_3"@, "tray.timer_3"@),
                plain_item_spec(i18n, "timer_5"@, "tray.timer_5"@),
                plain_item_spec(i18n, "timer_10"@, "tray.timer_10"@),
            ],
        ),
        EntryModel::Separator,
        EntryModel::Item(plain_item_spec(i18n, "history"@, "tray.history"@)),
        EntryModel::Separator,
        EntryModel::Item(plain_item_spec(i18n, "welcome"@, "tray.welcome"@)),
        EntryModel::Item(plain_item_spec(i18n, "updates"@, "tray.updates"@)),
        EntryModel::Separator,
        EntryModel::Item(ItemModel {
            id: "settings"@,
            label: translation(i18n, "tray.settings"@),
            accelerator: Some("CmdOrCtrl+,"@),
        }),
        EntryModel::Item(ItemModel {
            id: "quit"@,
            label: translation(i18n, "tray.quit"@),
            accelerator: Some("CmdOrCtrl+Q"@),
        }),
    ];
    head + scrolling + tail
}

fn plain_item(i18n: &I18n, id: &str, key: &str) -> (it: MenuItemSpec)
    ensures
        item_view(it) == plain_item_spec(*i18n, id@, key@),
{
    MenuItemSpec { id: id.to_owned(), label: t(i18n, key), accelerator: None }
}

fn capture_item(i18n: &I18n, id: &str, key: &str, suffix: bool, accel: &str) -> (it: MenuItemSpec)
    ensures
        item_view(it) == (ItemModel {
            id: id@,
            label: translation(*i18n, key@) + if suffix {
                seq!['…']
            } else {
                Seq::empty()
            },
            accelerator: Some(accel@),
        }),
{
    let base = t(i18n, key);
    let label = if suffix {
        let l = concat(base.as_str(), "…");
        proof {
            reveal_strlit("…");
            assert("…"@ =~= seq!['…']);
        }
        l
    } else {
        proof {
            assert(translation(*i18n, key@) + Seq::<char>::empty() =~= translation(*i18n, key@));
        }
        base
    };
    MenuItemSpec { id: id.to_owned(), label, accelerator: Some(accel.to_owned()) }
}

/// The tray menu for the current language, the configured shortcuts and
/// the platform.
pub fn build_menu(i18n: &I18n, settings: &Settings, platform: Platform) -> (menu: Vec<MenuEntry>)
    ensures
        menu@.map_values(|e: MenuEntry| entry_view(e)) == menu_spec(*i18n, *settings, platform),
{
    let linux = match platform {
        Platform::Linux => true,
        _ => false,
    };
    let mut menu: Vec<MenuEntry> = Vec::new();
    menu.push(
        MenuEntry::Item(
            capture_item(i18n, "capture_area", "tray.capture_area", linux, settings.shortcut(ShortcutAction::Area)),
        ),
    );
    menu.push(
        MenuEntry::Item(
            capture_item(
                i18n,
                "capture_window",
                "tray.capture_window",
                linux,
                settings.shortcut(ShortcutAction::Window),
            ),
        ),
    );
    menu.push(
        MenuEntry::Item(
            capture_item(
                i18n,
                "capture_fullscreen",
                "tray.capture_fullscreen",
                false,
                settings.shortcut(ShortcutAction::Fullscreen),
            ),
        ),
    );
    menu.push(MenuEntry::Separator);
    let ghost head_len: int = 4;
    match platform {
        Platform::MacOs => {
            menu.push(MenuEntry::Item(plain_item(i18n, "capture_scrolling", "tray.capture_scrolling")));
        },
        _ => {},
    }
    let mut timers: Vec<MenuItemSpec> = Vec::new();
    timers.push(plain_item(i18n, "timer_3", "tray.timer_3"));
    timers.push(plain_item(i18n, "timer_5", "tray.timer_5"));
    timers.push(plain_item(i18n, "timer_10", "tray.timer_10"));
    menu.push(MenuEntry::Submenu(t(i18n, "tray.self_timer"), timers));
    menu.push(MenuEntry::Separator);
    menu.push(MenuEntry::Item(plain_item(i18n, "history", "tray.history")));
    menu.push(MenuEntry::Separator);
    menu.push(MenuEntry::Item(plain_item(i18n, "welcome", "tray.welcome")));
    menu.push(MenuEntry::Item(plain_item(i18n, "updates", "tray.updates")));
    menu.push(MenuEntry::Separator);
    menu.push(
        MenuEntry::Item(
            MenuItemSpec {
                id: "settings".to_owned(),
                label: t(i18n, "tray.settings"),
                accelerator: Some("CmdOrCtrl+,".to_owned()),
            },
        ),
    );
    menu.push(
        MenuEntry::Item(
            MenuItemSpec {
                id: "quit".to_owned(),
                label: t(i18n, "tray.quit"),
                accelerator: Some("CmdOrCtrl+Q".to_owned()),
            },
        ),
    );
    proof {
        let spec = menu_spec(*i18n, *settings, platform);
        let got = menu@.map_values(|e: MenuEntry| entry_view(e));
        assert(got.len() == spec.len());
        assert forall|j: int| 0 <= j < got.len() implies got[j] == spec[j] by {
            if j == head_len + if platform == Platform::MacOs { 1int } else { 0int } {
                let e = menu@[j];
                if let MenuEntry::Submenu(_, items) = e {
                    assert(items@.map_values(|it: MenuItemSpec| item_view(it)) =~= seq![
                        plain_item_spec(*i18n, "timer_3"@, "tray.timer_3"@),
                        plain_item_spec(*i18n, "timer_5"@, "tray.timer_5"@),
                        plain_item_spec(*i18n, "timer_10"@, "tray.timer_10"@),
                    ]);
                }
            }
        }
        assert(got =~= spec);
    }
    menu
}


proof fn lemma_timer_id(id: Seq<char>, digits: Seq<char>, seconds: u32)
    requires
        id == timer_prefix() + digits,
        digits.len() > 0,
        digits[0] != '+',
        forall|i: int| 0 <= i < digits.len() ==> is_digit(#[trigger] digits[i]),
        digits_value(digits) == seconds,
    ensures
        menu_action_spec(id) == MenuAction::Timer(seconds),
{
    reveal_strlit("capture_area");
    reveal_strlit("capture_window");
    reveal_strlit("capture_fullscreen");
    reveal_strlit("capture_scrolling");
    assert(id.subrange(0, 6) =~= timer_prefix());
    assert(id.subrange(6, id.len() as int) =~= digits);
    assert(id[0] == 't');
}

/// Every item of the tray menu, on every platform, triggers an action: the
/// capture items capture in their mode and the self-timer items start a
/// timer of 3, 5 or 10 seconds.
pub proof fn lemma_menu_items_have_actions(i18n: I18n, settings: Settings, platform: Platform)
    ensures
        forall|j: int|
            0 <= j < menu_spec(i18n, settings, platform).len() ==> match #[trigger] menu_spec(
                i18n,
                settings,
                platform,
            )[j] {
                EntryModel::Item(it) => menu_action_spec(it.id) != MenuAction::Ignore,
                EntryModel::Separator => true,
                EntryModel::Submenu(_, items) => forall|k: int|
                    0 <= k < items.len() ==> (#[trigger] menu_action_spec(items[k].id)) is Timer,
            },
        menu_action_spec("capture_area"@) == MenuAction::Capture(CaptureMode::Area),
        menu_action_spec("capture_window"@) == MenuAction::Capture(CaptureMode::Window),
        menu_action_spec("capture_fullscreen"@) == MenuAction::Capture(CaptureMode::Fullscreen),
        menu_action_spec("timer_3"@) == MenuAction::Timer(3),
        menu_action_spec("timer_5"@) == MenuAction::Timer(5),
        menu_action_spec("timer_10"@) == MenuAction::Timer(10),
{
    reveal_strlit("capture_area");
    reveal_strlit("capture_window");
    reveal_strlit("capture_fullscreen");
    reveal_strlit("capture_scrolling");
    reveal_strlit("history");
    reveal_strlit("welcome");
    reveal_strlit("updates");
    reveal_strlit("settings");
    reveal_strlit("quit");
    reveal_strlit("timer_3");
    reveal_strlit("timer_5");
    reveal_strlit("timer_10");
    assert("timer_3"@ =~= timer_prefix() + seq!['3']);
    assert(digits_value(seq!['3']) == 3) by {
        assert(seq!['3'].drop_last() =~= Seq::<char>::empty());
        reveal_with_fuel(digits_value, 2);
    }
    lemma_timer_id("timer_3"@, seq!['3'], 3);
    assert("timer_5"@ =~= timer_prefix() + seq!['5']);
    assert(digits_value(seq!['5']) == 5) by {
        assert(seq!['5'].drop_last() =~= Seq::<char>::empty());
        reveal_with_fuel(digits_value, 2);
    }
    lemma_timer_id("timer_5"@, seq!['5'], 5);
    assert("timer_10"@ =~= timer_prefix() + seq!['1', '0']);
    assert(digits_value(seq!['1', '0']) == 10) by {
        assert(seq!['1', '0'].drop_last() =~= seq!['1']);
        assert(seq!['1'].drop_last() =~= Seq::<char>::empty());
        reveal_with_fuel(digits_value, 3);
    }
    lemma_timer_id("timer_10"@, seq!['1', '0'], 10);
    assert(!starts_with("history"@, timer_prefix()));
    assert(!starts_with("welcome"@, timer_prefix()));
    assert(!starts_with("updates"@, timer_prefix()));
    assert(!starts_with("settings"@, timer_prefix()));
    assert(!starts_with("quit"@, timer_prefix()));
}

} // verus!
