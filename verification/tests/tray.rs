use screenforme::capture::CaptureMode;
use screenforme::i18n::{Catalog, I18n};
use screenforme::settings::Settings;
use screenforme::shortcuts::ShortcutAction;
use screenforme::tray::{build_menu, menu_action, MenuAction, MenuEntry, MenuItemSpec, Platform};

fn labels() -> I18n {
    I18n::new(
        Catalog::from_json(
            r#"{"tray.capture_area":"Capture Area","tray.capture_window":"Capture Window","tray.capture_fullscreen":"Capture Screen","tray.capture_scrolling":"Scrolling Capture","tray.self_timer":"Self-Timer","tray.timer_3":"3 seconds","tray.timer_5":"5 seconds","tray.timer_10":"10 seconds","tray.history":"History","tray.welcome":"Welcome","tray.updates":"Check for Updates","tray.settings":"Settings…","tray.quit":"Quit"}"#,
        )
        .unwrap(),
        Catalog::empty(),
        Catalog::empty(),
        Catalog::empty(),
        Catalog::empty(),
    )
}

fn item(id: &str, label: &str, accelerator: Option<&str>) -> MenuEntry {
    MenuEntry::Item(MenuItemSpec {
        id: id.to_string(),
        label: label.to_string(),
        accelerator: accelerator.map(|a| a.to_string()),
    })
}

fn ids(menu: &[MenuEntry]) -> Vec<String> {
    let mut out = Vec::new();
    for entry in menu {
        match entry {
            MenuEntry::Item(it) => out.push(it.id.clone()),
            MenuEntry::Separator => {}
            MenuEntry::Submenu(_, items) => out.extend(items.iter().map(|it| it.id.clone())),
        }
    }
    out
}

#[test]
fn menu_items_decode_to_their_actions() {
    assert_eq!(menu_action("capture_area"), MenuAction::Capture(CaptureMode::Area));
    assert_eq!(menu_action("capture_window"), MenuAction::Capture(CaptureMode::Window));
    assert_eq!(menu_action("capture_fullscreen"), MenuAction::Capture(CaptureMode::Fullscreen));
    assert_eq!(menu_action("capture_scrolling"), MenuAction::ScrollingCapture);
    assert_eq!(menu_action("history"), MenuAction::History);
    assert_eq!(menu_action("welcome"), MenuAction::Welcome);
    assert_eq!(menu_action("updates"), MenuAction::Updates);
    assert_eq!(menu_action("settings"), MenuAction::Settings);
    assert_eq!(menu_action("quit"), MenuAction::Quit);
    assert_eq!(menu_action("nonsense"), MenuAction::Ignore);
}

#[test]
fn timer_items_carry_their_seconds() {
    assert_eq!(menu_action("timer_3"), MenuAction::Timer(3));
    assert_eq!(menu_action("timer_10"), MenuAction::Timer(10));
    assert_eq!(menu_action("timer_+7"), MenuAction::Timer(7));
    assert_eq!(menu_action("timer_4294967295"), MenuAction::Timer(u32::MAX));
    assert_eq!(menu_action("timer_4294967296"), MenuAction::Ignore);
    assert_eq!(menu_action("timer_"), MenuAction::Ignore);
    assert_eq!(menu_action("timer_x"), MenuAction::Ignore);
    assert_eq!(menu_action("timer"), MenuAction::Ignore);
}

#[test]
fn the_macos_menu_lists_every_command() {
    let mut settings = Settings::default();
    settings.set_shortcut(ShortcutAction::Area, "Cmd+Shift+4".to_string());
    let menu = build_menu(&labels(), &settings, Platform::MacOs);
    assert_eq!(
        menu,
        vec![
            item("capture_area", "Capture Area", Some("Cmd+Shift+4")),
            item("capture_window", "Capture Window", Some("CmdOrCtrl+Shift+8")),
            item("capture_fullscreen", "Capture Screen", Some("CmdOrCtrl+Shift+9")),
            MenuEntry::Separator,
            item("capture_scrolling", "Scrolling Capture", None),
            MenuEntry::Submenu(
                "Self-Timer".to_string(),
                vec![
                    MenuItemSpec { id: "timer_3".to_string(), label: "3 seconds".to_string(), accelerator: None },
                    MenuItemSpec { id: "timer_5".to_string(), label: "5 seconds".to_string(), accelerator: None },
                    MenuItemSpec { id: "timer_10".to_string(), label: "10 seconds".to_string(), accelerator: None },
                ],
            ),
            MenuEntry::Separator,
            item("history", "History", None),
            MenuEntry::Separator,
            item("welcome", "Welcome", None),
            item("updates", "Check for Updates", None),
            MenuEntry::Separator,
            item("settings", "Settings…", Some("CmdOrCtrl+,")),
            item("quit", "Quit", Some("CmdOrCtrl+Q")),
        ]
    );
}

#[test]
fn linux_labels_announce_the_portal_dialog() {
    let menu = build_menu(&labels(), &Settings::default(), Platform::Linux);
    assert_eq!(menu.len(), 13);
    assert_eq!(menu[0], item("capture_area", "Capture Area…", Some("CmdOrCtrl+Shift+7")));
    assert_eq!(menu[1], item("capture_window", "Capture Window…", Some("CmdOrCtrl+Shift+8")));
    assert_eq!(menu[2], item("capture_fullscreen", "Capture Screen", Some("CmdOrCtrl+Shift+9")));
    assert!(!ids(&menu).contains(&"capture_scrolling".to_string()));
}

#[test]
fn every_menu_item_has_an_action() {
    for platform in [Platform::MacOs, Platform::Linux, Platform::Other] {
        let menu = build_menu(&labels(), &Settings::default(), platform);
        for id in ids(&menu) {
            assert_ne!(menu_action(&id), MenuAction::Ignore, "{id}");
        }
    }
}
