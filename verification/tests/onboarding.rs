use screenforme::onboarding::{entry_enabled, entry_scan_is_ascii, owned_screenshot_keys, screenshot_changes};
use screenforme::settings::Settings;
use screenforme::shortcuts::ShortcutAction;

fn entry(id: u32, enabled: bool) -> String {
    format!(
        r#"<key>{id}</key>
            <dict>
                <key>enabled</key>{}
                <key>value</key>
                <dict>
                    <key>parameters</key>
                    <array><integer>65535</integer><integer>51</integer><integer>1179648</integer></array>
                    <key>type</key>
                    <string>standard</string>
                </dict>
            </dict>"#,
        if enabled { "<true/>" } else { "<false/>" }
    )
}

fn plist(entries: &[String]) -> String {
    format!(
        r#"<?xml version="1.0" encoding="UTF-8"?>
<plist version="1.0">
<dict>
    <key>AppleSymbolicHotKeys</key>
    <dict>
    {}
    </dict>
</dict>
</plist>"#,
        entries.join("\n")
    )
}

#[test]
fn all_disabled_reports_nothing_owned() {
    let xml = plist(&[entry(28, false), entry(30, false), entry(184, false)]);
    assert!(owned_screenshot_keys(&xml).is_empty());
}

#[test]
fn only_the_enabled_entry_key_is_owned() {
    let xml = plist(&[entry(28, false), entry(30, true), entry(184, false)]);
    assert_eq!(owned_screenshot_keys(&xml), vec!["4"]);
}

#[test]
fn only_the_freed_key_is_not_owned() {
    let xml = plist(&[entry(28, false), entry(30, true), entry(184, true)]);
    assert_eq!(owned_screenshot_keys(&xml), vec!["4", "5"]);
}

#[test]
fn missing_entries_count_as_owned() {
    let xml = plist(&[entry(28, false)]);
    assert_eq!(owned_screenshot_keys(&xml), vec!["4", "5"]);
}

#[test]
fn clipboard_variants_are_ignored() {
    let xml = plist(&[
        entry(28, false),
        entry(29, true),
        entry(30, false),
        entry(31, true),
        entry(184, false),
    ]);
    assert!(owned_screenshot_keys(&xml).is_empty());
}

#[test]
fn garbage_without_entries_counts_as_all_owned() {
    assert_eq!(
        owned_screenshot_keys("<plist><dict></dict></plist>"),
        vec!["3", "4", "5"]
    );
}

#[test]
fn enabled_key_missing_from_dict_counts_as_enabled() {
    let xml = "<key>28</key><dict><key>value</key></dict>";
    assert!(entry_enabled(xml, 28));
}

#[test]
fn neither_true_nor_false_counts_as_disabled() {
    let xml = "<key>28</key><dict><key>enabled</key><integer>1</integer></dict>";
    assert!(!entry_enabled(xml, 28));
}

#[test]
fn enabled_flag_of_a_later_entry_is_not_read() {
    // The dict of entry 28 ends before the `enabled` key of entry 30.
    let xml = "<key>28</key><dict><key>value</key></dict><key>30</key><dict><key>enabled</key><true/></dict>";
    assert!(entry_enabled(xml, 28));
    let xml = "<key>28</key><dict><dict></dict></dict><key>enabled</key><false/>";
    assert!(entry_enabled(xml, 28));
}

#[test]
fn non_ascii_inside_the_scanned_dict_is_reported() {
    let xml = "<key>28</key><dict><string>é</string></dict>";
    assert!(!entry_scan_is_ascii(xml, 28));
    let xml = "é<key>28</key><dict><key>enabled</key><true/></dict>é";
    assert!(entry_scan_is_ascii(xml, 28));
    assert!(entry_enabled(xml, 28));
}

#[test]
fn screenshot_shortcuts_are_handed_to_the_capture_actions() {
    let mut settings = Settings::default();
    settings.set_shortcut(ShortcutAction::Window, "Alt+W".to_string());
    let changes = screenshot_changes(&settings);
    assert_eq!(
        changes,
        vec![
            (ShortcutAction::Fullscreen, "CmdOrCtrl+Shift+9".to_string(), "Cmd+Shift+3".to_string()),
            (ShortcutAction::Area, "CmdOrCtrl+Shift+7".to_string(), "Cmd+Shift+4".to_string()),
            (ShortcutAction::Window, "Alt+W".to_string(), "Cmd+Shift+5".to_string()),
        ]
    );
    settings.apply_changes(&changes);
    assert_eq!(settings.shortcut(ShortcutAction::Fullscreen), "Cmd+Shift+3");
    assert_eq!(settings.shortcut(ShortcutAction::Area), "Cmd+Shift+4");
    assert_eq!(settings.shortcut(ShortcutAction::Window), "Cmd+Shift+5");
}
