use screenforme::i18n::{Catalog, I18n};
use screenforme::settings::{
    is_supported_language, judge_shortcut_change, AutoCloseAction, EditorPrefs, EditorPrefsStore,
    OverlayPosition, Settings, SettingsStore, ShortcutChecks,
};
use screenforme::shortcuts::{Shortcut, ShortcutAction, ShortcutError};
use screenforme::text::trim;

fn messages() -> I18n {
    I18n::new(
        Catalog::from_json(
            r#"{"settings.shortcut_error_invalid":"Invalid shortcut","settings.shortcut_error_modifier":"Add Ctrl, Alt or Cmd","settings.shortcut_error_duplicate":"Already used"}"#,
        )
        .unwrap(),
        Catalog::empty(),
        Catalog::empty(),
        Catalog::empty(),
        Catalog::empty(),
    )
}

const LANGUAGES: [&str; 6] = ["system", "en-GB", "es", "fr", "de", "it"];

#[test]
fn sanitize_clamps_seconds() {
    let s = Settings { auto_close_seconds: 0, ..Default::default() }.sanitized();
    assert_eq!(s.auto_close_seconds, 3);
    let s = Settings { auto_close_seconds: 9000, ..Default::default() }.sanitized();
    assert_eq!(s.auto_close_seconds, 600);
    let s = Settings { auto_close_seconds: 45, ..Default::default() }.sanitized();
    assert_eq!(s.auto_close_seconds, 45);
}

#[test]
fn sanitize_resets_unknown_language() {
    let s = Settings { language: "zz".into(), ..Default::default() }.sanitized();
    assert_eq!(s.language, "system");
    for tag in LANGUAGES {
        let s = Settings { language: tag.into(), ..Default::default() }.sanitized();
        assert_eq!(s.language, tag);
        assert!(is_supported_language(tag));
    }
}

#[test]
fn sanitize_resets_invalid_shortcuts() {
    let s = Settings {
        shortcut_area: "garbage".into(),
        shortcut_window: "Shift+8".into(), // no non-Shift modifier
        ..Default::default()
    }
    .sanitized();
    assert_eq!(s.shortcut_area, ShortcutAction::Area.default_accel());
    assert_eq!(s.shortcut_window, ShortcutAction::Window.default_accel());
}

#[test]
fn sanitize_resets_duplicate_shortcuts_keeping_the_earlier_action() {
    let s = Settings {
        shortcut_window: "Alt+Shift+K".into(),
        shortcut_fullscreen: "Alt+Shift+K".into(),
        ..Default::default()
    }
    .sanitized();
    assert_eq!(s.shortcut_window, "Alt+Shift+K");
    assert_eq!(s.shortcut_fullscreen, ShortcutAction::Fullscreen.default_accel());
}

#[test]
fn sanitize_preserves_macos_screenshot_shortcuts() {
    let s = Settings { shortcut_area: "Cmd+Shift+3".into(), ..Default::default() }.sanitized();
    assert_eq!(s.shortcut_area, "Cmd+Shift+3");
}

#[test]
fn defaults_are_what_a_fresh_install_shows() {
    let s = Settings::default();
    assert_eq!(s.position, OverlayPosition::Left);
    assert!(s.move_to_active_screen);
    assert!(!s.auto_close_enabled);
    assert_eq!(s.auto_close_action, AutoCloseAction::Close);
    assert_eq!(s.auto_close_seconds, 30);
    assert!(s.close_after_drag);
    assert_eq!(s.language, "system");
    assert_eq!(s.shortcut(ShortcutAction::Window), "CmdOrCtrl+Shift+8");
    let p = EditorPrefs::default();
    assert_eq!((p.tool.as_str(), p.color.as_str(), p.stroke_width), ("arrow", "#ff3b30", 4));
}

#[test]
fn missing_or_corrupt_file_yields_defaults() {
    let store = SettingsStore::load("settings.json".into(), None);
    assert_eq!(store.get(), Settings::default());
    assert_eq!(store.path(), "settings.json");
    let prefs = EditorPrefsStore::load("editor_prefs.json".into(), None);
    assert_eq!(prefs.get(), EditorPrefs::default());
}

#[test]
fn set_persists_and_reloads() {
    let mut store = SettingsStore::load("settings.json".into(), None);
    let mut s = Settings::default();
    s.position = OverlayPosition::Right;
    s.auto_close_enabled = true;
    s.auto_close_seconds = 10;
    let saved = store.set(s.clone());
    assert_eq!(saved, s);
    assert_eq!(store.get(), s);
    let reloaded = SettingsStore::load("settings.json".into(), Some(saved));
    assert_eq!(reloaded.get(), s);
}

#[test]
fn loaded_values_are_sanitized() {
    let stored = Settings { auto_close_seconds: 1, language: "xx".into(), ..Default::default() };
    let store = SettingsStore::load("settings.json".into(), Some(stored));
    assert_eq!(store.get().auto_close_seconds, 3);
    assert_eq!(store.get().language, "system");
    let prefs = EditorPrefs { tool: "pen".into(), color: "#000000".into(), stroke_width: 9 };
    let store = EditorPrefsStore::load("p.json".into(), Some(prefs.clone()));
    assert_eq!(store.get(), prefs);
}

#[test]
fn custom_shortcuts_roundtrip() {
    let mut store = SettingsStore::load("settings.json".into(), None);
    let mut s = Settings::default();
    s.set_shortcut(ShortcutAction::Area, "Alt+Shift+1".into());
    s.set_shortcut(ShortcutAction::Window, "Ctrl+Alt+W".into());
    let saved = store.set(s.clone());
    assert_eq!(saved, s);
    assert_eq!(store.get().shortcut(ShortcutAction::Area), "Alt+Shift+1");
}

#[test]
fn a_default_taken_by_an_earlier_action_is_kept_by_it() {
    let a = Shortcut { mods: 8, key: 1 };
    let b = Shortcut { mods: 8, key: 2 };
    let checks = ShortcutChecks {
        area: Some(b),
        window: None,
        fullscreen: Some(b),
        default_area: Some(a),
        default_window: Some(b),
        default_fullscreen: Some(Shortcut { mods: 8, key: 3 }),
    };
    let s = Settings { shortcut_area: "X".into(), shortcut_fullscreen: "Y".into(), ..Default::default() };
    let out = s.sanitized_with(&checks);
    assert_eq!(out.shortcut_area, "X");
    assert_eq!(out.shortcut_window, ShortcutAction::Window.default_accel());
    assert_eq!(out.shortcut_fullscreen, ShortcutAction::Fullscreen.default_accel());
}

#[test]
fn trimming_drops_surrounding_white_space_only() {
    assert_eq!(trim("  Alt+Shift+K \t\n"), "Alt+Shift+K");
    assert_eq!(trim("\u{3000}Ctrl + F5\u{a0}"), "Ctrl + F5");
    assert_eq!(trim(" \t "), "");
    assert_eq!(trim(""), "");
    assert_eq!(trim("x"), "x");
}

#[test]
fn a_new_shortcut_is_trimmed_and_checked() {
    let i18n = messages();
    let s = Settings::default();
    let change = s.shortcut_change(&i18n, ShortcutAction::Area, "  Alt+Shift+K  ").unwrap();
    assert_eq!(change.accelerator, "Alt+Shift+K");
    assert!(change.rebind);
    assert_eq!(
        s.shortcut_change(&i18n, ShortcutAction::Area, "garbage"),
        Err("Invalid shortcut".to_string())
    );
    assert_eq!(
        s.shortcut_change(&i18n, ShortcutAction::Area, "Shift+K"),
        Err("Add Ctrl, Alt or Cmd".to_string())
    );
}

#[test]
fn a_shortcut_of_another_action_is_refused() {
    let i18n = messages();
    let s = Settings::default();
    assert_eq!(
        s.shortcut_change(&i18n, ShortcutAction::Window, ShortcutAction::Area.default_accel()),
        Err("Already used".to_string())
    );
    // Its own shortcut again is no duplicate, and needs no rebind.
    let same = s.shortcut_change(&i18n, ShortcutAction::Area, ShortcutAction::Area.default_accel()).unwrap();
    assert!(!same.rebind);
}

#[test]
fn the_verdict_on_a_new_shortcut() {
    let i18n = messages();
    let a = Shortcut { mods: 8, key: 1 };
    let b = Shortcut { mods: 8, key: 2 };
    let checks = ShortcutChecks {
        area: Some(a),
        window: Some(b),
        fullscreen: None,
        default_area: Some(a),
        default_window: Some(b),
        default_fullscreen: None,
    };
    assert_eq!(
        judge_shortcut_change(&i18n, ShortcutAction::Fullscreen, Ok(b), &checks, None),
        Err("Already used".to_string())
    );
    assert_eq!(judge_shortcut_change(&i18n, ShortcutAction::Window, Ok(b), &checks, Some(b)), Ok((b, false)));
    let c = Shortcut { mods: 1, key: 3 };
    assert_eq!(judge_shortcut_change(&i18n, ShortcutAction::Fullscreen, Ok(c), &checks, None), Ok((c, true)));
    assert_eq!(
        judge_shortcut_change(&i18n, ShortcutAction::Area, Err(ShortcutError::MissingModifier), &checks, None),
        Err("Add Ctrl, Alt or Cmd".to_string())
    );
}

#[test]
fn stored_changes_replace_only_their_actions() {
    let mut s = Settings { auto_close_seconds: 42, ..Default::default() };
    s.apply_changes(&[
        (ShortcutAction::Window, "CmdOrCtrl+Shift+8".to_string(), "Alt+W".to_string()),
        (ShortcutAction::Window, "Alt+W".to_string(), "Alt+X".to_string()),
    ]);
    assert_eq!(s.shortcut_window, "Alt+X");
    assert_eq!(s.shortcut_area, ShortcutAction::Area.default_accel());
    assert_eq!(s.shortcut_fullscreen, ShortcutAction::Fullscreen.default_accel());
    assert_eq!(s.auto_close_seconds, 42);
}

#[test]
fn sanitizing_twice_changes_nothing() {
    let s = Settings {
        auto_close_seconds: 0,
        language: "zz".into(),
        shortcut_area: "garbage".into(),
        shortcut_window: "Alt+Shift+K".into(),
        shortcut_fullscreen: "Alt+Shift+K".into(),
        ..Default::default()
    };
    let once = s.sanitized();
    assert_eq!(once.clone().sanitized(), once);
    assert_eq!(Settings::default().sanitized(), Settings::default());
}
