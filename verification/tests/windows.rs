use screenforme::i18n::{Catalog, I18n};
use screenforme::windows::{bundle_root, component_is, install_reaction, relaunch_script, update_reaction, UpdateCheck, UpdateReaction};

fn messages() -> I18n {
    I18n::new(
        Catalog::from_json(
            r#"{"updates.available":"Version {version} is available","updates.latest":"You're up to date","updates.unreachable":"Could not reach the server: {err}","updates.check_failed":"Update check failed: {err}","updates.install_failed":"Install failed: {err}"}"#,
        )
        .unwrap(),
        Catalog::empty(),
        Catalog::empty(),
        Catalog::empty(),
        Catalog::empty(),
    )
}

#[test]
fn bundle_root_resolves_app_bundle() {
    assert_eq!(
        bundle_root("/Applications/Screen for me.app/Contents/MacOS/screenforme"),
        Some("/Applications/Screen for me.app".to_string())
    );
}

#[test]
fn bundle_root_rejects_bare_binary() {
    assert_eq!(bundle_root("/Users/x/repo/src-tauri/target/debug/screenforme"), None);
}

#[test]
fn bundle_root_rejects_wrong_layout() {
    assert_eq!(bundle_root("/opt/MacOS/screenforme"), None);
    assert_eq!(bundle_root("/Applications/Foo/Contents/MacOS/bin"), None);
}

#[test]
fn relaunch_script_waits_for_this_process() {
    assert_eq!(
        relaunch_script(4242),
        "n=0; while /bin/kill -0 4242 2>/dev/null && [ $n -lt 150 ]; do /bin/sleep 0.2; n=$((n+1)); done; \
         /bin/kill -0 4242 2>/dev/null || exec /usr/bin/open \"$0\""
    );
    assert!(relaunch_script(7).contains("kill -0 7 2>/dev/null ||"));
}

#[test]
fn found_updates_are_always_offered() {
    let i18n = messages();
    for silent in [false, true] {
        assert_eq!(
            update_reaction(&i18n, UpdateCheck::Available("2.0.0".to_string()), silent),
            UpdateReaction::Offer("Version 2.0.0 is available".to_string())
        );
    }
}

#[test]
fn a_requested_check_reports_every_outcome() {
    let i18n = messages();
    assert_eq!(
        update_reaction(&i18n, UpdateCheck::UpToDate, false),
        UpdateReaction::Inform("You're up to date".to_string())
    );
    assert_eq!(
        update_reaction(&i18n, UpdateCheck::Unreachable("timeout".to_string()), false),
        UpdateReaction::Warn("Could not reach the server: timeout".to_string())
    );
    assert_eq!(
        update_reaction(&i18n, UpdateCheck::CheckFailed("no endpoint".to_string()), false),
        UpdateReaction::Warn("Update check failed: no endpoint".to_string())
    );
}

#[test]
fn a_silent_check_only_logs_failures() {
    let i18n = messages();
    assert_eq!(update_reaction(&i18n, UpdateCheck::UpToDate, true), UpdateReaction::Nothing);
    assert_eq!(
        update_reaction(&i18n, UpdateCheck::Unreachable("timeout".to_string()), true),
        UpdateReaction::Log("update auto-check failed: timeout".to_string())
    );
    assert_eq!(
        update_reaction(&i18n, UpdateCheck::CheckFailed("no endpoint".to_string()), true),
        UpdateReaction::Log("update auto-check failed: no endpoint".to_string())
    );
}

#[test]
fn bundle_components_must_match_exactly() {
    assert!(component_is(Some("MacOS".to_string()), "MacOS"));
    assert!(!component_is(Some("macos".to_string()), "MacOS"));
    assert!(!component_is(None, "app"));
}

#[test]
fn an_install_relaunches_or_warns() {
    let i18n = messages();
    assert_eq!(install_reaction(&i18n, Ok(())), UpdateReaction::Relaunch);
    assert_eq!(
        install_reaction(&i18n, Err("signature mismatch".to_string())),
        UpdateReaction::Warn("Install failed: signature mismatch".to_string())
    );
}

#[test]
fn bundles_need_an_app_extension() {
    assert_eq!(bundle_root("/Applications/.app/Contents/MacOS/x"), None);
    assert_eq!(bundle_root("/Applications/X.app.bak/Contents/MacOS/x"), None);
    assert_eq!(bundle_root("/A/b.c.app/Contents/MacOS/x"), Some("/A/b.c.app".to_string()));
}
