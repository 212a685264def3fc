use screenforme::capture::CaptureMode;
use screenforme::commands::{copies_to_clipboard, editor_target, follow_step, resolve, CaptureTimer, FollowStep};
use screenforme::history::CaptureKind;
use screenforme::history::{DirFile, History};


fn history() -> History {
    History::with_dir("/tmp/sfm-commands".to_string())
}

fn file(name: &str) -> DirFile {
    DirFile { name: name.to_string(), size: 4096, poster_is_file: false }
}

#[test]
fn the_editor_needs_a_selected_capture() {
    let h = history();
    assert_eq!(editor_target(&h, None), Err("no capture selected for the editor".to_string()));
    let f = file("capture-7.png");
    let entry = editor_target(&h, Some(("capture-7.png", &f))).unwrap();
    assert_eq!(entry.id, "capture-7.png");
    let bad = file("../x.png");
    assert_eq!(editor_target(&h, Some(("../x.png", &bad))), Err("unknown capture: ../x.png".to_string()));
    assert_eq!(resolve(&h, "../x.png", &bad), Err("unknown capture: ../x.png".to_string()));
}

#[test]
fn the_overlay_moves_after_two_agreeing_ticks() {
    let monitor = Some((1920, 0));
    let first = follow_step(true, false, false, monitor, false, None);
    assert_eq!(first, FollowStep { pending: monitor, move_now: false });
    let second = follow_step(true, false, false, monitor, false, first.pending);
    assert_eq!(second, FollowStep { pending: None, move_now: true });
}

#[test]
fn the_watcher_waits_while_the_user_is_busy() {
    let monitor = Some((1920, 0));
    let idle = FollowStep { pending: None, move_now: false };
    assert_eq!(follow_step(false, false, false, monitor, false, monitor), idle);
    assert_eq!(follow_step(true, true, false, monitor, false, monitor), idle);
    assert_eq!(follow_step(true, false, true, monitor, false, monitor), idle);
    assert_eq!(follow_step(true, false, false, None, false, monitor), idle);
    assert_eq!(follow_step(true, false, false, monitor, true, monitor), idle);
    // A different monitor restarts the count.
    assert_eq!(
        follow_step(true, false, false, Some((0, 0)), false, monitor),
        FollowStep { pending: Some((0, 0)), move_now: false }
    );
}

#[test]
fn videos_never_go_to_the_clipboard() {
    assert!(copies_to_clipboard(true, CaptureKind::Image));
    assert!(!copies_to_clipboard(true, CaptureKind::Video));
    assert!(!copies_to_clipboard(false, CaptureKind::Image));
}

#[test]
fn the_timer_fires_the_last_mode_used() {
    let mut timer = CaptureTimer::new();
    assert_eq!(timer.duration(), 5);
    assert_eq!(timer.fire_mode(), CaptureMode::Fullscreen);
    timer.record_mode(CaptureMode::Area);
    timer.start(10);
    assert_eq!(timer.duration(), 10);
    assert_eq!(timer.fire_mode(), CaptureMode::Area);
}
