use screenforme::commands::resolve;
use screenforme::history::{
    is_in_progress_recording, parse_capture_name, poster_path, CaptureEntry, CaptureKind, DirFile, History,
    MAX_CAPTURES, MAX_VIDEOS, MIN_PLAUSIBLE_MP4_BYTES,
};

const DIR: &str = "/tmp/sfm-history";

fn history() -> History {
    History::with_dir(DIR.to_string())
}

fn file(name: &str, size: u64) -> DirFile {
    DirFile { name: name.to_string(), size, poster_is_file: false }
}

fn video(name: &str, with_poster: bool) -> DirFile {
    DirFile { name: name.to_string(), size: MIN_PLAUSIBLE_MP4_BYTES, poster_is_file: with_poster }
}

fn ids(entries: &[CaptureEntry]) -> Vec<String> {
    entries.iter().map(|e| e.id.clone()).collect()
}

/// The entries that remain once the doomed indices are deleted.
fn after_prune(h: &History, entries: Vec<CaptureEntry>) -> Vec<CaptureEntry> {
    let doomed = h.prune(&entries);
    entries.into_iter().enumerate().filter(|(i, _)| !doomed.contains(i)).map(|(_, e)| e).collect()
}

#[test]
fn list_is_newest_first_and_ignores_foreign_files() {
    let h = history();
    let files = vec![
        file("capture-1000.png", 1),
        file("capture-3000.png", 1),
        file("capture-2000.png", 1),
        file("notes.txt", 1),
        file("capture-4000.mov", 1),
    ];
    assert_eq!(
        ids(&h.list(&files)),
        ["capture-3000.png", "capture-2000.png", "capture-1000.png"]
    );
}

#[test]
fn empty_files_are_skipped() {
    let h = history();
    let files = vec![file("capture-1000.png", 1), file("capture-2000.png", 0)];
    assert_eq!(ids(&h.list(&files)), ["capture-1000.png"]);
    assert!(h.resolve("capture-2000.png", &file("capture-2000.png", 0)).is_none());
}

#[test]
fn resolve_rejects_traversal() {
    let h = history();
    assert!(h.resolve("../etc/passwd", &file("../etc/passwd", 10)).is_none());
    assert!(h.resolve("capture-1.png/x", &file("capture-1.png/x", 10)).is_none());
    assert!(h.resolve("capture-1..png", &file("capture-1..png", 10)).is_none());
    assert!(h.resolve("capture-1.png", &file("capture-1.png", 10)).is_some());
}

#[test]
fn new_capture_path_uses_the_requested_extension() {
    let h = history();
    assert!(h.new_capture_path("mp4").ends_with(".mp4"));
    assert!(h.new_capture_path("png").ends_with(".png"));
    assert_eq!(h.capture_path_at("png", 42), "/tmp/sfm-history/capture-42.png");
}

#[test]
fn videos_are_listed_with_kind_and_poster() {
    let h = history();
    let files = vec![
        file("capture-1000.png", 1),
        video("capture-2000.mp4", true),
        file("capture-2000.mp4.png", 1),
        video("capture-3000.mp4", false),
    ];
    let entries = h.list(&files);
    assert_eq!(
        ids(&entries),
        ["capture-3000.mp4", "capture-2000.mp4", "capture-1000.png"]
    );
    assert_eq!(entries[0].kind, CaptureKind::Video);
    assert_eq!(entries[0].poster, None);
    assert_eq!(entries[1].kind, CaptureKind::Video);
    assert_eq!(entries[1].poster.as_deref(), Some("/tmp/sfm-history/capture-2000.mp4.png"));
    assert_eq!(entries[2].kind, CaptureKind::Image);
    assert_eq!(entries[2].poster, None);
    assert!(h.resolve("capture-2000.mp4.png", &file("capture-2000.mp4.png", 1)).is_none());
}

#[test]
fn prune_keeps_newest() {
    let h = history();
    let files: Vec<DirFile> =
        (0..(MAX_CAPTURES + 5)).map(|i| file(&format!("capture-{}.png", 1000 + i), 1)).collect();
    let kept = after_prune(&h, h.list(&files));
    assert_eq!(kept.len(), MAX_CAPTURES);
    assert_eq!(kept[0].id, format!("capture-{}.png", 1000 + MAX_CAPTURES + 4));
}

#[test]
fn prune_caps_videos_and_removes_their_posters() {
    let h = history();
    let mut files: Vec<DirFile> =
        (0..(MAX_VIDEOS + 2)).map(|i| video(&format!("capture-{}.mp4", 1000 + i), true)).collect();
    files.push(file("capture-100.png", 1));
    let entries = h.list(&files);
    let doomed = h.prune(&entries);
    let removed: Vec<&CaptureEntry> = doomed.iter().map(|&i| &entries[i]).collect();
    assert_eq!(removed.len(), 2);
    assert_eq!(removed[0].id, "capture-1001.mp4");
    assert_eq!(removed[1].id, "capture-1000.mp4");
    assert_eq!(removed[1].poster.as_deref(), Some("/tmp/sfm-history/capture-1000.mp4.png"));
    let kept = after_prune(&h, entries);
    let videos = kept.iter().filter(|e| e.kind == CaptureKind::Video).count();
    assert_eq!(videos, MAX_VIDEOS);
    assert!(kept.iter().any(|e| e.id == "capture-100.png"));
    assert!(kept.iter().any(|e| e.id == "capture-1002.mp4"));
}

#[test]
fn in_progress_recordings_are_never_listed() {
    let h = history();
    let files = vec![video("recording-1000.mp4", false), video("capture-2000.mp4", false)];
    assert_eq!(ids(&h.list(&files)), ["capture-2000.mp4"]);
    assert!(h.resolve("recording-1000.mp4", &video("recording-1000.mp4", false)).is_none());
}

#[test]
fn new_recording_paths_share_one_timestamp() {
    let h = history();
    let (progress, final_path) = h.new_recording_paths();
    let progress_ms = progress
        .strip_prefix("/tmp/sfm-history/recording-")
        .and_then(|n| n.strip_suffix(".mp4"))
        .map(str::to_string);
    let final_ms = final_path
        .strip_prefix("/tmp/sfm-history/capture-")
        .and_then(|n| n.strip_suffix(".mp4"))
        .map(str::to_string);
    assert!(progress_ms.is_some());
    assert_eq!(progress_ms, final_ms);
    assert_eq!(
        h.recording_paths_at(7),
        ("/tmp/sfm-history/recording-7.mp4".to_string(), "/tmp/sfm-history/capture-7.mp4".to_string())
    );
}

#[test]
fn leftover_in_progress_recordings_are_swept_on_open() {
    assert!(is_in_progress_recording("recording-1000.mp4"));
    assert!(is_in_progress_recording("recording-2000.mp4"));
    assert!(!is_in_progress_recording("capture-3000.mp4"));
    assert!(!is_in_progress_recording("notes.txt"));
    assert!(!is_in_progress_recording("recording-1000.mov"));
}

#[test]
fn undersized_videos_are_skipped() {
    let h = history();
    let files = vec![
        file("capture-1000.mp4", MIN_PLAUSIBLE_MP4_BYTES - 1),
        video("capture-2000.mp4", false),
    ];
    assert_eq!(ids(&h.list(&files)), ["capture-2000.mp4"]);
    assert!(h.resolve("capture-1000.mp4", &file("capture-1000.mp4", MIN_PLAUSIBLE_MP4_BYTES - 1)).is_none());
}

#[test]
fn poster_path_appends_png() {
    assert_eq!(poster_path("/x/capture-5.mp4"), "/x/capture-5.mp4.png");
}

#[test]
fn capture_names_parse_like_u64_from_str() {
    assert_eq!(parse_capture_name("capture-1000.png"), Some((1000, CaptureKind::Image)));
    assert_eq!(parse_capture_name("capture-+7.mp4"), Some((7, CaptureKind::Video)));
    assert_eq!(parse_capture_name("capture-.png"), None);
    assert_eq!(parse_capture_name("capture-1.2.png"), None);
    assert_eq!(parse_capture_name("capture-18446744073709551616.png"), None);
    assert_eq!(
        parse_capture_name("capture-18446744073709551615.png"),
        Some((u64::MAX, CaptureKind::Image))
    );
    assert_eq!(parse_capture_name("capture-12.PNG"), None);
    assert_eq!(parse_capture_name("screenshot-12.png"), None);
}

#[test]
fn unknown_ids_are_reported() {
    let h = history();
    assert_eq!(
        resolve(&h, "notes.txt", &file("notes.txt", 5)),
        Err("unknown capture: notes.txt".to_string())
    );
    let e = resolve(&h, "capture-5.png", &file("capture-5.png", 5)).unwrap();
    assert_eq!(e.path, "/tmp/sfm-history/capture-5.png");
    assert_eq!(e.created_ms, 5);
}

#[test]
fn equal_timestamps_keep_both_entries() {
    let h = history();
    let files = vec![file("capture-5.png", 1), video("capture-5.mp4", false), file("capture-9.png", 1)];
    let entries = h.list(&files);
    assert_eq!(entries.len(), 3);
    assert_eq!(entries[0].id, "capture-9.png");
}

#[test]
fn captures_taken_in_the_same_millisecond_keep_the_directory_order() {
    let h = history();
    let a = file("capture-5.png", 10);
    let b = video("capture-5.mp4", false);
    let c = file("capture-9.png", 10);
    assert_eq!(ids(&h.list(&vec![a.clone(), b.clone(), c.clone()])), ["capture-9.png", "capture-5.png", "capture-5.mp4"]);
    assert_eq!(ids(&h.list(&vec![b, c, a])), ["capture-9.png", "capture-5.mp4", "capture-5.png"]);
}

#[test]
fn paths_join_like_std() {
    let h = history();
    assert_eq!(h.path_of("capture-1.png"), "/tmp/sfm-history/capture-1.png");
    assert_eq!(h.path_of("/etc/passwd"), "/etc/passwd");
    assert_eq!(h.capture_path_at("a/b", 3), "/tmp/sfm-history/capture-3.a/b");
    assert_eq!(History::with_dir("/tmp/x/".to_string()).path_of("y"), "/tmp/x/y");
    assert_eq!(History::with_dir(String::new()).path_of("y"), "y");
    for (dir, name) in [("/tmp/x", "capture-1.png"), ("/tmp/x/", "a/b"), ("", "y"), ("/d", "/abs")] {
        let expected = std::path::Path::new(dir).join(name).to_string_lossy().into_owned();
        assert_eq!(History::with_dir(dir.to_string()).path_of(name), expected);
    }
}
