use screenforme::capture::recording::{
    timeout_verdict, wait_budget, STOP_CEILING_MS,
    classify, validate_recording, wait_step, USER_DECLINED_CODE, Deadline, RecordError, RecorderEvent, WaitStep, MIN_PLAUSIBLE_MP4_BYTES,
};
use screenforme::capture::{capture_args, tool_error, validate_output, CaptureError, CaptureMode, CaptureOutcome};
use screenforme::commands::{check_export, decode_export, ExportAction};

#[test]
fn missing_file_is_cancelled() {
    assert_eq!(validate_output("/tmp/sfm-test-none.png", None), Ok(CaptureOutcome::Cancelled));
}

#[test]
fn tiny_file_is_empty_capture_error() {
    assert_eq!(validate_output("/tmp/sfm-test-tiny.png", Some(4)), Err(CaptureError::EmptyCapture));
    assert_eq!(validate_output("/tmp/sfm-test-tiny.png", Some(1023)), Err(CaptureError::EmptyCapture));
}

#[test]
fn plausible_file_is_captured() {
    assert_eq!(
        validate_output("/tmp/sfm-test-ok.png", Some(4096)),
        Ok(CaptureOutcome::Captured("/tmp/sfm-test-ok.png".to_string()))
    );
    assert!(matches!(validate_output("/tmp/x.png", Some(1024)), Ok(CaptureOutcome::Captured(_))));
}

#[test]
fn screencapture_arguments_per_mode() {
    assert_eq!(capture_args(CaptureMode::Area, None), ["-i", "-t", "png"]);
    assert_eq!(capture_args(CaptureMode::Window, None), ["-i", "-W", "-o", "-t", "png"]);
    assert_eq!(
        capture_args(CaptureMode::Fullscreen, Some("-1920,37,1920,1080")),
        ["-t", "png", "-R", "-1920,37,1920,1080"]
    );
}

#[test]
fn tool_errors_prefer_stderr() {
    assert_eq!(tool_error("boom", "exit status: 1"), CaptureError::Tool("boom".to_string()));
    assert_eq!(
        tool_error("", "exit status: 1"),
        CaptureError::Tool("screencapture exited with exit status: 1".to_string())
    );
}

#[test]
fn validate_recording_rejects_missing_and_tiny_files() {
    assert_eq!(
        validate_recording("/tmp/missing.mp4", None),
        Err(RecordError::Failed("recording produced no file".to_string()))
    );
    assert_eq!(
        validate_recording("/tmp/tiny.mp4", Some(3)),
        Err(RecordError::Failed("recording produced no usable video".to_string()))
    );
    assert_eq!(
        validate_recording("/tmp/ok.mp4", Some(MIN_PLAUSIBLE_MP4_BYTES)),
        Ok("/tmp/ok.mp4".to_string())
    );
}

#[test]
fn waiting_reacts_to_each_event() {
    assert_eq!(wait_step(RecorderEvent::Started, true, false), WaitStep::Arm(Deadline::Stop));
    assert_eq!(wait_step(RecorderEvent::Started, true, true), WaitStep::Continue);
    assert_eq!(wait_step(RecorderEvent::Started, false, false), WaitStep::Continue);
    assert_eq!(wait_step(RecorderEvent::Finished, false, false), WaitStep::Finish);
    assert_eq!(
        wait_step(RecorderEvent::Failed("disk full".into()), false, false),
        WaitStep::Fail("disk full".into())
    );
    assert_eq!(
        wait_step(RecorderEvent::StopCompleted(Err("nope".into())), true, true),
        WaitStep::Fail("nope".into())
    );
    assert_eq!(
        wait_step(RecorderEvent::StopCompleted(Ok(())), true, true),
        WaitStep::Arm(Deadline::FinishGrace)
    );
    assert_eq!(
        wait_step(RecorderEvent::StreamStopped("gone".into()), false, false),
        WaitStep::StreamStopped("gone".into())
    );
}

#[test]
fn exported_png_is_accepted() {
    // "\x89PNG\r\n\x1a\n" followed by one byte, in standard base64.
    let bytes = decode_export("iVBORw0KGgoA").unwrap();
    assert_eq!(bytes, b"\x89PNG\r\n\x1a\n\x00".to_vec());
}

#[test]
fn non_png_export_is_refused() {
    assert_eq!(
        decode_export("aGVsbG8="),
        Err("export produced invalid image data (5 bytes) — annotation not saved".to_string())
    );
    assert!(decode_export("not base64!").is_err());
    let _ = ExportAction::SaveTo { dest: "/tmp/x.png".into() };
}

#[test]
fn capture_errors_read_as_messages() {
    assert_eq!(
        CaptureError::Spawn("No such file or directory".to_string()).message(),
        "failed to run capture tool: No such file or directory"
    );
    assert_eq!(CaptureError::Tool("boom".to_string()).message(), "capture tool failed: boom");
    let empty = CaptureError::EmptyCapture.message();
    assert!(empty.starts_with("capture produced no usable image — "));
    assert!(empty.ends_with("(System Settings → Privacy & Security → Screen Recording)"));
}

#[test]
fn record_errors_read_as_messages() {
    assert_eq!(RecordError::ScreenPermission.message(), "screen recording permission denied");
    assert_eq!(RecordError::Failed("disk full".to_string()).message(), "disk full");
}

#[test]
fn declined_permission_is_classified_apart() {
    assert_eq!(USER_DECLINED_CODE, -3817);
    assert_eq!(classify(-3817, "The user declined TCCs".to_string()), RecordError::ScreenPermission);
    assert_eq!(
        classify(-3801, "The display is unavailable".to_string()),
        RecordError::Failed("The display is unavailable".to_string())
    );
    assert_eq!(classify(0, String::new()), RecordError::Failed(String::new()));
}

#[test]
fn decoded_exports_must_be_png() {
    let png = b"\x89PNG\r\n\x1a\nIHDR".to_vec();
    assert_eq!(check_export(Ok(png.clone())), Ok(png));
    assert_eq!(
        check_export(Ok(b"\x89PNG\r\n".to_vec())),
        Err("export produced invalid image data (6 bytes) — annotation not saved".to_string())
    );
    assert_eq!(
        check_export(Ok(Vec::new())),
        Err("export produced invalid image data (0 bytes) — annotation not saved".to_string())
    );
    assert_eq!(check_export(Err("Invalid padding".to_string())), Err("Invalid padding".to_string()));
}

#[test]
fn a_stop_request_bounds_the_wait() {
    assert_eq!(STOP_CEILING_MS, 15_000);
    assert_eq!(wait_budget(None, None), None);
    assert_eq!(wait_budget(Some(7_000), None), Some(7_000));
    assert_eq!(wait_budget(None, Some(0)), Some(15_000));
    assert_eq!(wait_budget(None, Some(4_000)), Some(11_000));
    assert_eq!(wait_budget(Some(5_000), Some(4_000)), Some(5_000));
    assert_eq!(wait_budget(Some(9_000), Some(12_000)), Some(3_000));
    assert_eq!(wait_budget(Some(9_000), Some(20_000)), Some(0));
}

#[test]
fn past_the_ceiling_the_wait_gives_up() {
    assert_eq!(timeout_verdict(None), None);
    assert_eq!(timeout_verdict(Some(14_999)), None);
    assert_eq!(
        timeout_verdict(Some(15_000)),
        Some(RecordError::Failed("recording did not stop in time".to_string()))
    );
}
