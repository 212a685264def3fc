//! Capture-level types shared by every capture flavour.

pub mod recording;
pub mod scroll_input;
pub mod scrolling;
pub mod stitch;

use vstd::prelude::*;

use crate::text::{chars_of, concat, decimal, decimal_chars, string_of};

verus! {

/// Scroll direction for scrolling capture.
#[derive(Debug, Clone, Copy, PartialEq, Eq, Structural)]
pub enum ScrollDirection {
    Up,
    Down,
    Left,
    Right,
}

/// What kind of screenshot to take.
#[derive(Debug, Clone, Copy, PartialEq, Eq, Structural)]
pub enum CaptureMode {
    Area,
    Window,
    Fullscreen,
}

/// The result of a capture attempt.
#[derive(Debug, Clone, PartialEq, Eq)]
pub enum CaptureOutcome {
    /// A capture was written to the given path.
    Captured(String),
    /// The user dismissed the selection UI (Escape); not an error.
    Cancelled,
}

/// Why a capture failed.
#[derive(Debug, Clone, PartialEq, Eq)]
pub enum CaptureError {
    /// The capture tool could not be started (the I/O error's message).
    Spawn(String),
    /// The capture tool failed, with its message.
    Tool(String),
    /// The capture produced no usable image (usually a missing Screen
    /// Recording permission).
    EmptyCapture,
}

/// The message shown for a capture error.
pub open spec fn capture_error_message(e: CaptureError) -> Seq<char> {
    match e {
        CaptureError::Spawn(msg) => "failed to run capture tool: "@ + msg@,
        CaptureError::Tool(msg) => "capture tool failed: "@ + msg@,
        CaptureError::EmptyCapture => "capture produced no usable image — on macOS this usually means the app lacks Screen Recording permission (System Settings → Privacy & Security → Screen Recording)"@,
    }
}

impl CaptureError {
    /// The error as text, as shown to the user and written to the log.
    pub fn message(&self) -> (m: String)
        ensures
            m@ == capture_error_message(*self),
    {
        match self {
            CaptureError::Spawn(msg) => concat("failed to run capture tool: ", msg.as_str()),
            CaptureError::Tool(msg) => concat("capture tool failed: ", msg.as_str()),
            CaptureError::EmptyCapture => "capture produced no usable image — on macOS this usually means the app lacks Screen Recording permission (System Settings → Privacy & Security → Screen Recording)".to_owned(),
        }
    }
}

/// A cancelled interactive selection leaves no file; a permission-starved
/// capture can leave a tiny/blank one. Anything below this is not a screenshot.
pub const MIN_PLAUSIBLE_PNG_BYTES: u64 = 1024;

/// What a finished capture tool run means, given the size of the file it
/// left at `dest` (`None`: no file). `EmptyCapture` asks the caller to
/// delete the useless file.
pub fn validate_output(dest: &str, size: Option<u64>) -> (r: Result<CaptureOutcome, CaptureError>)
    ensures
        match size {
            None => r == Ok::<CaptureOutcome, CaptureError>(CaptureOutcome::Cancelled),
            Some(n) => if n < MIN_PLAUSIBLE_PNG_BYTES {
                r == Err::<CaptureOutcome, CaptureError>(CaptureError::EmptyCapture)
            } else {
                r matches Ok(CaptureOutcome::Captured(p)) && p@ == dest@
            },
        },
{
    match size {
        None => Ok(CaptureOutcome::Cancelled),
        Some(n) => if n < MIN_PLAUSIBLE_PNG_BYTES {
            Err(CaptureError::EmptyCapture)
        } else {
            Ok(CaptureOutcome::Captured(dest.to_owned()))
        },
    }
}

/// Arguments for macOS `screencapture` per mode, before the destination.
pub open spec fn capture_args_spec(mode: CaptureMode, rect: Option<Seq<char>>) -> Seq<Seq<char>> {
    let base = match mode {
        CaptureMode::Area => seq!["-i"@, "-t"@, "png"@],
        CaptureMode::Window => seq!["-i"@, "-W"@, "-o"@, "-t"@, "png"@],
        CaptureMode::Fullscreen => seq!["-t"@, "png"@],
    };
    match rect {
        Some(r) => base + seq!["-R"@, r],
        None => base,
    }
}

/// The `screencapture` arguments for `mode`; `rect` ("x,y,w,h" of the display
/// under the cursor) restricts a fullscreen capture to that display.
pub fn capture_args(mode: CaptureMode, rect: Option<&str>) -> (args: Vec<String>)
    ensures
        args@.map_values(|a: String| a@) == capture_args_spec(
            mode,
            match rect {
                Some(r) => Some(r@),
                None => None,
            },
        ),
{
    let mut args: Vec<String> = Vec::new();
    match mode {
        CaptureMode::Area => {
            args.push("-i".to_owned());
            args.push("-t".to_owned());
            args.push("png".to_owned());
        },
        CaptureMode::Window => {
            args.push("-i".to_owned());
            args.push("-W".to_owned());
            args.push("-o".to_owned());
            args.push("-t".to_owned());
            args.push("png".to_owned());
        },
        CaptureMode::Fullscreen => {
            args.push("-t".to_owned());
            args.push("png".to_owned());
        },
    }
    let ghost base = args@.map_values(|a: String| a@);
    assert(base =~= capture_args_spec(mode, None));
    match rect {
        Some(r) => {
            args.push("-R".to_owned());
            args.push(r.to_owned());
            assert(args@.map_values(|a: String| a@) =~= base + seq!["-R"@, r@]);
        },
        None => {},
    }
    args
}

/// The error for a `screencapture` run that exited unsuccessfully: its
/// (trimmed) standard error, or the exit status when that is empty.
pub fn tool_error(stderr: &str, status: &str) -> (e: CaptureError)
    ensures
        e matches CaptureError::Tool(msg) && msg@ == if stderr@.len() == 0 {
            "screencapture exited with "@ + status@
        } else {
            stderr@
        },
{
    let err = chars_of(stderr);
    if err.len() == 0 {
        let mut msg = chars_of("screencapture exited with ");
        let mut st = chars_of(status);
        msg.append(&mut st);
        CaptureError::Tool(string_of(msg.as_slice()))
    } else {
        CaptureError::Tool(stderr.to_owned())
    }
}

} // verus!
