//! Decisions behind the application's commands: checking exported editor
//! images and resolving capture ids into history entries.

use base64::Engine;
use vstd::prelude::*;

use crate::capture::CaptureMode;
use crate::history::{entry_view, id_is_safe, CaptureEntry, CaptureKind, DirFile, History};
use crate::text::{chars_of, decimal, decimal_chars, string_of};

verus! {

/// What to do with an image exported from the annotation editor.
#[derive(Debug, Clone, PartialEq, Eq)]
pub enum ExportAction {
    /// Put it on the clipboard.
    Copy,
    /// Write it to the chosen file.
    SaveTo { dest: String },
    /// Replace the capture with this id.
    Overwrite { id: String },
}

/// What the standard base64 engine of the base64 crate decodes from a text:
/// the bytes, or the message of its decoding error.
pub uninterp spec fn base64_decoding(data: Seq<char>) -> Result<Seq<u8>, Seq<char>>;

/// `base64::engine::general_purpose::STANDARD.decode`, with the error turned
/// into its message. Trusted: the outcome is what `base64_decoding` names.
#[verifier::external_body]
fn decode_base64(data: &str) -> (r: Result<Vec<u8>, String>)
    ensures
        match r {
            Ok(bytes) => base64_decoding(data@) == Ok::<Seq<u8>, Seq<char>>(bytes@),
            Err(msg) => base64_decoding(data@) == Err::<Seq<u8>, Seq<char>>(msg@),
        },
{
    base64::engine::general_purpose::STANDARD.decode(data).map_err(|e| e.to_string())
}

/// The eight bytes every PNG file starts with.
pub open spec fn png_magic() -> Seq<u8> {
    seq![0x89u8, 0x50u8, 0x4eu8, 0x47u8, 0x0du8, 0x0au8, 0x1au8, 0x0au8]
}

/// The refusal of exported data that is not a PNG.
pub open spec fn invalid_export_message(len: nat) -> Seq<char> {
    "export produced invalid image data ("@ + decimal(len) + " bytes) — annotation not saved"@
}

/// What checking the outcome of decoding an exported image gives: the
/// bytes when they are a PNG; else the decoding error, or the invalid-data
/// message.
pub open spec fn checked_export(decoded: Result<Seq<u8>, Seq<char>>) -> Result<Seq<u8>, Seq<char>> {
    match decoded {
        Err(msg) => Err(msg),
        Ok(bytes) => if bytes.len() >= 8 && bytes.subrange(0, 8) == png_magic() {
            Ok(bytes)
        } else {
            Err(invalid_export_message(bytes.len()))
        },
    }
}

/// Checks what decoding the editor's export produced, refusing anything
/// that is not a PNG so that a broken export never overwrites a capture.
pub fn check_export(decoded: Result<Vec<u8>, String>) -> (r: Result<Vec<u8>, String>)
    ensures
        match r {
            Ok(bytes) => checked_export(
                match decoded {
                    Ok(b) => Ok(b@),
                    Err(m) => Err(m@),
                },
            ) == Ok::<Seq<u8>, Seq<char>>(bytes@),
            Err(msg) => checked_export(
                match decoded {
                    Ok(b) => Ok(b@),
                    Err(m) => Err(m@),
                },
            ) == Err::<Seq<u8>, Seq<char>>(msg@),
        },
{
    let bytes = match decoded {
        Ok(b) => b,
        Err(msg) => return Err(msg),
    };
    let magic: [u8; 8] = [0x89, 0x50, 0x4e, 0x47, 0x0d, 0x0a, 0x1a, 0x0a];
    let mut ok = bytes.len() >= 8;
    let mut i: usize = 0;
    while ok && i < 8
        invariant
            i <= 8,
            ok ==> bytes@.len() >= 8,
            ok ==> forall|j: int| 0 <= j < i ==> bytes@[j] == png_magic()[j],
            !ok ==> !(bytes@.len() >= 8 && bytes@.subrange(0, 8) == png_magic()),
            magic@ == png_magic(),
        decreases 8 - i,
    {
        if bytes[i] != magic[i] {
            assert(bytes@.subrange(0, 8)[i as int] != png_magic()[i as int]);
            ok = false;
        }
        i = i + 1;
    }
    if ok {
        assert(bytes@.subrange(0, 8) =~= png_magic());
        Ok(bytes)
    } else {
        let mut msg = chars_of("export produced invalid image data (");
        let mut digits = decimal_chars(bytes.len() as u64);
        msg.append(&mut digits);
        let mut tail = chars_of(" bytes) — annotation not saved");
        msg.append(&mut tail);
        assert(msg@ =~= invalid_export_message(bytes@.len()));
        Err(string_of(msg.as_slice()))
    }
}

/// Decodes the base64 PNG the editor exported and checks it.
pub fn decode_export(data: &str) -> (r: Result<Vec<u8>, String>)
    ensures
        match r {
            Ok(bytes) => checked_export(base64_decoding(data@)) == Ok::<Seq<u8>, Seq<char>>(bytes@),
            Err(msg) => checked_export(base64_decoding(data@)) == Err::<Seq<u8>, Seq<char>>(msg@),
        },
{
    check_export(decode_base64(data))
}

/// The history entry for `id`, or "unknown capture: <id>". `file` is what
/// the application found under that name in the history directory.
pub fn resolve(history: &History, id: &str, file: &DirFile) -> (r: Result<CaptureEntry, String>)
    requires
        file.name@ == id@,
    ensures
        match r {
            Ok(e) => id_is_safe(id@) && entry_view(history.directory(), file@) == Some(e@),
            Err(msg) => (!id_is_safe(id@) || entry_view(history.directory(), file@) is None) && msg@
                == "unknown capture: "@ + id@,
        },
{
    match history.resolve(id, file) {
        Some(e) => Ok(e),
        None => {
            let mut msg = chars_of("unknown capture: ");
            let mut rest = chars_of(id);
            msg.append(&mut rest);
            Err(string_of(msg.as_slice()))
        },
    }
}

/// The capture the editor should show: the one last opened in it (its id
/// and what the history directory holds under that name), or an error when
/// none was.
pub fn editor_target(history: &History, target: Option<(&str, &DirFile)>) -> (r: Result<
    CaptureEntry,
    String,
>)
    requires
        target matches Some((id, file)) ==> file.name@ == id@,
    ensures
        match target {
            None => r matches Err(msg) && msg@ == "no capture selected for the editor"@,
            Some((id, file)) => match r {
                Ok(e) => id_is_safe(id@) && entry_view(history.directory(), file@) == Some(e@),
                Err(msg) => (!id_is_safe(id@) || entry_view(history.directory(), file@) is None)
                    && msg@ == "unknown capture: "@ + id@,
            },
        },
{
    match target {
        None => Err("no capture selected for the editor".to_owned()),
        Some((id, file)) => resolve(history, id, file),
    }
}

/// Whether a newly published capture goes to the clipboard: only when the
/// setting asks for it, and never for a video.
pub fn copies_to_clipboard(enabled: bool, kind: CaptureKind) -> (r: bool)
    ensures
        r == (enabled && kind == CaptureKind::Image),
{
    enabled && match kind {
        CaptureKind::Image => true,
        CaptureKind::Video => false,
    }
}

/// The self-timer: its duration in seconds and the capture mode it fires,
/// which is the mode of the last capture triggered.
#[derive(Debug, Clone, Copy, PartialEq, Eq, Structural)]
pub struct CaptureTimer {
    pub seconds: u32,
    pub last_mode: CaptureMode,
}

impl CaptureTimer {
    /// Five seconds, firing a fullscreen capture until another mode is used.
    pub fn new() -> (t: CaptureTimer)
        ensures
            t.seconds == 5,
            t.last_mode == CaptureMode::Fullscreen,
    {
        CaptureTimer { seconds: 5, last_mode: CaptureMode::Fullscreen }
    }

    /// A capture in `mode` was triggered; the timer fires that mode from now on.
    pub fn record_mode(&mut self, mode: CaptureMode)
        ensures
            final(self).last_mode == mode,
            final(self).seconds == old(self).seconds,
    {
        self.last_mode = mode;
    }

    /// A timed capture of `seconds` starts.
    pub fn start(&mut self, seconds: u32)
        ensures
            final(self).seconds == seconds,
            final(self).last_mode == old(self).last_mode,
    {
        self.seconds = seconds;
    }

    /// The countdown the timer window shows.
    pub fn duration(&self) -> (s: u32)
        ensures
            s == self.seconds,
    {
        self.seconds
    }

    /// The mode a timed capture fires with when the countdown ends.
    pub fn fire_mode(&self) -> (m: CaptureMode)
        ensures
            m == self.last_mode,
    {
        self.last_mode
    }
}

/// What one tick of the overlay's follow-the-cursor watcher decides.
#[derive(Debug, Clone, Copy, PartialEq, Eq)]
pub struct FollowStep {
    /// The monitor (by its position) waiting for a second confirming tick.
    pub pending: Option<(i32, i32)>,
    /// Move the overlay to the monitor under the cursor now.
    pub move_now: bool,
}

/// The watcher's decision: nothing while following is off, the mouse button
/// is down, the overlay is being dragged, no monitor is under the cursor or
/// the overlay is already on it; otherwise move once the same target monitor
/// has been seen on two consecutive ticks.
pub open spec fn follow_step_spec(
    follow: bool,
    button_down: bool,
    dragging: bool,
    target: Option<(i32, i32)>,
    on_target: bool,
    pending: Option<(i32, i32)>,
) -> FollowStep {
    if !follow || button_down || dragging {
        FollowStep { pending: None, move_now: false }
    } else {
        match target {
            None => FollowStep { pending: None, move_now: false },
            Some(key) => if on_target {
                FollowStep { pending: None, move_now: false }
            } else if pending == Some(key) {
                FollowStep { pending: None, move_now: true }
            } else {
                FollowStep { pending: Some(key), move_now: false }
            },
        }
    }
}

/// One tick of the overlay's follow-the-cursor watcher.
pub fn follow_step(
    follow: bool,
    button_down: bool,
    dragging: bool,
    target: Option<(i32, i32)>,
    on_target: bool,
    pending: Option<(i32, i32)>,
) -> (step: FollowStep)
    ensures
        step == follow_step_spec(follow, button_down, dragging, target, on_target, pending),
{
    if !follow || button_down || dragging {
        return FollowStep { pending: None, move_now: false };
    }
    match target {
        None => FollowStep { pending: None, move_now: false },
        Some(key) => {
            if on_target {
                FollowStep { pending: None, move_now: false }
            } else {
                let same = match pending {
                    Some(p) => p.0 == key.0 && p.1 == key.1,
                    None => false,
                };
                if same {
                    FollowStep { pending: None, move_now: true }
                } else {
                    FollowStep { pending: Some(key), move_now: false }
                }
            }
        },
    }
}

/// The overlay only moves after two consecutive ticks agree on the target.
pub proof fn lemma_follow_needs_two_ticks(
    follow: bool,
    button_down: bool,
    dragging: bool,
    target: Option<(i32, i32)>,
    on_target: bool,
)
    ensures
        !follow_step_spec(follow, button_down, dragging, target, on_target, None).move_now,
        ({
            let first = follow_step_spec(follow, button_down, dragging, target, on_target, None);
            follow_step_spec(follow, button_down, dragging, target, on_target, first.pending).move_now
                <==> (follow && !button_down && !dragging && target is Some && !on_target)
        }),
{
}

} // verus!
