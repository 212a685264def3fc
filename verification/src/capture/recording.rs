//! Screen-recording bookkeeping: whether a finished recording is usable, and
//! how the wait for the recorder to finish reacts to each recorder event.

use vstd::prelude::*;

verus! {

/// Recordings smaller than this are not plausible videos.
pub const MIN_PLAUSIBLE_MP4_BYTES: u64 = 16384;

#[derive(Debug, Clone, PartialEq, Eq)]
pub enum RecordError {
    ScreenPermission,
    Failed(String),
}

/// The error code ScreenCaptureKit reports when the user declined screen
/// recording.
pub const USER_DECLINED_CODE: isize = -3817;

impl RecordError {
    /// The error as text.
    pub fn message(&self) -> (m: String)
        ensures
            m@ == match *self {
                RecordError::ScreenPermission => "screen recording permission denied"@,
                RecordError::Failed(msg) => msg@,
            },
    {
        match self {
            RecordError::ScreenPermission => "screen recording permission denied".to_owned(),
            RecordError::Failed(msg) => msg.clone(),
        }
    }
}

/// The error for a failure ScreenCaptureKit reported with `code` and
/// `description`: a declined permission, or the description itself.
pub fn classify(code: isize, description: String) -> (e: RecordError)
    ensures
        e == if code == USER_DECLINED_CODE {
            RecordError::ScreenPermission
        } else {
            RecordError::Failed(description)
        },
{
    if code == USER_DECLINED_CODE {
        RecordError::ScreenPermission
    } else {
        RecordError::Failed(description)
    }
}

/// What the recorder reports while it runs.
#[derive(Debug, PartialEq, Eq)]
pub enum RecorderEvent {
    Started,
    Finished,
    Failed(String),
    StreamStopped(String),
    StopCompleted(Result<(), String>),
}

/// Which deadline the wait arms.
#[derive(Debug, Clone, Copy, PartialEq, Eq, Structural)]
pub enum Deadline {
    /// Ten seconds for the stop request to be acknowledged.
    Stop,
    /// Five seconds for the file to be finished after the stream stopped.
    FinishGrace,
}

/// What the wait does after an event.
#[derive(Debug, Clone, PartialEq, Eq)]
pub enum WaitStep {
    /// Keep waiting as before.
    Continue,
    /// Keep waiting, until the given deadline from now.
    Arm(Deadline),
    /// Stop waiting and check the recorded file.
    Finish,
    /// Delete the partial file and fail with this message.
    Fail(String),
    /// Keep waiting, until the grace deadline; the stream stopped for this reason.
    StreamStopped(String),
}

/// How the wait reacts to `event`, given whether a stop was requested and
/// whether a deadline is already armed.
pub open spec fn wait_step_spec(event: RecorderEvent, stop_requested: bool, deadline_armed: bool) -> WaitStep {
    match event {
        RecorderEvent::Started => if stop_requested && !deadline_armed {
            WaitStep::Arm(Deadline::Stop)
        } else {
            WaitStep::Continue
        },
        RecorderEvent::Finished => WaitStep::Finish,
        RecorderEvent::Failed(msg) => WaitStep::Fail(msg),
        RecorderEvent::StopCompleted(Err(msg)) => WaitStep::Fail(msg),
        RecorderEvent::StopCompleted(Ok(())) => WaitStep::Arm(Deadline::FinishGrace),
        RecorderEvent::StreamStopped(reason) => WaitStep::StreamStopped(reason),
    }
}

/// One decision of the wait for a recording to finish.
pub fn wait_step(event: RecorderEvent, stop_requested: bool, deadline_armed: bool) -> (step: WaitStep)
    ensures
        step == wait_step_spec(event, stop_requested, deadline_armed),
{
    match event {
        RecorderEvent::Started => if stop_requested && !deadline_armed {
            WaitStep::Arm(Deadline::Stop)
        } else {
            WaitStep::Continue
        },
        RecorderEvent::Finished => WaitStep::Finish,
        RecorderEvent::Failed(msg) => WaitStep::Fail(msg),
        RecorderEvent::StopCompleted(Err(msg)) => WaitStep::Fail(msg),
        RecorderEvent::StopCompleted(Ok(())) => WaitStep::Arm(Deadline::FinishGrace),
        RecorderEvent::StreamStopped(reason) => WaitStep::StreamStopped(reason),
    }
}

/// Once a stop was requested, the wait ends at the latest this many
/// milliseconds after the request, whatever the recorder reports.
pub const STOP_CEILING_MS: u64 = 15000;

/// How long the wait may block for the next event, in milliseconds (`None`:
/// until one arrives): what is left of the armed deadline, cut to what is
/// left of the ceiling once a stop was requested `since_stop_ms` ago. What
/// happens when that time runs out is `timeout_verdict`.
pub open spec fn wait_budget_spec(deadline_left_ms: Option<u64>, since_stop_ms: Option<u64>) -> Option<u64> {
    match since_stop_ms {
        None => deadline_left_ms,
        Some(t) => {
            let ceiling: u64 = if t >= STOP_CEILING_MS {
                0
            } else {
                (STOP_CEILING_MS - t) as u64
            };
            match deadline_left_ms {
                None => Some(ceiling),
                Some(d) => Some(if d < ceiling {
                    d
                } else {
                    ceiling
                }),
            }
        },
    }
}

/// The time the wait may block for the next event.
pub fn wait_budget(deadline_left_ms: Option<u64>, since_stop_ms: Option<u64>) -> (b: Option<u64>)
    ensures
        b == wait_budget_spec(deadline_left_ms, since_stop_ms),
{
    match since_stop_ms {
        None => deadline_left_ms,
        Some(t) => {
            let ceiling: u64 = if t >= STOP_CEILING_MS {
                0
            } else {
                STOP_CEILING_MS - t
            };
            match deadline_left_ms {
                None => Some(ceiling),
                Some(d) => Some(if d < ceiling {
                    d
                } else {
                    ceiling
                }),
            }
        },
    }
}

/// What the wait does when the time it was allowed has run out: once the
/// ceiling after a stop request has passed it gives up with an error (and
/// the caller deletes the partial file); otherwise an armed deadline expired
/// and the file is checked (`None`).
pub fn timeout_verdict(since_stop_ms: Option<u64>) -> (r: Option<RecordError>)
    ensures
        match since_stop_ms {
            Some(t) => if t >= STOP_CEILING_MS {
                r matches Some(RecordError::Failed(msg)) && msg@ == "recording did not stop in time"@
            } else {
                r is None
            },
            None => r is None,
        },
{
    match since_stop_ms {
        Some(t) => if t >= STOP_CEILING_MS {
            Some(RecordError::Failed("recording did not stop in time".to_owned()))
        } else {
            None
        },
        None => None,
    }
}

/// After a stop request the wait never blocks past the ceiling: whatever
/// deadline the events armed, the next wake-up comes at most 15 s after the
/// request (at once when that time has passed), and never later than the
/// armed deadline.
pub proof fn lemma_stop_bounds_the_wait(deadline_left_ms: Option<u64>, since_stop_ms: u64)
    ensures
        wait_budget_spec(deadline_left_ms, Some(since_stop_ms)) matches Some(b) && (since_stop_ms + b
            <= STOP_CEILING_MS || b == 0) && (deadline_left_ms matches Some(d) ==> b <= d),
{
}

/// Whether the recording at `path` is usable, given its file size (`None`:
/// no file). A too-small file is reported as failed; the caller deletes it.
pub fn validate_recording(path: &str, size: Option<u64>) -> (r: Result<String, RecordError>)
    ensures
        match size {
            Some(n) => if n >= MIN_PLAUSIBLE_MP4_BYTES {
                r matches Ok(p) && p@ == path@
            } else {
                r matches Err(RecordError::Failed(msg)) && msg@ == "recording produced no usable video"@
            },
            None => r matches Err(RecordError::Failed(msg)) && msg@ == "recording produced no file"@,
        },
{
    match size {
        Some(n) => if n >= MIN_PLAUSIBLE_MP4_BYTES {
            Ok(path.to_owned())
        } else {
            Err(RecordError::Failed("recording produced no usable video".to_owned()))
        },
        None => Err(RecordError::Failed("recording produced no file".to_owned())),
    }
}

} // verus!
