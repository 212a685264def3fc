//! The decisions of the auto-scroll capture loop: grab the region, scroll one
//! step, stitch, repeat until the frames stop changing, a cap is hit, or the
//! user stops it. Grabbing and scrolling are the caller's; every frame it
//! grabs (or the error it got instead) is handed to `ScrollSession::step`.

use vstd::prelude::*;

use super::stitch::{
    append_rows, appended, appended_rows, denormalize, denormalized, normalize, normalized,
    step_offset, step_offset_spec, Frame, FrameModel,
};
use super::{CaptureError, ScrollDirection};

verus! {

/// The loop stops after this many frames.
pub const MAX_FRAMES: u32 = 40;

/// The loop stops once the stitched image is this tall (normalized pixels).
pub const MAX_COMPOSITE_PX: u32 = 20000;

/// A scrolling capture in progress: the stitched composite so far and the
/// last normalized frame, both in the "scrolling down" orientation.
pub struct ScrollSession {
    direction: ScrollDirection,
    nominal: u32,
    composite: Frame,
    prev: Frame,
    frames: u32,
}

/// What the loop does after a step.
#[derive(Debug, Clone, Copy, PartialEq, Eq, Structural)]
pub enum ScrollNext {
    /// The frame was stitched; scroll again if the caps allow.
    Continue,
    /// The capture is complete; finish with the composite as it is.
    Done,
}

impl ScrollSession {
    pub closed spec fn direction_spec(&self) -> ScrollDirection {
        self.direction
    }

    pub closed spec fn nominal_spec(&self) -> u32 {
        self.nominal
    }

    /// The stitched image so far, normalized.
    pub closed spec fn composite_model(&self) -> FrameModel {
        self.composite@
    }

    /// The last frame taken, normalized.
    pub closed spec fn prev_model(&self) -> FrameModel {
        self.prev@
    }

    pub closed spec fn frames_spec(&self) -> u32 {
        self.frames
    }

    pub closed spec fn wf(&self) -> bool {
        self.composite.wf() && self.prev.wf()
    }

    /// Whether the caps still allow another scroll step.
    pub open spec fn within_caps(&self) -> bool {
        &&& self.frames_spec() < MAX_FRAMES
        &&& self.composite_model().height < MAX_COMPOSITE_PX
    }

    /// Begin with the first grabbed frame; `nominal` is the offset to stitch
    /// with when no match can be found (the commanded scroll distance).
    pub fn start(first: &Frame, direction: ScrollDirection, nominal: u32) -> (s: Self)
        requires
            first.wf(),
        ensures
            s.wf(),
            s.direction_spec() == direction,
            s.nominal_spec() == nominal,
            s.composite_model() == normalized(first@, direction),
            s.prev_model() == normalized(first@, direction),
            s.frames_spec() == 1,
    {
        let prev = normalize(first, direction);
        let composite = prev.copy();
        ScrollSession { direction, nominal, composite, prev, frames: 1 }
    }

    /// How many frames have been stitched (the progress shown to the user).
    pub fn frames(&self) -> (n: u32)
        ensures
            n == self.frames_spec(),
    {
        self.frames
    }

    /// The height of the stitched image so far, in normalized pixels.
    pub fn stitched_height(&self) -> (h: u32)
        requires
            self.wf(),
        ensures
            h == self.composite_model().height,
    {
        self.composite.height()
    }

    /// Whether to scroll once more: below both caps and not stopped by the user.
    pub fn should_continue(&self, stop: bool) -> (r: bool)
        requires
            self.wf(),
        ensures
            r == (self.within_caps() && !stop),
    {
        self.frames < MAX_FRAMES && self.composite.height() < MAX_COMPOSITE_PX && !stop
    }

    /// Handle what one scroll-and-grab produced. A failed step ends the
    /// capture with what was stitched once two frames are in, and fails it
    /// before that. A grabbed frame is normalized and compared with the last
    /// one: no real movement completes the capture; otherwise its new rows
    /// are stitched on, at the detected offset or the nominal one.
    pub fn step(&mut self, grabbed: Result<Frame, CaptureError>) -> (r: Result<ScrollNext, CaptureError>)
        requires
            old(self).wf(),
            old(self).within_caps(),
            grabbed matches Ok(f) ==> f.wf() && old(self).composite_model().height + normalized(
                f@,
                old(self).direction_spec(),
            ).height <= u32::MAX,
        ensures
            final(self).wf(),
            final(self).direction_spec() == old(self).direction_spec(),
            final(self).nominal_spec() == old(self).nominal_spec(),
            final(self).frames_spec() <= MAX_FRAMES,
            match grabbed {
                Err(e) => {
                    &&& *final(self) == *old(self)
                    &&& r == if old(self).frames_spec() >= 2 {
                        Ok::<ScrollNext, CaptureError>(ScrollNext::Done)
                    } else {
                        Err::<ScrollNext, CaptureError>(e)
                    }
                },
                Ok(f) => {
                    let n = normalized(f@, old(self).direction_spec());
                    match step_offset_spec(old(self).prev_model(), n, old(self).nominal_spec()) {
                        None => *final(self) == *old(self) && r == Ok::<ScrollNext, CaptureError>(
                            ScrollNext::Done,
                        ),
                        Some(offset) => {
                            &&& r == Ok::<ScrollNext, CaptureError>(ScrollNext::Continue)
                            &&& final(self).composite_model() == appended(
                                old(self).composite_model(),
                                n,
                                offset as nat,
                            )
                            &&& final(self).prev_model() == n
                            &&& final(self).frames_spec() == old(self).frames_spec() + 1
                        },
                    }
                },
            },
    {
        match grabbed {
            Err(e) => {
                if self.frames >= 2 {
                    Ok(ScrollNext::Done)
                } else {
                    Err(e)
                }
            },
            Ok(frame) => {
                let next = normalize(&frame, self.direction);
                match step_offset(&self.prev, &next, self.nominal) {
                    None => Ok(ScrollNext::Done),
                    Some(offset) => {
                        assert(appended_rows(next@, offset as nat) <= next@.height);
                        let mut composite = Frame::new(0, 0);
                        std::mem::swap(&mut composite, &mut self.composite);
                        self.composite = append_rows(composite, &next, offset);
                        self.prev = next;
                        self.frames = self.frames + 1;
                        Ok(ScrollNext::Continue)
                    },
                }
            },
        }
    }

    /// The stitched image, turned back to the orientation it was grabbed in.
    pub fn finish(self) -> (image: Frame)
        requires
            self.wf(),
        ensures
            image.wf(),
            image@ == denormalized(self.composite_model(), self.direction_spec()),
    {
        denormalize(self.composite, self.direction)
    }
}

} // verus!
