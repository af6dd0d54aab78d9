//! The cursor image.

use vstd::prelude::*;

use crate::frames::{FramePhase, FrameStep};
use crate::state::{CursorImageStatus, Kiosk, KioskState};

verus! {

impl Kiosk {
    /// The client asked for another cursor image, so the composited image is stale.
    pub fn cursor_image(&mut self, image: CursorImageStatus) -> (step: FrameStep)
        requires
            old(self)@.frames.phase == FramePhase::Idle,
        ensures
            final(self)@ == (KioskState {
                cursor: image,
                frames: old(self)@.frames.refreshing().0,
                ..old(self)@
            }),
            step == old(self)@.frames.refreshing().1,
            old(self)@.well_formed() ==> final(self)@.well_formed(),
    {
        self.cursor_status = image;
        self.refresh()
    }
}

} // verus!
