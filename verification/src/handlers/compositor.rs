//! What a commit means.

use vstd::prelude::*;

use crate::focus::{root_of, root_surface};
use crate::frames::{FramePhase, FrameStep};
use crate::state::{window_at, Kiosk, KioskState, ToplevelState};

verus! {

/// The configure that a commit is answered with.
#[derive(Debug, Clone, Copy, PartialEq, Eq, Structural)]
pub enum InitialConfigure {
    /// None: the surface has had one, or needs none.
    Nothing,
    /// Configure the toplevel with that state.
    Toplevel(ToplevelState),
    /// Configure the popup.
    Popup,
}

/// The root whose bookkeeping a commit is: none for a sync subsurface, whose contents
/// only become visible when its parent commits.
pub open spec fn committed_root(surface: u64, sync: bool, ancestors: Seq<u64>) -> Option<u64> {
    if sync {
        None
    } else {
        Some(root_surface(surface, ancestors))
    }
}

/// The root of a committed surface, given its ancestors from the nearest on, or nothing
/// for a sync subsurface.
pub fn commit_root(surface: u64, sync: bool, ancestors: &Vec<u64>) -> (root: Option<u64>)
    ensures
        root == committed_root(surface, sync, ancestors@),
{
    if sync {
        None
    } else {
        Some(root_of(surface, ancestors))
    }
}

/// Is there a window of that root surface?
pub open spec fn is_window(kiosk: KioskState, root: Option<u64>) -> bool {
    root matches Some(surface) && window_at(kiosk.windows, surface) is Some
}

impl Kiosk {
    /// The window to tell of a commit, by its root surface.
    pub fn committed_window(&self, root: Option<u64>) -> (window: Option<u64>)
        ensures
            window == (if is_window(self@, root) {
                root
            } else {
                None
            }),
    {
        match root {
            Some(surface) => match self.window_for_surface(surface) {
                Some(_) => Some(surface),
                None => None,
            },
            None => None,
        }
    }

    /// The initial configure for a toplevel or popup that has not had one.
    ///
    /// A surface's first commit has to be answered with a configure; the client will
    /// not attach a buffer until it has one. A surface that unmaps is back to not
    /// having had one, so this covers both the first map and every remap.
    ///
    /// `root` is the committed root, or nothing for a sync subsurface, and
    /// `configured` says whether the toplevel of that root has had a configure. A
    /// surface has exactly one role, so a toplevel match rules out a popup: only
    /// otherwise is `popup_configured` asked, which says of a popup whether it has had
    /// a configure.
    pub fn ensure_initial_configure<F: FnOnce() -> Option<bool>>(
        &mut self,
        root: Option<u64>,
        configured: bool,
        popup_configured: F,
    ) -> (configure: InitialConfigure)
        requires
            !is_window(old(self)@, root) ==> call_requires(popup_configured, ()),
        ensures
            is_window(old(self)@, root) && configured ==> configure == InitialConfigure::Nothing
                && final(self)@ == old(self)@,
            is_window(old(self)@, root) && !configured ==> {
                let state = old(self)@.restated(root->0);
                &&& configure == InitialConfigure::Toplevel(state)
                &&& final(self)@ == old(self)@.with_state(root->0, state)
            },
            !is_window(old(self)@, root) ==> final(self)@ == old(self)@ && match configure {
                InitialConfigure::Nothing => call_ensures(popup_configured, (), None)
                    || call_ensures(popup_configured, (), Some(true)),
                InitialConfigure::Toplevel(_) => false,
                InitialConfigure::Popup => call_ensures(popup_configured, (), Some(false)),
            },
            old(self)@.well_formed() ==> final(self)@.well_formed(),
    {
        if let Some(surface) = self.committed_window(root) {
            if !configured {
                return InitialConfigure::Toplevel(self.fullscreen_request(surface));
            }
            return InitialConfigure::Nothing;
        }
        match popup_configured() {
            Some(false) => InitialConfigure::Popup,
            _ => InitialConfigure::Nothing,
        }
    }

    /// A surface committed new content, so the frame is out of date.
    pub fn commit(&mut self) -> (step: FrameStep)
        requires
            old(self)@.frames.phase == FramePhase::Idle,
        ensures
            (final(self)@.frames, step) == old(self)@.frames.refreshing(),
            final(self)@ == (KioskState { frames: final(self)@.frames, ..old(self)@ }),
            old(self)@.well_formed() ==> final(self)@.well_formed(),
    {
        self.refresh()
    }
}

} // verus!
