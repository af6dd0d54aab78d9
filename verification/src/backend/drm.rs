//! The DRM/KMS backend: bringing up an output, and submitting frames to it.
//!
//! [`super::discovery`] has already decided which card and connector to use. Opening
//! the card, and rendering with it, is the caller's; this module decides how to
//! drive it.
//!
//! # Frame pacing
//!
//! Rendering is event driven rather than a fixed loop. The rules live in
//! [`crate::pacing::FramePacer`] and [`crate::frames`]; the methods of [`Kiosk`] here
//! carry them out.

use vstd::prelude::*;

use super::discovery::{Mode, OutputCandidate};
use crate::frames::{
    budget_after, budget_spent, FrameAction, FrameOutcome, FramePhase, FrameStep,
    MAX_CONSECUTIVE_DROPS,
};
use crate::geometry::{Point, Size};
use crate::pacing::{FramePacer, PacerState, RenderDecision};
use crate::state::{Kiosk, KioskState, Output, Subpixel, Transform};

verus! {

/// Record a frame outcome against a drop budget; returns true when it is spent.
///
/// Every outcome goes through here rather than the success paths clearing the
/// counter inline — including the reset on a VT switch back. "60 consecutive" only
/// means anything if a success actually zeroes the budget.
pub fn note_frame(drops: &mut u32, succeeded: bool) -> (spent: bool)
    requires
        succeeded || *old(drops) < u32::MAX,
    ensures
        *final(drops) == budget_after(*old(drops) as nat, succeeded),
        spent == budget_spent(*old(drops) as nat, succeeded),
{
    if succeeded {
        *drops = 0;
        return false;
    }
    *drops = *drops + 1;
    *drops >= MAX_CONSECUTIVE_DROPS
}

/// The state of the display hardware that decisions depend on.
#[derive(Debug)]
pub struct DrmBackend {
    /// When to render and when to wait. See [`crate::pacing`] for the rules.
    pub pacer: FramePacer,
}

/// Everything decided by [`DrmBackend::init`] that the caller needs to bring the
/// output up: the backend itself, the description of the output, the CRTC to drive
/// the connector with, the mode to drive it in, and the mode that clients are told the
/// output prefers.
#[derive(Debug)]
pub struct BackendInit {
    pub backend: DrmBackend,
    pub output: Output,
    pub crtc: u32,
    pub mode: Mode,
    pub preferred: Mode,
}

/// Why the output cannot be brought up. Each names the connector.
#[derive(Debug)]
pub enum InitError {
    /// The connector reports no mode.
    NoMode { name: String },
    /// The card's CRTCs could not be read.
    NoResources { name: String },
    /// No encoder of the connector reaches a CRTC.
    NoCrtc { name: String },
}

impl InitError {
    /// What the user is told.
    pub open spec fn text(self) -> Seq<char> {
        match self {
            InitError::NoMode { name } => "output "@ + name@
                + " reports no usable mode; it may have been unplugged"@,
            InitError::NoResources { name } => "no CRTC available for output "@ + name@
                + ": failed to read DRM resources"@,
            InitError::NoCrtc { name } => "no CRTC available for output "@ + name@
                + ": connector has no usable encoder/CRTC combination"@,
        }
    }

    /// What the user is told.
    pub fn message(&self) -> (text: String)
        ensures
            text@ == self.text(),
    {
        match self {
            InitError::NoMode { name } => {
                let mut text = "output ".to_owned();
                text.append(name.as_str());
                text.append(" reports no usable mode; it may have been unplugged");
                text
            },
            InitError::NoResources { name } => {
                let mut text = "no CRTC available for output ".to_owned();
                text.append(name.as_str());
                text.append(": failed to read DRM resources");
                text
            },
            InitError::NoCrtc { name } => {
                let mut text = "no CRTC available for output ".to_owned();
                text.append(name.as_str());
                text.append(": connector has no usable encoder/CRTC combination");
                text
            },
        }
    }
}

/// The first CRTC of the first encoder that could be read and reaches one.
pub open spec fn first_crtc(encoders: Seq<Option<Vec<u32>>>) -> Option<u32>
    decreases encoders.len(),
{
    if encoders.len() == 0 {
        None
    } else {
        match encoders[0] {
            Some(crtcs) if crtcs@.len() > 0 => Some(crtcs@[0]),
            _ => first_crtc(encoders.drop_first()),
        }
    }
}

/// Find a CRTC that can drive a connector.
///
/// A connector reaches a CRTC through an encoder, and each encoder advertises the
/// CRTCs it can be routed to. `encoders` holds those of each encoder of the connector,
/// or nothing for an encoder that could not be read. With a single output any match
/// works.
pub fn pick_crtc(encoders: &Vec<Option<Vec<u32>>>) -> (crtc: Option<u32>)
    ensures
        crtc == first_crtc(encoders@),
{
    assert(encoders@.skip(0) == encoders@);
    for i in 0..encoders.len()
        invariant
            first_crtc(encoders@) == first_crtc(encoders@.skip(i as int)),
    {
        let ghost rest = encoders@.skip(i as int);
        assert(rest[0] == encoders@[i as int]);
        assert(rest.drop_first() == encoders@.skip(i + 1));
        if let Some(crtcs) = &encoders[i] {
            if crtcs.len() > 0 {
                return Some(crtcs[0]);
            }
        }
    }
    None
}

/// What clients are told about an output: unknown make, model and subpixels, the mode it
/// is driven in, not turned, scale 1, at the origin.
pub open spec fn describes(
    output: Output,
    name: Seq<char>,
    millimetres: Option<(u32, u32)>,
    mode: Mode,
) -> bool {
    &&& output.name@ == name
    &&& output.make@ == "Unknown"@
    &&& output.model@ == "Unknown"@
    &&& output.physical_size == (match millimetres {
        Some((w, h)) => Size { w: w as i32, h: h as i32 },
        None => Size { w: 0, h: 0 },
    })
    &&& output.subpixel == Subpixel::Unknown
    &&& output.mode == Some(Size { w: mode.width as i32, h: mode.height as i32 })
    &&& output.transform == Transform::Normal
    &&& output.scale == 1
    &&& output.location == Point::zero()
}

/// Build the description of the output from the connector.
///
/// The EDID would give a real make and model, but nothing in a single-window kiosk
/// uses them. Scale is fixed at 1: logical and physical coordinates coincide, which
/// is what the render path assumes.
pub fn build_output(candidate: &OutputCandidate, millimetres: Option<(u32, u32)>, mode: Mode) -> (
    output: Output)
    ensures
        describes(output, candidate.name@, millimetres, mode),
{
    let (width, height): (u32, u32) = match millimetres {
        Some(size) => size,
        None => (0, 0),
    };
    Output {
        name: candidate.name.clone(),
        make: "Unknown".to_owned(),
        model: "Unknown".to_owned(),
        physical_size: Size { w: width as i32, h: height as i32 },
        subpixel: Subpixel::Unknown,
        mode: Some(Size { w: mode.width as i32, h: mode.height as i32 }),
        transform: Transform::Normal,
        scale: 1,
        location: Point::origin(),
    }
}

impl DrmBackend {
    /// Decide how to bring up the candidate's connector, once its card is open and the
    /// connector was read.
    ///
    /// `encoders` holds the CRTCs that each of the connector's encoders reaches, or
    /// nothing if the card's CRTCs could not be read; `millimetres` is the extent of
    /// the display, where it is known. The pacer starts damaged, so the first frame
    /// paints black rather than whatever the previous owner of the framebuffer left
    /// behind.
    pub fn init(
        candidate: &OutputCandidate,
        encoders: Option<&Vec<Option<Vec<u32>>>>,
        millimetres: Option<(u32, u32)>,
    ) -> (init: Result<BackendInit, InitError>)
        ensures
            match init {
                Ok(ready) => {
                    &&& candidate.preferred_mode == Some(ready.mode)
                    &&& ready.preferred == ready.mode
                    &&& encoders matches Some(read) && first_crtc(read@) == Some(ready.crtc)
                    &&& ready.backend.pacer@ == PacerState::initial()
                    &&& describes(ready.output, candidate.name@, millimetres, ready.mode)
                },
                Err(InitError::NoMode { name }) => {
                    &&& name@ == candidate.name@
                    &&& candidate.preferred_mode is None
                },
                Err(InitError::NoResources { name }) => {
                    &&& name@ == candidate.name@
                    &&& candidate.preferred_mode is Some
                    &&& encoders is None
                },
                Err(InitError::NoCrtc { name }) => {
                    &&& name@ == candidate.name@
                    &&& candidate.preferred_mode is Some
                    &&& encoders matches Some(read) && first_crtc(read@) is None
                },
            },
    {
        let mode = match candidate.preferred_mode {
            Some(mode) => mode,
            None => {
                return Err(InitError::NoMode { name: candidate.name.clone() });
            },
        };
        let encoders = match encoders {
            Some(encoders) => encoders,
            None => {
                return Err(InitError::NoResources { name: candidate.name.clone() });
            },
        };
        let crtc: u32 = match pick_crtc(encoders) {
            Some(crtc) => crtc,
            None => {
                return Err(InitError::NoCrtc { name: candidate.name.clone() });
            },
        };
        let output = build_output(candidate, millimetres, mode);
        let backend = DrmBackend { pacer: FramePacer::new() };
        Ok(BackendInit { backend, output, crtc, mode, preferred: mode })
    }

    /// Suspend on VT switch away. The DRM device loses master, so any commit
    /// from here on would fail.
    pub fn pause(&mut self)
        ensures
            final(self).pacer@ == (PacerState { active: false, ..old(self).pacer@ }),
    {
        self.pacer.pause();
    }

    /// Resume on VT switch back, before the device itself is taken back.
    ///
    /// Marking the session active comes first: if taking the device back fails we shut
    /// down, but an inactive session on the way out would suppress input dispatch —
    /// including the `--exit-key` check — turning a recoverable failure into a machine
    /// with no way out.
    pub fn resume(&mut self)
        ensures
            final(self).pacer@ == (PacerState { active: true, damaged: true, pending_flip: false }),
    {
        self.pacer.resume();
    }

    /// Is the session in front?
    pub fn is_active(&self) -> (active: bool)
        ensures
            active == self.pacer@.active,
    {
        self.pacer.is_active()
    }

    /// Record that the screen no longer matches what clients have drawn.
    pub fn damage(&mut self)
        ensures
            final(self).pacer@ == (PacerState { damaged: true, ..old(self).pacer@ }),
    {
        self.pacer.damage();
    }
}

impl Kiosk {
    /// Begin a frame if one is due.
    ///
    /// Safe to call from any event handler: it asks for nothing when the session is
    /// paused, when nothing has changed, or when a flip is already in flight.
    pub fn render(&mut self) -> (step: FrameStep)
        requires
            old(self)@.frames.phase == FramePhase::Idle,
        ensures
            (final(self)@.frames, step) == old(self)@.frames.rendering(),
            final(self)@ == (KioskState { frames: final(self)@.frames, ..old(self)@ }),
            old(self)@.well_formed() ==> final(self)@.well_formed(),
    {
        if self.backend.pacer.poll() != RenderDecision::Render {
            return FrameStep::only(FrameAction::Wait);
        }
        self.backend.pacer.begin_render();
        self.phase = FramePhase::Drawing;
        FrameStep::only(FrameAction::Draw)
    }

    /// Content changed: the frame is out of date, so begin a new one if one is due.
    pub fn refresh(&mut self) -> (step: FrameStep)
        requires
            old(self)@.frames.phase == FramePhase::Idle,
        ensures
            (final(self)@.frames, step) == old(self)@.frames.refreshing(),
            final(self)@ == (KioskState { frames: final(self)@.frames, ..old(self)@ }),
            old(self)@.well_formed() ==> final(self)@.well_formed(),
    {
        self.backend.damage();
        self.render()
    }

    /// The frame begun by [`Self::render`] was drawn, or could not be.
    ///
    /// An empty frame is a success, not a drop. It queues no flip, and damage is
    /// deliberately left clear, because re-arming it would spin. Clients still waiting
    /// on a frame callback must be released here though, or a client that commits
    /// without visible damage waits forever and never commits again — a permanent
    /// freeze.
    pub fn frame_drawn(&mut self, outcome: FrameOutcome) -> (step: FrameStep)
        requires
            old(self)@.frames.phase == FramePhase::Drawing,
            old(self).consecutive_drops < u32::MAX,
        ensures
            (final(self)@.frames, step) == old(self)@.frames.drawn(outcome),
            final(self)@ == (KioskState { frames: final(self)@.frames, ..old(self)@ }),
            old(self)@.well_formed() ==> final(self)@.well_formed(),
    {
        match outcome {
            FrameOutcome::Failed => self.recover_from_dropped_frame(),
            FrameOutcome::Empty => {
                note_frame(&mut self.consecutive_drops, true);
                self.phase = FramePhase::Idle;
                FrameStep {
                    record_scanout: true,
                    release_clients: true,
                    action: FrameAction::Wait,
                }
            },
            FrameOutcome::Visible => {
                self.phase = FramePhase::Queueing;
                FrameStep {
                    record_scanout: true,
                    release_clients: false,
                    action: FrameAction::Queue,
                }
            },
        }
    }

    /// The drawn frame was queued, or could not be.
    pub fn frame_queued(&mut self, succeeded: bool) -> (step: FrameStep)
        requires
            old(self)@.frames.phase == FramePhase::Queueing,
            old(self)@.frames.well_formed(),
            old(self).consecutive_drops < u32::MAX,
        ensures
            (final(self)@.frames, step) == old(self)@.frames.queued(succeeded),
            final(self)@ == (KioskState { frames: final(self)@.frames, ..old(self)@ }),
            old(self)@.well_formed() ==> final(self)@.well_formed(),
    {
        if succeeded {
            note_frame(&mut self.consecutive_drops, true);
            self.backend.pacer.frame_queued();
            self.phase = FramePhase::Idle;
            FrameStep::only(FrameAction::Wait)
        } else {
            self.recover_from_dropped_frame()
        }
    }

    /// After a dropped frame, release the clients and schedule a retry.
    ///
    /// No flip was queued, so no vblank will arrive to drive the next render. Without
    /// a one-shot timer a single transient failure freezes the compositor until an
    /// input event happens to arrive.
    fn recover_from_dropped_frame(&mut self) -> (step: FrameStep)
        requires
            old(self).consecutive_drops < u32::MAX,
        ensures
            (final(self)@.frames, step) == old(self)@.frames.recovering(),
            final(self)@ == (KioskState { frames: final(self)@.frames, ..old(self)@ }),
            old(self)@.well_formed() ==> final(self)@.well_formed(),
    {
        self.backend.pacer.frame_failed();
        self.phase = FramePhase::Idle;
        let mut step = FrameStep {
            record_scanout: false,
            release_clients: true,
            action: FrameAction::Wait,
        };
        if note_frame(&mut self.consecutive_drops, false) {
            // Frames have failed continuously; the display is unusable.
            self.shutdown(1);
            step.action = FrameAction::Stop;
            return step;
        }
        if self.retry_armed {
            return step;
        }
        self.phase = FramePhase::Arming;
        step.action = FrameAction::ArmRetry;
        step
    }

    /// The retry timer was armed, or could not be. Without a retry the screen would
    /// stall; a fatal exit at least lets a supervisor restart us.
    pub fn retry_scheduled(&mut self, succeeded: bool) -> (step: FrameStep)
        requires
            old(self)@.frames.phase == FramePhase::Arming,
        ensures
            (final(self)@.frames, step) == old(self)@.frames.scheduled(succeeded),
            final(self)@ == (KioskState { frames: final(self)@.frames, ..old(self)@ }),
            old(self)@.well_formed() ==> final(self)@.well_formed(),
    {
        self.phase = FramePhase::Idle;
        if succeeded {
            self.retry_armed = true;
            FrameStep::only(FrameAction::Wait)
        } else {
            self.shutdown(1);
            FrameStep::only(FrameAction::Stop)
        }
    }

    /// The retry timer fired.
    pub fn retry_fired(&mut self) -> (step: FrameStep)
        requires
            old(self)@.frames.phase == FramePhase::Idle,
        ensures
            (final(self)@.frames, step) == old(self)@.frames.retrying(),
            final(self)@ == (KioskState { frames: final(self)@.frames, ..old(self)@ }),
            old(self)@.well_formed() ==> final(self)@.well_formed(),
    {
        self.retry_armed = false;
        self.render()
    }

    /// Handle a completed page flip: release clients to draw, then render again
    /// if damage arrived while the flip was in flight. `submitted` says whether the
    /// flip could be recorded as submitted.
    ///
    /// Submission bookkeeping has its own budget. It cannot share the one for dropped
    /// frames: the render below succeeds on each of these cycles and resets that
    /// counter, so the escalation would be unreachable in exactly the scenario it
    /// exists for.
    pub fn on_vblank(&mut self, submitted: bool) -> (step: FrameStep)
        requires
            old(self)@.frames.phase == FramePhase::Idle,
            old(self).submit_failures < u32::MAX,
        ensures
            (final(self)@.frames, step) == old(self)@.frames.flipped(submitted),
            final(self)@ == (KioskState { frames: final(self)@.frames, ..old(self)@ }),
            old(self)@.well_formed() ==> final(self)@.well_formed(),
    {
        self.backend.pacer.flip_completed();
        if submitted {
            note_frame(&mut self.submit_failures, true);
        } else {
            self.backend.pacer.frame_failed();
            if note_frame(&mut self.submit_failures, false) {
                self.shutdown(1);
                return FrameStep::only(FrameAction::Stop);
            }
        }
        let mut step = self.render();
        step.release_clients = true;
        step
    }
}

} // verus!
