//! `xdg-shell`, and with it the entire window policy.
//!
//! The policy is small enough to state exhaustively:
//!
//! - Every toplevel is fullscreen at the output's size. Clients cannot escape
//!   that geometry: `set_fullscreen`, `unset_fullscreen`, `maximize`, and
//!   `unmaximize` are acknowledged with a configure that keeps them fullscreen,
//!   and `move`, `resize`, and `minimize` are ignored (the protocol requires no
//!   reply).
//! - Toplevels form a stack. A new one goes on top and takes focus; a destroyed
//!   one is removed and focus falls to whatever is beneath.
//! - An empty stack does *not* exit. The compositor's lifetime is the child
//!   process's, so there is exactly one shutdown trigger.
//! - Popups are honoured, with the positioner constrained to the output.
//! - At most 32 toplevels and 64 popups are tracked, and popup chains are capped at
//!   8 deep; a client that exceeds any of those is sent a protocol error and
//!   disconnected. A popup created with a *null* parent is rejected outright: it would
//!   never be positioned or drawn.
//!
//! Rejecting the *second* toplevel would break ordinary applications, because a
//! dialog *is* a toplevel. The cap above is a different policy — it exists only to
//! stop a client exhausting memory, and sits far above any real dialog stack.

use vstd::prelude::*;

use crate::frames::{FramePhase, FrameStep};
use crate::geometry::{Point, Rectangle};
use crate::seqs::{
    kept, lemma_filter_keeps_items, lemma_filter_keeps_no_duplicates, lemma_filter_of_all,
    lemma_filter_removes_one, lemma_filter_same,
};
use crate::state::{
    activated, reactivated, top_surface, window_at, with_focus, DecorationMode, Kiosk, KioskState,
    Refocus, ToplevelState, Window, WmCapabilities,
};
use crate::text::{decimal, number};

verus! {

/// `wl_surface.error` code 2. The protocol has no resource-limit code reachable from a
/// `wl_surface`, so this is the delivery vehicle and the message carries the reason.
pub const WL_SURFACE_ERROR_INVALID_SIZE: u32 = 2;

/// Cap on simultaneously-tracked toplevels.
///
/// A real dialog stack never approaches this; the limit exists so a client cannot
/// exhaust memory or turn the per-frame window walk into a livelock. Exceeding it
/// is a protocol error, which disconnects that client rather than killing us.
pub const MAX_TOPLEVELS: usize = 32;

/// Cap on simultaneously-tracked popups, across all clients.
pub const MAX_POPUPS: usize = 64;

/// Cap on popup chain depth.
///
/// A menu → submenu → sub-submenu is three; nothing real approaches eight. An
/// unbounded chain would be walked on every commit, and the popup tree recurses once
/// per level.
pub const MAX_POPUP_DEPTH: usize = 8;

/// An error that disconnects the client it is sent to.
#[derive(Debug)]
pub struct ProtocolError {
    pub code: u32,
    pub message: String,
}

impl ProtocolError {
    /// Is this an error for exceeding a limit, with that message?
    pub open spec fn says(self, message: Seq<char>) -> bool {
        self.code == WL_SURFACE_ERROR_INVALID_SIZE && self.message@ == message
    }
}

/// What a client with a toplevel too many is told.
pub open spec fn too_many_toplevels() -> Seq<char> {
    "compositor is tracking too many toplevels (limit "@ + decimal(MAX_TOPLEVELS as nat) + ")"@
}

/// What a client with a popup too many, or too deep, is told.
pub open spec fn too_many_popups() -> Seq<char> {
    "too many popups (limit "@ + decimal(MAX_POPUPS as nat) + ", max depth "@ + decimal(
        MAX_POPUP_DEPTH as nat,
    ) + ")"@
}

/// What an admitted toplevel asks for: its first configure, then the change of focus.
#[derive(Debug)]
pub struct Admission {
    pub configure: ToplevelState,
    pub refocus: Refocus,
}

/// The test for a popup other than that of `surface`.
pub open spec fn other_than(surface: u64) -> spec_fn(u64) -> bool {
    |popup: u64| popup != surface
}

impl KioskState {
    /// A new window, configured to the only geometry there is.
    pub open spec fn new_window(self, surface: u64) -> Window {
        Window { surface, state: ToplevelState::unconfigured().fullscreen_at(self.size()) }
    }

    /// The windows once `surface` is gone from the stack.
    pub open spec fn windows_without(self, surface: u64) -> Seq<Window> {
        self.windows.filter(|window: Window| window.surface != surface)
    }

    /// The tracked popups once `surface` is gone from them.
    pub open spec fn popups_without(self, surface: u64) -> Seq<u64> {
        self.popups.filter(other_than(surface))
    }

    /// The state after the window of `surface` was given `state`, if there is one.
    pub open spec fn with_state(self, surface: u64, state: ToplevelState) -> KioskState {
        match window_at(self.windows, surface) {
            Some(i) => KioskState {
                windows: self.windows.update(i, Window { surface, state }),
                ..self
            },
            None => self,
        }
    }

    /// The state that the toplevel of `surface` is configured with.
    pub open spec fn toplevel_state(self, surface: u64) -> ToplevelState {
        match window_at(self.windows, surface) {
            Some(i) => self.windows[i].state,
            None => ToplevelState::unconfigured(),
        }
    }

    /// What a request to change its state is answered: fullscreen, restated.
    pub open spec fn restated(self, surface: u64) -> ToplevelState {
        self.toplevel_state(surface).fullscreen_at(self.size())
    }

    /// What a request about decorations is answered: none of the client's own.
    pub open spec fn undecorated(self, surface: u64) -> ToplevelState {
        ToplevelState {
            decoration_mode: Some(DecorationMode::ServerSide),
            ..self.toplevel_state(surface)
        }
    }
}

/// Whether a new popup would exceed either cap.
///
/// `>=` on the count (this popup would be the (n+1)th) and `>` on the depth (a chain of
/// exactly [`MAX_POPUP_DEPTH`] is allowed) are both deliberate, and both are the kind
/// of comparison a later edit silently gets wrong.
pub fn popup_limits_exceeded(count: usize, depth: usize) -> (exceeded: bool)
    ensures
        exceeded == (count >= 64 || depth > 8),
{
    count >= MAX_POPUPS || depth > MAX_POPUP_DEPTH
}

/// Is `chain` a walk up from `parent`, one parent after the other as `parent_of`
/// gives them?
pub open spec fn is_chain<F: Fn(u64) -> Option<u64>>(
    parent: Option<u64>,
    parent_of: F,
    chain: Seq<u64>,
) -> bool {
    &&& chain.len() > 0 ==> parent == Some(chain[0])
    &&& forall|i: int|
        0 < i < chain.len() ==> call_ensures(parent_of, (chain[i - 1],), Some(#[trigger] chain[i]))
}

/// Does the walk end with `chain`?
pub open spec fn chain_ends<F: Fn(u64) -> Option<u64>>(
    parent: Option<u64>,
    parent_of: F,
    chain: Seq<u64>,
) -> bool {
    if chain.len() == 0 {
        parent is None
    } else {
        call_ensures(parent_of, (chain.last(),), None)
    }
}

/// How deep a popup's parent chain already is.
///
/// `parent` is the popup's parent surface, and `parent_of` the parent of the popup
/// with that surface, or nothing if it is no popup. Walks up, stopping one past the
/// limit — the check itself must not become the unbounded walk it exists to prevent.
pub fn popup_chain_depth<F: Fn(u64) -> Option<u64>>(parent: Option<u64>, parent_of: F) -> (depth:
    usize)
    requires
        forall|surface: u64| call_requires(parent_of, (surface,)),
    ensures
        depth <= MAX_POPUP_DEPTH + 1,
        exists|chain: Seq<u64>|
            {
                &&& chain.len() == depth
                &&& #[trigger] is_chain(parent, parent_of, chain)
                &&& depth <= MAX_POPUP_DEPTH ==> chain_ends(parent, parent_of, chain)
            },
{
    let mut depth: usize = 0;
    let mut current = parent;
    let ghost mut chain: Seq<u64> = Seq::empty();
    while depth <= MAX_POPUP_DEPTH
        invariant
            forall|surface: u64| call_requires(parent_of, (surface,)),
            depth <= MAX_POPUP_DEPTH + 1,
            chain.len() == depth,
            is_chain(parent, parent_of, chain),
            chain.len() == 0 ==> current == parent,
            0 < chain.len() <= MAX_POPUP_DEPTH ==> call_ensures(
                parent_of,
                (chain.last(),),
                current,
            ),
        decreases MAX_POPUP_DEPTH + 1 - depth,
    {
        match current {
            None => {
                assert(chain_ends(parent, parent_of, chain));
                return depth;
            },
            Some(surface) => {
                depth = depth + 1;
                proof {
                    chain = chain.push(surface);
                }
                if depth <= MAX_POPUP_DEPTH {
                    current = parent_of(surface);
                }
            },
        }
    }
    depth
}

/// May a client take a popup grab right now?
///
/// A grab is only legitimate if the client already owns the relevant input:
/// either nothing is grabbed at all, or the existing grab is one of ours — this
/// serial, or the serial of the grab this popup is nesting inside. Anything else
/// is a client trying to steal input while another grab is live, and the protocol
/// says to dismiss the popup rather than honour it.
pub fn grab_allowed(already_grabbed: bool, owns_serial: bool, owns_previous_serial: bool) -> (
    allowed: bool)
    ensures
        allowed == (!already_grabbed || owns_serial || owns_previous_serial),
{
    !already_grabbed || owns_serial || owns_previous_serial
}

/// How far a popup grab got before the devices are looked at.
#[derive(Debug, Clone, Copy, PartialEq, Eq, Structural)]
pub enum GrabAttempt {
    /// The seat is not ours.
    UnknownSeat,
    /// The parent died between the request and now.
    NoRoot,
    /// The popup chain does not admit the grab.
    Refused,
    /// The popup chain admits the grab.
    Granted,
}

/// Who holds a device, as seen by a grab.
#[derive(Debug, Clone, Copy, PartialEq, Eq, Structural)]
pub struct DeviceGrab {
    pub grabbed: bool,
    pub owns_serial: bool,
    pub owns_previous_serial: bool,
}

impl DeviceGrab {
    /// Does the device admit the grab?
    pub open spec fn admits(self) -> bool {
        !self.grabbed || self.owns_serial || self.owns_previous_serial
    }
}

/// What becomes of a popup grab.
#[derive(Debug, Clone, Copy, PartialEq, Eq, Structural)]
pub enum GrabAction {
    /// Nothing.
    Ignore,
    /// Dismiss the whole popup chain.
    Dismiss,
    /// Grab the devices that there are.
    Install { keyboard: bool, pointer: bool },
}

/// What becomes of a popup grab, given who holds the devices that there are.
pub open spec fn grab_outcome(
    attempt: GrabAttempt,
    keyboard: Option<DeviceGrab>,
    pointer: Option<DeviceGrab>,
) -> GrabAction {
    if attempt != GrabAttempt::Granted {
        GrabAction::Ignore
    } else if (keyboard matches Some(device) && !device.admits()) || (pointer matches Some(device)
        && !device.admits()) {
        GrabAction::Dismiss
    } else {
        GrabAction::Install { keyboard: keyboard is Some, pointer: pointer is Some }
    }
}

/// The serial of the grab a popup nests inside: its own, if there is none before it.
pub fn nesting_serial(previous: Option<u32>, serial: u32) -> (nesting: u32)
    ensures
        nesting == (match previous {
            Some(previous) => previous,
            None => serial,
        }),
{
    match previous {
        Some(previous) => previous,
        None => serial,
    }
}

/// Take a popup grab: route keyboard and pointer input to the popup chain so
/// that a click or key outside it dismisses the whole chain.
///
/// Both devices are checked before either is grabbed. Grabbing the keyboard and then
/// refusing the pointer would leave the keyboard grabbed on a chain we just dismissed —
/// and nothing is raised while a keyboard grab is live, so clicks would stop raising
/// windows too.
pub fn grab(attempt: GrabAttempt, keyboard: Option<DeviceGrab>, pointer: Option<DeviceGrab>) -> (
    action: GrabAction)
    ensures
        action == grab_outcome(attempt, keyboard, pointer),
{
    if attempt != GrabAttempt::Granted {
        return GrabAction::Ignore;
    }
    let keyboard_ok = match keyboard {
        Some(k) => grab_allowed(k.grabbed, k.owns_serial, k.owns_previous_serial),
        None => true,
    };
    let pointer_ok = match pointer {
        Some(p) => grab_allowed(p.grabbed, p.owns_serial, p.owns_previous_serial),
        None => true,
    };
    if !keyboard_ok || !pointer_ok {
        return GrabAction::Dismiss;
    }
    GrabAction::Install { keyboard: keyboard.is_some(), pointer: pointer.is_some() }
}

/// A grab takes every device there is or none: if somebody else holds one of them,
/// the whole chain is dismissed.
pub proof fn law_grab_is_all_or_nothing(
    attempt: GrabAttempt,
    keyboard: Option<DeviceGrab>,
    pointer: Option<DeviceGrab>,
)
    ensures
        grab_outcome(attempt, keyboard, pointer) matches GrabAction::Install {
            keyboard: takes_keyboard,
            pointer: takes_pointer,
        } ==> {
            &&& takes_keyboard == keyboard is Some
            &&& takes_pointer == pointer is Some
            &&& keyboard matches Some(device) ==> device.admits()
            &&& pointer matches Some(device) ==> device.admits()
        },
{
}

impl Kiosk {
    /// Put a toplevel's pending state into the only geometry this compositor
    /// offers: fullscreen at the output's size.
    ///
    /// Advertises no window-management capabilities: there is no window menu, no
    /// minimize target, and maximize is meaningless when everything is already
    /// fullscreen.
    pub fn configure_fullscreen(&self, state: &mut ToplevelState)
        ensures
            *final(state) == old(state).fullscreen_at(self@.size()),
    {
        let size = self.output_size();
        state.fullscreen = true;
        state.maximized = false;
        state.resizing = false;
        state.size = Some(size);
        state.bounds = Some(size);
        state.capabilities = WmCapabilities {
            window_menu: false,
            maximize: false,
            fullscreen: false,
            minimize: false,
        };
    }

    /// A client opened a toplevel. It goes on top, fullscreen, and takes focus.
    ///
    /// The cap is compositor-wide, not per client: the client that asks for one beyond
    /// the limit is the one disconnected, which is not necessarily the one that filled
    /// it.
    pub fn new_toplevel(&mut self, surface: u64) -> (admitted: Result<Admission, ProtocolError>)
        ensures
            match admitted {
                Ok(admission) => {
                    let windows = old(self)@.windows.push(old(self)@.new_window(surface));
                    &&& old(self)@.windows.len() < MAX_TOPLEVELS
                    &&& final(self)@ == (KioskState { windows: activated(windows), ..old(self)@ })
                    &&& admission.configure == old(self)@.new_window(surface).state
                    &&& admission.refocus.configure@ == reactivated(windows)
                    &&& admission.refocus.focus == Some(surface)
                },
                Err(err) => {
                    &&& old(self)@.windows.len() >= MAX_TOPLEVELS
                    &&& final(self)@ == old(self)@
                    &&& err.says(too_many_toplevels())
                },
            },
            old(self)@.well_formed() ==> final(self)@.well_formed(),
    {
        if self.windows.len() >= MAX_TOPLEVELS {
            let mut message = "compositor is tracking too many toplevels (limit ".to_owned();
            message.append(number(MAX_TOPLEVELS as u64).as_str());
            message.append(")");
            return Err(ProtocolError { code: WL_SURFACE_ERROR_INVALID_SIZE, message });
        }
        let mut state = ToplevelState::new();
        self.configure_fullscreen(&mut state);
        let window = Window { surface, state };
        self.windows.push(window);
        let refocus = self.refocus();
        Ok(Admission { configure: state, refocus })
    }

    /// A toplevel is gone, and focus falls to whatever is beneath. The screen still
    /// shows it, so a frame is due.
    pub fn toplevel_destroyed(&mut self, surface: u64) -> (effects: (Refocus, FrameStep))
        requires
            old(self)@.frames.phase == FramePhase::Idle,
        ensures
            ({
                let windows = old(self)@.windows_without(surface);
                &&& final(self)@ == (KioskState {
                    windows: activated(windows),
                    frames: old(self)@.frames.refreshing().0,
                    ..old(self)@
                })
                &&& effects.0.configure@ == reactivated(windows)
                &&& effects.0.focus == top_surface(windows)
                &&& effects.1 == old(self)@.frames.refreshing().1
            }),
            old(self)@.well_formed() ==> final(self)@.well_formed(),
    {
        let ghost before = self@.windows;
        let ghost wanted = |window: Window| window.surface != surface;
        let keep = |window: Window| -> (yes: bool)
            ensures
                yes == (window.surface != surface),
            { window.surface != surface };
        let left = kept(&self.windows, keep, Ghost(wanted));
        proof {
            lemma_filter_keeps_items(before, wanted);
        }
        self.windows = left;
        let refocus = self.refocus();
        let step = self.refresh();
        (refocus, step)
    }

    /// A client opened a popup with that parent, where `parent_of` gives the parent of
    /// a tracked popup's surface.
    ///
    /// A parent is nullable in the protocol, but a popup without one is never
    /// positioned or drawn, and nothing here could give it a parent later.
    pub fn new_popup<F: Fn(u64) -> Option<u64>>(
        &self,
        parent: Option<u64>,
        parent_of: F,
    ) -> (admitted: Result<(), ProtocolError>)
        requires
            forall|surface: u64| call_requires(parent_of, (surface,)),
        ensures
            parent is None ==> (admitted matches Err(err) && err.says(
                "xdg_popup created without a parent surface"@,
            )),
            parent is Some ==> exists|chain: Seq<u64>|
                {
                    &&& chain.len() <= MAX_POPUP_DEPTH + 1
                    &&& #[trigger] is_chain(parent, parent_of, chain)
                    &&& chain.len() <= MAX_POPUP_DEPTH ==> chain_ends(parent, parent_of, chain)
                    &&& match admitted {
                        Ok(()) => self@.popups.len() < MAX_POPUPS && chain.len() <= MAX_POPUP_DEPTH,
                        Err(err) => {
                            &&& self@.popups.len() >= MAX_POPUPS || chain.len() > MAX_POPUP_DEPTH
                            &&& err.says(too_many_popups())
                        },
                    }
                },
    {
        if parent.is_none() {
            return Err(
                ProtocolError {
                    code: WL_SURFACE_ERROR_INVALID_SIZE,
                    message: "xdg_popup created without a parent surface".to_owned(),
                },
            );
        }
        let depth: usize = popup_chain_depth(parent, parent_of);
        if popup_limits_exceeded(self.popups.len(), depth) {
            let mut message = "too many popups (limit ".to_owned();
            message.append(number(MAX_POPUPS as u64).as_str());
            message.append(", max depth ");
            message.append(number(MAX_POPUP_DEPTH as u64).as_str());
            message.append(")");
            return Err(ProtocolError { code: WL_SURFACE_ERROR_INVALID_SIZE, message });
        }
        Ok(())
    }

    /// The popup manager tracks the admitted popup of `surface`, or failed to.
    pub fn popup_tracked(&mut self, surface: u64, succeeded: bool)
        requires
            old(self)@.popups.len() < MAX_POPUPS,
            !old(self)@.popups.contains(surface),
        ensures
            final(self)@ == (KioskState {
                popups: if succeeded {
                    old(self)@.popups.push(surface)
                } else {
                    old(self)@.popups
                },
                ..old(self)@
            }),
            old(self)@.well_formed() ==> final(self)@.well_formed(),
    {
        if succeeded {
            self.popups.push(surface);
        }
    }

    /// The popup of `surface` is gone. The client still owns the object of a popup that
    /// was *rejected*, or could not be tracked, so this can come for one; it was never
    /// counted, and takes nobody's place. The screen may still show the popup, so a
    /// frame is due.
    pub fn popup_destroyed(&mut self, surface: u64) -> (step: FrameStep)
        requires
            old(self)@.frames.phase == FramePhase::Idle,
        ensures
            final(self)@ == (KioskState {
                popups: old(self)@.popups.filter(|popup: u64| popup != surface),
                frames: old(self)@.frames.refreshing().0,
                ..old(self)@
            }),
            final(self)@.popups == old(self)@.popups_without(surface),
            step == old(self)@.frames.refreshing().1,
            old(self)@.well_formed() ==> final(self)@.well_formed(),
    {
        let ghost before = self@.popups;
        let ghost wanted = |popup: u64| popup != surface;
        let keep = |popup: u64| -> (yes: bool)
            ensures
                yes == (popup != surface),
            { popup != surface };
        let left = kept(&self.popups, keep, Ghost(wanted));
        proof {
            lemma_filter_keeps_items(before, wanted);
            if before.no_duplicates() {
                lemma_filter_keeps_no_duplicates(before, wanted);
            }
        }
        proof {
            lemma_popups_without(old(self)@, surface, wanted);
        }
        self.popups = left;
        self.refresh()
    }

    /// The rectangle that a popup is kept inside: without this a menu near the screen
    /// edge is drawn partly offscreen.
    ///
    /// The positioner works in the parent's window-geometry space, so this is the
    /// output translated by the parent's geometry origin — not the output rect itself.
    /// Every window sits at the origin here, so only the parent's own window geometry
    /// matters. `root` is the popup's root surface, and `geometry` the origin of the
    /// window geometry of that surface.
    pub fn constrain_popup(&self, root: Option<u64>, geometry: Point) -> (target: Rectangle)
        ensures
            target.size == self@.size(),
            target.loc == (if root matches Some(surface) && window_at(self@.windows, surface) is Some {
                Point::zero().difference(geometry)
            } else {
                Point::zero()
            }),
    {
        let mut target = self.output_rect();
        if let Some(surface) = root {
            if self.window_for_surface(surface).is_some() {
                target.loc = target.loc.minus(geometry);
            }
        }
        target
    }

    /// The state that the toplevel of `surface` is configured with.
    fn state_of(&self, surface: u64) -> (state: ToplevelState)
        ensures
            state == self@.toplevel_state(surface),
    {
        match self.window_for_surface(surface) {
            Some(window) => window.state,
            None => ToplevelState::new(),
        }
    }

    fn set_state(&mut self, surface: u64, state: ToplevelState)
        ensures
            final(self)@ == old(self)@.with_state(surface, state),
    {
        if let Some(i) = self.window_index(surface) {
            self.windows.set(i, Window { surface, state });
        }
    }

    /// Answer a request to change a toplevel's state by restating fullscreen.
    fn restate(&mut self, surface: u64) -> (configure: ToplevelState)
        ensures
            configure == old(self)@.restated(surface),
            final(self)@ == old(self)@.with_state(surface, configure),
            old(self)@.well_formed() ==> final(self)@.well_formed(),
    {
        let mut state = self.state_of(surface);
        self.configure_fullscreen(&mut state);
        self.set_state(surface, state);
        proof {
            lemma_window_at(old(self)@.windows, surface);
        }
        state
    }

    // The client cannot leave the kiosk geometry. The four state requests below are
    // answered with a configure that restates fullscreen, because the protocol expects
    // a response and silence hangs clients that wait for one. `move`, `resize`, and
    // `minimize` need no reply and are ignored.

    /// The client asked to be fullscreen.
    pub fn fullscreen_request(&mut self, surface: u64) -> (configure: ToplevelState)
        ensures
            configure == old(self)@.restated(surface),
            final(self)@ == old(self)@.with_state(surface, configure),
            old(self)@.well_formed() ==> final(self)@.well_formed(),
    {
        self.restate(surface)
    }

    /// The client asked not to be fullscreen.
    pub fn unfullscreen_request(&mut self, surface: u64) -> (configure: ToplevelState)
        ensures
            configure == old(self)@.restated(surface),
            final(self)@ == old(self)@.with_state(surface, configure),
            old(self)@.well_formed() ==> final(self)@.well_formed(),
    {
        self.restate(surface)
    }

    /// The client asked to be maximized.
    pub fn maximize_request(&mut self, surface: u64) -> (configure: ToplevelState)
        ensures
            configure == old(self)@.restated(surface),
            final(self)@ == old(self)@.with_state(surface, configure),
            old(self)@.well_formed() ==> final(self)@.well_formed(),
    {
        self.restate(surface)
    }

    /// The client asked not to be maximized.
    pub fn unmaximize_request(&mut self, surface: u64) -> (configure: ToplevelState)
        ensures
            configure == old(self)@.restated(surface),
            final(self)@ == old(self)@.with_state(surface, configure),
            old(self)@.well_formed() ==> final(self)@.well_formed(),
    {
        self.restate(surface)
    }

    /// The client asked to be minimized. There is nowhere to minimize to.
    pub fn minimize_request(&mut self, surface: u64)
        ensures
            *final(self) == *old(self),
    {
    }

    /// The client asked for an interactive move. The surface cannot leave the output, so
    /// there is nothing to grant.
    pub fn move_request(&mut self, surface: u64)
        ensures
            *final(self) == *old(self),
    {
    }

    /// The client asked for an interactive resize. The geometry is fixed.
    pub fn resize_request(&mut self, surface: u64)
        ensures
            *final(self) == *old(self),
    {
    }

    /// The client asked about decorations. Server-side decorations are forced, which for
    /// this compositor means no decorations at all: a kiosk application should not be
    /// drawing a title bar.
    pub fn new_decoration(&mut self, surface: u64) -> (configure: ToplevelState)
        ensures
            configure == old(self)@.undecorated(surface),
            final(self)@ == old(self)@.with_state(surface, configure),
            old(self)@.well_formed() ==> final(self)@.well_formed(),
    {
        let mut state = self.state_of(surface);
        state.decoration_mode = Some(DecorationMode::ServerSide);
        self.set_state(surface, state);
        proof {
            lemma_window_at(old(self)@.windows, surface);
        }
        state
    }

    /// The client asked for a decoration mode, which is overruled.
    pub fn request_mode(&mut self, surface: u64, mode: DecorationMode) -> (configure: ToplevelState)
        ensures
            configure == old(self)@.undecorated(surface),
            final(self)@ == old(self)@.with_state(surface, configure),
            old(self)@.well_formed() ==> final(self)@.well_formed(),
    {
        self.new_decoration(surface)
    }

    /// The client withdrew its decoration mode.
    pub fn unset_mode(&mut self, surface: u64) -> (configure: ToplevelState)
        ensures
            configure == old(self)@.undecorated(surface),
            final(self)@ == old(self)@.with_state(surface, configure),
            old(self)@.well_formed() ==> final(self)@.well_formed(),
    {
        self.new_decoration(surface)
    }
}

proof fn lemma_popups_without(kiosk: KioskState, surface: u64, keep: spec_fn(u64) -> bool)
    requires
        forall|popup: u64| #[trigger] keep(popup) == (popup != surface),
    ensures
        kiosk.popups.filter(keep) == kiosk.popups_without(surface),
{
    lemma_filter_same(kiosk.popups, keep, other_than(surface));
}

proof fn lemma_window_at(windows: Seq<Window>, surface: u64)
    ensures
        window_at(windows, surface) matches Some(i) ==> 0 <= i < windows.len()
            && windows[i].surface == surface,
{
    crate::seqs::lemma_find(windows, |window: Window| window.surface == surface);
}

/// No request of a client escapes the kiosk geometry: in a well-formed state a request
/// to change the state of a toplevel changes nothing, and the reply says fullscreen at
/// the output's size.
pub proof fn law_no_request_escapes(kiosk: KioskState, surface: u64)
    requires
        kiosk.well_formed(),
    ensures
        kiosk.with_state(surface, kiosk.restated(surface)) == kiosk,
        kiosk.restated(surface).confined_to(kiosk.size()),
{
    lemma_window_at(kiosk.windows, surface);
    if let Some(i) = window_at(kiosk.windows, surface) {
        assert(kiosk.windows[i].state.confined_to(kiosk.size()));
        assert(kiosk.windows.update(i, kiosk.windows[i]) == kiosk.windows);
    }
}

/// A dialog that opens and closes leaves the stack as it was, with focus back where it
/// was: on the window that had been on top.
pub proof fn law_a_closed_dialog_restores_the_stack(kiosk: KioskState, surface: u64)
    requires
        kiosk.windows == activated(kiosk.windows),
        forall|i: int|
            0 <= i < kiosk.windows.len() ==> (#[trigger] kiosk.windows[i]).surface != surface,
    ensures
        ({
            let opened = KioskState {
                windows: activated(kiosk.windows.push(kiosk.new_window(surface))),
                ..kiosk
            };
            &&& activated(opened.windows_without(surface)) == kiosk.windows
            &&& top_surface(opened.windows_without(surface)) == top_surface(kiosk.windows)
        }),
{
    let keep = |window: Window| window.surface != surface;
    let opened = activated(kiosk.windows.push(kiosk.new_window(surface)));
    let below = opened.drop_last();
    let n = kiosk.windows.len();
    assert(opened.last().surface == surface);
    assert(opened.filter(keep) == below.filter(keep)) by {
        reveal(Seq::filter);
    }
    assert forall|i: int| 0 <= i < below.len() implies keep(#[trigger] below[i]) by {
        assert(below[i].surface == kiosk.windows[i].surface);
    }
    lemma_filter_of_all(below, keep);
    assert(below.len() == n);
    assert(top_surface(below) == top_surface(kiosk.windows)) by {
        if n > 0 {
            assert(below.last() == with_focus(kiosk.windows[n - 1], Some(surface)));
        }
    }
    assert forall|i: int| 0 <= i < n implies activated(below)[i] == #[trigger] kiosk.windows[i] by {
        assert(below[i] == with_focus(kiosk.windows[i], Some(surface)));
        assert(kiosk.windows[i] == activated(kiosk.windows)[i]);
    }
    assert(activated(below) == kiosk.windows);
}

/// Only a tracked popup gives up a place when it goes: the end of a rejected one leaves
/// the tracked popups as they were, so the cap holds against what is tracked.
pub proof fn law_only_a_tracked_popup_is_uncounted(kiosk: KioskState, surface: u64)
    requires
        kiosk.well_formed(),
    ensures
        ({
            let left = kiosk.popups.filter(|popup: u64| popup != surface);
            &&& !kiosk.popups.contains(surface) ==> left == kiosk.popups
            &&& kiosk.popups.contains(surface) ==> left.len() + 1 == kiosk.popups.len()
            &&& !left.contains(surface)
        }),
{
    let keep = |popup: u64| popup != surface;
    lemma_filter_keeps_no_duplicates(kiosk.popups, keep);
    if kiosk.popups.contains(surface) {
        lemma_filter_removes_one(kiosk.popups, keep, surface);
    } else {
        lemma_filter_of_all(kiosk.popups, keep);
    }
}

/// A popup that is tracked and goes leaves the tracked popups as they were.
pub proof fn law_a_closed_popup_restores_the_count(kiosk: KioskState, surface: u64)
    requires
        !kiosk.popups.contains(surface),
    ensures
        kiosk.popups.push(surface).filter(|popup: u64| popup != surface) == kiosk.popups,
{
    let keep = |popup: u64| popup != surface;
    reveal(Seq::filter);
    assert(kiosk.popups.push(surface).drop_last() == kiosk.popups);
    lemma_filter_of_all(kiosk.popups, keep);
}

} // verus!
