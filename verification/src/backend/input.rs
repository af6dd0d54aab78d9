//! Input forwarding.
//!
//! This is a thin forwarder: keyboard, pointer, and touch events go to the
//! focused surface. The only compositor-level interception is `--exit-key`.

use vstd::prelude::*;

use crate::cli::{Binding, ModifiersState};
use crate::focus::{root_of, root_surface, FocusTarget};
use crate::frames::{FramePhase, FrameStep};
use crate::geometry::Point;
use crate::seqs::{kept, lemma_filter_keeps_no_duplicates};
use crate::state::{
    activated, reactivated, window_at, Kiosk, KioskState, Refocus, Window,
};

verus! {

/// The exit status used when `--exit-key` fires. Pressing the escape hatch is a
/// clean shutdown, not a failure.
pub const EXIT_KEY_STATUS: i32 = 0;

/// The kinds of input event.
#[derive(Debug, Clone, Copy, PartialEq, Eq, Structural)]
pub enum InputEvent {
    Keyboard,
    PointerMotion,
    PointerMotionAbsolute,
    PointerButton,
    PointerAxis,
    TouchDown,
    TouchMotion,
    TouchUp,
    TouchCancel,
    TouchFrame,
    /// Device changes, gestures, tablets, switches.
    Other,
}

/// Where an input event goes.
#[derive(Debug, Clone, Copy, PartialEq, Eq, Structural)]
pub enum InputRoute {
    /// Nowhere.
    Ignore,
    /// To the keyboard.
    Key,
    /// Move the pointer by the event's delta.
    MoveBy,
    /// Move the pointer to the event's position on the output.
    MoveTo,
    /// To the pointer, as a button.
    Button,
    /// To the pointer, as scrolling.
    Axis,
    /// To the touch device.
    TouchDown,
    TouchMotion,
    TouchUp,
    TouchCancel,
    TouchFrame,
}

/// Is a key or a button down or up?
#[derive(Debug, Clone, Copy, PartialEq, Eq, Structural)]
pub enum KeyState {
    Pressed,
    Released,
}

/// A key event.
#[derive(Debug, Clone, Copy, PartialEq, Eq, Structural)]
pub struct KeyEvent {
    pub code: u32,
    pub state: KeyState,
    /// In milliseconds, on the clock of the input devices.
    pub time: u32,
}

/// A key release made up for a key that is physically released elsewhere.
#[derive(Debug, Clone, Copy, PartialEq, Eq, Structural)]
pub struct KeyRelease {
    pub code: u32,
    pub time: u32,
}

/// What produced a scroll event.
#[derive(Debug, Clone, Copy, PartialEq, Eq, Structural)]
pub enum AxisSource {
    Finger,
    Continuous,
    Wheel,
    WheelTilt,
}

/// What a scroll event says of one axis.
#[derive(Debug, Clone, Copy, PartialEq, Eq, Structural)]
pub enum AxisStep {
    /// Nothing.
    Nothing,
    /// The amount scrolled.
    Value,
    /// The gesture ended.
    Stop,
}

/// A surface and the origin of that surface in global compositor space, from which
/// the surface-local position of an event follows.
#[derive(Debug, Clone, Copy, PartialEq, Eq, Structural)]
pub struct Focus {
    pub target: FocusTarget,
    pub origin: Point,
}

impl KioskState {
    /// Where an event goes: nowhere while another VT is in front, and otherwise to the
    /// device it is for, if that is on the seat.
    pub open spec fn route(self, event: InputEvent) -> InputRoute {
        let on = |device: bool, route: InputRoute|
            if self.frames.pacer.active && device {
                route
            } else {
                InputRoute::Ignore
            };
        match event {
            InputEvent::Keyboard => on(self.keyboard, InputRoute::Key),
            InputEvent::PointerMotion => on(self.pointer, InputRoute::MoveBy),
            InputEvent::PointerMotionAbsolute => on(self.pointer, InputRoute::MoveTo),
            InputEvent::PointerButton => on(self.pointer, InputRoute::Button),
            InputEvent::PointerAxis => on(self.pointer, InputRoute::Axis),
            InputEvent::TouchDown => on(self.touch, InputRoute::TouchDown),
            InputEvent::TouchMotion => on(self.touch, InputRoute::TouchMotion),
            InputEvent::TouchUp => on(self.touch, InputRoute::TouchUp),
            InputEvent::TouchCancel => on(self.touch, InputRoute::TouchCancel),
            InputEvent::TouchFrame => on(self.touch, InputRoute::TouchFrame),
            InputEvent::Other => InputRoute::Ignore,
        }
    }

    /// After a key event, where `intercepted` says whether it was the exit key.
    pub open spec fn keyed(self, event: KeyEvent, intercepted: bool) -> KioskState {
        let seen = KioskState {
            last_input_time: event.time,
            pressed_keys: held_after(self.pressed_keys, event),
            ..self
        };
        if intercepted {
            seen.exiting(EXIT_KEY_STATUS)
        } else {
            seen
        }
    }

    /// The stack with the window at `i` raised to the top.
    pub open spec fn raised(self, i: int) -> Seq<Window> {
        self.windows.remove(i).push(self.windows[i])
    }
}

/// Does a request to focus the window of the surface `root` lead from `before` to
/// `after`, with those effects? A window that is not on top is raised and focused, and
/// a frame is due; nothing happens during a grab, or if there is no such window.
pub open spec fn focuses(
    before: KioskState,
    root: u64,
    grabbed: bool,
    after: KioskState,
    effects: Option<(Refocus, FrameStep)>,
) -> bool {
    let at = window_at(before.windows, root);
    match effects {
        None => {
            &&& grabbed || at is None || at == Some(before.windows.len() - 1)
            &&& after == before
        },
        Some((refocus, step)) => {
            &&& !grabbed
            &&& at matches Some(i) && {
                &&& i != before.windows.len() - 1
                &&& after == (KioskState {
                    windows: activated(before.raised(i)),
                    frames: before.frames.refreshing().0,
                    ..before
                })
                &&& refocus.configure@ == reactivated(before.raised(i))
                &&& refocus.focus == Some(before.windows[i].surface)
                &&& step == before.frames.refreshing().1
            }
        },
    }
}

/// The keys held after an event.
pub open spec fn held_after(held: Seq<u32>, event: KeyEvent) -> Seq<u32> {
    match event.state {
        KeyState::Pressed => if held.contains(event.code) {
            held
        } else {
            held.push(event.code)
        },
        KeyState::Released => held.filter(|code: u32| code != event.code),
    }
}

/// Is a key event the exit key: a press, of a key that produces the keysym of the
/// binding on some layout level, with exactly its modifiers?
pub open spec fn is_exit_key(
    exit_key: Option<Binding>,
    state: KeyState,
    modifiers: ModifiersState,
    keysyms: Seq<u32>,
) -> bool {
    &&& state == KeyState::Pressed
    &&& exit_key matches Some(binding) && exists|i: int|
        0 <= i < keysyms.len() && binding.fires(modifiers, #[trigger] keysyms[i])
}

/// Should a key event be kept from the client, because it is the exit key?
///
/// Every keysym the keycode produces is checked, so a binding written against one
/// layout level still fires.
pub fn key_filter(
    exit_key: Option<Binding>,
    state: KeyState,
    modifiers: &ModifiersState,
    keysyms: &Vec<u32>,
) -> (intercept: bool)
    ensures
        intercept == is_exit_key(exit_key, state, *modifiers, keysyms@),
{
    let binding = match exit_key {
        Some(binding) => binding,
        None => {
            return false;
        },
    };
    if state != KeyState::Pressed {
        return false;
    }
    for i in 0..keysyms.len()
        invariant
            exit_key == Some(binding),
            state == KeyState::Pressed,
            forall|j: int| 0 <= j < i ==> !binding.fires(*modifiers, #[trigger] keysyms@[j]),
    {
        if binding.matches(modifiers, keysyms[i]) {
            assert(binding.fires(*modifiers, keysyms@[i as int]));
            return true;
        }
    }
    false
}

/// What a scroll event says of one axis, where `moved` says whether its amount is
/// anything but zero.
///
/// A finger source reporting zero means the gesture ended, and clients need the stop
/// event to end kinetic scrolling.
pub fn axis_step(moved: bool, source: AxisSource) -> (step: AxisStep)
    ensures
        step == (if moved {
            AxisStep::Value
        } else if source == AxisSource::Finger {
            AxisStep::Stop
        } else {
            AxisStep::Nothing
        }),
{
    if moved {
        AxisStep::Value
    } else if source == AxisSource::Finger {
        AxisStep::Stop
    } else {
        AxisStep::Nothing
    }
}

/// The hit on the topmost of the lowest `n` windows that was hit.
pub open spec fn topmost_hit(hits: Seq<Option<Focus>>, n: nat) -> Option<Focus>
    decreases n,
{
    if n == 0 {
        None
    } else if hits[n - 1] is Some {
        hits[n - 1]
    } else {
        topmost_hit(hits, (n - 1) as nat)
    }
}

/// Hit-test the window stack from top to bottom, given what was hit in each window.
///
/// Every window is at the origin and fullscreen, so no per-window offset is needed.
pub fn surface_under(hits: &Vec<Option<Focus>>) -> (focus: Option<Focus>)
    ensures
        focus == topmost_hit(hits@, hits@.len()),
{
    let mut n: usize = hits.len();
    while n > 0
        invariant
            n <= hits.len(),
            topmost_hit(hits@, hits@.len()) == topmost_hit(hits@, n as nat),
        decreases n,
    {
        n = n - 1;
        if let Some(focus) = hits[n] {
            return Some(focus);
        }
    }
    None
}

/// The hit that counts is in a window above which nothing was hit, and there is none
/// only where nothing was hit at all.
pub proof fn law_the_topmost_hit_wins(hits: Seq<Option<Focus>>, n: nat)
    requires
        n <= hits.len(),
    ensures
        match topmost_hit(hits, n) {
            Some(focus) => exists|i: int|
                {
                    &&& 0 <= i < n
                    &&& #[trigger] hits[i] == Some(focus)
                    &&& forall|j: int| i < j < n ==> #[trigger] hits[j] is None
                },
            None => forall|i: int| 0 <= i < n ==> #[trigger] hits[i] is None,
        },
    decreases n,
{
    if n > 0 {
        law_the_topmost_hit_wins(hits, (n - 1) as nat);
        if hits[n - 1] is None {
            if let Some(focus) = topmost_hit(hits, n) {
                let i = choose|i: int|
                    {
                        &&& 0 <= i < n - 1
                        &&& #[trigger] hits[i] == Some(focus)
                        &&& forall|j: int| i < j < n - 1 ==> #[trigger] hits[j] is None
                    };
                assert(hits[i] == Some(focus));
            }
        }
    }
}

impl Kiosk {
    /// Release every key the client currently believes is held.
    ///
    /// Called when the session is paused: the user pressed `Ctrl+Alt+F<n>`, and
    /// the *release* of those modifiers is delivered to the incoming VT, not to
    /// us. Without this the client sees `Ctrl+Alt` held forever, and because a
    /// binding requires exact modifiers, `--exit-key` stops matching — the escape
    /// hatch dies exactly when it is needed.
    ///
    /// The releases are stamped with the time of the last key event, on the same
    /// clock, so that a client that filters on monotonic timestamps does not discard
    /// them.
    pub fn release_all_keys(&mut self) -> (releases: Vec<KeyRelease>)
        ensures
            releases@ == (if old(self)@.keyboard {
                old(self)@.pressed_keys.map_values(
                    |code: u32| KeyRelease { code, time: old(self)@.last_input_time },
                )
            } else {
                Seq::empty()
            }),
            final(self)@ == (KioskState {
                pressed_keys: if old(self)@.keyboard {
                    Seq::empty()
                } else {
                    old(self)@.pressed_keys
                },
                ..old(self)@
            }),
            old(self)@.well_formed() ==> final(self)@.well_formed(),
    {
        let mut releases: Vec<KeyRelease> = Vec::new();
        if !self.keyboard {
            return releases;
        }
        let time: u32 = self.last_input_time;
        let ghost all = self@.pressed_keys.map_values(|code: u32| KeyRelease { code, time });
        for i in 0..self.pressed_keys.len()
            invariant
                self@ == old(self)@,
                all == self@.pressed_keys.map_values(|code: u32| KeyRelease { code, time }),
                releases@ == all.take(i as int),
        {
            releases.push(KeyRelease { code: self.pressed_keys[i], time });
            assert(all.take(i + 1) == all.take(i as int).push(all[i as int]));
        }
        assert(all.take(self.pressed_keys.len() as int) == all);
        self.pressed_keys = Vec::new();
        assert(self@.pressed_keys == Seq::<u32>::empty());
        releases
    }

    /// Where to dispatch one input event.
    ///
    /// While another VT is in front we hold no DRM master and should not be delivering
    /// input to the client. Capabilities are established up front from the initial
    /// device set, so device changes are ignored.
    pub fn process_input_event(&self, event: InputEvent) -> (route: InputRoute)
        ensures
            route == self@.route(event),
    {
        if !self.backend.is_active() {
            return InputRoute::Ignore;
        }
        match event {
            InputEvent::Keyboard if self.keyboard => InputRoute::Key,
            InputEvent::PointerMotion if self.pointer => InputRoute::MoveBy,
            InputEvent::PointerMotionAbsolute if self.pointer => InputRoute::MoveTo,
            InputEvent::PointerButton if self.pointer => InputRoute::Button,
            InputEvent::PointerAxis if self.pointer => InputRoute::Axis,
            InputEvent::TouchDown if self.touch => InputRoute::TouchDown,
            InputEvent::TouchMotion if self.touch => InputRoute::TouchMotion,
            InputEvent::TouchUp if self.touch => InputRoute::TouchUp,
            InputEvent::TouchCancel if self.touch => InputRoute::TouchCancel,
            InputEvent::TouchFrame if self.touch => InputRoute::TouchFrame,
            _ => InputRoute::Ignore,
        }
    }

    /// A key event, with the modifiers then held and every keysym its keycode produces.
    /// Returns whether to keep it from the client.
    ///
    /// What is held is remembered so that a VT switch can release it; the physical
    /// release goes to whichever VT is in front, not to us.
    pub fn on_keyboard(
        &mut self,
        event: KeyEvent,
        modifiers: &ModifiersState,
        keysyms: &Vec<u32>,
    ) -> (intercepted: bool)
        ensures
            intercepted == (old(self)@.keyboard && is_exit_key(
                old(self)@.exit_key,
                event.state,
                *modifiers,
                keysyms@,
            )),
            final(self)@ == (if old(self)@.keyboard {
                old(self)@.keyed(event, intercepted)
            } else {
                old(self)@
            }),
            old(self)@.well_formed() ==> final(self)@.well_formed(),
    {
        if !self.keyboard {
            return false;
        }
        self.last_input_time = event.time;
        let intercepted = key_filter(self.exit_key, event.state, modifiers, keysyms);
        match event.state {
            KeyState::Pressed => self.remember_key(event.code),
            KeyState::Released => self.forget_key(event.code),
        }
        if intercepted {
            self.shutdown(EXIT_KEY_STATUS);
        }
        intercepted
    }

    fn remember_key(&mut self, code: u32)
        ensures
            final(self)@ == (KioskState {
                pressed_keys: if old(self)@.pressed_keys.contains(code) {
                    old(self)@.pressed_keys
                } else {
                    old(self)@.pressed_keys.push(code)
                },
                ..old(self)@
            }),
            old(self)@.well_formed() ==> final(self)@.well_formed(),
    {
        for i in 0..self.pressed_keys.len()
            invariant
                self@ == old(self)@,
                forall|j: int| 0 <= j < i ==> #[trigger] self.pressed_keys@[j] != code,
        {
            if self.pressed_keys[i] == code {
                assert(self@.pressed_keys[i as int] == code);
                return;
            }
        }
        self.pressed_keys.push(code);
    }

    fn forget_key(&mut self, code: u32)
        ensures
            final(self)@ == (KioskState {
                pressed_keys: old(self)@.pressed_keys.filter(|held: u32| held != code),
                ..old(self)@
            }),
            old(self)@.well_formed() ==> final(self)@.well_formed(),
    {
        let ghost before = self@.pressed_keys;
        let ghost wanted = |held: u32| held != code;
        let keep = |held: u32| -> (yes: bool)
            ensures
                yes == (held != code),
            { held != code };
        let left = kept(&self.pressed_keys, keep, Ghost(wanted));
        proof {
            if before.no_duplicates() {
                lemma_filter_keeps_no_duplicates(before, wanted);
            }
        }
        self.pressed_keys = left;
    }

    /// The pointer moved, so the composited image is stale.
    pub fn pointer_moved(&mut self) -> (step: FrameStep)
        requires
            old(self)@.frames.phase == FramePhase::Idle,
        ensures
            (final(self)@.frames, step) == old(self)@.frames.refreshing(),
            final(self)@ == (KioskState { frames: final(self)@.frames, ..old(self)@ }),
            old(self)@.well_formed() ==> final(self)@.well_formed(),
    {
        self.refresh()
    }

    /// Raise and focus the window owning `target`, if it is not already on top.
    ///
    /// Does nothing while a keyboard grab is active. During a popup grab the
    /// click or touch belongs to the grab, which dismisses the menu; moving
    /// keyboard focus to a toplevel here would break exactly the menus the grab
    /// exists to make work. This guard lives here rather than at the call sites so
    /// it covers both the pointer and touch paths.
    ///
    /// `ancestors` are those of the target, through subsurface and popup parents, from the
    /// nearest on: a popup belongs to the window it was opened from.
    pub fn focus_surface(
        &mut self,
        target: &FocusTarget,
        ancestors: &Vec<u64>,
        grabbed: bool,
    ) -> (effects: Option<(Refocus, FrameStep)>)
        requires
            old(self)@.frames.phase == FramePhase::Idle,
        ensures
            focuses(
                old(self)@,
                root_surface(target.0, ancestors@),
                grabbed,
                final(self)@,
                effects,
            ),
            old(self)@.well_formed() ==> final(self)@.well_formed(),
    {
        if grabbed {
            return None;
        }
        let root: u64 = root_of(target.surface(), ancestors);
        let index: usize = match self.window_index(root) {
            Some(index) => index,
            None => {
                return None;
            },
        };
        if index == self.windows.len() - 1 {
            return None;
        }
        let window = self.windows.remove(index);
        self.windows.push(window);
        let refocus = self.refocus();
        let step = self.refresh();
        Some((refocus, step))
    }

    /// A button was pressed or released over `hit`. A press is also a focus request:
    /// with one client this only matters when a dialog is stacked over its parent.
    pub fn on_pointer_button(
        &mut self,
        state: KeyState,
        hit: Option<Focus>,
        ancestors: &Vec<u64>,
        grabbed: bool,
    ) -> (effects: Option<(Refocus, FrameStep)>)
        requires
            old(self)@.frames.phase == FramePhase::Idle,
        ensures
            state == KeyState::Released || hit is None ==> effects is None
                && final(self)@ == old(self)@,
            state == KeyState::Pressed ==> (hit matches Some(focus) ==> focuses(
                old(self)@,
                root_surface(focus.target.0, ancestors@),
                grabbed,
                final(self)@,
                effects,
            )),
            old(self)@.well_formed() ==> final(self)@.well_formed(),
    {
        if state == KeyState::Pressed {
            if let Some(focus) = hit {
                return self.focus_surface(&focus.target, ancestors, grabbed);
            }
        }
        None
    }

    /// A finger touched the screen over `hit`. Touching a window focuses it, matching
    /// what a click does. Returns whether the touch is delivered, and what the change
    /// of focus asks for before that.
    pub fn on_touch_down(
        &mut self,
        hit: Option<Focus>,
        ancestors: &Vec<u64>,
        grabbed: bool,
    ) -> (touched: (bool, Option<(Refocus, FrameStep)>))
        requires
            old(self)@.frames.phase == FramePhase::Idle,
        ensures
            touched.0 == hit is Some,
            hit is None ==> touched.1 is None && final(self)@ == old(self)@,
            hit matches Some(focus) ==> focuses(
                old(self)@,
                root_surface(focus.target.0, ancestors@),
                grabbed,
                final(self)@,
                touched.1,
            ),
            old(self)@.well_formed() ==> final(self)@.well_formed(),
    {
        match hit {
            Some(focus) => (true, self.focus_surface(&focus.target, ancestors, grabbed)),
            None => (false, None),
        }
    }
}

/// Raising a window reorders the stack: no window is lost or doubled, and the others
/// keep their order.
pub proof fn law_raising_keeps_every_window(kiosk: KioskState, i: int)
    requires
        0 <= i < kiosk.windows.len(),
    ensures
        kiosk.raised(i).to_multiset() == kiosk.windows.to_multiset(),
        kiosk.raised(i).drop_last() == kiosk.windows.remove(i),
        kiosk.raised(i).last() == kiosk.windows[i],
{
    broadcast use {
        vstd::seq_lib::group_to_multiset_ensures,
        vstd::multiset::group_multiset_axioms,
    };

    let window = kiosk.windows[i];
    assert(kiosk.windows.contains(window));
    assert(kiosk.raised(i).to_multiset() =~= kiosk.windows.to_multiset());
}

/// While another VT is in front, no event reaches the client.
pub proof fn law_a_paused_session_delivers_no_input(kiosk: KioskState, event: InputEvent)
    requires
        !kiosk.frames.pacer.active,
    ensures
        kiosk.route(event) == InputRoute::Ignore,
{
}

/// In an active session an event reaches the device it is for exactly if the seat has
/// that device, whatever other devices there are.
pub proof fn law_events_reach_their_device(kiosk: &Kiosk, event: InputEvent, route: InputRoute)
    requires
        call_ensures(Kiosk::process_input_event, (kiosk, event), route),
    ensures
        ({
            let active = kiosk.backend.pacer@.active;
            let goes = |device: bool, to: InputRoute|
                if active && device {
                    route == to
                } else {
                    route == InputRoute::Ignore
                };
            &&& event == InputEvent::Keyboard ==> goes(kiosk.keyboard, InputRoute::Key)
            &&& event == InputEvent::PointerMotion ==> goes(kiosk.pointer, InputRoute::MoveBy)
            &&& event == InputEvent::PointerMotionAbsolute ==> goes(
                kiosk.pointer,
                InputRoute::MoveTo,
            )
            &&& event == InputEvent::PointerButton ==> goes(kiosk.pointer, InputRoute::Button)
            &&& event == InputEvent::PointerAxis ==> goes(kiosk.pointer, InputRoute::Axis)
            &&& event == InputEvent::TouchDown ==> goes(kiosk.touch, InputRoute::TouchDown)
            &&& event == InputEvent::TouchMotion ==> goes(kiosk.touch, InputRoute::TouchMotion)
            &&& event == InputEvent::TouchUp ==> goes(kiosk.touch, InputRoute::TouchUp)
            &&& event == InputEvent::TouchCancel ==> goes(kiosk.touch, InputRoute::TouchCancel)
            &&& event == InputEvent::TouchFrame ==> goes(kiosk.touch, InputRoute::TouchFrame)
            &&& event == InputEvent::Other ==> route == InputRoute::Ignore
        }),
        route == kiosk@.route(event),
{
}

/// A device that an event is not for makes no difference to where it goes.
pub proof fn law_devices_do_not_stand_in_for_each_other(
    kiosk: KioskState,
    other: KioskState,
    event: InputEvent,
)
    requires
        kiosk.frames.pacer.active == other.frames.pacer.active,
        match event {
            InputEvent::Keyboard => kiosk.keyboard == other.keyboard,
            InputEvent::PointerMotion | InputEvent::PointerMotionAbsolute
            | InputEvent::PointerButton | InputEvent::PointerAxis => kiosk.pointer
                == other.pointer,
            InputEvent::TouchDown | InputEvent::TouchMotion | InputEvent::TouchUp
            | InputEvent::TouchCancel | InputEvent::TouchFrame => kiosk.touch == other.touch,
            InputEvent::Other => true,
        },
    ensures
        kiosk.route(event) == other.route(event),
{
}

/// Without an exit key configured, every key reaches the client.
pub proof fn law_no_binding_no_interception(
    state: KeyState,
    modifiers: ModifiersState,
    keysyms: Seq<u32>,
)
    ensures
        !is_exit_key(None, state, modifiers, keysyms),
{
}

/// The keys held after `events`, from none.
pub open spec fn held_run(events: Seq<KeyEvent>) -> Seq<u32>
    decreases events.len(),
{
    if events.len() == 0 {
        Seq::empty()
    } else {
        held_after(held_run(events.drop_last()), events.last())
    }
}

/// Is `i` the last event of the key `code`?
pub open spec fn is_last_of(events: Seq<KeyEvent>, code: u32, i: int) -> bool {
    &&& 0 <= i < events.len()
    &&& events[i].code == code
    &&& forall|j: int| i < j < events.len() ==> (#[trigger] events[j]).code != code
}

/// The keys held are exactly those whose last event was a press, and where time does
/// not run backwards, none of those presses is later than the last event: a release
/// stamped with the time of the last event is never earlier than the press it
/// releases.
pub proof fn law_releases_are_not_before_presses(events: Seq<KeyEvent>, code: u32)
    requires
        forall|i: int, j: int|
            0 <= i < j < events.len() ==> (#[trigger] events[i]).time <= (#[trigger] events[j]).time,
    ensures
        held_run(events).contains(code) <==> exists|i: int| #[trigger]
            is_last_of(events, code, i) && events[i].state == KeyState::Pressed,
        forall|i: int| #[trigger] is_last_of(events, code, i) ==> events[i].time
            <= events.last().time,
    decreases events.len(),
{
    if events.len() > 0 {
        let before = events.drop_last();
        let event = events.last();
        law_releases_are_not_before_presses(before, code);
        let held = held_run(before);
        assert(held_run(events).contains(code) == (if event.code == code {
            event.state == KeyState::Pressed
        } else {
            held.contains(code)
        })) by {
            match event.state {
                KeyState::Pressed => {
                    if !held.contains(event.code) {
                        let after = held.push(event.code);
                        assert(after[held.len() as int] == event.code);
                        if held.contains(code) {
                            let k = held.index_of(code);
                            assert(after[k] == code);
                        }
                        if after.contains(code) && code != event.code {
                            let k = after.index_of(code);
                            assert(held[k] == code);
                        }
                    }
                },
                KeyState::Released => {
                    lemma_filter_contains(held, event.code, code);
                },
            }
        }
        if event.code == code {
            assert(is_last_of(events, code, events.len() - 1));
            assert forall|i: int| #[trigger] is_last_of(events, code, i) implies i == events.len()
                - 1 by {
                if i < events.len() - 1 {
                    assert(events[events.len() - 1].code != code);
                }
            }
        } else {
            assert forall|i: int| #[trigger]
                is_last_of(events, code, i) == is_last_of(before, code, i) by {
                if is_last_of(before, code, i) {
                    assert forall|j: int| i < j < events.len() implies (
                    #[trigger] events[j]).code != code by {
                        if j < before.len() {
                            assert(before[j] == events[j]);
                        }
                    }
                    assert(before[i] == events[i]);
                }
                if is_last_of(events, code, i) {
                    assert(i != events.len() - 1);
                    assert(before[i] == events[i]);
                    assert forall|j: int| i < j < before.len() implies (
                    #[trigger] before[j]).code != code by {
                        assert(before[j] == events[j]);
                    }
                }
            }
            assert forall|i: int| #[trigger] is_last_of(events, code, i) implies events[i]
                == before[i] by {}
            if held.contains(code) {
                let i = choose|i: int| #[trigger]
                    is_last_of(before, code, i) && before[i].state == KeyState::Pressed;
                assert(is_last_of(events, code, i) && events[i].state == KeyState::Pressed);
            }
            if exists|i: int| #[trigger]
                is_last_of(events, code, i) && events[i].state == KeyState::Pressed {
                let i = choose|i: int| #[trigger]
                    is_last_of(events, code, i) && events[i].state == KeyState::Pressed;
                assert(is_last_of(before, code, i) && before[i].state == KeyState::Pressed);
            }
        }
    }
}

proof fn lemma_filter_contains(held: Seq<u32>, released: u32, code: u32)
    ensures
        held.filter(|held: u32| held != released).contains(code) == (held.contains(code) && code
            != released),
    decreases held.len(),
{
    let keep = |held: u32| held != released;
    broadcast use vstd::seq_lib::group_filter_ensures;

    let kept = held.filter(keep);
    if kept.contains(code) {
        let k = kept.index_of(code);
        assert(keep(kept[k]));
        lemma_filter_from(held, keep, k);
    }
    if held.contains(code) && code != released {
        let k = held.index_of(code);
        assert(keep(held[k]));
    }
}

proof fn lemma_filter_from(s: Seq<u32>, keep: spec_fn(u32) -> bool, i: int)
    requires
        0 <= i < s.filter(keep).len(),
    ensures
        s.contains(s.filter(keep)[i]),
    decreases s.len(),
{
    reveal(Seq::filter);
    if s.len() > 0 {
        let rest = s.drop_last();
        if i < rest.filter(keep).len() {
            lemma_filter_from(rest, keep, i);
            let k = rest.index_of(rest.filter(keep)[i]);
            assert(s[k] == rest[k]);
        } else {
            assert(s[s.len() - 1] == s.filter(keep)[i]);
        }
    }
}

} // verus!
