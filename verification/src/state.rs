//! The single shared state type.
//!
//! Everything the compositor decides from lives on [`Kiosk`]; the protocol objects
//! and the GPU live with whoever carries out what it decides. Surfaces are known
//! here by number.
//!
//! There is deliberately no layout: with exactly one fullscreen window there is
//! nothing to lay out, so the render path collects elements from the window
//! stack at the origin.

use vstd::prelude::*;

use crate::backend::drm::DrmBackend;
use crate::cli::Binding;
use crate::frames::{FramePhase, FrameState, latched};
use crate::geometry::{Point, Rectangle, Size};
use crate::run::Capabilities;

verus! {

/// How the subpixels of a display lie.
#[derive(Debug, Clone, Copy, PartialEq, Eq, Structural)]
pub enum Subpixel {
    Unknown,
    NoGeometry,
    HorizontalRgb,
    HorizontalBgr,
    VerticalRgb,
    VerticalBgr,
}

/// How the picture is turned on the display, counter-clockwise, after it was flipped.
#[derive(Debug, Clone, Copy, PartialEq, Eq, Structural)]
pub enum Transform {
    Normal,
    Rotated90,
    Rotated180,
    Rotated270,
    Flipped,
    Flipped90,
    Flipped180,
    Flipped270,
}

/// What clients are told about the output.
#[derive(Debug, Clone)]
pub struct Output {
    /// The name of its connector.
    pub name: String,
    pub make: String,
    pub model: String,
    /// The extent of the display in millimetres.
    pub physical_size: Size,
    pub subpixel: Subpixel,
    /// The extent of the current mode, if there is one.
    pub mode: Option<Size>,
    pub transform: Transform,
    pub scale: i32,
    pub location: Point,
}

/// The extent of an output in that mode.
pub open spec fn extent(mode: Option<Size>) -> Size {
    match mode {
        Some(size) => size,
        None => Size { w: 0, h: 0 },
    }
}

/// The output's logical size, or `(0, 0)` if it has no mode.
///
/// A modeless output should be impossible — one is never built without a mode — and
/// a zero size in a configure means "client picks its own size", which is exactly
/// the escape a kiosk must not offer.
pub fn size_of(output: &Output) -> (size: Size)
    ensures
        size == extent(output.mode),
{
    match output.mode {
        Some(size) => size,
        None => Size { w: 0, h: 0 },
    }
}

/// The output rect in logical coordinates, anchored at the origin.
pub fn rect_of(output: &Output) -> (rect: Rectangle)
    ensures
        rect == (Rectangle { loc: Point::zero(), size: extent(output.mode) }),
{
    Rectangle { loc: Point::origin(), size: size_of(output) }
}

/// Who draws a window's decorations.
#[derive(Debug, Clone, Copy, PartialEq, Eq, Structural)]
pub enum DecorationMode {
    ClientSide,
    ServerSide,
}

/// The window-management capabilities that a toplevel is told of.
#[derive(Debug, Clone, Copy, PartialEq, Eq, Structural)]
pub struct WmCapabilities {
    pub window_menu: bool,
    pub maximize: bool,
    pub fullscreen: bool,
    pub minimize: bool,
}

/// The state that a toplevel is configured with.
#[derive(Debug, Clone, Copy, PartialEq, Eq, Structural)]
pub struct ToplevelState {
    pub fullscreen: bool,
    pub maximized: bool,
    pub resizing: bool,
    pub activated: bool,
    pub size: Option<Size>,
    pub bounds: Option<Size>,
    pub capabilities: WmCapabilities,
    pub decoration_mode: Option<DecorationMode>,
}

impl ToplevelState {
    /// The state of a toplevel that was not configured yet.
    pub open spec fn unconfigured() -> ToplevelState {
        ToplevelState {
            fullscreen: false,
            maximized: false,
            resizing: false,
            activated: false,
            size: None,
            bounds: None,
            capabilities: WmCapabilities {
                window_menu: false,
                maximize: false,
                fullscreen: false,
                minimize: false,
            },
            decoration_mode: None,
        }
    }

    /// The state with its geometry put into the only one this compositor offers:
    /// fullscreen at that size.
    pub open spec fn fullscreen_at(self, size: Size) -> ToplevelState {
        ToplevelState {
            fullscreen: true,
            maximized: false,
            resizing: false,
            size: Some(size),
            bounds: Some(size),
            capabilities: WmCapabilities {
                window_menu: false,
                maximize: false,
                fullscreen: false,
                minimize: false,
            },
            ..self
        }
    }

    /// Is the toplevel confined to that size?
    pub open spec fn confined_to(self, size: Size) -> bool {
        self == self.fullscreen_at(size)
    }

    /// The state of a toplevel that was not configured yet.
    pub fn new() -> (state: ToplevelState)
        ensures
            state == ToplevelState::unconfigured(),
    {
        ToplevelState {
            fullscreen: false,
            maximized: false,
            resizing: false,
            activated: false,
            size: None,
            bounds: None,
            capabilities: WmCapabilities {
                window_menu: false,
                maximize: false,
                fullscreen: false,
                minimize: false,
            },
            decoration_mode: None,
        }
    }
}

/// A toplevel window: its root surface and the state it is configured with.
#[derive(Debug, Clone, Copy, PartialEq, Eq, Structural)]
pub struct Window {
    pub surface: u64,
    pub state: ToplevelState,
}

/// What the client asked the pointer to look like.
#[derive(Debug, Clone, Copy, PartialEq, Eq, Structural)]
pub enum CursorImageStatus {
    /// Nothing is shown.
    Hidden,
    /// A cursor of a theme. None is loaded, so nothing is drawn.
    Named,
    /// A surface of the client.
    Surface(u64),
}

/// The compositor's state.
#[derive(Debug)]
pub struct Kiosk {
    // Input.
    /// The devices advertised on the seat at startup. Capabilities are fixed for the
    /// session, so a pointer plugged in later does not appear here. The cursor is
    /// drawn only where there is a pointer.
    pub keyboard: bool,
    pub pointer: bool,
    pub touch: bool,
    pub cursor_status: CursorImageStatus,
    pub exit_key: Option<Binding>,
    /// Keys the client currently believes are held, none of them twice. Needed because
    /// the release of a `Ctrl+Alt+F<n>` chord is delivered to the incoming VT, not to
    /// us.
    pub pressed_keys: Vec<u32>,
    /// The most recent *keyboard* event timestamp. Pointer and touch events do not
    /// update it — only key events need it, so that a synthetic release is never
    /// stamped earlier than the press it releases.
    pub last_input_time: u32,
    // Shell.
    /// Toplevel stack; the last entry is on top and holds focus.
    pub windows: Vec<Window>,
    /// The surfaces of the tracked popups, each once, in the order they were tracked.
    pub popups: Vec<u64>,
    // Output and rendering.
    pub output: Output,
    pub backend: DrmBackend,
    /// What the frame loop waits for.
    pub phase: FramePhase,
    /// True while a retry timer is pending, so a burst of failures arms one timer.
    pub retry_armed: bool,
    /// Frames dropped in a row. Reset by any successful render; used to escalate a
    /// permanently-failing display instead of retrying forever.
    pub consecutive_drops: u32,
    /// Flips in a row whose submission could not be recorded. A budget of its own: the
    /// render that follows each of them succeeds and resets the other one.
    pub submit_failures: u32,
    /// Set when the compositor should shut down, and with what status.
    pub exit_code: Option<i32>,
}

/// What a [`Kiosk`] stands for.
#[verifier::ext_equal]
pub struct KioskState {
    pub keyboard: bool,
    pub pointer: bool,
    pub touch: bool,
    pub cursor: CursorImageStatus,
    pub exit_key: Option<Binding>,
    pub pressed_keys: Seq<u32>,
    pub last_input_time: u32,
    pub windows: Seq<Window>,
    pub popups: Seq<u64>,
    pub output: Output,
    pub frames: FrameState,
}

impl View for Kiosk {
    type V = KioskState;

    open spec fn view(&self) -> KioskState {
        KioskState {
            keyboard: self.keyboard,
            pointer: self.pointer,
            touch: self.touch,
            cursor: self.cursor_status,
            exit_key: self.exit_key,
            pressed_keys: self.pressed_keys@,
            last_input_time: self.last_input_time,
            windows: self.windows@,
            popups: self.popups@,
            output: self.output,
            frames: FrameState {
                pacer: self.backend.pacer@,
                phase: self.phase,
                retry_armed: self.retry_armed,
                drops: self.consecutive_drops as nat,
                submit_failures: self.submit_failures as nat,
                exit_code: self.exit_code,
            },
        }
    }
}

/// The surface of the top window, which holds keyboard focus.
pub open spec fn top_surface(windows: Seq<Window>) -> Option<u64> {
    if windows.len() > 0 {
        Some(windows.last().surface)
    } else {
        None
    }
}

/// `window`, activated if it is the one that holds focus.
pub open spec fn with_focus(window: Window, focus: Option<u64>) -> Window {
    Window {
        state: ToplevelState { activated: focus == Some(window.surface), ..window.state },
        ..window
    }
}

/// The windows with the top one activated and the rest not.
pub open spec fn activated(windows: Seq<Window>) -> Seq<Window> {
    windows.map_values(|window: Window| with_focus(window, top_surface(windows)))
}

/// The windows whose activation has to change, as they are afterwards.
pub open spec fn reactivated(windows: Seq<Window>) -> Seq<Window> {
    windows.filter_map(
        |window: Window|
            if with_focus(window, top_surface(windows)) != window {
                Some(with_focus(window, top_surface(windows)))
            } else {
                None
            },
    )
}

/// Where the window of that surface is in the stack.
pub open spec fn window_at(windows: Seq<Window>, surface: u64) -> Option<int> {
    crate::seqs::find(windows, |window: Window| window.surface == surface)
}

impl KioskState {
    /// The extent of every toplevel.
    pub open spec fn size(self) -> Size {
        extent(self.output.mode)
    }

    /// No more windows and popups than may be tracked, no popup tracked twice, every
    /// window confined to the output, no key held twice, and a frame loop that is well
    /// formed.
    pub open spec fn well_formed(self) -> bool {
        &&& self.windows.len() <= crate::handlers::xdg_shell::MAX_TOPLEVELS
        &&& self.popups.len() <= crate::handlers::xdg_shell::MAX_POPUPS
        &&& self.popups.no_duplicates()
        &&& forall|i: int|
            0 <= i < self.windows.len() ==> (#[trigger] self.windows[i]).state.confined_to(
                self.size(),
            )
        &&& self.pressed_keys.no_duplicates()
        &&& self.frames.well_formed()
    }

    /// After a request to exit with `code`.
    pub open spec fn exiting(self, code: i32) -> KioskState {
        KioskState { frames: self.frames.exiting(code), ..self }
    }
}

/// What a change of focus asks for.
#[derive(Debug)]
pub struct Refocus {
    /// The windows to send a configure to, in the state they now have.
    pub configure: Vec<Window>,
    /// The surface that keyboard focus goes to.
    pub focus: Option<u64>,
}

/// A kind of render element.
#[derive(Debug, Clone, Copy, PartialEq, Eq, Structural)]
pub enum Kind {
    Cursor,
    Unspecified,
}

/// A surface tree to draw, and where. Windows, popups and the cursor are all surface
/// trees, so one element type covers every layer.
#[derive(Debug, Clone, Copy, PartialEq, Eq, Structural)]
pub struct Element {
    pub surface: u64,
    pub location: Point,
    pub kind: Kind,
}

/// A popup of a window and where its positioner put it.
#[derive(Debug, Clone, Copy, PartialEq, Eq, Structural)]
pub struct PopupPlacement {
    pub surface: u64,
    /// Relative to the window geometry of the window it belongs to.
    pub offset: Point,
    /// The origin of the popup's own window geometry.
    pub geometry: Point,
}

/// What has to be known of a window to draw it.
#[derive(Debug)]
pub struct WindowScene {
    /// The origin of its window geometry.
    pub geometry: Point,
    /// Its popups, as its popup tree lists them.
    pub popups: Vec<PopupPlacement>,
}

/// The element of a popup. The window-geometry origin term matters: positioner
/// offsets are relative to the parent's window geometry, and hit tests use the same
/// expression, so dropping it draws popups away from where clicks land.
pub open spec fn popup_element(window: Point, popup: PopupPlacement) -> Element {
    Element {
        surface: popup.surface,
        location: window.sum(popup.offset).difference(popup.geometry),
        kind: Kind::Unspecified,
    }
}

/// The elements of a window: its popups above it, and itself at the origin.
pub open spec fn window_elements(surface: u64, scene: WindowScene) -> Seq<Element> {
    scene.popups@.map_values(|popup: PopupPlacement| popup_element(scene.geometry, popup)).push(
        Element { surface, location: Point::zero(), kind: Kind::Unspecified },
    )
}

/// The elements of the lowest `n` windows, from top to bottom.
pub open spec fn stack_elements(windows: Seq<Window>, scenes: Seq<WindowScene>, n: nat) -> Seq<
    Element,
>
    decreases n,
{
    if n == 0 {
        Seq::empty()
    } else {
        window_elements(windows[n - 1].surface, scenes[n - 1]) + stack_elements(
            windows,
            scenes,
            (n - 1) as nat,
        )
    }
}

/// The cursor once a surface that is gone has been dropped from it.
pub open spec fn live_cursor(cursor: CursorImageStatus, alive: bool) -> CursorImageStatus {
    if cursor is Surface && !alive {
        CursorImageStatus::Named
    } else {
        cursor
    }
}

/// The element of the cursor, if one is drawn: only a surface of the client is, and
/// only where there is a pointer.
pub open spec fn cursor_elements(
    has_pointer: bool,
    cursor: CursorImageStatus,
    pointer: Point,
    hotspot: Point,
) -> Seq<Element> {
    match cursor {
        CursorImageStatus::Surface(surface) => if has_pointer {
            seq![
                Element { surface, location: pointer.difference(hotspot), kind: Kind::Cursor },
            ]
        } else {
            Seq::empty()
        },
        _ => Seq::empty(),
    }
}

/// The root surfaces on the screen: the windows from bottom to top, then the cursor.
pub open spec fn shown_roots(windows: Seq<Window>, cursor: CursorImageStatus) -> Seq<u64> {
    let roots = windows.map_values(|window: Window| window.surface);
    match cursor {
        CursorImageStatus::Surface(surface) => roots.push(surface),
        _ => roots,
    }
}

/// First status wins.
///
/// The child's propagated status must not be overwritten by a later shutdown —
/// otherwise a `--exit-key` press during teardown would turn a child's `exit 42`
/// into a `0`, breaking the promise to exit with the application's own status.
pub fn latch_exit_code(current: &mut Option<i32>, code: i32)
    ensures
        *final(current) == latched(*old(current), code),
{
    if current.is_none() {
        *current = Some(code);
    }
}

impl Kiosk {
    /// A compositor with nothing on its screen yet, owing its first frame.
    pub fn new(
        output: Output,
        backend: DrmBackend,
        exit_key: Option<Binding>,
        keyboard: bool,
        capabilities: Capabilities,
    ) -> (kiosk: Kiosk)
        ensures
            kiosk@ == (KioskState {
                keyboard,
                pointer: capabilities.pointer,
                touch: capabilities.touch,
                cursor: CursorImageStatus::Named,
                exit_key,
                pressed_keys: Seq::empty(),
                last_input_time: 0,
                windows: Seq::empty(),
                popups: Seq::empty(),
                output,
                frames: FrameState { pacer: backend.pacer@, ..FrameState::initial() },
            }),
            kiosk@.well_formed(),
    {
        Kiosk {
            keyboard,
            pointer: capabilities.pointer,
            touch: capabilities.touch,
            cursor_status: CursorImageStatus::Named,
            exit_key,
            pressed_keys: Vec::new(),
            last_input_time: 0,
            windows: Vec::new(),
            popups: Vec::new(),
            output,
            backend,
            phase: FramePhase::Idle,
            retry_armed: false,
            consecutive_drops: 0,
            submit_failures: 0,
            exit_code: None,
        }
    }

    /// The output's logical size, which is also every toplevel's size.
    pub fn output_size(&self) -> (size: Size)
        ensures
            size == self@.size(),
    {
        size_of(&self.output)
    }

    /// The output rect in logical coordinates, used to clamp the pointer and
    /// constrain popup positioners.
    pub fn output_rect(&self) -> (rect: Rectangle)
        ensures
            rect == (Rectangle { loc: Point::zero(), size: self@.size() }),
    {
        rect_of(&self.output)
    }

    /// The focused window, i.e. the top of the stack.
    pub fn top_window(&self) -> (top: Option<&Window>)
        ensures
            match top {
                Some(window) => self@.windows.len() > 0 && *window == self@.windows.last(),
                None => self@.windows.len() == 0,
            },
    {
        let n: usize = self.windows.len();
        if n > 0 {
            Some(&self.windows[n - 1])
        } else {
            None
        }
    }

    /// Where the window whose *toplevel* surface is `surface` is in the stack.
    pub fn window_index(&self, surface: u64) -> (found: Option<usize>)
        ensures
            match found {
                Some(i) => window_at(self@.windows, surface) == Some(i as int) && i
                    < self@.windows.len() && self@.windows[i as int].surface == surface,
                None => window_at(self@.windows, surface) is None,
            },
    {
        let ghost wanted = |window: Window| window.surface == surface;
        for i in 0..self.windows.len()
            invariant
                wanted == (|window: Window| window.surface == surface),
                forall|j: int| 0 <= j < i ==> !wanted(#[trigger] self@.windows[j]),
        {
            if self.windows[i].surface == surface {
                proof {
                    crate::seqs::lemma_found(self@.windows, wanted, i as int);
                }
                return Some(i);
            }
        }
        proof {
            crate::seqs::lemma_not_found(self@.windows, wanted);
        }
        None
    }

    /// Find the window whose *toplevel* surface is `surface`.
    ///
    /// Callers must pass a root surface. This deliberately does not walk trees: a
    /// subsurface or popup never resolves here.
    pub fn window_for_surface(&self, surface: u64) -> (found: Option<&Window>)
        ensures
            match found {
                Some(window) => window_at(self@.windows, surface) matches Some(i) && *window
                    == self@.windows[i],
                None => window_at(self@.windows, surface) is None,
            },
    {
        match self.window_index(surface) {
            Some(i) => Some(&self.windows[i]),
            None => None,
        }
    }

    /// Give keyboard focus to the top of the stack.
    ///
    /// Marks the newly focused toplevel activated and the rest not, so clients draw
    /// the right focus styling. An empty stack clears focus but does *not* exit: the
    /// compositor's lifetime is the child process's.
    pub fn refocus(&mut self) -> (refocus: Refocus)
        ensures
            final(self)@ == (KioskState {
                windows: activated(old(self)@.windows),
                ..old(self)@
            }),
            refocus.configure@ == reactivated(old(self)@.windows),
            refocus.focus == top_surface(old(self)@.windows),
            old(self)@.well_formed() ==> final(self)@.well_formed(),
    {
        let ghost before = self@.windows;
        let ghost focus = top_surface(before);
        let ghost change = |window: Window|
            if with_focus(window, focus) != window {
                Some(with_focus(window, focus))
            } else {
                None
            };
        let target: Option<u64> = match self.top_window() {
            Some(window) => Some(window.surface),
            None => None,
        };
        let mut configure: Vec<Window> = Vec::new();
        let n: usize = self.windows.len();
        assert(before.take(0).filter_map(change) == Seq::<Window>::empty()) by {
            reveal(Seq::filter_map);
        }
        for i in 0..n
            invariant
                n == self.windows.len(),
                n == before.len(),
                target == focus,
                change == (|window: Window|
                    if with_focus(window, focus) != window {
                        Some(with_focus(window, focus))
                    } else {
                        None
                    }),
                self@ == (KioskState { windows: self@.windows, ..old(self)@ }),
                forall|j: int| i <= j < n ==> self@.windows[j] == before[j],
                forall|j: int|
                    0 <= j < i ==> #[trigger] self@.windows[j] == with_focus(before[j], focus),
                configure@ == before.take(i as int).filter_map(change),
        {
            proof {
                before.lemma_filter_map_take_succ(change, i as int);
            }
            let mut window = self.windows[i];
            let active = match target {
                Some(surface) => surface == window.surface,
                None => false,
            };
            let was = window.state.activated;
            window.state.activated = active;
            assert(window == with_focus(before[i as int], focus));
            self.windows.set(i, window);
            if was != active {
                configure.push(window);
            }
        }
        assert(before.take(n as int) == before);
        assert(self@.windows == activated(before));
        Refocus { configure, focus: target }
    }

    /// Collect render elements front to back: cursor, then the window stack from
    /// top to bottom, each window below its popups.
    ///
    /// `cursor_alive` says whether the cursor's surface still exists, `pointer` is the
    /// pointer's position rounded to a pixel, and `scenes` belongs to the windows one
    /// for one.
    ///
    /// Only a client-provided cursor surface is drawn. A client that asks for a named
    /// cursor shape instead gets none, because rendering one would mean loading a
    /// cursor theme; in practice toolkits load the theme themselves and hand us a
    /// surface.
    pub fn render_elements(
        &mut self,
        cursor_alive: bool,
        hotspot: Point,
        pointer: Point,
        scenes: &Vec<WindowScene>,
    ) -> (elements: Vec<Element>)
        requires
            scenes@.len() == old(self)@.windows.len(),
        ensures
            final(self)@ == (KioskState {
                cursor: live_cursor(old(self)@.cursor, cursor_alive),
                ..old(self)@
            }),
            elements@ == cursor_elements(
                old(self)@.pointer,
                final(self)@.cursor,
                pointer,
                hotspot,
            ) + stack_elements(old(self)@.windows, scenes@, scenes@.len()),
    {
        self.drop_dead_cursor(cursor_alive);
        let mut elements: Vec<Element> = Vec::new();
        if self.pointer {
            if let CursorImageStatus::Surface(surface) = self.cursor_status {
                elements.push(
                    Element { surface, location: pointer.minus(hotspot), kind: Kind::Cursor },
                );
            }
        }
        let ghost cursor = elements@;
        let ghost windows = self@.windows;
        assert(cursor == cursor_elements(self@.pointer, self@.cursor, pointer, hotspot));
        let mut n: usize = self.windows.len();
        while n > 0
            invariant
                n <= windows.len(),
                windows == self.windows@,
                windows.len() == scenes.len(),
                elements@ + stack_elements(windows, scenes@, n as nat) == cursor + stack_elements(
                    windows,
                    scenes@,
                    scenes@.len(),
                ),
            decreases n,
        {
            n = n - 1;
            let scene = &scenes[n];
            let surface: u64 = self.windows[n].surface;
            let ghost before = elements@;
            let ghost above = scene.popups@.map_values(
                |popup: PopupPlacement| popup_element(scene.geometry, popup),
            );
            for i in 0..scene.popups.len()
                invariant
                    above == scene.popups@.map_values(
                        |popup: PopupPlacement| popup_element(scene.geometry, popup),
                    ),
                    elements@ == before + above.take(i as int),
            {
                let popup = scene.popups[i];
                elements.push(
                    Element {
                        surface: popup.surface,
                        location: scene.geometry.plus(popup.offset).minus(popup.geometry),
                        kind: Kind::Unspecified,
                    },
                );
                assert(above.take(i + 1) == above.take(i as int).push(above[i as int]));
            }
            assert(above.take(scene.popups.len() as int) == above);
            elements.push(
                Element { surface, location: Point::origin(), kind: Kind::Unspecified },
            );
            assert(elements@ == before + window_elements(surface, *scene));
            assert(elements@ + stack_elements(windows, scenes@, n as nat) == before
                + stack_elements(windows, scenes@, (n + 1) as nat));
        }
        assert(elements@ == elements@ + stack_elements(windows, scenes@, 0));
        elements
    }

    /// The root surfaces on the screen.
    fn shown(&self) -> (roots: Vec<u64>)
        ensures
            roots@ == shown_roots(self@.windows, self@.cursor),
    {
        let mut roots: Vec<u64> = Vec::new();
        let ghost all = self@.windows.map_values(|window: Window| window.surface);
        for i in 0..self.windows.len()
            invariant
                all == self@.windows.map_values(|window: Window| window.surface),
                roots@ == all.take(i as int),
        {
            roots.push(self.windows[i].surface);
            assert(all.take(i + 1) == all.take(i as int).push(all[i as int]));
        }
        assert(all.take(self.windows.len() as int) == all);
        if let CursorImageStatus::Surface(surface) = self.cursor_status {
            roots.push(surface);
        }
        roots
    }

    /// The surfaces to record the scan-out of, so that [`Self::send_frames`] can
    /// throttle correctly. Each stands for its whole tree, and a window's for its
    /// popups too.
    pub fn update_scanout_state(&mut self, cursor_alive: bool) -> (roots: Vec<u64>)
        ensures
            final(self)@ == (KioskState {
                cursor: live_cursor(old(self)@.cursor, cursor_alive),
                ..old(self)@
            }),
            roots@ == shown_roots(final(self)@.windows, final(self)@.cursor),
    {
        // Guarded here rather than relying on `render_elements` having run first, so
        // that the safety does not depend on call ordering.
        self.drop_dead_cursor(cursor_alive);
        self.shown()
    }

    /// The surfaces to release for their next frame.
    pub fn send_frames(&mut self, cursor_alive: bool) -> (roots: Vec<u64>)
        ensures
            final(self)@ == (KioskState {
                cursor: live_cursor(old(self)@.cursor, cursor_alive),
                ..old(self)@
            }),
            roots@ == shown_roots(final(self)@.windows, final(self)@.cursor),
    {
        self.drop_dead_cursor(cursor_alive);
        self.shown()
    }

    /// Request shutdown with the given exit status.
    pub fn shutdown(&mut self, code: i32)
        ensures
            final(self)@ == old(self)@.exiting(code),
    {
        latch_exit_code(&mut self.exit_code, code);
    }

    /// Drop a dead cursor surface.
    ///
    /// The cursor is a surface the client owns and may destroy at any time, and
    /// reading a destroyed one panics — so a client could kill the compositor by
    /// destroying its cursor surface while the pointer is inside its window.
    pub fn drop_dead_cursor(&mut self, alive: bool)
        ensures
            final(self)@ == (KioskState {
                cursor: live_cursor(old(self)@.cursor, alive),
                ..old(self)@
            }),
    {
        if let CursorImageStatus::Surface(_) = self.cursor_status {
            if !alive {
                self.cursor_status = CursorImageStatus::Named;
            }
        }
    }
}

/// Once a surface that is gone was dropped, nothing that is drawn or released is it:
/// every surface listed is a window's or a live cursor.
pub proof fn law_no_dead_cursor_is_shown(windows: Seq<Window>, cursor: CursorImageStatus)
    ensures
        shown_roots(windows, live_cursor(cursor, false)) == windows.map_values(
            |window: Window| window.surface,
        ),
{
}

/// After a change of focus, exactly the top window is activated, if no two windows
/// share a surface.
pub proof fn law_exactly_the_top_is_activated(windows: Seq<Window>, i: int)
    requires
        0 <= i < windows.len(),
        forall|a: int, b: int|
            0 <= a < b < windows.len() ==> (#[trigger] windows[a]).surface != (
            #[trigger] windows[b]).surface,
    ensures
        activated(windows)[i].state.activated == (i == windows.len() - 1),
{
}

/// Changing focus a second time changes nothing and sends nothing.
pub proof fn law_refocus_settles(windows: Seq<Window>)
    ensures
        activated(activated(windows)) == activated(windows),
        reactivated(activated(windows)) == Seq::<Window>::empty(),
{
    let once = activated(windows);
    let focus = top_surface(windows);
    assert(top_surface(once) == focus) by {
        if windows.len() > 0 {
            assert(once.last() == with_focus(windows.last(), focus));
        }
    }
    assert forall|i: int| 0 <= i < once.len() implies with_focus(#[trigger] once[i], focus)
        == once[i] by {
        assert(once[i] == with_focus(windows[i], focus));
    }
    assert(activated(once) == once);
    let change = |window: Window|
        if with_focus(window, focus) != window {
            Some(with_focus(window, focus))
        } else {
            None
        };
    lemma_filter_map_of_none(once, change);
}

proof fn lemma_filter_map_of_none<A, B>(s: Seq<A>, f: spec_fn(A) -> Option<B>)
    requires
        forall|i: int| 0 <= i < s.len() ==> f(#[trigger] s[i]) is None,
    ensures
        s.filter_map(f) == Seq::<B>::empty(),
    decreases s.len(),
{
    reveal(Seq::filter_map);
    if s.len() > 0 {
        lemma_filter_map_of_none(s.drop_last(), f);
        assert(f(s[s.len() - 1]) is None);
    }
}

} // verus!
