//! The picture: what is drawn where, in which order, and what is released.

use vstd::prelude::*;

use crate::geometry::{saturate, Point};
use crate::state::{
    cursor_elements, live_cursor, popup_element, shown_roots, stack_elements, window_elements,
    CursorImageStatus, Element, Kiosk, KioskState, Kind, PopupPlacement, Window, WindowScene,
};

verus! {

/// `n`, or the nearest number that fits.
pub open spec fn is_nearest(fit: i32, n: int) -> bool {
    &&& i32::MIN <= n <= i32::MAX ==> fit == n
    &&& n > i32::MAX ==> fit == i32::MAX
    &&& n < i32::MIN ==> fit == i32::MIN
}

/// Points are moved axis by axis, and stop at the largest and smallest numbers.
pub proof fn law_points_move_axis_by_axis(a: Point, b: Point, moved: Point)
    ensures
        call_ensures(Point::plus, (a, b), moved) ==> is_nearest(moved.x, a.x + b.x) && is_nearest(
            moved.y,
            a.y + b.y,
        ),
        call_ensures(Point::minus, (a, b), moved) ==> is_nearest(moved.x, a.x - b.x) && is_nearest(
            moved.y,
            a.y - b.y,
        ),
        call_ensures(Point::origin, (), moved) ==> moved.x == 0 && moved.y == 0,
        is_nearest(a.sum(b).x, a.x + b.x) && is_nearest(a.sum(b).y, a.y + b.y),
        is_nearest(a.difference(b).x, a.x - b.x) && is_nearest(a.difference(b).y, a.y - b.y),
{
}

/// A popup is drawn where its positioner put it: by its offset from where the geometry of
/// its window starts, less where its own geometry starts.
pub proof fn law_where_a_popup_is_drawn(window: Point, popup: PopupPlacement)
    ensures
        ({
            let drawn = popup_element(window, popup);
            let x = saturate(window.x + popup.offset.x) - popup.geometry.x;
            let y = saturate(window.y + popup.offset.y) - popup.geometry.y;
            &&& drawn.surface == popup.surface
            &&& drawn.kind == Kind::Unspecified
            &&& is_nearest(drawn.location.x, x)
            &&& is_nearest(drawn.location.y, y)
        }),
{
}

/// A window is drawn at the origin, below its popups, which keep their order.
pub proof fn law_a_window_is_drawn_below_its_popups(surface: u64, scene: WindowScene)
    ensures
        ({
            let drawn = window_elements(surface, scene);
            let popups = scene.popups@;
            &&& drawn.len() == popups.len() + 1
            &&& forall|i: int|
                0 <= i < popups.len() ==> #[trigger] drawn[i] == popup_element(
                    scene.geometry,
                    popups[i],
                )
            &&& drawn[popups.len() as int].surface == surface
            &&& drawn[popups.len() as int].location.x == 0
            &&& drawn[popups.len() as int].location.y == 0
            &&& drawn[popups.len() as int].kind == Kind::Unspecified
        }),
{
}

/// Opening a window on top of the stack draws it above everything else, and leaves what
/// is below as it was.
pub proof fn law_what_is_on_top_is_drawn_above(
    windows: Seq<Window>,
    scenes: Seq<WindowScene>,
    top: Window,
    scene: WindowScene,
)
    requires
        windows.len() == scenes.len(),
    ensures
        stack_elements(
            windows.push(top),
            scenes.push(scene),
            (windows.len() + 1) as nat,
        ) == window_elements(top.surface, scene) + stack_elements(windows, scenes, windows.len()),
        stack_elements(windows, scenes, 0) == Seq::<Element>::empty(),
{
    let more = windows.push(top);
    let shown = scenes.push(scene);
    assert(more[windows.len() as int] == top && shown[windows.len() as int] == scene);
    lemma_stack_depends_on_what_is_below(more, shown, windows, scenes, windows.len());
}

proof fn lemma_stack_depends_on_what_is_below(
    more: Seq<Window>,
    shown: Seq<WindowScene>,
    windows: Seq<Window>,
    scenes: Seq<WindowScene>,
    n: nat,
)
    requires
        n <= windows.len() <= more.len(),
        n <= scenes.len() <= shown.len(),
        forall|i: int| 0 <= i < windows.len() ==> #[trigger] more[i] == windows[i],
        forall|i: int| 0 <= i < scenes.len() ==> #[trigger] shown[i] == scenes[i],
    ensures
        stack_elements(more, shown, n) == stack_elements(windows, scenes, n),
    decreases n,
{
    if n > 0 {
        lemma_stack_depends_on_what_is_below(more, shown, windows, scenes, (n - 1) as nat);
        assert(more[n - 1] == windows[n - 1] && shown[n - 1] == scenes[n - 1]);
    }
}

/// A cursor is drawn exactly if there is a pointer and the client gave a surface for it,
/// with its hotspot where the pointer is.
pub proof fn law_when_a_cursor_is_drawn(
    has_pointer: bool,
    cursor: CursorImageStatus,
    pointer: Point,
    hotspot: Point,
)
    ensures
        ({
            let drawn = cursor_elements(has_pointer, cursor, pointer, hotspot);
            match cursor {
                CursorImageStatus::Surface(surface) if has_pointer => {
                    &&& drawn.len() == 1
                    &&& drawn[0].surface == surface
                    &&& drawn[0].kind == Kind::Cursor
                    &&& is_nearest(drawn[0].location.x, pointer.x - hotspot.x)
                    &&& is_nearest(drawn[0].location.y, pointer.y - hotspot.y)
                },
                _ => drawn.len() == 0,
            }
        }),
{
}

/// Is `after` the cursor `before` once it is known whether its surface lives: nothing but
/// a surface that is gone is dropped?
pub open spec fn drops_the_dead(
    before: CursorImageStatus,
    alive: bool,
    after: CursorImageStatus,
) -> bool {
    match before {
        CursorImageStatus::Surface(_) => if alive {
            after == before
        } else {
            after == CursorImageStatus::Named
        },
        _ => after == before,
    }
}

/// The picture is the cursor above the windows, and each call drops a cursor that is gone
/// and touches nothing else.
pub proof fn law_the_cursor_is_above_the_windows()
    ensures
        forall|
            kiosk: &mut Kiosk,
            alive: bool,
            hotspot: Point,
            pointer: Point,
            scenes: &Vec<WindowScene>,
            elements: Vec<Element>,
        | #[trigger]
            call_ensures(
                Kiosk::render_elements,
                (kiosk, alive, hotspot, pointer, scenes),
                elements,
            ) ==> {
                &&& elements@ == cursor_elements(
                    (*kiosk)@.pointer,
                    final(kiosk)@.cursor,
                    pointer,
                    hotspot,
                ) + stack_elements((*kiosk)@.windows, scenes@, scenes@.len())
                &&& drops_the_dead((*kiosk)@.cursor, alive, final(kiosk)@.cursor)
                &&& final(kiosk)@ == (KioskState { cursor: final(kiosk)@.cursor, ..(*kiosk)@ })
            },
        forall|kiosk: &mut Kiosk, alive: bool, done: ()| #[trigger]
            call_ensures(Kiosk::drop_dead_cursor, (kiosk, alive), done) ==> {
                &&& drops_the_dead((*kiosk)@.cursor, alive, final(kiosk)@.cursor)
                &&& final(kiosk)@ == (KioskState { cursor: final(kiosk)@.cursor, ..(*kiosk)@ })
            },
{
}

/// Are `roots` the surfaces of the windows, in order, and then that of the cursor if it
/// has one?
pub open spec fn lists_what_is_shown(
    windows: Seq<Window>,
    cursor: CursorImageStatus,
    roots: Seq<u64>,
) -> bool {
    let n = windows.len();
    &&& forall|i: int| 0 <= i < n ==> roots.len() > i && #[trigger] roots[i] == windows[i].surface
    &&& match cursor {
        CursorImageStatus::Surface(surface) => roots.len() == n + 1 && roots[n as int] == surface,
        _ => roots.len() == n,
    }
}

/// Scan-out is recorded for, and frames are released to, every window and the live
/// cursor, and nobody else.
pub proof fn law_everything_shown_is_released()
    ensures
        forall|kiosk: &mut Kiosk, alive: bool, roots: Vec<u64>| #[trigger]
            call_ensures(Kiosk::update_scanout_state, (kiosk, alive), roots) ==> {
                &&& lists_what_is_shown(final(kiosk)@.windows, final(kiosk)@.cursor, roots@)
                &&& drops_the_dead((*kiosk)@.cursor, alive, final(kiosk)@.cursor)
                &&& final(kiosk)@ == (KioskState { cursor: final(kiosk)@.cursor, ..(*kiosk)@ })
            },
        forall|kiosk: &mut Kiosk, alive: bool, roots: Vec<u64>| #[trigger]
            call_ensures(Kiosk::send_frames, (kiosk, alive), roots) ==> {
                &&& lists_what_is_shown(final(kiosk)@.windows, final(kiosk)@.cursor, roots@)
                &&& drops_the_dead((*kiosk)@.cursor, alive, final(kiosk)@.cursor)
                &&& final(kiosk)@ == (KioskState { cursor: final(kiosk)@.cursor, ..(*kiosk)@ })
            },
        forall|windows: Seq<Window>, cursor: CursorImageStatus| #[trigger]
            lists_what_is_shown(windows, cursor, shown_roots(windows, cursor)),
        forall|cursor: CursorImageStatus, alive: bool| #[trigger]
            drops_the_dead(cursor, alive, live_cursor(cursor, alive)),
{
}

} // verus!
