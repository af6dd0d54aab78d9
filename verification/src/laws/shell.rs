//! Windows and popups: the stack, the focus, the one geometry, and who may grab.

use vstd::prelude::*;

use crate::backend::input::{focuses, law_raising_keeps_every_window, Focus, KeyState};
use crate::focus::{root_of, root_surface, FocusTarget};
use crate::frames::{frame_after, frame_step, FrameEvent, FrameStep};
use crate::geometry::{Point, Rectangle, Size};
use crate::handlers::compositor::commit_root;
use crate::handlers::xdg_shell::{
    grab, grab_allowed, nesting_serial, other_than, popup_chain_depth, popup_limits_exceeded, Admission, DeviceGrab, GrabAction,
    GrabAttempt, ProtocolError,
};
use crate::seqs::{lemma_filter_keeps_items, lemma_find};
use crate::state::{
    activated, reactivated, top_surface, window_at, with_focus, DecorationMode, Kiosk, KioskState,
    Refocus, ToplevelState, Window,
};
use crate::text::decimal;

verus! {

/// Do the two differ in their windows at most?
pub open spec fn only_windows_differ(before: KioskState, after: KioskState) -> bool {
    after == (KioskState { windows: after.windows, ..before })
}

/// Do the two differ in their windows and the frame loop at most?
pub open spec fn only_windows_and_frames_differ(before: KioskState, after: KioskState) -> bool {
    after == (KioskState { windows: after.windows, frames: after.frames, ..before })
}

/// Do the two differ in their popups and the frame loop at most?
pub open spec fn only_popups_and_frames_differ(before: KioskState, after: KioskState) -> bool {
    after == (KioskState { popups: after.popups, frames: after.frames, ..before })
}

/// Is the toplevel fullscreen at that size, with no way to be anything else?
pub open spec fn fills(state: ToplevelState, size: Size) -> bool {
    &&& state.fullscreen
    &&& !state.maximized
    &&& !state.resizing
    &&& state.size == Some(size)
    &&& state.bounds == Some(size)
    &&& !state.capabilities.window_menu
    &&& !state.capabilities.maximize
    &&& !state.capabilities.fullscreen
    &&& !state.capabilities.minimize
}

/// Confinement to a size is to be fullscreen at it, and being put there changes neither
/// the activation nor the decorations.
pub proof fn law_confined_is_fullscreen(state: ToplevelState, size: Size)
    ensures
        state.confined_to(size) <==> fills(state, size),
        fills(state.fullscreen_at(size), size),
        state.fullscreen_at(size).activated == state.activated,
        state.fullscreen_at(size).decoration_mode == state.decoration_mode,
{
}

/// Every window of a well-formed kiosk fills the output.
pub proof fn law_every_window_fills_the_output(kiosk: KioskState, i: int)
    requires
        kiosk.well_formed(),
        0 <= i < kiosk.windows.len(),
    ensures
        fills(
            kiosk.windows[i].state,
            match kiosk.output.mode {
                Some(size) => size,
                None => Size { w: 0, h: 0 },
            },
        ),
        kiosk.windows.len() <= 32,
        kiosk.popups.len() <= 64,
        kiosk.popups.no_duplicates(),
        kiosk.pressed_keys.no_duplicates(),
{
    assert(kiosk.windows[i].state.confined_to(kiosk.size()));
}

/// Configuring a toplevel makes it fill the output and leaves the rest of its state.
pub proof fn law_configuring_fills_the_output()
    ensures
        forall|kiosk: &Kiosk, state: &mut ToplevelState, done: ()| #[trigger]
            call_ensures(Kiosk::configure_fullscreen, (kiosk, state), done) ==> {
                &&& fills(*final(state), kiosk@.size())
                &&& final(state).activated == (*state).activated
                &&& final(state).decoration_mode == (*state).decoration_mode
            },
        forall|kiosk: &Kiosk, size: Size| #[trigger]
            call_ensures(Kiosk::output_size, (kiosk,), size) ==> {
                &&& kiosk.output.mode matches Some(mode) ==> size == mode
                &&& kiosk.output.mode is None ==> size.w == 0 && size.h == 0
            },
        forall|kiosk: &Kiosk, rect: Rectangle| #[trigger]
            call_ensures(Kiosk::output_rect, (kiosk,), rect) ==> {
                &&& rect.loc.x == 0 && rect.loc.y == 0
                &&& kiosk.output.mode matches Some(mode) ==> rect.size == mode
            },
{
}

/// The first window of `surface` is the one at `i`.
pub open spec fn is_window_at(windows: Seq<Window>, surface: u64, i: int) -> bool {
    &&& 0 <= i < windows.len()
    &&& windows[i].surface == surface
    &&& forall|j: int| 0 <= j < i ==> (#[trigger] windows[j]).surface != surface
}

/// There is no window of `surface`.
pub open spec fn has_no_window(windows: Seq<Window>, surface: u64) -> bool {
    forall|j: int| 0 <= j < windows.len() ==> (#[trigger] windows[j]).surface != surface
}

proof fn lemma_window_at(windows: Seq<Window>, surface: u64)
    ensures
        match window_at(windows, surface) {
            Some(i) => is_window_at(windows, surface, i),
            None => has_no_window(windows, surface),
        },
{
    lemma_find(windows, |window: Window| window.surface == surface);
}

/// A window is found by its own surface, and by no other.
pub proof fn law_a_window_is_found_by_its_surface(kiosk: &Kiosk, surface: u64)
    ensures
        forall|found: Option<usize>| #[trigger]
            call_ensures(Kiosk::window_index, (kiosk, surface), found) ==> match found {
                Some(i) => is_window_at(kiosk.windows@, surface, i as int),
                None => has_no_window(kiosk.windows@, surface),
            },
        forall|found: Option<&Window>| #[trigger]
            call_ensures(Kiosk::window_for_surface, (kiosk, surface), found) ==> match found {
                Some(window) => exists|i: int| #[trigger]
                    is_window_at(kiosk.windows@, surface, i) && *window == kiosk.windows@[i],
                None => has_no_window(kiosk.windows@, surface),
            },
        forall|root: Option<u64>, window: Option<u64>| #[trigger]
            call_ensures(Kiosk::committed_window, (kiosk, root), window) ==> match window {
                Some(found) => root == Some(found) && !has_no_window(kiosk.windows@, found),
                None => root matches Some(sought) ==> has_no_window(kiosk.windows@, sought),
            },
        forall|top: Option<&Window>| #[trigger]
            call_ensures(Kiosk::top_window, (kiosk,), top) ==> match top {
                Some(window) => kiosk.windows@.len() > 0 && *window
                    == kiosk.windows@[kiosk.windows@.len() - 1],
                None => kiosk.windows@.len() == 0,
            },
{
    lemma_window_at(kiosk.windows@, surface);
    assert forall|root: Option<u64>, window: Option<u64>| #[trigger]
        call_ensures(Kiosk::committed_window, (kiosk, root), window) implies match window {
        Some(found) => root == Some(found) && !has_no_window(kiosk.windows@, found),
        None => root matches Some(sought) ==> has_no_window(kiosk.windows@, sought),
    } by {
        if let Some(sought) = root {
            lemma_window_at(kiosk.windows@, sought);
            if let Some(i) = window_at(kiosk.windows@, sought) {
                assert(kiosk.windows@[i].surface == sought);
            }
        }
    }
}

/// Are `after` the windows of `before`, in the same order, with the top one activated and
/// those of other surfaces not, and nothing else changed about them?
pub open spec fn focus_is_on_top(before: Seq<Window>, after: Seq<Window>) -> bool {
    &&& after.len() == before.len()
    &&& forall|i: int|
        0 <= i < before.len() ==> {
            let top = before[before.len() - 1].surface;
            &&& (#[trigger] after[i]).surface == before[i].surface
            &&& after[i].state.activated == (before[i].surface == top)
            &&& after[i].state == (ToplevelState {
                activated: after[i].state.activated,
                ..before[i].state
            })
        }
}

/// Are `places` those of the windows whose activation changed from `before` to `after`,
/// from the bottom up, each once?
pub open spec fn are_the_changed(
    before: Seq<Window>,
    after: Seq<Window>,
    places: Seq<int>,
) -> bool {
    &&& forall|a: int, b: int|
        0 <= a < b < places.len() ==> #[trigger] places[a] < #[trigger] places[b]
    &&& forall|i: int| #[trigger]
        places.contains(i) <==> 0 <= i < after.len() && before[i].state.activated
            != after[i].state.activated
}

/// Does `refocus` configure exactly the windows whose activation changed from `before` to
/// `after`, as they are now and from the bottom up, and give focus to the top one?
pub open spec fn tells_who_changed(
    before: Seq<Window>,
    after: Seq<Window>,
    refocus: Refocus,
) -> bool {
    &&& refocus.focus == (if before.len() > 0 {
        Some(before[before.len() - 1].surface)
    } else {
        None
    })
    &&& exists|places: Seq<int>|
        {
            &&& #[trigger] are_the_changed(before, after, places)
            &&& refocus.configure@.len() == places.len()
            &&& forall|k: int|
                0 <= k < places.len() ==> #[trigger] refocus.configure@[k] == after[places[k]]
        }
}

proof fn lemma_focus(before: Seq<Window>)
    ensures
        focus_is_on_top(before, activated(before)),
        top_surface(before) == (if before.len() > 0 {
            Some(before[before.len() - 1].surface)
        } else {
            None
        }),
        exists|places: Seq<int>|
            {
                &&& #[trigger] are_the_changed(before, activated(before), places)
                &&& reactivated(before).len() == places.len()
                &&& forall|k: int|
                    0 <= k < places.len() ==> #[trigger] reactivated(before)[k] == activated(
                        before,
                    )[places[k]]
            },
{
    let focus = top_surface(before);
    let change = |window: Window|
        if with_focus(window, focus) != window {
            Some(with_focus(window, focus))
        } else {
            None
        };
    let after = activated(before);
    let places = lemma_where_filter_map_takes_from(before, change);
    assert(reactivated(before) == before.filter_map(change));
    assert forall|i: int| #[trigger]
        places.contains(i) <==> 0 <= i < after.len() && before[i].state.activated
            != after[i].state.activated by {
        if 0 <= i < before.len() {
            assert(after[i] == with_focus(before[i], focus));
            assert(change(before[i]) is Some <==> before[i].state.activated
                != after[i].state.activated);
        }
    }
    assert(are_the_changed(before, after, places));
    assert forall|k: int| 0 <= k < places.len() implies #[trigger] reactivated(before)[k]
        == after[places[k]] by {
        assert(places.contains(places[k]));
        assert(change(before[places[k]]) == Some(reactivated(before)[k]));
    }
}

/// The places that `filter_map` takes something from, in order.
proof fn lemma_where_filter_map_takes_from<A, B>(s: Seq<A>, f: spec_fn(A) -> Option<B>) -> (places:
    Seq<int>)
    ensures
        places.len() == s.filter_map(f).len(),
        forall|a: int, b: int|
            0 <= a < b < places.len() ==> #[trigger] places[a] < #[trigger] places[b],
        forall|i: int| #[trigger]
            places.contains(i) <==> 0 <= i < s.len() && f(s[i]) is Some,
        forall|k: int|
            0 <= k < places.len() ==> f(s[#[trigger] places[k]]) == Some(s.filter_map(f)[k]),
    decreases s.len(),
{
    reveal(Seq::filter_map);
    if s.len() == 0 {
        assert(s.filter_map(f).len() == 0);
        Seq::empty()
    } else {
        let rest = s.drop_last();
        let n = s.len() - 1;
        let before = lemma_where_filter_map_takes_from(rest, f);
        assert forall|i: int| 0 <= i < n implies #[trigger] rest[i] == s[i] by {}
        assert forall|k: int| 0 <= k < before.len() implies 0 <= #[trigger] before[k] < n by {
            assert(before.contains(before[k]));
        }
        match f(s.last()) {
            Some(x) => {
                let places = before.push(n);
                assert(s.filter_map(f) == rest.filter_map(f).push(x));
                assert forall|i: int| #[trigger]
                    places.contains(i) <==> 0 <= i < s.len() && f(s[i]) is Some by {
                    if places.contains(i) {
                        let k = places.index_of(i);
                        if k < before.len() {
                            assert(before.contains(before[k]));
                        }
                    }
                    if 0 <= i < n && f(s[i]) is Some {
                        assert(before.contains(i));
                        assert(places[before.index_of(i)] == i);
                    }
                    if i == n {
                        assert(places[before.len() as int] == n);
                    }
                }
                assert forall|k: int| 0 <= k < places.len() implies f(s[#[trigger] places[k]])
                    == Some(s.filter_map(f)[k]) by {
                    if k < before.len() {
                        assert(f(rest[before[k]]) == Some(rest.filter_map(f)[k]));
                    }
                }
                places
            },
            None => {
                assert(s.filter_map(f) == rest.filter_map(f));
                assert forall|i: int| #[trigger]
                    before.contains(i) <==> 0 <= i < s.len() && f(s[i]) is Some by {}
                before
            },
        }
    }
}

/// Changing focus activates the top window and no other, tells exactly those that
/// changed, and gives the keyboard to the top.
pub proof fn law_focus_goes_to_the_top()
    ensures
        forall|kiosk: &mut Kiosk, refocus: Refocus| #[trigger]
            call_ensures(Kiosk::refocus, (kiosk,), refocus) ==> {
                &&& focus_is_on_top((*kiosk)@.windows, final(kiosk)@.windows)
                &&& tells_who_changed((*kiosk)@.windows, final(kiosk)@.windows, refocus)
                &&& only_windows_differ((*kiosk)@, final(kiosk)@)
            },
{
    assert forall|kiosk: &mut Kiosk, refocus: Refocus| #[trigger]
        call_ensures(Kiosk::refocus, (kiosk,), refocus) implies {
        &&& focus_is_on_top((*kiosk)@.windows, final(kiosk)@.windows)
        &&& tells_who_changed((*kiosk)@.windows, final(kiosk)@.windows, refocus)
    } by {
        lemma_focus((*kiosk)@.windows);
    }
}

/// A new toplevel goes on top of the stack, fills the output and takes focus, unless
/// there are 32 already: then nothing happens, and the client is told why.
pub proof fn law_a_new_toplevel_goes_on_top()
    ensures
        forall|kiosk: &mut Kiosk, surface: u64, admitted: Result<Admission, ProtocolError>|
         #[trigger]
            call_ensures(Kiosk::new_toplevel, (kiosk, surface), admitted) ==> {
                let before = (*kiosk)@;
                let after = final(kiosk)@;
                match admitted {
                    Ok(admission) => {
                        &&& before.windows.len() < 32
                        &&& exists|opened: Window|
                            {
                                &&& opened.surface == surface
                                &&& fills(opened.state, before.size())
                                &&& !opened.state.activated
                                &&& opened.state.decoration_mode is None
                                &&& opened.state == admission.configure
                                &&& #[trigger] focus_is_on_top(
                                    before.windows.push(opened),
                                    after.windows,
                                )
                                &&& tells_who_changed(
                                    before.windows.push(opened),
                                    after.windows,
                                    admission.refocus,
                                )
                            }
                        &&& only_windows_differ(before, after)
                    },
                    Err(err) => {
                        &&& before.windows.len() >= 32
                        &&& after == before
                        &&& err.code == 2
                        &&& err.message@ == "compositor is tracking too many toplevels (limit "@
                            + decimal(32) + ")"@
                    },
                }
            },
{
    assert forall|kiosk: &mut Kiosk, surface: u64, admitted: Result<Admission, ProtocolError>|
     #[trigger]
        call_ensures(
            Kiosk::new_toplevel,
            (kiosk, surface),
            admitted,
        ) && admitted is Ok implies exists|opened: Window|
        {
            &&& opened.surface == surface
            &&& fills(opened.state, (*kiosk)@.size())
            &&& !opened.state.activated
            &&& opened.state.decoration_mode is None
            &&& opened.state == admitted->Ok_0.configure
            &&& #[trigger] focus_is_on_top((*kiosk)@.windows.push(opened), final(kiosk)@.windows)
            &&& tells_who_changed(
                (*kiosk)@.windows.push(opened),
                final(kiosk)@.windows,
                admitted->Ok_0.refocus,
            )
        } by {
        let opened = (*kiosk)@.new_window(surface);
        lemma_focus((*kiosk)@.windows.push(opened));
        assert(focus_is_on_top((*kiosk)@.windows.push(opened), final(kiosk)@.windows));
    }
}

/// Is `left` what is left of `windows` without those of `surface`, in order?
pub open spec fn is_without(windows: Seq<Window>, surface: u64, left: Seq<Window>) -> bool {
    left == windows.filter(|window: Window| window.surface != surface)
}

/// A destroyed toplevel leaves the stack, the rest keeps its order, focus goes to what is
/// then on top, and the screen is refreshed.
pub proof fn law_a_destroyed_toplevel_leaves_the_stack()
    ensures
        forall|kiosk: &mut Kiosk, surface: u64, effects: (Refocus, FrameStep)| #[trigger]
            call_ensures(Kiosk::toplevel_destroyed, (kiosk, surface), effects) ==> {
                let before = (*kiosk)@;
                let after = final(kiosk)@;
                &&& exists|left: Seq<Window>|
                    {
                        &&& is_without(before.windows, surface, left)
                        &&& #[trigger] focus_is_on_top(left, after.windows)
                        &&& tells_who_changed(left, after.windows, effects.0)
                    }
                &&& has_no_window(after.windows, surface)
                &&& after.frames == frame_after(before.frames, FrameEvent::Changed)
                &&& effects.1 == frame_step(before.frames, FrameEvent::Changed)
                &&& only_windows_and_frames_differ(before, after)
            },
{
    assert forall|kiosk: &mut Kiosk, surface: u64, effects: (Refocus, FrameStep)| #[trigger]
        call_ensures(Kiosk::toplevel_destroyed, (kiosk, surface), effects) implies {
        &&& exists|left: Seq<Window>|
            {
                &&& is_without((*kiosk)@.windows, surface, left)
                &&& #[trigger] focus_is_on_top(left, final(kiosk)@.windows)
                &&& tells_who_changed(left, final(kiosk)@.windows, effects.0)
            }
        &&& has_no_window(final(kiosk)@.windows, surface)
    } by {
        let keep = |window: Window| window.surface != surface;
        let left = (*kiosk)@.windows.filter(keep);
        assert(is_without((*kiosk)@.windows, surface, left));
        lemma_focus(left);
        assert(focus_is_on_top(left, final(kiosk)@.windows));
        broadcast use vstd::seq_lib::group_filter_ensures;

        assert forall|j: int| 0 <= j < final(kiosk)@.windows.len() implies (
        #[trigger] final(kiosk)@.windows[j]).surface != surface by {
            assert(keep(left[j]));
        }
    }
}

/// A request to focus a window raises it above all others, which keep their order,
/// refreshes the screen and tells those that changed. Nothing happens during a grab, for
/// the window on top, and where there is no such window.
pub open spec fn raises(
    before: KioskState,
    root: u64,
    grabbed: bool,
    after: KioskState,
    effects: Option<(Refocus, FrameStep)>,
) -> bool {
    match effects {
        None => {
            &&& after == before
            &&& grabbed || has_no_window(before.windows, root) || is_window_at(
                before.windows,
                root,
                before.windows.len() - 1,
            )
        },
        Some((refocus, step)) => {
            &&& !grabbed
            &&& exists|i: int|
                {
                    &&& #[trigger] is_window_at(before.windows, root, i)
                    &&& i < before.windows.len() - 1
                    &&& focus_is_on_top(
                        before.windows.remove(i).push(before.windows[i]),
                        after.windows,
                    )
                    &&& tells_who_changed(
                        before.windows.remove(i).push(before.windows[i]),
                        after.windows,
                        refocus,
                    )
                }
            &&& refocus.focus == Some(root)
            &&& after.frames == frame_after(before.frames, FrameEvent::Changed)
            &&& step == frame_step(before.frames, FrameEvent::Changed)
            &&& only_windows_and_frames_differ(before, after)
        },
    }
}

proof fn lemma_raises(
    before: KioskState,
    root: u64,
    grabbed: bool,
    after: KioskState,
    effects: Option<(Refocus, FrameStep)>,
)
    requires
        focuses(before, root, grabbed, after, effects),
    ensures
        raises(before, root, grabbed, after, effects),
{
    lemma_window_at(before.windows, root);
    if let Some((refocus, step)) = effects {
        if let Some(i) = window_at(before.windows, root) {
            lemma_focus(before.raised(i));
            law_raising_keeps_every_window(before, i);
            assert(before.raised(i) == before.windows.remove(i).push(before.windows[i]));
            assert(is_window_at(before.windows, root, i));
        }
    }
}

/// The root of a surface is the last of its ancestors, or itself.
pub open spec fn last_ancestor(surface: u64, ancestors: Seq<u64>) -> u64 {
    if ancestors.len() == 0 {
        surface
    } else {
        ancestors[ancestors.len() - 1]
    }
}

/// A request for focus, a press and a touch raise the window of what they are on; a
/// release and a miss do nothing, and a touch is delivered exactly if it hits something.
pub proof fn law_what_is_touched_is_raised()
    ensures
        forall|
            kiosk: &mut Kiosk,
            target: &FocusTarget,
            ancestors: &Vec<u64>,
            grabbed: bool,
            effects: Option<(Refocus, FrameStep)>,
        | #[trigger]
            call_ensures(Kiosk::focus_surface, (kiosk, target, ancestors, grabbed), effects)
                ==> raises(
                (*kiosk)@,
                last_ancestor(target.0, ancestors@),
                grabbed,
                final(kiosk)@,
                effects,
            ),
        forall|
            kiosk: &mut Kiosk,
            state: KeyState,
            hit: Option<Focus>,
            ancestors: &Vec<u64>,
            grabbed: bool,
            effects: Option<(Refocus, FrameStep)>,
        | #[trigger]
            call_ensures(
                Kiosk::on_pointer_button,
                (kiosk, state, hit, ancestors, grabbed),
                effects,
            ) ==> match hit {
                Some(focus) => if state == KeyState::Pressed {
                    raises(
                        (*kiosk)@,
                        last_ancestor(focus.target.0, ancestors@),
                        grabbed,
                        final(kiosk)@,
                        effects,
                    )
                } else {
                    effects is None && final(kiosk)@ == (*kiosk)@
                },
                None => effects is None && final(kiosk)@ == (*kiosk)@,
            },
        forall|
            kiosk: &mut Kiosk,
            hit: Option<Focus>,
            ancestors: &Vec<u64>,
            grabbed: bool,
            touched: (bool, Option<(Refocus, FrameStep)>),
        | #[trigger]
            call_ensures(Kiosk::on_touch_down, (kiosk, hit, ancestors, grabbed), touched)
                ==> match hit {
                Some(focus) => touched.0 && raises(
                    (*kiosk)@,
                    last_ancestor(focus.target.0, ancestors@),
                    grabbed,
                    final(kiosk)@,
                    touched.1,
                ),
                None => !touched.0 && touched.1 is None && final(kiosk)@ == (*kiosk)@,
            },
{
    assert forall|
        before: KioskState,
        root: u64,
        grabbed: bool,
        after: KioskState,
        effects: Option<(Refocus, FrameStep)>,
    | #[trigger]
        focuses(before, root, grabbed, after, effects) implies raises(
        before,
        root,
        grabbed,
        after,
        effects,
    ) by {
        lemma_raises(before, root, grabbed, after, effects);
    }
}

/// The root of a surface, and of a commit: nothing for a sync subsurface, whose contents
/// become visible with its parent's.
pub proof fn law_roots_are_last_ancestors(surface: u64, sync: bool, ancestors: &Vec<u64>)
    ensures
        forall|root: u64| #[trigger]
            call_ensures(root_of, (surface, ancestors), root) ==> root == last_ancestor(
                surface,
                ancestors@,
            ),
        forall|root: Option<u64>| #[trigger]
            call_ensures(commit_root, (surface, sync, ancestors), root) ==> root == (if sync {
                None
            } else {
                Some(last_ancestor(surface, ancestors@))
            }),
        root_surface(surface, ancestors@) == last_ancestor(surface, ancestors@),
{
}

/// Does the reply `configure` fill the output, keep the activation and the decorations of
/// the window it is for, and become its state?
pub open spec fn restates(
    before: KioskState,
    surface: u64,
    after: KioskState,
    configure: ToplevelState,
) -> bool {
    &&& fills(configure, before.size())
    &&& answers(before, surface, after, configure)
    &&& forall|i: int| #[trigger]
        is_window_at(before.windows, surface, i) ==> {
            &&& configure.activated == before.windows[i].state.activated
            &&& configure.decoration_mode == before.windows[i].state.decoration_mode
        }
    &&& has_no_window(before.windows, surface) ==> !configure.activated
        && configure.decoration_mode is None
}

/// Does the reply `configure` become the state of the window it is for, with nothing else
/// changed?
pub open spec fn answers(
    before: KioskState,
    surface: u64,
    after: KioskState,
    configure: ToplevelState,
) -> bool {
    &&& forall|i: int| #[trigger]
        is_window_at(before.windows, surface, i) ==> after.windows == before.windows.update(
            i,
            Window { surface, state: configure },
        )
    &&& has_no_window(before.windows, surface) ==> after.windows == before.windows
    &&& only_windows_differ(before, after)
}

proof fn lemma_with_state(before: KioskState, surface: u64, state: ToplevelState)
    ensures
        answers(before, surface, before.with_state(surface, state), state),
        forall|i: int| #[trigger]
            is_window_at(before.windows, surface, i) ==> before.toplevel_state(surface)
                == before.windows[i].state,
        has_no_window(before.windows, surface) ==> before.toplevel_state(surface)
            == ToplevelState::unconfigured(),
{
    lemma_window_at(before.windows, surface);
    assert forall|i: int| #[trigger] is_window_at(before.windows, surface, i) implies window_at(
        before.windows,
        surface,
    ) == Some(i) by {
        if let Some(k) = window_at(before.windows, surface) {
            if k < i {
                assert(before.windows[k].surface != surface);
            }
            if i < k {
                assert(before.windows[i].surface != surface);
            }
        } else {
            assert(before.windows[i].surface != surface);
        }
    }
    if let Some(k) = window_at(before.windows, surface) {
        assert(before.windows[k].surface == surface);
    }
}

proof fn lemma_restates(before: KioskState, surface: u64)
    ensures
        restates(
            before,
            surface,
            before.with_state(surface, before.restated(surface)),
            before.restated(surface),
        ),
{
    lemma_with_state(before, surface, before.restated(surface));
}

/// Whatever state a client asks for, it is told to fill the output. What needs no reply
/// changes nothing.
pub proof fn law_every_request_is_answered_fullscreen()
    ensures
        forall|kiosk: &mut Kiosk, surface: u64, configure: ToplevelState| #[trigger]
            call_ensures(Kiosk::fullscreen_request, (kiosk, surface), configure) ==> restates(
                (*kiosk)@,
                surface,
                final(kiosk)@,
                configure,
            ),
        forall|kiosk: &mut Kiosk, surface: u64, configure: ToplevelState| #[trigger]
            call_ensures(Kiosk::unfullscreen_request, (kiosk, surface), configure) ==> restates(
                (*kiosk)@,
                surface,
                final(kiosk)@,
                configure,
            ),
        forall|kiosk: &mut Kiosk, surface: u64, configure: ToplevelState| #[trigger]
            call_ensures(Kiosk::maximize_request, (kiosk, surface), configure) ==> restates(
                (*kiosk)@,
                surface,
                final(kiosk)@,
                configure,
            ),
        forall|kiosk: &mut Kiosk, surface: u64, configure: ToplevelState| #[trigger]
            call_ensures(Kiosk::unmaximize_request, (kiosk, surface), configure) ==> restates(
                (*kiosk)@,
                surface,
                final(kiosk)@,
                configure,
            ),
        forall|kiosk: &mut Kiosk, surface: u64, done: ()| #[trigger]
            call_ensures(Kiosk::minimize_request, (kiosk, surface), done) ==> *final(kiosk)
                == *kiosk,
        forall|kiosk: &mut Kiosk, surface: u64, done: ()| #[trigger]
            call_ensures(Kiosk::move_request, (kiosk, surface), done) ==> *final(kiosk) == *kiosk,
        forall|kiosk: &mut Kiosk, surface: u64, done: ()| #[trigger]
            call_ensures(Kiosk::resize_request, (kiosk, surface), done) ==> *final(kiosk) == *kiosk,
{
    assert forall|before: KioskState, surface: u64|
        restates(
            before,
            surface,
            #[trigger] before.with_state(surface, before.restated(surface)),
            before.restated(surface),
        ) by {
        lemma_restates(before, surface);
    }
}

/// Does the reply forbid the client to draw decorations of its own, and change nothing
/// else about the window?
pub open spec fn undecorates(
    before: KioskState,
    surface: u64,
    after: KioskState,
    configure: ToplevelState,
) -> bool {
    &&& configure.decoration_mode == Some(DecorationMode::ServerSide)
    &&& answers(before, surface, after, configure)
    &&& forall|i: int| #[trigger]
        is_window_at(before.windows, surface, i) ==> configure == (ToplevelState {
            decoration_mode: configure.decoration_mode,
            ..before.windows[i].state
        })
    &&& has_no_window(before.windows, surface) ==> {
        &&& !configure.fullscreen && !configure.maximized && !configure.resizing
        &&& !configure.activated
        &&& configure.size is None && configure.bounds is None
    }
}

/// Whatever a client asks about decorations, it is told to draw none.
pub proof fn law_decorations_are_refused()
    ensures
        forall|kiosk: &mut Kiosk, surface: u64, configure: ToplevelState| #[trigger]
            call_ensures(Kiosk::new_decoration, (kiosk, surface), configure) ==> undecorates(
                (*kiosk)@,
                surface,
                final(kiosk)@,
                configure,
            ),
        forall|kiosk: &mut Kiosk, surface: u64, mode: DecorationMode, configure: ToplevelState|
         #[trigger]
            call_ensures(Kiosk::request_mode, (kiosk, surface, mode), configure) ==> undecorates(
                (*kiosk)@,
                surface,
                final(kiosk)@,
                configure,
            ),
        forall|kiosk: &mut Kiosk, surface: u64, configure: ToplevelState| #[trigger]
            call_ensures(Kiosk::unset_mode, (kiosk, surface), configure) ==> undecorates(
                (*kiosk)@,
                surface,
                final(kiosk)@,
                configure,
            ),
{
    assert forall|before: KioskState, surface: u64|
        undecorates(
            before,
            surface,
            #[trigger] before.with_state(surface, before.undecorated(surface)),
            before.undecorated(surface),
        ) by {
        lemma_with_state(before, surface, before.undecorated(surface));
    }
}

/// A popup may be opened while fewer than 64 are tracked, at the end of a chain of no
/// more than 8.
pub proof fn law_the_limits_of_popups(count: usize, depth: usize, exceeded: bool)
    requires
        call_ensures(popup_limits_exceeded, (count, depth), exceeded),
    ensures
        !exceeded <==> count < 64 && depth <= 8,
{
}

/// A popup that is tracked is counted, and one that could not be is not; a popup that
/// goes is counted no more, no other is affected, and the screen is refreshed.
pub proof fn law_popups_are_counted_while_they_are_tracked()
    ensures
        forall|kiosk: &mut Kiosk, surface: u64, succeeded: bool, done: ()| #[trigger]
            call_ensures(Kiosk::popup_tracked, (kiosk, surface, succeeded), done) ==> {
                &&& final(kiosk)@.popups == (if succeeded {
                    (*kiosk)@.popups.push(surface)
                } else {
                    (*kiosk)@.popups
                })
                &&& final(kiosk)@.frames == (*kiosk)@.frames
                &&& only_popups_and_frames_differ((*kiosk)@, final(kiosk)@)
            },
        forall|kiosk: &mut Kiosk, surface: u64, step: FrameStep| #[trigger]
            call_ensures(Kiosk::popup_destroyed, (kiosk, surface), step) ==> {
                &&& !final(kiosk)@.popups.contains(surface)
                &&& forall|other: u64|
                    other != surface ==> (#[trigger] final(kiosk)@.popups.contains(other)
                        <==> (*kiosk)@.popups.contains(other))
                &&& final(kiosk)@.popups.len() <= (*kiosk)@.popups.len()
                &&& only_popups_and_frames_differ((*kiosk)@, final(kiosk)@)
                &&& final(kiosk)@.frames == frame_after((*kiosk)@.frames, FrameEvent::Changed)
                &&& step == frame_step((*kiosk)@.frames, FrameEvent::Changed)
            },
{
    assert forall|kiosk: &mut Kiosk, surface: u64, step: FrameStep| #[trigger]
        call_ensures(Kiosk::popup_destroyed, (kiosk, surface), step) implies {
        &&& !final(kiosk)@.popups.contains(surface)
        &&& forall|other: u64|
            other != surface ==> (#[trigger] final(kiosk)@.popups.contains(other) <==> (
            *kiosk)@.popups.contains(other))
        &&& final(kiosk)@.popups.len() <= (*kiosk)@.popups.len()
    } by {
        let before = (*kiosk)@.popups;
        let keep = other_than(surface);
        lemma_filter_keeps_items(before, keep);
        broadcast use vstd::seq_lib::group_filter_ensures;

        let left = before.filter(keep);
        assert(left == (*kiosk)@.popups_without(surface));
        assert(forall|popup: u64| #[trigger] keep(popup) == (popup != surface));
        if left.contains(surface) {
            assert(keep(left[left.index_of(surface)]));
        }
        assert forall|other: u64| other != surface implies (#[trigger] left.contains(other)
            <==> before.contains(other)) by {
            if left.contains(other) {
                assert(before.contains(left[left.index_of(other)]));
            }
            if before.contains(other) {
                assert(keep(before[before.index_of(other)]));
            }
        }
    }
}

/// A popup is kept inside the output, seen from the window it belongs to: the output is
/// moved back by where that window's geometry starts, as far as numbers go.
pub proof fn law_popups_are_kept_inside_the_output(
    kiosk: &Kiosk,
    root: Option<u64>,
    geometry: Point,
    target: Rectangle,
)
    requires
        call_ensures(Kiosk::constrain_popup, (kiosk, root, geometry), target),
    ensures
        kiosk.output.mode matches Some(mode) ==> target.size == mode,
        ({
            let owned = root matches Some(surface) && !has_no_window(kiosk.windows@, surface);
            &&& owned && geometry.x > i32::MIN ==> target.loc.x == -geometry.x
            &&& owned && geometry.y > i32::MIN ==> target.loc.y == -geometry.y
            &&& !owned ==> target.loc.x == 0 && target.loc.y == 0
        }),
{
    if let Some(surface) = root {
        lemma_window_at(kiosk.windows@, surface);
        if let Some(i) = window_at(kiosk.windows@, surface) {
            assert(kiosk.windows@[i].surface == surface);
        }
    }
}

/// Is the device held by somebody else?
pub open spec fn held_by_another(device: DeviceGrab) -> bool {
    device.grabbed && !device.owns_serial && !device.owns_previous_serial
}

/// A grab that is not granted is ignored, one that finds a device held by somebody else
/// is dismissed, and any other takes exactly the devices there are.
pub proof fn law_what_becomes_of_a_grab(
    attempt: GrabAttempt,
    keyboard: Option<DeviceGrab>,
    pointer: Option<DeviceGrab>,
    action: GrabAction,
)
    requires
        call_ensures(grab, (attempt, keyboard, pointer), action),
    ensures
        ({
            let blocked = (keyboard matches Some(device) && held_by_another(device)) || (
            pointer matches Some(device) && held_by_another(device));
            &&& action == GrabAction::Ignore <==> attempt != GrabAttempt::Granted
            &&& action == GrabAction::Dismiss <==> attempt == GrabAttempt::Granted && blocked
            &&& action == (GrabAction::Install {
                keyboard: keyboard is Some,
                pointer: pointer is Some,
            }) <==> attempt == GrabAttempt::Granted && !blocked
        }),
{
}

/// A device may be grabbed unless somebody else holds it.
pub proof fn law_who_may_grab(already: bool, owns: bool, owns_previous: bool, allowed: bool)
    requires
        call_ensures(grab_allowed, (already, owns, owns_previous), allowed),
    ensures
        !allowed <==> already && !owns && !owns_previous,
{
}

/// A popup nests inside the grab before it, and otherwise inside its own.
pub proof fn law_which_grab_a_popup_nests_in(previous: Option<u32>, serial: u32, nesting: u32)
    requires
        call_ensures(nesting_serial, (previous, serial), nesting),
    ensures
        previous is None ==> nesting == serial,
        previous matches Some(before) ==> nesting == before,
{
}

/// Does `chain` lead up from `parent`, each step as `parent_of` gives it?
pub open spec fn leads_up<F: Fn(u64) -> Option<u64>>(
    parent: u64,
    parent_of: F,
    chain: Seq<u64>,
) -> bool {
    &&& chain.len() > 0
    &&& chain[0] == parent
    &&& forall|i: int|
        0 <= i < chain.len() - 1 ==> call_ensures(
            parent_of,
            (#[trigger] chain[i],),
            Some(chain[i + 1]),
        )
}

/// A popup needs a parent. It is admitted only while fewer than 64 are tracked and its
/// chain of parents, up to what is no popup, is no longer than 8; it is refused only if
/// one of these fails.
pub proof fn law_which_popups_are_admitted<F: Fn(u64) -> Option<u64>>(
    kiosk: &Kiosk,
    parent: Option<u64>,
    parent_of: F,
    admitted: Result<(), ProtocolError>,
)
    requires
        call_ensures(Kiosk::new_popup::<F>, (kiosk, parent, parent_of), admitted),
    ensures
        parent is None ==> admitted is Err,
        kiosk.popups@.len() >= 64 ==> admitted is Err,
        admitted is Ok ==> (parent matches Some(first) && exists|chain: Seq<u64>|
            {
                &&& chain.len() <= 8
                &&& #[trigger] leads_up(first, parent_of, chain)
                &&& call_ensures(parent_of, (chain[chain.len() - 1],), None)
            }),
        admitted matches Err(err) ==> {
            &&& err.code == 2
            &&& err.message@ == (if parent is None {
                "xdg_popup created without a parent surface"@
            } else {
                "too many popups (limit "@ + decimal(64) + ", max depth "@ + decimal(8) + ")"@
            })
            &&& parent is Some && kiosk.popups@.len() < 64 ==> exists|chain: Seq<u64>|
                chain.len() == 9 && #[trigger] leads_up(parent->0, parent_of, chain)
        },
{
    if let Some(first) = parent {
        let chain = choose|chain: Seq<u64>|
            {
                &&& chain.len() <= crate::handlers::xdg_shell::MAX_POPUP_DEPTH + 1
                &&& #[trigger] crate::handlers::xdg_shell::is_chain(parent, parent_of, chain)
                &&& chain.len() <= crate::handlers::xdg_shell::MAX_POPUP_DEPTH
                    ==> crate::handlers::xdg_shell::chain_ends(parent, parent_of, chain)
                &&& match admitted {
                    Ok(()) => kiosk@.popups.len() < crate::handlers::xdg_shell::MAX_POPUPS
                        && chain.len() <= crate::handlers::xdg_shell::MAX_POPUP_DEPTH,
                    Err(err) => {
                        &&& kiosk@.popups.len() >= crate::handlers::xdg_shell::MAX_POPUPS
                            || chain.len() > crate::handlers::xdg_shell::MAX_POPUP_DEPTH
                        &&& err.says(crate::handlers::xdg_shell::too_many_popups())
                    },
                }
            };
        if chain.len() > 0 {
            assert forall|i: int| 0 <= i < chain.len() - 1 implies call_ensures(
                parent_of,
                (#[trigger] chain[i],),
                Some(chain[i + 1]),
            ) by {
                assert(chain[i + 1] == chain[(i + 1) as int]);
            }
            assert(leads_up(first, parent_of, chain));
        }
    }
}

/// A toplevel that has had no configure is told to fill the output, and a popup that has
/// had none is configured; nothing else is.
pub proof fn law_the_first_commit_is_answered<F: FnOnce() -> Option<bool>>()
    ensures
        forall|
            kiosk: &mut Kiosk,
            root: Option<u64>,
            configured: bool,
            popup_configured: F,
            configure: crate::handlers::compositor::InitialConfigure,
        | #[trigger]
            call_ensures(
                Kiosk::ensure_initial_configure::<F>,
                (kiosk, root, configured, popup_configured),
                configure,
            ) ==> {
                let before = (*kiosk)@;
                let after = final(kiosk)@;
                let owned = root matches Some(surface) && !has_no_window(before.windows, surface);
                match configure {
                    crate::handlers::compositor::InitialConfigure::Toplevel(state) => {
                        &&& owned && !configured
                        &&& restates(before, root->0, after, state)
                    },
                    crate::handlers::compositor::InitialConfigure::Popup => {
                        &&& !owned && after == before
                        &&& call_ensures(popup_configured, (), Some(false))
                    },
                    crate::handlers::compositor::InitialConfigure::Nothing => {
                        &&& after == before
                        &&& owned ==> configured
                        &&& !owned ==> call_ensures(popup_configured, (), None)
                            || call_ensures(popup_configured, (), Some(true))
                    },
                }
            },
{
    assert forall|before: KioskState, root: Option<u64>|
        #[trigger] crate::handlers::compositor::is_window(before, root) <==> (
        root matches Some(surface) && !has_no_window(before.windows, surface)) by {
        if let Some(surface) = root {
            lemma_window_at(before.windows, surface);
            if let Some(i) = window_at(before.windows, surface) {
                assert(before.windows[i].surface == surface);
            }
        }
    }
    assert forall|before: KioskState, surface: u64|
        restates(
            before,
            surface,
            #[trigger] before.with_state(surface, before.restated(surface)),
            before.restated(surface),
        ) by {
        lemma_restates(before, surface);
    }
}

/// A focus target is the surface it was made from.
pub proof fn law_a_target_is_its_surface(target: &FocusTarget, surface: u64)
    requires
        call_ensures(FocusTarget::surface, (target,), surface),
    ensures
        surface == target.0,
{
}

/// The depth of a popup is the length of its chain of parents, up to what is no popup; the
/// walk stops at nine.
pub proof fn law_how_deep_a_popup_is<F: Fn(u64) -> Option<u64>>(
    parent: Option<u64>,
    parent_of: F,
    depth: usize,
)
    requires
        call_ensures(popup_chain_depth::<F>, (parent, parent_of), depth),
    ensures
        depth <= 9,
        parent is None <==> depth == 0,
        parent matches Some(first) ==> exists|chain: Seq<u64>|
            {
                &&& chain.len() == depth
                &&& #[trigger] leads_up(first, parent_of, chain)
                &&& depth < 9 ==> call_ensures(parent_of, (chain[chain.len() - 1],), None)
            },
{
    let chain = choose|chain: Seq<u64>|
        {
            &&& chain.len() == depth
            &&& #[trigger] crate::handlers::xdg_shell::is_chain(parent, parent_of, chain)
            &&& depth <= crate::handlers::xdg_shell::MAX_POPUP_DEPTH
                ==> crate::handlers::xdg_shell::chain_ends(parent, parent_of, chain)
        };
    if let Some(first) = parent {
        if chain.len() > 0 {
            assert forall|i: int| 0 <= i < chain.len() - 1 implies call_ensures(
                parent_of,
                (#[trigger] chain[i],),
                Some(chain[i + 1]),
            ) by {
                assert(chain[i + 1] == chain[(i + 1) as int]);
            }
            assert(leads_up(first, parent_of, chain));
        }
    }
}

} // verus!
