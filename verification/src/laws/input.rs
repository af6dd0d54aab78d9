//! Input: what reaches the client, what is held, and when the exit key fires.

use vstd::prelude::*;

use crate::backend::input::{
    axis_step, held_after, key_filter, surface_under, topmost_hit, AxisSource, AxisStep, Focus,
    KeyEvent, KeyRelease, KeyState,
};
use crate::backend::input::law_the_topmost_hit_wins;
use crate::cli::{Binding, ModifiersState};
use crate::seqs::lemma_filter_keeps_no_duplicates;
use crate::state::{Kiosk, KioskState};

verus! {

/// Does a press with those modifiers, of a key that produces `keysyms`, ask for the
/// binding: one of the keysyms is its own, and exactly its modifiers are held?
pub open spec fn asks_for_exit(
    binding: Binding,
    mods: ModifiersState,
    keysyms: Seq<u32>,
) -> bool {
    &&& keysyms.contains(binding.keysym)
    &&& mods.ctrl == binding.ctrl
    &&& mods.alt == binding.alt
    &&& mods.shift == binding.shift
    &&& mods.logo == binding.logo
}

/// A key is kept from the client exactly if an exit key is configured and this is a press
/// of it.
pub proof fn law_only_the_exit_key_is_intercepted(
    exit_key: Option<Binding>,
    state: KeyState,
    mods: &ModifiersState,
    keysyms: &Vec<u32>,
    intercept: bool,
)
    requires
        call_ensures(key_filter, (exit_key, state, mods, keysyms), intercept),
    ensures
        intercept <==> state == KeyState::Pressed && (exit_key matches Some(binding)
            && asks_for_exit(binding, *mods, keysyms@)),
{
    if let Some(binding) = exit_key {
        if keysyms@.contains(binding.keysym) {
            let i = keysyms@.index_of(binding.keysym);
            assert(keysyms@[i] == binding.keysym);
        }
    }
}

/// A key event is remembered, and ends the compositor exactly if it is the exit key: with
/// status 0, unless a status was recorded before. Without a keyboard nothing happens.
pub proof fn law_what_a_key_does()
    ensures
        forall|
            kiosk: &mut Kiosk,
            event: KeyEvent,
            mods: &ModifiersState,
            keysyms: &Vec<u32>,
            intercepted: bool,
        | #[trigger]
            call_ensures(Kiosk::on_keyboard, (kiosk, event, mods, keysyms), intercepted) ==> {
                let before = (*kiosk)@;
                let after = final(kiosk)@;
                &&& intercepted <==> before.keyboard && event.state == KeyState::Pressed && (
                before.exit_key matches Some(binding) && asks_for_exit(binding, *mods, keysyms@))
                &&& after.frames.exit_code == (if intercepted && before.frames.exit_code is None {
                    Some(0i32)
                } else {
                    before.frames.exit_code
                })
                &&& before.keyboard ==> {
                    &&& after.last_input_time == event.time
                    &&& after.pressed_keys == held_after(before.pressed_keys, event)
                }
                &&& !before.keyboard ==> after == before
                &&& after.frames.pacer == before.frames.pacer
                &&& after.frames.phase == before.frames.phase
                &&& after.frames.retry_armed == before.frames.retry_armed
                &&& after.frames.drops == before.frames.drops
                &&& after.frames.submit_failures == before.frames.submit_failures
                &&& after.windows == before.windows
                &&& after.popups == before.popups
                &&& after.cursor == before.cursor
                &&& after.exit_key == before.exit_key
                &&& after.output == before.output
                &&& after.keyboard == before.keyboard
                &&& after.pointer == before.pointer
                &&& after.touch == before.touch
            },
{
    assert forall|
        kiosk: &mut Kiosk,
        event: KeyEvent,
        mods: &ModifiersState,
        keysyms: &Vec<u32>,
        intercepted: bool,
    | #[trigger]
        call_ensures(
            Kiosk::on_keyboard,
            (kiosk, event, mods, keysyms),
            intercepted,
        ) implies intercepted <==> (*kiosk)@.keyboard && event.state == KeyState::Pressed && ((
    *kiosk)@.exit_key matches Some(binding) && asks_for_exit(binding, *mods, keysyms@)) by {
        if let Some(binding) = (*kiosk)@.exit_key {
            if keysyms@.contains(binding.keysym) {
                let i = keysyms@.index_of(binding.keysym);
                assert(keysyms@[i] == binding.keysym);
            }
        }
    }
}

/// A pressed key is held, a released one is not, and no other key is affected; nothing is
/// held twice.
pub proof fn law_which_keys_are_held(held: Seq<u32>, event: KeyEvent, other: u32)
    requires
        held.no_duplicates(),
    ensures
        held_after(held, event).contains(event.code) <==> event.state == KeyState::Pressed,
        other != event.code ==> (held_after(held, event).contains(other) <==> held.contains(other)),
        held_after(held, event).no_duplicates(),
{
    match event.state {
        KeyState::Pressed => {
            if !held.contains(event.code) {
                let after = held.push(event.code);
                assert(after[held.len() as int] == event.code);
                if held.contains(other) {
                    assert(after[held.index_of(other)] == other);
                }
                if after.contains(other) && other != event.code {
                    assert(held[after.index_of(other)] == other);
                }
            }
        },
        KeyState::Released => {
            let keep = |code: u32| code != event.code;
            lemma_filter_keeps_no_duplicates(held, keep);
            broadcast use vstd::seq_lib::group_filter_ensures;

            if held.contains(other) && other != event.code {
                assert(keep(held[held.index_of(other)]));
            }
        },
    }
}

/// Switching away releases every key that is held, once, at the time of the last key
/// event, and leaves none held; the session is no longer in front.
pub proof fn law_switching_away_releases_every_key()
    ensures
        forall|kiosk: &mut Kiosk, releases: Vec<KeyRelease>| #[trigger]
            call_ensures(Kiosk::session_paused, (kiosk,), releases) ==> {
                let before = (*kiosk)@;
                let after = final(kiosk)@;
                &&& releases_all(before.keyboard, before.pressed_keys, before.last_input_time,
                    releases@, after.pressed_keys)
                &&& !after.frames.pacer.active
                &&& after.frames.pacer.damaged == before.frames.pacer.damaged
                &&& after.frames.pacer.pending_flip == before.frames.pacer.pending_flip
                &&& after.frames.phase == before.frames.phase
                &&& after.frames.retry_armed == before.frames.retry_armed
                &&& after.frames.drops == before.frames.drops
                &&& after.frames.submit_failures == before.frames.submit_failures
                &&& after.frames.exit_code == before.frames.exit_code
                &&& after.windows == before.windows
                &&& after.popups == before.popups
                &&& after.exit_key == before.exit_key
                &&& after.output == before.output
                &&& after.cursor == before.cursor
                &&& after.keyboard == before.keyboard
                &&& after.pointer == before.pointer
                &&& after.touch == before.touch
                &&& after.last_input_time == before.last_input_time
            },
        forall|kiosk: &mut Kiosk, releases: Vec<KeyRelease>| #[trigger]
            call_ensures(Kiosk::release_all_keys, (kiosk,), releases) ==> {
                let before = (*kiosk)@;
                let after = final(kiosk)@;
                &&& releases_all(before.keyboard, before.pressed_keys, before.last_input_time,
                    releases@, after.pressed_keys)
                &&& after == (KioskState { pressed_keys: after.pressed_keys, ..before })
            },
{
}

/// Where there is a keyboard, is each key of `held` released, in order, at `time`, and is
/// none `left`? Without one, does nothing happen?
pub open spec fn releases_all(
    keyboard: bool,
    held: Seq<u32>,
    time: u32,
    releases: Seq<KeyRelease>,
    left: Seq<u32>,
) -> bool {
    if keyboard {
        &&& releases.len() == held.len()
        &&& forall|i: int|
            0 <= i < held.len() ==> (#[trigger] releases[i]).code == held[i] && releases[i].time
                == time
        &&& left.len() == 0
    } else {
        releases.len() == 0 && left == held
    }
}

/// What is hit is what was hit in the topmost window in which anything was.
pub proof fn law_the_topmost_window_is_hit(hits: &Vec<Option<Focus>>, focus: Option<Focus>)
    requires
        call_ensures(surface_under, (hits,), focus),
    ensures
        match focus {
            Some(hit) => exists|i: int|
                {
                    &&& 0 <= i < hits@.len()
                    &&& #[trigger] hits@[i] == Some(hit)
                    &&& forall|j: int| i < j < hits@.len() ==> #[trigger] hits@[j] is None
                },
            None => forall|i: int| 0 <= i < hits@.len() ==> #[trigger] hits@[i] is None,
        },
{
    law_the_topmost_hit_wins(hits@, hits@.len());
    assert(focus == topmost_hit(hits@, hits@.len()));
}

/// An axis that moved has a value; one that did not ends a gesture if a finger made it,
/// and says nothing otherwise.
pub proof fn law_what_an_axis_says(moved: bool, source: AxisSource, step: AxisStep)
    requires
        call_ensures(axis_step, (moved, source), step),
    ensures
        step == AxisStep::Value <==> moved,
        step == AxisStep::Stop <==> !moved && source == AxisSource::Finger,
        step == AxisStep::Nothing <==> !moved && source != AxisSource::Finger,
{
}

} // verus!
