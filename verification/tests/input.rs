use kiosk::backend::drm::DrmBackend;
use kiosk::backend::input::{
    axis_step, key_filter, surface_under, AxisSource, AxisStep, Focus, InputEvent, InputRoute,
    KeyEvent, KeyRelease, KeyState,
};
use kiosk::cli::{Binding, ModifiersState};
use kiosk::focus::{root_of, FocusTarget};
use kiosk::frames::FrameAction;
use kiosk::geometry::{Point, Size};
use kiosk::pacing::FramePacer;
use kiosk::run::Capabilities;
use kiosk::state::{Kiosk, Output, Subpixel, Transform};

const EXIT: Binding = Binding { ctrl: true, alt: true, shift: false, logo: false, keysym: 0xff08 };

fn kiosk(exit_key: Option<Binding>, keyboard: bool, pointer: bool, touch: bool) -> Kiosk {
    let output = Output {
        name: "TEST-1".to_string(),
        make: "test".to_string(),
        model: "test".to_string(),
        physical_size: Size { w: 0, h: 0 },
        subpixel: Subpixel::Unknown,
        mode: Some(Size { w: 1920, h: 1080 }),
        transform: Transform::Normal,
        scale: 1,
        location: Point { x: 0, y: 0 },
    };
    let backend = DrmBackend { pacer: FramePacer::new() };
    Kiosk::new(output, backend, exit_key, keyboard, Capabilities { pointer, touch })
}

fn held() -> ModifiersState {
    ModifiersState { ctrl: true, alt: true, ..Default::default() }
}

fn key(code: u32, state: KeyState, time: u32) -> KeyEvent {
    KeyEvent { code, state, time }
}

fn focus(surface: u64) -> Focus {
    Focus { target: FocusTarget::from(surface), origin: Point { x: 0, y: 0 } }
}

#[test]
fn events_go_to_the_device_they_are_for() {
    let k = kiosk(None, true, true, true);
    for (event, route) in [
        (InputEvent::Keyboard, InputRoute::Key),
        (InputEvent::PointerMotion, InputRoute::MoveBy),
        (InputEvent::PointerMotionAbsolute, InputRoute::MoveTo),
        (InputEvent::PointerButton, InputRoute::Button),
        (InputEvent::PointerAxis, InputRoute::Axis),
        (InputEvent::TouchDown, InputRoute::TouchDown),
        (InputEvent::TouchMotion, InputRoute::TouchMotion),
        (InputEvent::TouchUp, InputRoute::TouchUp),
        (InputEvent::TouchCancel, InputRoute::TouchCancel),
        (InputEvent::TouchFrame, InputRoute::TouchFrame),
        (InputEvent::Other, InputRoute::Ignore),
    ] {
        assert_eq!(k.process_input_event(event), route);
        // Without the device there is nobody to send it to.
        assert_eq!(
            kiosk(None, false, false, false).process_input_event(event),
            InputRoute::Ignore
        );
    }
}

#[test]
fn a_paused_session_delivers_no_input() {
    let mut k = kiosk(Some(EXIT), true, true, true);
    k.backend.pause();
    for event in [InputEvent::Keyboard, InputEvent::PointerMotion, InputEvent::TouchDown] {
        assert_eq!(k.process_input_event(event), InputRoute::Ignore);
    }
    k.backend.resume();
    assert_eq!(k.process_input_event(InputEvent::Keyboard), InputRoute::Key);
}

#[test]
fn the_exit_key_is_intercepted_on_any_layout_level() {
    let pressed = KeyState::Pressed;
    assert!(key_filter(Some(EXIT), pressed, &held(), &vec![0x61, 0xff08]));
    assert!(!key_filter(Some(EXIT), pressed, &held(), &vec![0x61]));
    assert!(!key_filter(Some(EXIT), pressed, &held(), &vec![]));
    assert!(!key_filter(Some(EXIT), KeyState::Released, &held(), &vec![0xff08]));
    assert!(!key_filter(Some(EXIT), pressed, &ModifiersState::default(), &vec![0xff08]));
    assert!(!key_filter(None, pressed, &held(), &vec![0xff08]));
}

#[test]
fn the_exit_key_shuts_down_cleanly() {
    let mut k = kiosk(Some(EXIT), true, false, false);
    assert!(!k.on_keyboard(key(30, KeyState::Pressed, 100), &held(), &vec![0x61]));
    assert_eq!(k.exit_code, None);
    assert!(k.on_keyboard(key(14, KeyState::Pressed, 101), &held(), &vec![0xff08]));
    assert_eq!(k.exit_code, Some(0));
    assert_eq!(k.pressed_keys, [30, 14]);
    assert_eq!(k.last_input_time, 101);
}

#[test]
fn without_a_keyboard_nothing_is_seen() {
    let mut k = kiosk(Some(EXIT), false, false, false);
    assert!(!k.on_keyboard(key(14, KeyState::Pressed, 101), &held(), &vec![0xff08]));
    assert_eq!(k.exit_code, None);
    assert!(k.pressed_keys.is_empty());
    assert!(k.release_all_keys().is_empty());
}

#[test]
fn held_keys_are_released_once_and_not_before_their_press() {
    let mut k = kiosk(None, true, false, false);
    let none = ModifiersState::default();
    for event in [
        key(29, KeyState::Pressed, 100),
        key(56, KeyState::Pressed, 110),
        // A repeated press is one held key.
        key(29, KeyState::Pressed, 120),
        key(30, KeyState::Pressed, 130),
        key(30, KeyState::Released, 140),
        // A release of something never pressed changes nothing.
        key(31, KeyState::Released, 150),
    ] {
        k.on_keyboard(event, &none, &vec![]);
    }
    assert_eq!(k.pressed_keys, [29, 56]);
    let releases = k.release_all_keys();
    assert_eq!(
        releases,
        [KeyRelease { code: 29, time: 150 }, KeyRelease { code: 56, time: 150 }]
    );
    assert!(k.pressed_keys.is_empty());
    assert!(k.release_all_keys().is_empty());
}

#[test]
fn a_finger_at_rest_ends_the_gesture() {
    assert_eq!(axis_step(true, AxisSource::Finger), AxisStep::Value);
    assert_eq!(axis_step(true, AxisSource::Wheel), AxisStep::Value);
    assert_eq!(axis_step(false, AxisSource::Finger), AxisStep::Stop);
    for source in [AxisSource::Wheel, AxisSource::Continuous, AxisSource::WheelTilt] {
        assert_eq!(axis_step(false, source), AxisStep::Nothing);
    }
}

#[test]
fn the_topmost_window_that_is_hit_wins() {
    assert_eq!(surface_under(&vec![]), None);
    assert_eq!(surface_under(&vec![None, None]), None);
    assert_eq!(surface_under(&vec![Some(focus(1)), Some(focus(2)), None]), Some(focus(2)));
}

#[test]
fn a_focus_target_is_its_surface() {
    assert_eq!(FocusTarget::from(7).surface(), 7);
    assert_eq!(root_of(7, &vec![]), 7);
    assert_eq!(root_of(7, &vec![8, 9]), 9);
}

#[test]
fn a_click_raises_and_focuses_the_window_under_it() {
    let mut k = kiosk(None, true, true, true);
    for surface in [11, 12, 13] {
        k.new_toplevel(surface).unwrap();
    }
    let pressed = KeyState::Pressed;
    // Surface 40 is a subsurface of 11.
    let (refocus, step) =
        k.on_pointer_button(pressed, Some(focus(40)), &vec![11], false).unwrap();
    assert_eq!(refocus.focus, Some(11));
    assert_eq!(step.action, FrameAction::Draw);
    let order: Vec<_> = k.windows.iter().map(|w| w.surface).collect();
    assert_eq!(order, [12, 13, 11]);
    let sent: Vec<_> =
        refocus.configure.iter().map(|w| (w.surface, w.state.activated)).collect();
    assert_eq!(sent, [(13, false), (11, true)]);
}

#[test]
fn a_click_on_a_popup_raises_the_window_it_belongs_to() {
    let mut k = kiosk(None, true, true, true);
    k.new_toplevel(11).unwrap();
    k.new_toplevel(12).unwrap();
    // Surface 40 is a subsurface of the popup 41, which 11 opened.
    let (refocus, _) =
        k.on_pointer_button(KeyState::Pressed, Some(focus(40)), &vec![41, 11], false).unwrap();
    assert_eq!(refocus.focus, Some(11));
}

#[test]
fn a_click_that_changes_nothing_does_nothing() {
    let mut k = kiosk(None, true, true, true);
    k.new_toplevel(11).unwrap();
    k.new_toplevel(12).unwrap();
    let none = vec![];
    let (pressed, released) = (KeyState::Pressed, KeyState::Released);
    // On the top window already.
    assert!(k.on_pointer_button(pressed, Some(focus(12)), &none, false).is_none());
    // A release, a miss, an unknown surface.
    assert!(k.on_pointer_button(released, Some(focus(11)), &none, false).is_none());
    assert!(k.on_pointer_button(pressed, None, &none, false).is_none());
    assert!(k.on_pointer_button(pressed, Some(focus(99)), &none, false).is_none());
    // During a grab the click belongs to the grab.
    assert!(k.on_pointer_button(pressed, Some(focus(11)), &none, true).is_none());
    assert!(k.focus_surface(&FocusTarget::from(11), &none, true).is_none());
    let order: Vec<_> = k.windows.iter().map(|w| w.surface).collect();
    assert_eq!(order, [11, 12]);
}

#[test]
fn a_touch_focuses_what_it_hits() {
    let mut k = kiosk(None, true, true, true);
    k.new_toplevel(11).unwrap();
    k.new_toplevel(12).unwrap();
    let (delivered, effects) = k.on_touch_down(None, &vec![], false);
    assert!(!delivered && effects.is_none());
    let (delivered, effects) = k.on_touch_down(Some(focus(11)), &vec![], false);
    assert!(delivered);
    assert_eq!(effects.unwrap().0.focus, Some(11));
    // Still delivered where nothing has to be raised.
    let (delivered, effects) = k.on_touch_down(Some(focus(11)), &vec![], false);
    assert!(delivered && effects.is_none());
}

#[test]
fn a_moved_pointer_is_drawn() {
    let mut k = kiosk(None, true, true, false);
    assert_eq!(k.pointer_moved().action, FrameAction::Draw);
}
