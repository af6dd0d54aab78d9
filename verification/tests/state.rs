use kiosk::backend::drm::DrmBackend;
use kiosk::frames::FrameAction;
use kiosk::geometry::{Point, Rectangle, Size};
use kiosk::pacing::FramePacer;
use kiosk::run::Capabilities;
use kiosk::state::{
    rect_of, size_of, CursorImageStatus, Element, Kind, Kiosk, Output, PopupPlacement, Subpixel,
    Transform, WindowScene,
};

fn test_output(mode: Option<(i32, i32)>) -> Output {
    Output {
        name: "TEST-1".to_string(),
        make: "test".to_string(),
        model: "test".to_string(),
        physical_size: Size { w: 0, h: 0 },
        subpixel: Subpixel::Unknown,
        mode: mode.map(|(w, h)| Size { w, h }),
        transform: Transform::Normal,
        scale: 1,
        location: Point { x: 0, y: 0 },
    }
}

fn kiosk(pointer: bool) -> Kiosk {
    let backend = DrmBackend { pacer: FramePacer::new() };
    let capabilities = Capabilities { pointer, touch: false };
    Kiosk::new(test_output(Some((1920, 1080))), backend, None, true, capabilities)
}

fn scene(x: i32, y: i32, popups: Vec<PopupPlacement>) -> WindowScene {
    WindowScene { geometry: Point { x, y }, popups }
}

fn element(surface: u64, x: i32, y: i32) -> Element {
    Element { surface, location: Point { x, y }, kind: Kind::Unspecified }
}

#[test]
fn an_output_with_a_mode_reports_its_logical_size() {
    assert_eq!(size_of(&test_output(Some((2560, 1440)))), Size { w: 2560, h: 1440 });
}

#[test]
fn a_modeless_output_reports_zero_rather_than_panicking() {
    assert_eq!(size_of(&test_output(None)), Size { w: 0, h: 0 });
}

#[test]
fn the_output_rect_is_anchored_at_the_origin() {
    // Popups are constrained against this rect, so the origin matters.
    let rect = rect_of(&test_output(Some((1920, 1080))));
    assert_eq!(rect.loc, Point { x: 0, y: 0 });
    assert_eq!(rect.size, Size { w: 1920, h: 1080 });
    let k = kiosk(false);
    assert_eq!(k.output_size(), Size { w: 1920, h: 1080 });
    assert_eq!(
        k.output_rect(),
        Rectangle { loc: Point { x: 0, y: 0 }, size: Size { w: 1920, h: 1080 } }
    );
}

#[test]
fn an_empty_stack_has_no_focus_and_does_not_exit() {
    let mut k = kiosk(false);
    let refocus = k.refocus();
    assert_eq!(refocus.focus, None);
    assert!(refocus.configure.is_empty());
    assert!(k.top_window().is_none());
    assert_eq!(k.exit_code, None);
}

#[test]
fn refocusing_activates_exactly_the_top_window() {
    let mut k = kiosk(false);
    for surface in [11, 12, 13] {
        k.new_toplevel(surface).unwrap();
    }
    let active: Vec<_> =
        k.windows.iter().filter(|w| w.state.activated).map(|w| w.surface).collect();
    assert_eq!(active, [13]);
    assert_eq!(k.top_window().unwrap().surface, 13);
    // Settled: nothing to send a second time.
    let again = k.refocus();
    assert!(again.configure.is_empty());
    assert_eq!(again.focus, Some(13));
    // Taking the top away hands activation down.
    k.windows.pop();
    let refocus = k.refocus();
    assert_eq!(refocus.focus, Some(12));
    assert_eq!(refocus.configure.len(), 1);
    assert_eq!(refocus.configure[0].surface, 12);
    assert!(refocus.configure[0].state.activated);
}

#[test]
fn a_window_is_found_by_its_root_surface() {
    let mut k = kiosk(false);
    k.new_toplevel(11).unwrap();
    k.new_toplevel(12).unwrap();
    assert_eq!(k.window_for_surface(11).unwrap().surface, 11);
    assert_eq!(k.window_index(12), Some(1));
    assert!(k.window_for_surface(99).is_none());
}

#[test]
fn elements_are_collected_front_to_back() {
    let mut k = kiosk(true);
    k.new_toplevel(11).unwrap();
    k.new_toplevel(12).unwrap();
    k.cursor_status = CursorImageStatus::Surface(90);
    let popup = PopupPlacement {
        surface: 50,
        offset: Point { x: 100, y: 200 },
        geometry: Point { x: 3, y: 4 },
    };
    let nested = PopupPlacement {
        surface: 51,
        offset: Point { x: i32::MAX, y: 0 },
        geometry: Point { x: 0, y: 1 },
    };
    let scenes = vec![scene(0, 0, vec![]), scene(10, 20, vec![nested, popup])];
    let hotspot = Point { x: 5, y: 6 };
    let elements = k.render_elements(true, hotspot, Point { x: 300, y: 400 }, &scenes);
    assert_eq!(
        elements,
        [
            Element { surface: 90, location: Point { x: 295, y: 394 }, kind: Kind::Cursor },
            element(51, i32::MAX, 19),
            element(50, 107, 216),
            element(12, 0, 0),
            element(11, 0, 0),
        ]
    );
}

#[test]
fn a_cursor_is_drawn_only_with_a_pointer_and_a_surface() {
    let origin = Point { x: 0, y: 0 };
    let mut k = kiosk(false);
    k.cursor_status = CursorImageStatus::Surface(90);
    assert!(k.render_elements(true, origin, origin, &vec![]).is_empty());
    let mut k = kiosk(true);
    for image in [CursorImageStatus::Hidden, CursorImageStatus::Named] {
        k.cursor_status = image;
        assert!(k.render_elements(true, origin, origin, &vec![]).is_empty());
        assert_eq!(k.cursor_status, image);
    }
}

#[test]
fn a_dead_cursor_is_dropped_before_it_is_read() {
    let origin = Point { x: 0, y: 0 };
    let mut k = kiosk(true);
    k.new_toplevel(11).unwrap();
    k.cursor_status = CursorImageStatus::Surface(90);
    assert_eq!(k.update_scanout_state(true), [11, 90]);
    assert_eq!(k.send_frames(true), [11, 90]);
    assert_eq!(k.send_frames(false), [11]);
    assert_eq!(k.cursor_status, CursorImageStatus::Named);
    k.cursor_status = CursorImageStatus::Surface(91);
    assert_eq!(k.update_scanout_state(false), [11]);
    k.cursor_status = CursorImageStatus::Surface(92);
    let scenes = vec![scene(0, 0, vec![])];
    assert_eq!(k.render_elements(false, origin, origin, &scenes), [element(11, 0, 0)]);
    assert_eq!(k.cursor_status, CursorImageStatus::Named);
}

#[test]
fn a_new_cursor_image_is_drawn() {
    let mut k = kiosk(true);
    let step = k.cursor_image(CursorImageStatus::Surface(90));
    assert_eq!(step.action, FrameAction::Draw);
    assert_eq!(k.cursor_status, CursorImageStatus::Surface(90));
}

#[test]
fn the_first_shutdown_decides_the_status() {
    let mut k = kiosk(true);
    k.shutdown(42);
    k.shutdown(0);
    assert_eq!(k.exit_code, Some(42));
}

#[test]
fn geometry_saturates() {
    let far = Point { x: i32::MAX, y: i32::MIN };
    let one = Point { x: 1, y: 1 };
    assert_eq!(far.plus(one), Point { x: i32::MAX, y: i32::MIN + 1 });
    assert_eq!(far.minus(one), Point { x: i32::MAX - 1, y: i32::MIN });
    assert_eq!(one.minus(far), Point { x: 1 - i32::MAX, y: i32::MAX });
    assert_eq!(Point::origin(), Point { x: 0, y: 0 });
}
