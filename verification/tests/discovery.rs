use std::cmp::Ordering;

use kiosk::backend::discovery::{
    candidate_order, connector_name, enumerate, enumerate_devices, may_carry_connectors,
    mode_suffix, pick_preferred, preferred_mode, read_connectors, select, ConnectionState,
    ConnectorInfo, Device, DeviceProbe, Mode, NodeKind, OutputCandidate, SelectError,
};

fn candidate(device: &str, name: &str, connected: bool) -> OutputCandidate {
    OutputCandidate {
        device: device.as_bytes().to_vec(),
        device_id: 0,
        connector: 1,
        name: name.to_string(),
        connected,
        preferred_mode: None,
    }
}

fn candidate_with(device: &str, name: &str, connector: u32) -> OutputCandidate {
    OutputCandidate { connector, ..candidate(device, name, true) }
}

fn mode(width: u16, height: u16, vrefresh: u32, preferred: bool, index: usize) -> Mode {
    Mode { width, height, vrefresh, preferred, index }
}

fn connector(handle: u32, interface: u32, interface_id: u32, connected: bool) -> ConnectorInfo {
    ConnectorInfo {
        handle,
        interface,
        interface_id,
        state: if connected { ConnectionState::Connected } else { ConnectionState::Disconnected },
        modes: Vec::new(),
    }
}

fn probe(path: &str, id: u64, connectors: Option<Vec<Option<ConnectorInfo>>>) -> DeviceProbe {
    DeviceProbe { device: Device { path: path.as_bytes().to_vec(), id }, connectors }
}

fn text(path: &[u8]) -> String {
    String::from_utf8(path.to_vec()).unwrap()
}

fn names(candidates: &[OutputCandidate]) -> Vec<(String, u32)> {
    candidates.iter().map(|c| (text(&c.device), c.connector)).collect()
}

#[test]
fn candidate_order_sorts_by_device_then_connector_id() {
    let mut candidates = [
        candidate_with("/dev/dri/card1", "DP-9", 2),
        candidate_with("/dev/dri/card0", "DP-2", 7),
        candidate_with("/dev/dri/card1", "DP-1", 1),
        candidate_with("/dev/dri/card0", "DP-1", 3),
    ];
    candidates.sort_by(candidate_order);

    let order = names(&candidates);
    let order: Vec<_> = order.iter().map(|(device, id)| (device.as_str(), *id)).collect();
    assert_eq!(
        order,
        [
            ("/dev/dri/card0", 3),
            ("/dev/dri/card0", 7),
            ("/dev/dri/card1", 1),
            ("/dev/dri/card1", 2),
        ]
    );
}

/// The cross-card case: a low handle on card1 must still sort after a high
/// handle on card0, or the default output could flip between boots.
#[test]
fn candidate_order_puts_the_device_first() {
    let a = candidate_with("/dev/dri/card0", "DP-1", 99);
    let b = candidate_with("/dev/dri/card1", "DP-1", 1);
    assert_eq!(candidate_order(&a, &b), Ordering::Less);
    assert_eq!(candidate_order(&b, &a), Ordering::Greater);
    assert_eq!(candidate_order(&a, &a), Ordering::Equal);
}

#[test]
fn the_preferred_flag_beats_an_earlier_mode() {
    let modes = [(1920, 1080, false), (2560, 1440, true)];
    assert_eq!(
        pick_preferred(&modes, |m| m.2),
        Some((2560, 1440, true)),
        "the PREFERRED-flagged mode must win"
    );
}

#[test]
fn without_a_preferred_flag_the_first_mode_wins() {
    let modes = [(1024, 768, false), (800, 600, false)];
    assert_eq!(pick_preferred(&modes, |m| m.2), Some((1024, 768, false)));
}

#[test]
fn no_modes_yields_none() {
    let empty: [(u16, u16, bool); 0] = [];
    assert_eq!(pick_preferred(&empty, |m| m.2), None);
}

#[test]
fn a_connectors_mode_is_its_first_preferred_one() {
    let mut info = connector(1, 10, 1, true);
    assert_eq!(preferred_mode(&info), None);
    info.modes = vec![mode(800, 600, 75, false, 0), mode(1024, 768, 60, false, 1)];
    assert_eq!(preferred_mode(&info), Some(mode(800, 600, 75, false, 0)));
    info.modes.push(mode(2560, 1440, 60, true, 2));
    info.modes.push(mode(1920, 1080, 60, true, 3));
    assert_eq!(preferred_mode(&info), Some(mode(2560, 1440, 60, true, 2)));
}

#[test]
fn the_mode_suffix_is_width_by_height_at_refresh() {
    // Catches a width/height transposition, which nothing else would.
    assert_eq!(mode_suffix((2560, 1440), 60), "  2560x1440@60");
    assert_eq!(mode_suffix((800, 600), 75), "  800x600@75");
}

#[test]
fn every_kind_of_connector_has_its_conventional_name() {
    let kinds = [
        (1, "VGA"),
        (2, "DVI-I"),
        (3, "DVI-D"),
        (4, "DVI-A"),
        (5, "Composite"),
        (6, "SVIDEO"),
        (7, "LVDS"),
        (8, "Component"),
        (9, "DIN"),
        (10, "DP"),
        (11, "HDMI-A"),
        (12, "HDMI-B"),
        (13, "TV"),
        (14, "eDP"),
        (15, "Virtual"),
        (16, "DSI"),
        (17, "DPI"),
        (18, "Writeback"),
        (19, "SPI"),
        (20, "USB"),
        (0, "Unknown"),
        (21, "Unknown"),
        (u32::MAX, "Unknown"),
    ];
    for (kind, name) in kinds {
        assert_eq!(connector_name(kind, 3), format!("{name}-3"));
    }
    assert_eq!(connector_name(10, u32::MAX), "DP-4294967295");
}

#[test]
fn listing_shows_name_state_and_device() {
    let line = candidate("/dev/dri/card1", "DP-1", true).listing();
    assert!(line.contains("DP-1"), "{line}");
    assert!(line.contains("connected"), "{line}");
    assert!(line.contains("/dev/dri/card1"), "{line}");
}

#[test]
fn listing_marks_a_disconnected_connector() {
    let line = candidate("/dev/dri/card0", "HDMI-A-1", false).listing();
    assert!(line.contains("disconnected"), "{line}");
}

#[test]
fn listing_omits_the_mode_when_there_is_none() {
    // A disconnected connector usually reports no modes; the line must still
    // be well formed rather than printing a bogus resolution.
    let line = candidate("/dev/dri/card0", "DP-2", false).listing();
    assert!(!line.contains('@'), "unexpected mode in {line:?}");
}

#[test]
fn a_listing_line_is_laid_out_in_columns() {
    let mut c = candidate("/dev/dri/card0", "DP-1", true);
    assert_eq!(c.listing(), "DP-1         connected     /dev/dri/card0");
    c.preferred_mode = Some(mode(1920, 1080, 60, true, 0));
    assert_eq!(c.listing(), "DP-1         connected     /dev/dri/card0  1920x1080@60");
    c.name = "A-Very-Long-Name-1".to_string();
    c.connected = false;
    assert_eq!(c.listing(), "A-Very-Long-Name-1 disconnected  /dev/dri/card0  1920x1080@60");
    let line = format!("{:<12} {:<13} {}", c.name, "disconnected", text(&c.device));
    assert!(c.listing().starts_with(&line));
}

#[test]
fn a_device_path_need_not_be_text() {
    let mut c = candidate("", "DP-1", false);
    c.device = b"/dev/dri/card\xff0".to_vec();
    assert_eq!(c.listing(), "DP-1         disconnected  /dev/dri/card\u{fffd}0");
    let err = select(vec![c.clone()], Some("DP-1")).unwrap_err();
    assert!(err.message().contains("exists on /dev/dri/card\u{fffd}0 but"), "{}", err.message());
    // What is shown the same is not the same path.
    let mut other = c.clone();
    other.device = b"/dev/dri/card\xfe0".to_vec();
    assert_eq!(other.listing(), c.listing());
    assert_eq!(candidate_order(&other, &c), Ordering::Less);
    c.connected = true;
    assert_eq!(select(vec![c], None).unwrap().device, b"/dev/dri/card\xff0");
}

#[test]
fn named_output_is_selected() {
    let c = vec![
        candidate("/dev/dri/card0", "eDP-1", true),
        candidate("/dev/dri/card1", "DP-1", true),
    ];
    let picked = select(c, Some("DP-1")).unwrap();
    assert_eq!(picked.name, "DP-1");
    assert_eq!(picked.device, b"/dev/dri/card1");
}

#[test]
fn named_output_matching_is_case_insensitive() {
    let c = vec![candidate("/dev/dri/card0", "DP-1", true)];
    assert_eq!(select(c, Some("dp-1")).unwrap().name, "DP-1");
}

#[test]
fn unknown_name_fails_and_lists_what_exists() {
    let c = vec![
        candidate("/dev/dri/card0", "eDP-1", true),
        candidate("/dev/dri/card0", "HDMI-A-1", false),
    ];
    let err = select(c, Some("BOGUS-9")).unwrap_err();
    assert!(matches!(err, SelectError::Unknown { .. }));
    let err = err.message();
    assert!(err.contains("BOGUS-9"), "{err}");
    assert!(err.contains("eDP-1"), "{err}");
    assert!(err.contains("HDMI-A-1 (disconnected)"), "{err}");
    assert_eq!(
        err,
        "no output named \"BOGUS-9\"; available outputs: eDP-1, HDMI-A-1 (disconnected)"
    );
}

#[test]
fn known_but_disconnected_name_fails_without_falling_back() {
    let c = vec![
        candidate("/dev/dri/card0", "eDP-1", true),
        candidate("/dev/dri/card1", "DP-1", false),
    ];
    let err = select(c, Some("DP-1")).unwrap_err();
    assert!(matches!(err, SelectError::Disconnected { .. }));
    let err = err.message();
    assert!(err.contains("disconnected"), "{err}");
    // The crucial part: it did not silently pick the connected eDP-1.
    assert!(err.contains("DP-1"), "{err}");
    assert_eq!(
        err,
        "output \"DP-1\" exists on /dev/dri/card1 but is disconnected; \
         available outputs: eDP-1, DP-1 (disconnected)"
    );
}

#[test]
fn default_picks_the_first_connected_candidate_in_order() {
    let c = vec![
        candidate("/dev/dri/card0", "VGA-1", false),
        candidate("/dev/dri/card0", "eDP-1", true),
        candidate("/dev/dri/card1", "DP-1", true),
    ];
    assert_eq!(select(c, None).unwrap().name, "eDP-1");
}

#[test]
fn no_connected_output_fails() {
    let c = vec![candidate("/dev/dri/card0", "DP-1", false)];
    let err = select(c, None).unwrap_err();
    assert!(matches!(err, SelectError::NoneConnected { .. }));
    let err = err.message();
    assert!(err.contains("no connected output"), "{err}");
    assert_eq!(err, "no connected output found; available outputs: DP-1 (disconnected)");
}

#[test]
fn no_candidates_at_all_fails() {
    let err = select(Vec::new(), None).unwrap_err().message();
    assert!(err.contains("none"), "{err}");

    let err = select(Vec::new(), Some("DP-1")).unwrap_err().message();
    assert!(err.contains("none"), "{err}");
}

#[test]
fn a_name_that_needs_escapes_is_quoted_in_the_message() {
    let err = select(Vec::new(), Some("a\"b\n")).unwrap_err().message();
    assert_eq!(err, format!("no output named {:?}; available outputs: none", "a\"b\n"));
}

#[test]
fn the_first_of_two_connectors_of_one_name_decides() {
    // The second one is connected, but the first one has the name already.
    let c = vec![
        candidate("/dev/dri/card0", "DP-1", false),
        candidate("/dev/dri/card1", "DP-1", true),
    ];
    assert!(select(c, Some("DP-1")).is_err());
}

#[test]
fn a_broken_device_does_not_hide_a_good_one() {
    let found = enumerate_devices(&vec![
        probe("/dev/null", 1, None),
        probe("/dev/dri/card-nonexistent", 2, None),
        probe("/dev/dri/card0", 3, Some(vec![Some(connector(7, 10, 1, true))])),
    ]);
    assert_eq!(found.len(), 1, "the good card's connectors were lost to a bad device");
    assert_eq!(found[0].name, "DP-1");
    assert_eq!(found[0].device_id, 3);
}

#[test]
fn only_bad_devices_yields_an_empty_list_rather_than_an_error() {
    let found = enumerate_devices(&vec![
        probe("/dev/null", 1, None),
        probe("/dev/dri/card-nonexistent", 2, None),
    ]);
    assert!(found.is_empty());
}

#[test]
fn an_unreadable_connector_is_skipped() {
    let device = Device { path: b"/dev/dri/card0".to_vec(), id: 9 };
    let mut unknown = connector(3, 14, 1, false);
    unknown.state = ConnectionState::Unknown;
    let found = read_connectors(
        &device,
        &vec![Some(connector(1, 10, 1, true)), None, Some(unknown)],
    );
    assert_eq!(found.len(), 2);
    assert_eq!(found[0].name, "DP-1");
    assert!(found[0].connected);
    assert_eq!(found[1].name, "eDP-1");
    assert!(!found[1].connected);
    assert_eq!(found[1].connector, 3);
    assert_eq!(found[1].device_id, 9);
}

#[test]
fn a_render_node_yields_no_connectors() {
    assert!(!may_carry_connectors(Some(NodeKind::Render)));
    assert!(!may_carry_connectors(Some(NodeKind::Control)));
    assert!(may_carry_connectors(Some(NodeKind::Primary)));
    assert!(may_carry_connectors(None));
}

#[test]
fn enumeration_is_sorted_and_deterministic() {
    let card0 = || {
        probe(
            "/dev/dri/card0",
            1,
            Some(vec![Some(connector(9, 10, 1, true)), Some(connector(4, 11, 1, false))]),
        )
    };
    let card1 = || probe("/dev/dri/card1", 2, Some(vec![Some(connector(1, 10, 2, true))]));
    let first = enumerate(vec![card1(), card0()]);
    let second = enumerate(vec![card0(), card1()]);
    assert_eq!(names(&first), names(&second));
    assert_eq!(
        names(&first),
        [
            ("/dev/dri/card0".to_string(), 4),
            ("/dev/dri/card0".to_string(), 9),
            ("/dev/dri/card1".to_string(), 1),
        ]
    );
    // The default output does not depend on the order either.
    assert_eq!(select(first, None).unwrap().name, "DP-1");
}

#[test]
fn every_listed_connector_name_round_trips_through_select() {
    let candidates = enumerate(vec![probe(
        "/dev/dri/card0",
        1,
        Some(vec![
            Some(connector(1, 14, 1, true)),
            Some(connector(2, 10, 1, false)),
            Some(connector(3, 11, 1, true)),
        ]),
    )]);
    for candidate in &candidates {
        let upper = candidate.name.to_uppercase();
        let result = select(candidates.clone(), Some(&upper));
        if candidate.connected {
            let picked = result.expect("connected output should be selectable");
            assert_eq!(picked.name, candidate.name);
        } else {
            let err = result.expect_err("disconnected output must not be selected");
            assert!(err.message().contains("disconnected"), "unexpected error: {err:?}");
        }
    }
}
