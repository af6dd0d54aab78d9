//! DRM device and connector enumeration, and the output selection policy.
//!
//! Discovery is inverted relative to the obvious approach: the connector is
//! what we search for and the card is derived from it. A machine with an
//! integrated GPU plus a discrete card has connectors split across
//! `/dev/dri/card0` and `/dev/dri/card1`, so scanning only the first card would
//! report `DP-1` as missing when it exists.
//!
//! Opening devices and reading their connectors is the caller's; everything that
//! is decided from what was read is decided here.

use vstd::prelude::*;

use crate::order::{int_order, Order};
use crate::paths::{compare_paths, law_path_order_is_total, path_order};
use crate::seqs::{find, lemma_find, lemma_found, lemma_not_found};
use crate::sorting::{is_arrangement, lemma_distinct_sorted_is_unique, sort, views, Ranked};
use crate::text::{
    decimal, equal_ignoring_case, join, lossy, lossy_text, number, pad_right, padded, quote,
    quoted, same_ignoring_case,
};

verus! {

/// A display mode, as far as choosing and printing one needs it.
#[derive(Debug, Clone, Copy, PartialEq, Eq, Structural)]
pub struct Mode {
    pub width: u16,
    pub height: u16,
    /// The refresh rate in Hz.
    pub vrefresh: u32,
    /// Does the display flag this mode as its preferred one?
    pub preferred: bool,
    /// The mode's place in the connector's list, by which it is found again.
    pub index: usize,
}

/// Whether something is plugged into a connector.
#[derive(Debug, Clone, Copy, PartialEq, Eq, Structural)]
pub enum ConnectionState {
    Connected,
    Disconnected,
    Unknown,
}

/// What a device reports about one of its connectors.
#[derive(Debug, Clone)]
pub struct ConnectorInfo {
    /// The connector's id on its device.
    pub handle: u32,
    /// The kernel's number for the kind of connector, e.g. 10 for DisplayPort.
    pub interface: u32,
    /// The number of the connector among those of its kind.
    pub interface_id: u32,
    pub state: ConnectionState,
    pub modes: Vec<Mode>,
}

/// The kinds of node a DRM device may have.
#[derive(Debug, Clone, Copy, PartialEq, Eq, Structural)]
pub enum NodeKind {
    Primary,
    Control,
    Render,
}

/// A DRM device on the seat.
#[derive(Debug, Clone)]
pub struct Device {
    /// Where the device is, e.g. `/dev/dri/card1`: a path is any bytes.
    pub path: Vec<u8>,
    /// The device's number, captured while the node still exists.
    pub id: u64,
}

/// What came of reading a device: its connectors in the device's order, with
/// `None` for one that could not be read, or nothing if the device is unusable.
#[derive(Debug, Clone)]
pub struct DeviceProbe {
    pub device: Device,
    pub connectors: Option<Vec<Option<ConnectorInfo>>>,
}

/// One connector on one DRM device, and everything needed to decide whether to
/// use it or to print it for `--list-outputs`.
#[derive(Debug, Clone)]
pub struct OutputCandidate {
    /// The DRM device this connector lives on, e.g. `/dev/dri/card1`.
    pub device: Vec<u8>,
    /// The device's number. A removed device is recognised by it, because its path
    /// no longer resolves by then.
    pub device_id: u64,
    /// The connector's id on its device.
    pub connector: u32,
    /// Connector name in the conventional form, e.g. `DP-1`, `HDMI-A-1`, `eDP-1`.
    pub name: String,
    pub connected: bool,
    /// The connector's preferred mode, or its first mode if none is flagged
    /// preferred. `None` when the connector reports no modes at all, which is
    /// normal for a disconnected connector.
    pub preferred_mode: Option<Mode>,
}

/// What an [`OutputCandidate`] stands for.
pub struct Candidate {
    pub device: Seq<u8>,
    pub device_id: u64,
    pub connector: u32,
    pub name: Seq<char>,
    pub connected: bool,
    pub preferred_mode: Option<Mode>,
}

impl View for OutputCandidate {
    type V = Candidate;

    open spec fn view(&self) -> Candidate {
        Candidate {
            device: self.device@,
            device_id: self.device_id,
            connector: self.connector,
            name: self.name@,
            connected: self.connected,
            preferred_mode: self.preferred_mode,
        }
    }
}

/// What a [`Device`] stands for: its path and its number.
pub struct DeviceView {
    pub path: Seq<u8>,
    pub id: u64,
}

impl View for Device {
    type V = DeviceView;

    open spec fn view(&self) -> DeviceView {
        DeviceView { path: self.path@, id: self.id }
    }
}

/// The kernel's name for a kind of connector. Numbers without a kind of their own
/// are unknown.
pub open spec fn interface_name(interface: u32) -> Seq<char> {
    match interface {
        1 => "VGA"@,
        2 => "DVI-I"@,
        3 => "DVI-D"@,
        4 => "DVI-A"@,
        5 => "Composite"@,
        6 => "SVIDEO"@,
        7 => "LVDS"@,
        8 => "Component"@,
        9 => "DIN"@,
        10 => "DP"@,
        11 => "HDMI-A"@,
        12 => "HDMI-B"@,
        13 => "TV"@,
        14 => "eDP"@,
        15 => "Virtual"@,
        16 => "DSI"@,
        17 => "DPI"@,
        18 => "Writeback"@,
        19 => "SPI"@,
        20 => "USB"@,
        _ => "Unknown"@,
    }
}

/// The name that `drm::control::connector::Interface::as_str` gives to the
/// interface of that number.
///
/// Trusted to be the table [`interface_name`].
#[verifier::external_body]
fn interface_text(interface: u32) -> (name: String)
    ensures
        name@ == interface_name(interface),
{
    drm::control::connector::Interface::from(interface).as_str().to_string()
}

/// The conventional name of a connector, e.g. `DP-1`.
pub open spec fn connector_name_spec(interface: u32, interface_id: u32) -> Seq<char> {
    interface_name(interface) + "-"@ + decimal(interface_id as nat)
}

/// The conventional name for a connector, matching what every other compositor
/// and `drmModeGetConnector` consumer produces.
pub fn connector_name(interface: u32, interface_id: u32) -> (name: String)
    ensures
        name@ == connector_name_spec(interface, interface_id),
{
    let mut name = interface_text(interface);
    name.append("-");
    name.append(number(interface_id as u64).as_str());
    name
}

/// The `WxH@Hz` suffix of a listing, with two spaces before it.
pub open spec fn mode_suffix_spec(width: nat, height: nat, vrefresh: nat) -> Seq<char> {
    "  "@ + decimal(width) + "x"@ + decimal(height) + "@"@ + decimal(vrefresh)
}

/// The `WxH@Hz` suffix `--list-outputs` appends for a connector with a mode.
///
/// The format is a user-facing contract, since it is how someone discovers what to
/// pass to `--output`.
pub fn mode_suffix(size: (u16, u16), vrefresh: u32) -> (suffix: String)
    ensures
        suffix@ == mode_suffix_spec(size.0 as nat, size.1 as nat, vrefresh as nat),
{
    let mut suffix = "  ".to_owned();
    suffix.append(number(size.0 as u64).as_str());
    suffix.append("x");
    suffix.append(number(size.1 as u64).as_str());
    suffix.append("@");
    suffix.append(number(vrefresh as u64).as_str());
    suffix
}

impl Candidate {
    /// The word for the connector's state.
    pub open spec fn state_text(self) -> Seq<char> {
        if self.connected {
            "connected"@
        } else {
            "disconnected"@
        }
    }

    /// The `--list-outputs` line: name and state in columns, the device, and the
    /// mode where there is one.
    pub open spec fn listing(self) -> Seq<char> {
        let line = pad_right(self.name, 12) + " "@ + pad_right(self.state_text(), 13) + " "@
            + lossy(self.device);
        match self.preferred_mode {
            Some(mode) => line + mode_suffix_spec(
                mode.width as nat,
                mode.height as nat,
                mode.vrefresh as nat,
            ),
            None => line,
        }
    }

    /// How a message lists the connector: its name, marked if it is disconnected.
    pub open spec fn mention(self) -> Seq<char> {
        if self.connected {
            self.name
        } else {
            self.name + " (disconnected)"@
        }
    }
}

impl OutputCandidate {
    /// The `--list-outputs` line.
    pub fn listing(&self) -> (line: String)
        ensures
            line@ == self@.listing(),
    {
        let state = if self.connected {
            "connected"
        } else {
            "disconnected"
        };
        let mut line = padded(self.name.as_str(), 12);
        line.append(" ");
        line.append(padded(state, 13).as_str());
        line.append(" ");
        line.append(lossy_text(&self.device).as_str());
        if let Some(mode) = self.preferred_mode {
            line.append(mode_suffix((mode.width, mode.height), mode.vrefresh).as_str());
        }
        line
    }
}

/// The first item satisfying `preferred`, else the first item at all.
///
/// Picking the wrong mode is the silent "kiosk boots at the wrong resolution" bug.
pub fn pick_preferred<T: Copy, F: Fn(&T) -> bool>(items: &[T], preferred: F) -> (picked: Option<T>)
    requires
        forall|i: int| 0 <= i < items@.len() ==> call_requires(preferred, (&#[trigger] items@[i],)),
    ensures
        match picked {
            None => items@.len() == 0,
            Some(item) => {
                ||| exists|i: int|
                    {
                        &&& 0 <= i < items@.len()
                        &&& item == #[trigger] items@[i]
                        &&& call_ensures(preferred, (&items@[i],), true)
                        &&& forall|j: int|
                            0 <= j < i ==> call_ensures(preferred, (&#[trigger] items@[j],), false)
                    }
                ||| {
                    &&& items@.len() > 0
                    &&& item == items@[0]
                    &&& forall|j: int|
                        0 <= j < items@.len() ==> call_ensures(
                            preferred,
                            (&#[trigger] items@[j],),
                            false,
                        )
                }
            },
        },
{
    for i in 0..items.len()
        invariant
            forall|j: int|
                0 <= j < items@.len() ==> call_requires(preferred, (&#[trigger] items@[j],)),
            forall|j: int|
                0 <= j < i ==> call_ensures(preferred, (&#[trigger] items@[j],), false),
    {
        if preferred(&items[i]) {
            assert(items@[i as int] == items[i as int]);
            return Some(items[i]);
        }
    }
    if items.len() > 0 {
        Some(items[0])
    } else {
        None
    }
}

/// The mode to drive a connector at: the first one flagged preferred, else the
/// first one, else none.
pub open spec fn preferred_mode_spec(modes: Seq<Mode>) -> Option<Mode> {
    match find(modes, |mode: Mode| mode.preferred) {
        Some(i) => Some(modes[i]),
        None => if modes.len() > 0 {
            Some(modes[0])
        } else {
            None
        },
    }
}

/// Pick a connector's preferred mode, falling back to its first mode.
pub fn preferred_mode(info: &ConnectorInfo) -> (mode: Option<Mode>)
    ensures
        mode == preferred_mode_spec(info.modes@),
{
    let flagged = |mode: &Mode| -> (yes: bool)
        ensures
            yes == mode.preferred,
        { mode.preferred };
    let picked = pick_preferred(info.modes.as_slice(), flagged);
    proof {
        let wanted = |mode: Mode| mode.preferred;
        lemma_find(info.modes@, wanted);
        if let Some(mode) = picked {
            if exists|i: int| 0 <= i < info.modes@.len() && #[trigger] info.modes@[i].preferred {
                let i = choose|i: int|
                    {
                        &&& 0 <= i < info.modes@.len()
                        &&& mode == #[trigger] info.modes@[i]
                        &&& call_ensures(flagged, (&info.modes@[i],), true)
                        &&& forall|j: int|
                            0 <= j < i ==> call_ensures(
                                flagged,
                                (&#[trigger] info.modes@[j],),
                                false,
                            )
                    };
                lemma_found(info.modes@, wanted, i);
            } else {
                lemma_not_found(info.modes@, wanted);
            }
        }
    }
    picked
}

/// How one candidate stands to another: by device path, then by connector id.
pub open spec fn candidate_rank(a: Candidate, b: Candidate) -> Order {
    if path_order(a.device, b.device) == Order::Equal {
        int_order(a.connector as int, b.connector as int)
    } else {
        path_order(a.device, b.device)
    }
}

impl Ranked for OutputCandidate {
    open spec fn order(a: Candidate, b: Candidate) -> Order {
        candidate_rank(a, b)
    }

    proof fn order_is_total(a: Candidate, b: Candidate, c: Candidate) {
        lemma_path_order_composes(a.device, b.device, c.device);
    }

    fn compare(&self, other: &Self) -> (order: Order) {
        let by_device = compare_paths(&self.device, &other.device);
        if by_device != Order::Equal {
            by_device
        } else if self.connector < other.connector {
            Order::Less
        } else if self.connector == other.connector {
            Order::Equal
        } else {
            Order::Greater
        }
    }
}

proof fn lemma_path_order_composes(a: Seq<u8>, b: Seq<u8>, c: Seq<u8>)
    ensures
        path_order(a, b) == path_order(b, a).flip(),
        path_order(a, b) == Order::Less && path_order(b, c) != Order::Greater ==> path_order(a, c)
            == Order::Less,
        path_order(a, b) != Order::Greater && path_order(b, c) == Order::Less ==> path_order(a, c)
            == Order::Less,
        path_order(a, b) == Order::Equal && path_order(b, c) == Order::Equal ==> path_order(a, c)
            == Order::Equal,
{
    law_path_order_is_total(a, b, c);
    law_path_order_is_total(b, c, a);
    law_path_order_is_total(a, c, b);
}

/// Total order over candidates: by device path, then connector id.
///
/// Determinism matters — without it the default output would follow udev
/// enumeration order and could differ between boots.
pub fn candidate_order(a: &OutputCandidate, b: &OutputCandidate) -> (order: core::cmp::Ordering)
    ensures
        order == (match candidate_rank(a@, b@) {
            Order::Less => core::cmp::Ordering::Less,
            Order::Equal => core::cmp::Ordering::Equal,
            Order::Greater => core::cmp::Ordering::Greater,
        }),
{
    match a.compare(b) {
        Order::Less => core::cmp::Ordering::Less,
        Order::Equal => core::cmp::Ordering::Equal,
        Order::Greater => core::cmp::Ordering::Greater,
    }
}

/// Should a device be opened to look for connectors? Only primary nodes carry
/// connectors; a node of unknown kind is tried.
pub fn may_carry_connectors(node: Option<NodeKind>) -> (open: bool)
    ensures
        open == (node is None || node == Some(NodeKind::Primary)),
{
    match node {
        Some(kind) => kind == NodeKind::Primary,
        None => true,
    }
}

/// The candidate that a connector of `device` is.
pub open spec fn candidate_of(device: DeviceView, info: ConnectorInfo) -> Candidate {
    Candidate {
        device: device.path,
        device_id: device.id,
        connector: info.handle,
        name: connector_name_spec(info.interface, info.interface_id),
        connected: info.state == ConnectionState::Connected,
        preferred_mode: preferred_mode_spec(info.modes@),
    }
}

/// The candidates on one device: its readable connectors, in the device's order.
pub open spec fn candidates_of(
    device: DeviceView,
    connectors: Seq<Option<ConnectorInfo>>,
) -> Seq<Candidate> {
    connectors.filter_map(
        |read: Option<ConnectorInfo>|
            match read {
                Some(info) => Some(candidate_of(device, info)),
                None => None,
            },
    )
}

/// Turn a device's connectors into candidates, skipping those that could not be
/// read.
pub fn read_connectors(device: &Device, connectors: &Vec<Option<ConnectorInfo>>) -> (found: Vec<
    OutputCandidate,
>)
    ensures
        views(found@) == candidates_of(device@, connectors@),
{
    let ghost read = |read: Option<ConnectorInfo>|
        match read {
            Some(info) => Some(candidate_of(device@, info)),
            None => None,
        };
    let mut found: Vec<OutputCandidate> = Vec::new();
    assert(connectors@.take(0) == Seq::<Option<ConnectorInfo>>::empty());
    assert(connectors@.take(0).filter_map(read) == Seq::<Candidate>::empty()) by {
        reveal(Seq::filter_map);
    }
    assert(views(found@) == Seq::<Candidate>::empty());
    for i in 0..connectors.len()
        invariant
            read == (|read: Option<ConnectorInfo>|
                match read {
                    Some(info) => Some(candidate_of(device@, info)),
                    None => None,
                }),
            views(found@) == connectors@.take(i as int).filter_map(read),
    {
        let ghost before = found@;
        proof {
            connectors@.lemma_filter_map_take_succ(read, i as int);
        }
        if let Some(info) = &connectors[i] {
            let candidate = OutputCandidate {
                device: device.path.clone(),
                device_id: device.id,
                connector: info.handle,
                name: connector_name(info.interface, info.interface_id),
                connected: info.state == ConnectionState::Connected,
                preferred_mode: preferred_mode(info),
            };
            found.push(candidate);
            assert(views(found@) == views(before) + seq![candidate@]);
        } else {
            assert(views(found@) == views(before) + Seq::<Candidate>::empty());
        }
    }
    assert(connectors@.take(connectors.len() as int) == connectors@);
    found
}

/// What a probe found: nothing, if the device is unusable.
pub open spec fn probe_finds(probe: DeviceProbe) -> Seq<Candidate> {
    match probe.connectors {
        Some(connectors) => candidates_of(probe.device@, connectors@),
        None => Seq::empty(),
    }
}

/// What all the probes found, one after the other.
pub open spec fn probes_find(probes: Seq<DeviceProbe>) -> Seq<Candidate>
    decreases probes.len(),
{
    if probes.len() == 0 {
        Seq::empty()
    } else {
        probes_find(probes.drop_last()) + probe_finds(probes.last())
    }
}

/// Collect the candidates of an explicit list of devices, sorted by
/// [`candidate_order`].
///
/// One unusable card does not prevent us finding the connector on another.
pub fn enumerate_devices(probes: &Vec<DeviceProbe>) -> (candidates: Vec<OutputCandidate>)
    ensures
        is_arrangement::<OutputCandidate>(views(candidates@), probes_find(probes@)),
{
    let mut candidates: Vec<OutputCandidate> = Vec::new();
    assert(views(candidates@) == probes_find(probes@.take(0)));
    for i in 0..probes.len()
        invariant
            views(candidates@) == probes_find(probes@.take(i as int)),
    {
        assert(probes@.take(i + 1).drop_last() == probes@.take(i as int));
        assert(probes@.take(i + 1).last() == probes@[i as int]);
        let ghost before = candidates@;
        let probe = &probes[i];
        if let Some(connectors) = &probe.connectors {
            let mut found = read_connectors(&probe.device, connectors);
            let ghost added = found@;
            candidates.append(&mut found);
            assert(views(candidates@) == views(before) + views(added));
        } else {
            assert(views(candidates@) == views(before) + Seq::<Candidate>::empty());
        }
    }
    assert(probes@.take(probes.len() as int) == probes@);
    sort(candidates)
}

impl View for DeviceProbe {
    type V = DeviceProbe;

    open spec fn view(&self) -> DeviceProbe {
        *self
    }
}

impl Ranked for DeviceProbe {
    open spec fn order(a: DeviceProbe, b: DeviceProbe) -> Order {
        path_order(a.device.path@, b.device.path@)
    }

    proof fn order_is_total(a: DeviceProbe, b: DeviceProbe, c: DeviceProbe) {
        lemma_path_order_composes(a.device.path@, b.device.path@, c.device.path@);
    }

    fn compare(&self, other: &Self) -> (order: Order) {
        compare_paths(&self.device.path, &other.device.path)
    }
}

/// Enumerate every connector on every probed DRM device of the seat.
///
/// Devices are taken in the order of their paths and candidates are returned
/// sorted by `(device, connector id)`, so that the default "first connected
/// connector" does not depend on the order in which the devices turned up.
pub fn enumerate(probes: Vec<DeviceProbe>) -> (candidates: Vec<OutputCandidate>)
    ensures
        exists|ordered: Seq<DeviceProbe>|
            {
                &&& #[trigger] is_arrangement::<DeviceProbe>(ordered, probes@)
                &&& is_arrangement::<OutputCandidate>(views(candidates@), probes_find(ordered))
            },
{
    assert(views(probes@) == probes@);
    let ordered = sort(probes);
    assert(views(ordered@) == ordered@);
    enumerate_devices(&ordered)
}

/// The candidates of `candidates`, as a message lists them.
pub open spec fn available(candidates: Seq<Candidate>) -> Seq<char> {
    if candidates.len() == 0 {
        "none"@
    } else {
        join(candidates.map_values(|c: Candidate| c.mention()), ", "@)
    }
}

/// The first candidate of that name, whatever the case of its letters.
pub open spec fn named(candidates: Seq<Candidate>, name: Seq<char>) -> Option<int> {
    find(candidates, |c: Candidate| same_ignoring_case(c.name, name))
}

/// The first connected candidate.
pub open spec fn first_connected(candidates: Seq<Candidate>) -> Option<int> {
    find(candidates, |c: Candidate| c.connected)
}

/// The candidate to use: the one of the wanted name, if it is connected, and
/// without a wanted name the first connected one.
pub open spec fn chosen(candidates: Seq<Candidate>, wanted: Option<Seq<char>>) -> Option<int> {
    match wanted {
        Some(name) => match named(candidates, name) {
            Some(i) => if candidates[i].connected {
                Some(i)
            } else {
                None
            },
            None => None,
        },
        None => first_connected(candidates),
    }
}

/// Why no output was selected.
#[derive(Debug)]
pub enum SelectError {
    /// The wanted connector exists but nothing is plugged into it.
    Disconnected { name: String, device: Vec<u8>, available: String },
    /// No connector has the wanted name.
    Unknown { name: String, available: String },
    /// No name was given and nothing is connected.
    NoneConnected { available: String },
}

impl SelectError {
    /// What the user is told.
    pub open spec fn text(self) -> Seq<char> {
        match self {
            SelectError::Disconnected { name, device, available } => "output "@ + quoted(name@)
                + " exists on "@ + lossy(device@) + " but is disconnected; available outputs: "@
                + available@,
            SelectError::Unknown { name, available } => "no output named "@ + quoted(name@)
                + "; available outputs: "@ + available@,
            SelectError::NoneConnected { available } =>
                "no connected output found; available outputs: "@ + available@,
        }
    }

    /// What the user is told.
    pub fn message(&self) -> (text: String)
        ensures
            text@ == self.text(),
    {
        match self {
            SelectError::Disconnected { name, device, available } => {
                let mut text = "output ".to_owned();
                text.append(quote(name.as_str()).as_str());
                text.append(" exists on ");
                text.append(lossy_text(device).as_str());
                text.append(" but is disconnected; available outputs: ");
                text.append(available.as_str());
                text
            },
            SelectError::Unknown { name, available } => {
                let mut text = "no output named ".to_owned();
                text.append(quote(name.as_str()).as_str());
                text.append("; available outputs: ");
                text.append(available.as_str());
                text
            },
            SelectError::NoneConnected { available } => {
                let mut text = "no connected output found; available outputs: ".to_owned();
                text.append(available.as_str());
                text
            },
        }
    }
}

fn list_available(candidates: &Vec<OutputCandidate>) -> (text: String)
    ensures
        text@ == available(views(candidates@)),
{
    if candidates.len() == 0 {
        return "none".to_owned();
    }
    let ghost mentions = views(candidates@).map_values(|c: Candidate| c.mention());
    let mut text = String::new();
    assert(text@ == join(mentions.take(0), ", "@));
    for i in 0..candidates.len()
        invariant
            mentions == views(candidates@).map_values(|c: Candidate| c.mention()),
            text@ == join(mentions.take(i as int), ", "@),
    {
        let candidate = &candidates[i];
        assert(mentions.take(i + 1).drop_last() == mentions.take(i as int));
        assert(mentions.take(i + 1).last() == candidate@.mention());
        let ghost before = text@;
        if i > 0 {
            text.append(", ");
        }
        text.append(candidate.name.as_str());
        if !candidate.connected {
            text.append(" (disconnected)");
        }
        if i > 0 {
            assert(text@ == before + ", "@ + candidate@.mention());
        } else {
            assert(mentions.take(1)[0] == candidate@.mention());
            assert(text@ == candidate@.mention());
        }
    }
    assert(mentions.take(candidates.len() as int) == mentions);
    text
}

/// Apply the output selection policy.
///
/// With `wanted` set, only that connector will do; there is no fallback,
/// because a kiosk that boots to the wrong monitor is worse than one that fails
/// loudly. With `wanted` unset, the first connected connector wins.
pub fn select(candidates: Vec<OutputCandidate>, wanted: Option<&str>) -> (selected: Result<
    OutputCandidate,
    SelectError,
>)
    ensures
        ({
            let all = views(candidates@);
            match (selected, wanted) {
                (Ok(candidate), Some(name)) => {
                    &&& chosen(all, Some(name@)) matches Some(i)
                    &&& candidate@ == all[i]
                },
                (Ok(candidate), None) => {
                    &&& chosen(all, None) matches Some(i)
                    &&& candidate@ == all[i]
                },
                (Err(SelectError::Disconnected { name, device, available: listed }), Some(sought)) => {
                    &&& named(all, sought@) matches Some(i)
                    &&& !all[i].connected
                    &&& name@ == all[i].name
                    &&& device@ == all[i].device
                    &&& listed@ == available(all)
                },
                (Err(SelectError::Unknown { name, available: listed }), Some(sought)) => {
                    &&& named(all, sought@) is None
                    &&& name@ == sought@
                    &&& listed@ == available(all)
                },
                (Err(SelectError::NoneConnected { available: listed }), None) => {
                    &&& first_connected(all) is None
                    &&& listed@ == available(all)
                },
                _ => false,
            }
        }),
{
    let ghost all = views(candidates@);
    let listed = list_available(&candidates);
    let mut rest = candidates;
    let count: usize = rest.len();
    match wanted {
        Some(name) => {
            let ghost sought = |c: Candidate| same_ignoring_case(c.name, name@);
            for i in 0..count
                invariant
                    count == rest.len(),
                    rest@ == candidates@,
                    all == views(candidates@),
                    wanted == Some(name),
                    sought == (|c: Candidate| same_ignoring_case(c.name, name@)),
                    listed@ == available(all),
                    forall|j: int| 0 <= j < i ==> !sought(#[trigger] all[j]),
            {
                assert(all[i as int] == rest[i as int]@);
                if equal_ignoring_case(rest[i].name.as_str(), name) {
                    proof {
                        lemma_found(all, sought, i as int);
                    }
                    let found = rest.swap_remove(i);
                    if found.connected {
                        return Ok(found);
                    }
                    return Err(
                        SelectError::Disconnected {
                            name: found.name,
                            device: found.device,
                            available: listed,
                        },
                    );
                }
            }
            proof {
                lemma_not_found(all, sought);
            }
            Err(SelectError::Unknown { name: name.to_owned(), available: listed })
        },
        None => {
            let ghost sought = |c: Candidate| c.connected;
            for i in 0..count
                invariant
                    count == rest.len(),
                    rest@ == candidates@,
                    all == views(candidates@),
                    wanted is None,
                    sought == (|c: Candidate| c.connected),
                    forall|j: int| 0 <= j < i ==> !sought(#[trigger] all[j]),
            {
                assert(all[i as int] == rest[i as int]@);
                if rest[i].connected {
                    proof {
                        lemma_found(all, sought, i as int);
                    }
                    return Ok(rest.swap_remove(i));
                }
            }
            proof {
                lemma_not_found(all, sought);
            }
            Err(SelectError::NoneConnected { available: listed })
        },
    }
}

/// With a name given, what is chosen is connected and has that name: no other
/// output will do, whatever else is connected.
pub proof fn law_no_fallback(candidates: Seq<Candidate>, name: Seq<char>)
    ensures
        chosen(candidates, Some(name)) matches Some(i) ==> {
            &&& 0 <= i < candidates.len()
            &&& candidates[i].connected
            &&& same_ignoring_case(candidates[i].name, name)
        },
{
    lemma_find(candidates, |c: Candidate| same_ignoring_case(c.name, name));
}

/// Without a name given, the first connected output is chosen: it is connected, every one
/// before it is not, and nothing is chosen only where nothing is connected.
pub proof fn law_the_first_connected_is_chosen(candidates: Seq<Candidate>)
    ensures
        match chosen(candidates, None) {
            Some(i) => {
                &&& 0 <= i < candidates.len()
                &&& candidates[i].connected
                &&& forall|j: int| 0 <= j < i ==> !(#[trigger] candidates[j]).connected
            },
            None => forall|j: int|
                0 <= j < candidates.len() ==> !(#[trigger] candidates[j]).connected,
        },
{
    lemma_find(candidates, |c: Candidate| c.connected);
}

/// With a name given, nothing is chosen only where the first output of that name is
/// disconnected or there is none of that name.
pub proof fn law_a_named_output_is_found(candidates: Seq<Candidate>, name: Seq<char>)
    requires
        chosen(candidates, Some(name)) is None,
    ensures
        (forall|i: int|
            0 <= i < candidates.len() ==> !same_ignoring_case(
                (#[trigger] candidates[i]).name,
                name,
            )) || exists|i: int|
            {
                &&& 0 <= i < candidates.len()
                &&& same_ignoring_case((#[trigger] candidates[i]).name, name)
                &&& !candidates[i].connected
                &&& forall|j: int|
                    0 <= j < i ==> !same_ignoring_case((#[trigger] candidates[j]).name, name)
            },
{
    let sought = |c: Candidate| same_ignoring_case(c.name, name);
    lemma_find(candidates, sought);
    if let Some(i) = named(candidates, name) {
        assert(sought(candidates[i]));
        assert forall|j: int| 0 <= j < i implies !same_ignoring_case(
            (#[trigger] candidates[j]).name,
            name,
        ) by {
            assert(!sought(candidates[j]));
        }
    } else {
        assert forall|j: int| 0 <= j < candidates.len() implies !same_ignoring_case(
            (#[trigger] candidates[j]).name,
            name,
        ) by {
            assert(!sought(candidates[j]));
        }
    }
}

/// The case of the letters of a wanted name does not matter.
pub proof fn law_selection_ignores_case(
    candidates: Seq<Candidate>,
    name: Seq<char>,
    other: Seq<char>,
)
    requires
        same_ignoring_case(name, other),
    ensures
        chosen(candidates, Some(name)) == chosen(candidates, Some(other)),
{
    let one = |c: Candidate| same_ignoring_case(c.name, name);
    let two = |c: Candidate| same_ignoring_case(c.name, other);
    lemma_find(candidates, one);
    lemma_find(candidates, two);
    if let Some(i) = named(candidates, name) {
        assert(two(candidates[i]));
    }
    if let Some(i) = named(candidates, other) {
        assert(one(candidates[i]));
    }
}

/// Whatever is listed can be named: the name of a connected candidate selects it,
/// in any case, and that of a disconnected one selects nothing, unless a candidate
/// before it has the same name.
pub proof fn law_listed_names_round_trip(candidates: Seq<Candidate>, i: int, name: Seq<char>)
    requires
        0 <= i < candidates.len(),
        same_ignoring_case(candidates[i].name, name),
        forall|j: int|
            0 <= j < i ==> !same_ignoring_case(#[trigger] candidates[j].name, candidates[i].name),
    ensures
        chosen(candidates, Some(name)) == (if candidates[i].connected {
            Some(i)
        } else {
            None
        }),
{
    lemma_found(candidates, |c: Candidate| same_ignoring_case(c.name, name), i);
}

proof fn lemma_probes_find_adds(a: Seq<DeviceProbe>, b: Seq<DeviceProbe>)
    ensures
        probes_find(a + b) == probes_find(a) + probes_find(b),
    decreases b.len(),
{
    if b.len() == 0 {
        assert(a + b == a);
    } else {
        lemma_probes_find_adds(a, b.drop_last());
        assert((a + b).drop_last() == a + b.drop_last());
    }
}

/// What is found, counted, does not depend on the order of the probes.
pub proof fn lemma_probes_find_the_same(a: Seq<DeviceProbe>, b: Seq<DeviceProbe>)
    requires
        a.to_multiset() == b.to_multiset(),
    ensures
        probes_find(a).to_multiset() == probes_find(b).to_multiset(),
    decreases a.len(),
{
    broadcast use {
        vstd::seq_lib::group_to_multiset_ensures,
        vstd::multiset::group_multiset_axioms,
    };

    assert(a.to_multiset().len() == a.len());
    assert(b.to_multiset().len() == b.len());
    if a.len() > 0 {
        let probe = a.last();
        assert(a.contains(probe));
        assert(b.to_multiset().count(probe) > 0);
        let k = b.index_of(probe);
        let front = b.take(k);
        let back = b.skip(k + 1);
        let one = seq![probe];
        assert(b == front + one + back);
        assert(a == a.drop_last() + one);
        lemma_probes_find_adds(front + one, back);
        lemma_probes_find_adds(front, one);
        lemma_probes_find_adds(front, back);
        lemma_probes_find_adds(a.drop_last(), one);
        assert(one.drop_last() == Seq::<DeviceProbe>::empty());
        vstd::seq_lib::lemma_multiset_commutative(front + one, back);
        vstd::seq_lib::lemma_multiset_commutative(front, one);
        vstd::seq_lib::lemma_multiset_commutative(front, back);
        vstd::seq_lib::lemma_multiset_commutative(a.drop_last(), one);
        assert forall|x: DeviceProbe|
            a.drop_last().to_multiset().count(x) == #[trigger] (front + back).to_multiset().count(
                x,
            ) by {
            let n = one.to_multiset().count(x);
            assert((a.drop_last() + one).to_multiset().count(x) == a.drop_last().to_multiset().count(
                x,
            ) + n);
            assert((front + one).to_multiset().count(x) == front.to_multiset().count(x) + n);
            assert((front + one + back).to_multiset().count(x) == (front
                + one).to_multiset().count(x) + back.to_multiset().count(x));
            assert((front + back).to_multiset().count(x) == front.to_multiset().count(x)
                + back.to_multiset().count(x));
        }
        assert(a.drop_last().to_multiset() =~= (front + back).to_multiset());
        lemma_probes_find_the_same(a.drop_last(), front + back);
        let found = probe_finds(probe);
        assert(probes_find(one) == found) by {
            assert(probes_find(one) == probes_find(one.drop_last()) + found);
        }
        let f = probes_find(front);
        let g = probes_find(back);
        vstd::seq_lib::lemma_multiset_commutative(f + found, g);
        vstd::seq_lib::lemma_multiset_commutative(f, found);
        vstd::seq_lib::lemma_multiset_commutative(f, g);
        vstd::seq_lib::lemma_multiset_commutative(probes_find(a.drop_last()), found);
        assert(probes_find(a).to_multiset() =~= probes_find(b).to_multiset());
    }
}

/// The candidates do not depend on the order in which the devices turned up, so
/// neither does the default output: one boot enumerates what the next one does, as
/// long as no two connectors share a device and an id.
pub proof fn law_enumeration_forgets_the_order(
    probes: Seq<DeviceProbe>,
    others: Seq<DeviceProbe>,
    candidates: Seq<Candidate>,
    again: Seq<Candidate>,
)
    requires
        others.to_multiset() == probes.to_multiset(),
        forall|i: int, j: int|
            0 <= i < j < probes_find(probes).len() ==> candidate_rank(
                #[trigger] probes_find(probes)[i],
                #[trigger] probes_find(probes)[j],
            ) != Order::Equal,
        exists|ordered: Seq<DeviceProbe>|
            {
                &&& #[trigger] is_arrangement::<DeviceProbe>(ordered, probes)
                &&& is_arrangement::<OutputCandidate>(candidates, probes_find(ordered))
            },
        exists|ordered: Seq<DeviceProbe>|
            {
                &&& #[trigger] is_arrangement::<DeviceProbe>(ordered, others)
                &&& is_arrangement::<OutputCandidate>(again, probes_find(ordered))
            },
    ensures
        candidates == again,
{
    let one = choose|ordered: Seq<DeviceProbe>|
        {
            &&& #[trigger] is_arrangement::<DeviceProbe>(ordered, probes)
            &&& is_arrangement::<OutputCandidate>(candidates, probes_find(ordered))
        };
    let two = choose|ordered: Seq<DeviceProbe>|
        {
            &&& #[trigger] is_arrangement::<DeviceProbe>(ordered, others)
            &&& is_arrangement::<OutputCandidate>(again, probes_find(ordered))
        };
    lemma_probes_find_the_same(one, probes);
    lemma_probes_find_the_same(two, probes);
    lemma_distinct_sorted_is_unique::<OutputCandidate>(probes_find(probes), candidates, again);
}

} // verus!
