//! Outputs: which there are, which one is used, how it is driven and how it is listed.

use vstd::prelude::*;

use crate::backend::discovery::{
    available, candidate_of, candidate_order, candidates_of, connector_name, enumerate,
    enumerate_devices, interface_name, may_carry_connectors, mode_suffix, pick_preferred,
    preferred_mode,
    preferred_mode_spec, probe_finds, probes_find, read_connectors, select, Candidate,
    ConnectionState, ConnectorInfo, Device, DeviceProbe, DeviceView, Mode, NodeKind,
    OutputCandidate, SelectError,
};
use crate::backend::drm::{
    build_output, first_crtc, pick_crtc, BackendInit, DrmBackend, InitError,
};
use crate::cli::Cli;
use crate::order::Order;
use crate::paths::path_order;
use crate::run::{list_outputs, start, Startup};
use crate::seqs::lemma_find;
use crate::sorting::{is_arrangement, is_sorted, sort, views, Ranked};
use crate::state::{rect_of, size_of, Output, Subpixel, Transform};
use crate::geometry::{Rectangle, Size};
use crate::text::{decimal, join, lossy, pad_right, quoted, same_ignoring_case};

verus! {

/// Is the candidate at `i` the first of that name, whatever the case of its letters?
pub open spec fn is_first_named(candidates: Seq<OutputCandidate>, name: Seq<char>, i: int) -> bool {
    &&& 0 <= i < candidates.len()
    &&& same_ignoring_case(candidates[i].name@, name)
    &&& forall|j: int|
        0 <= j < i ==> !same_ignoring_case((#[trigger] candidates[j]).name@, name)
}

/// Without a name, the first connected output is selected, and selection fails only where
/// nothing is connected.
pub proof fn law_select_takes_the_first_connected(
    candidates: Vec<OutputCandidate>,
    selected: Result<OutputCandidate, SelectError>,
)
    requires
        call_ensures(select, (candidates, None::<&str>), selected),
    ensures
        match selected {
            Ok(candidate) => exists|i: int|
                {
                    &&& 0 <= i < candidates@.len()
                    &&& candidate@ == (#[trigger] candidates@[i])@
                    &&& candidates@[i].connected
                    &&& forall|j: int| 0 <= j < i ==> !(#[trigger] candidates@[j]).connected
                },
            Err(SelectError::NoneConnected { available: listed }) => {
                &&& forall|j: int|
                    0 <= j < candidates@.len() ==> !(#[trigger] candidates@[j]).connected
                &&& listed@ == available(views(candidates@))
            },
            Err(_) => false,
        },
{
    let all = views(candidates@);
    lemma_find(all, |c: Candidate| c.connected);
    assert forall|j: int| 0 <= j < all.len() implies #[trigger] all[j] == candidates@[j]@ by {}
    assert forall|j: int| 0 <= j < all.len() implies (#[trigger] candidates@[j]).connected
        == all[j].connected by {}
}

/// With a name, the first output of that name is selected, whatever the case of its
/// letters, if it is connected; no other will do, and each failure says what is wrong.
pub proof fn law_select_takes_the_named_one(
    candidates: Vec<OutputCandidate>,
    name: &str,
    selected: Result<OutputCandidate, SelectError>,
)
    requires
        call_ensures(select, (candidates, Some(name)), selected),
    ensures
        match selected {
            Ok(candidate) => exists|i: int| #[trigger]
                is_first_named(candidates@, name@, i) && candidates@[i].connected && candidate@
                    == candidates@[i]@,
            Err(SelectError::Disconnected { name: found, device, available: listed }) => {
                &&& exists|i: int| #[trigger]
                    is_first_named(candidates@, name@, i) && !candidates@[i].connected && found@
                        == candidates@[i].name@ && device@ == candidates@[i].device@
                &&& listed@ == available(views(candidates@))
            },
            Err(SelectError::Unknown { name: sought, available: listed }) => {
                &&& sought@ == name@
                &&& forall|j: int|
                    0 <= j < candidates@.len() ==> !same_ignoring_case(
                        (#[trigger] candidates@[j]).name@,
                        name@,
                    )
                &&& listed@ == available(views(candidates@))
            },
            Err(SelectError::NoneConnected { .. }) => false,
        },
{
    let all = views(candidates@);
    let sought = |c: Candidate| same_ignoring_case(c.name, name@);
    lemma_find(all, sought);
    assert forall|j: int| 0 <= j < all.len() implies #[trigger] all[j] == candidates@[j]@ by {}
    assert forall|j: int| 0 <= j < all.len() implies same_ignoring_case(
        (#[trigger] candidates@[j]).name@,
        name@,
    ) == sought(all[j]) by {}
    if let Some(i) = crate::backend::discovery::named(all, name@) {
        assert(is_first_named(candidates@, name@, i));
    }
}

/// Starting lists the outputs exactly if that was asked for, and otherwise runs on the
/// selected one or fails as selecting does.
pub proof fn law_start_lists_or_selects(
    cli: &Cli,
    candidates: Vec<OutputCandidate>,
    seat: &str,
    startup: Startup,
)
    requires
        call_ensures(start, (cli, candidates, seat), startup),
    ensures
        startup is List <==> cli.list_outputs,
        startup matches Startup::List(lines) ==> lines@.map_values(|line: String| line@)
            == crate::run::listing(views(candidates@), seat@),
        startup matches Startup::Run(candidate) ==> match cli.output {
            Some(name) => exists|i: int| #[trigger]
                is_first_named(candidates@, name@, i) && candidates@[i].connected && candidate@
                    == candidates@[i]@,
            None => exists|i: int|
                {
                    &&& 0 <= i < candidates@.len()
                    &&& candidate@ == (#[trigger] candidates@[i])@
                    &&& candidates@[i].connected
                    &&& forall|j: int| 0 <= j < i ==> !(#[trigger] candidates@[j]).connected
                },
        },
        startup matches Startup::Fail(SelectError::Unknown { .. }) ==> (cli.output matches Some(
            name,
        ) && forall|j: int|
            0 <= j < candidates@.len() ==> !same_ignoring_case(
                (#[trigger] candidates@[j]).name@,
                name@,
            )),
        startup matches Startup::Fail(SelectError::Disconnected { .. }) ==> (cli.output matches Some(
            name,
        ) && exists|i: int| #[trigger]
            is_first_named(candidates@, name@, i) && !candidates@[i].connected),
        startup matches Startup::Fail(SelectError::NoneConnected { .. }) ==> cli.output is None
            && forall|j: int|
            0 <= j < candidates@.len() ==> !(#[trigger] candidates@[j]).connected,
{
    let all = views(candidates@);
    assert forall|j: int| 0 <= j < all.len() implies #[trigger] all[j] == candidates@[j]@ by {}
    match cli.output {
        Some(name) => {
            let sought = |c: Candidate| same_ignoring_case(c.name, name@);
            lemma_find(all, sought);
            assert forall|j: int| 0 <= j < all.len() implies same_ignoring_case(
                (#[trigger] candidates@[j]).name@,
                name@,
            ) == sought(all[j]) by {}
            if let Some(i) = crate::backend::discovery::named(all, name@) {
                assert(is_first_named(candidates@, name@, i));
            }
        },
        None => {
            lemma_find(all, |c: Candidate| c.connected);
            assert forall|j: int| 0 <= j < all.len() implies (#[trigger] candidates@[j]).connected
                == all[j].connected by {}
        },
    }
}

/// A listing has a line for each output, in order, and says so where there is none.
pub proof fn law_every_output_is_listed(
    candidates: &Vec<OutputCandidate>,
    seat: &str,
    lines: Vec<String>,
)
    requires
        call_ensures(list_outputs, (candidates, seat), lines),
    ensures
        candidates@.len() > 0 ==> lines@.len() == candidates@.len() && forall|i: int|
            0 <= i < lines@.len() ==> (#[trigger] lines@[i])@ == candidates@[i]@.listing(),
        candidates@.len() == 0 ==> lines@.len() == 1 && lines@[0]@
            == "no DRM connectors found on seat "@ + quoted(seat@),
{
    let said = lines@.map_values(|line: String| line@);
    assert(said == crate::run::listing(views(candidates@), seat@));
    assert(said.len() == lines@.len());
    assert forall|i: int| 0 <= i < lines@.len() implies said[i] == (#[trigger] lines@[i])@ by {}
    if candidates@.len() == 0 {
        assert(said[0] == lines@[0]@);
    }
}

/// A line of a listing: the name in twelve columns, the state in thirteen, the device,
/// and the mode where there is one.
pub proof fn law_what_a_listing_says(candidate: &OutputCandidate, line: String)
    requires
        call_ensures(OutputCandidate::listing, (candidate,), line),
    ensures
        ({
            let head = pad_right(candidate.name@, 12) + " "@ + pad_right(
                if candidate.connected {
                    "connected"@
                } else {
                    "disconnected"@
                },
                13,
            ) + " "@ + lossy(candidate.device@);
            match candidate.preferred_mode {
                Some(mode) => line@ == head + ("  "@ + decimal(mode.width as nat) + "x"@ + decimal(
                    mode.height as nat,
                ) + "@"@ + decimal(mode.vrefresh as nat)),
                None => line@ == head,
            }
        }),
{
}

/// The suffix of a mode gives its width, height and refresh rate, in that order.
pub proof fn law_what_a_mode_suffix_says(size: (u16, u16), vrefresh: u32, suffix: String)
    requires
        call_ensures(mode_suffix, (size, vrefresh), suffix),
    ensures
        suffix@ == "  "@ + decimal(size.0 as nat) + "x"@ + decimal(size.1 as nat) + "@"@ + decimal(
            vrefresh as nat,
        ),
{
}

/// A connector is named after its kind and its number.
pub proof fn law_how_a_connector_is_named(interface: u32, interface_id: u32, name: String)
    requires
        call_ensures(connector_name, (interface, interface_id), name),
    ensures
        name@ == interface_name(interface) + "-"@ + decimal(interface_id as nat),
{
}

/// A message lists every output by its name, marking those that are disconnected, and
/// says `none` where there is none.
pub proof fn law_what_a_message_lists(candidates: Seq<Candidate>, next: Candidate)
    ensures
        available(Seq::<Candidate>::empty()) == "none"@,
        next.mention() == (if next.connected {
            next.name
        } else {
            next.name + " (disconnected)"@
        }),
        available(candidates.push(next)) == (if candidates.len() == 0 {
            next.mention()
        } else {
            available(candidates) + ", "@ + next.mention()
        }),
{
    let mentions = candidates.map_values(|c: Candidate| c.mention());
    let more = candidates.push(next).map_values(|c: Candidate| c.mention());
    assert(more.drop_last() == mentions);
    assert(more.last() == next.mention());
    assert(more[more.len() - 1] == next.mention());
}

/// The mode of a connector is the first one flagged as preferred, and without such a mode
/// the first of all.
pub proof fn law_which_mode_is_preferred(info: &ConnectorInfo, mode: Option<Mode>)
    requires
        call_ensures(preferred_mode, (info,), mode),
    ensures
        is_preferred(info.modes@, mode),
{
    lemma_preferred(info.modes@);
}

/// Is `mode` the first preferred one of `modes`, or the first of all if none is?
pub open spec fn is_preferred(modes: Seq<Mode>, mode: Option<Mode>) -> bool {
    match mode {
        Some(picked) => {
            ||| exists|i: int|
                {
                    &&& 0 <= i < modes.len()
                    &&& picked == #[trigger] modes[i]
                    &&& modes[i].preferred
                    &&& forall|j: int| 0 <= j < i ==> !(#[trigger] modes[j]).preferred
                }
            ||| {
                &&& modes.len() > 0
                &&& picked == modes[0]
                &&& forall|j: int| 0 <= j < modes.len() ==> !(#[trigger] modes[j]).preferred
            }
        },
        None => modes.len() == 0,
    }
}

proof fn lemma_preferred(modes: Seq<Mode>)
    ensures
        is_preferred(modes, preferred_mode_spec(modes)),
{
    lemma_find(modes, |mode: Mode| mode.preferred);
}

/// A node is read unless it is known to be no primary one.
pub proof fn law_which_nodes_are_read(node: Option<NodeKind>, open: bool)
    requires
        call_ensures(may_carry_connectors, (node,), open),
    ensures
        open == !(node == Some(NodeKind::Control) || node == Some(NodeKind::Render)),
{
    if let Some(kind) = node {
        match kind {
            NodeKind::Primary => {},
            NodeKind::Control => {},
            NodeKind::Render => {},
        }
    }
}

/// Is `candidate` the connector `info` of the device at `path` with the number `id`?
pub open spec fn is_connector_of(
    candidate: Candidate,
    path: Seq<u8>,
    id: u64,
    info: ConnectorInfo,
) -> bool {
    &&& candidate.device == path
    &&& candidate.device_id == id
    &&& candidate.connector == info.handle
    &&& candidate.name == interface_name(info.interface) + "-"@ + decimal(info.interface_id as nat)
    &&& candidate.connected == (info.state == ConnectionState::Connected)
    &&& is_preferred(info.modes@, candidate.preferred_mode)
}

/// Reading a device gives a candidate for each connector that could be read, in order,
/// and none for the others.
pub proof fn law_readable_connectors_are_candidates(
    device: DeviceView,
    connectors: Seq<Option<ConnectorInfo>>,
    next: Option<ConnectorInfo>,
)
    ensures
        candidates_of(device, Seq::empty()) == Seq::<Candidate>::empty(),
        match next {
            Some(info) => {
                &&& candidates_of(device, connectors.push(next)) == candidates_of(
                    device,
                    connectors,
                ).push(candidate_of(device, info))
                &&& is_connector_of(candidate_of(device, info), device.path, device.id, info)
            },
            None => candidates_of(device, connectors.push(next)) == candidates_of(
                device,
                connectors,
            ),
        },
{
    reveal(Seq::filter_map);
    let more = connectors.push(next);
    assert(more.drop_last() == connectors);
    if let Some(info) = next {
        lemma_preferred(info.modes@);
    }
    assert(candidates_of(device, more) == match next {
        Some(info) => candidates_of(device, connectors).push(candidate_of(device, info)),
        None => candidates_of(device, connectors),
    });
}

/// What is read of a device is what its connectors are.
pub proof fn law_what_reading_a_device_gives(
    device: &Device,
    connectors: &Vec<Option<ConnectorInfo>>,
    found: Vec<OutputCandidate>,
)
    requires
        call_ensures(read_connectors, (device, connectors), found),
    ensures
        views(found@) == candidates_of(
            DeviceView { path: device.path@, id: device.id },
            connectors@,
        ),
{
}

/// What is found on several devices is what is found on each, one after the other; a
/// device that is unusable does not keep the others from being read.
pub proof fn law_an_unusable_device_hides_nothing(probes: Seq<DeviceProbe>, next: DeviceProbe)
    ensures
        probes_find(Seq::empty()) == Seq::<Candidate>::empty(),
        probes_find(probes.push(next)) == probes_find(probes) + probe_finds(next),
        probe_finds(next) == (match next.connectors {
            Some(connectors) => candidates_of(
                DeviceView { path: next.device.path@, id: next.device.id },
                connectors@,
            ),
            None => Seq::empty(),
        }),
{
    assert(probes.push(next).drop_last() == probes);
}

/// Are the candidates in order: by the paths of their devices, and on one device by the
/// ids of their connectors?
pub open spec fn in_order(candidates: Seq<OutputCandidate>) -> bool {
    forall|i: int, j: int|
        0 <= i < j < candidates.len() ==> {
            let order = path_order(
                (#[trigger] candidates[i]).device@,
                (#[trigger] candidates[j]).device@,
            );
            &&& order != Order::Greater
            &&& order == Order::Equal ==> candidates[i].connector <= candidates[j].connector
        }
}

proof fn lemma_in_order(candidates: Seq<OutputCandidate>)
    requires
        is_sorted::<OutputCandidate>(views(candidates)),
    ensures
        in_order(candidates),
{
    let all = views(candidates);
    assert forall|i: int, j: int| 0 <= i < j < candidates.len() implies {
        let order = path_order(
            (#[trigger] candidates[i]).device@,
            (#[trigger] candidates[j]).device@,
        );
        &&& order != Order::Greater
        &&& order == Order::Equal ==> candidates[i].connector <= candidates[j].connector
    } by {
        assert(all[i] == candidates[i]@ && all[j] == candidates[j]@);
    }
}

/// Enumerating gives what was found on every device, in order, with nothing lost and
/// nothing made up.
pub proof fn law_enumeration_is_complete_and_in_order()
    ensures
        forall|probes: &Vec<DeviceProbe>, candidates: Vec<OutputCandidate>| #[trigger]
            call_ensures(enumerate_devices, (probes,), candidates) ==> {
                &&& in_order(candidates@)
                &&& views(candidates@).to_multiset() == probes_find(probes@).to_multiset()
            },
{
    assert forall|probes: &Vec<DeviceProbe>, candidates: Vec<OutputCandidate>| #[trigger]
        call_ensures(enumerate_devices, (probes,), candidates) implies {
        &&& in_order(candidates@)
        &&& views(candidates@).to_multiset() == probes_find(probes@).to_multiset()
    } by {
        lemma_in_order(candidates@);
    }
}

/// The same holds of devices that are sorted first: what they were sorted from is what is
/// found.
pub proof fn law_sorting_the_devices_loses_nothing(
    probes: Vec<DeviceProbe>,
    candidates: Vec<OutputCandidate>,
)
    requires
        call_ensures(enumerate, (probes,), candidates),
    ensures
        in_order(candidates@),
        views(candidates@).to_multiset() == probes_find(probes@).to_multiset(),
{
    let ordered = choose|ordered: Seq<DeviceProbe>|
        {
            &&& #[trigger] is_arrangement::<DeviceProbe>(ordered, probes@)
            &&& is_arrangement::<OutputCandidate>(views(candidates@), probes_find(ordered))
        };
    lemma_in_order(candidates@);
    crate::backend::discovery::lemma_probes_find_the_same(ordered, probes@);
}

/// Candidates compare by the paths of their devices, and on one device by the ids of
/// their connectors.
pub proof fn law_how_candidates_compare(
    a: &OutputCandidate,
    b: &OutputCandidate,
    order: core::cmp::Ordering,
)
    requires
        call_ensures(candidate_order, (a, b), order),
    ensures
        path_order(a.device@, b.device@) == Order::Less ==> order == core::cmp::Ordering::Less,
        path_order(a.device@, b.device@) == Order::Greater ==> order
            == core::cmp::Ordering::Greater,
        path_order(a.device@, b.device@) == Order::Equal ==> {
            &&& a.connector < b.connector ==> order == core::cmp::Ordering::Less
            &&& a.connector == b.connector ==> order == core::cmp::Ordering::Equal
            &&& a.connector > b.connector ==> order == core::cmp::Ordering::Greater
        },
{
}

/// The CRTC is the first one of the first encoder that could be read and reaches any.
pub proof fn law_which_crtc_is_picked(encoders: &Vec<Option<Vec<u32>>>, crtc: Option<u32>)
    requires
        call_ensures(pick_crtc, (encoders,), crtc),
    ensures
        is_first_crtc(encoders@, crtc),
{
    lemma_first_crtc(encoders@);
}

/// Is `crtc` the first one that the first usable encoder reaches?
pub open spec fn is_first_crtc(encoders: Seq<Option<Vec<u32>>>, crtc: Option<u32>) -> bool {
    match crtc {
        Some(picked) => exists|i: int|
            {
                &&& 0 <= i < encoders.len()
                &&& #[trigger] encoders[i] matches Some(crtcs) && crtcs@.len() > 0 && crtcs@[0]
                    == picked
                &&& forall|j: int|
                    0 <= j < i ==> (#[trigger] encoders[j] matches Some(crtcs) ==> crtcs@.len()
                        == 0)
            },
        None => forall|j: int|
            0 <= j < encoders.len() ==> (#[trigger] encoders[j] matches Some(crtcs) ==> crtcs@.len()
                == 0),
    }
}

proof fn lemma_first_crtc(encoders: Seq<Option<Vec<u32>>>)
    ensures
        is_first_crtc(encoders, first_crtc(encoders)),
    decreases encoders.len(),
{
    if encoders.len() > 0 {
        let rest = encoders.drop_first();
        lemma_first_crtc(rest);
        assert forall|j: int| 0 < j < encoders.len() implies #[trigger] encoders[j] == rest[j
            - 1] by {}
        let usable = encoders[0] matches Some(crtcs) && crtcs@.len() > 0;
        if !usable {
            if let Some(picked) = first_crtc(rest) {
                let i = choose|i: int|
                    {
                        &&& 0 <= i < rest.len()
                        &&& #[trigger] rest[i] matches Some(crtcs) && crtcs@.len() > 0 && crtcs@[0]
                            == picked
                        &&& forall|j: int|
                            0 <= j < i ==> (#[trigger] rest[j] matches Some(crtcs)
                                ==> crtcs@.len() == 0)
                    };
                assert(encoders[i + 1] == rest[i]);
                assert forall|j: int| 0 <= j < i + 1 implies (#[trigger] encoders[j] matches Some(
                    crtcs,
                ) ==> crtcs@.len() == 0) by {
                    if j > 0 {
                        assert(encoders[j] == rest[j - 1]);
                    }
                }
            }
        }
    }
}

/// Is that what clients are told about the output `name` in `mode`?
pub open spec fn is_told(
    output: Output,
    name: Seq<char>,
    millimetres: Option<(u32, u32)>,
    mode: Mode,
) -> bool {
    &&& output.name@ == name
    &&& output.make@ == "Unknown"@
    &&& output.model@ == "Unknown"@
    &&& output.subpixel == Subpixel::Unknown
    &&& output.transform == Transform::Normal
    &&& output.scale == 1
    &&& output.location.x == 0 && output.location.y == 0
    &&& output.mode matches Some(size) && size.w == mode.width && size.h == mode.height
    &&& match millimetres {
        Some((w, h)) => w <= i32::MAX && h <= i32::MAX ==> output.physical_size.w == w
            && output.physical_size.h == h,
        None => output.physical_size.w == 0 && output.physical_size.h == 0,
    }
}

/// Clients are told the mode that the output is driven in, at scale 1, at the origin and
/// not turned.
pub proof fn law_what_clients_are_told(
    candidate: &OutputCandidate,
    millimetres: Option<(u32, u32)>,
    mode: Mode,
    output: Output,
)
    requires
        call_ensures(build_output, (candidate, millimetres, mode), output),
    ensures
        is_told(output, candidate.name@, millimetres, mode),
{
}

/// An output comes up in the candidate's own mode, on a CRTC it reaches, and fails to
/// only for want of a mode, of the card's resources, or of a CRTC, in that order.
pub proof fn law_how_an_output_comes_up(
    candidate: &OutputCandidate,
    encoders: Option<&Vec<Option<Vec<u32>>>>,
    millimetres: Option<(u32, u32)>,
    init: Result<BackendInit, InitError>,
)
    requires
        call_ensures(DrmBackend::init, (candidate, encoders, millimetres), init),
    ensures
        match init {
            Ok(ready) => {
                &&& candidate.preferred_mode == Some(ready.mode)
                &&& candidate.preferred_mode == Some(ready.preferred)
                &&& encoders matches Some(read) && is_first_crtc(read@, Some(ready.crtc))
                &&& ready.backend.pacer@.active
                &&& ready.backend.pacer@.damaged
                &&& !ready.backend.pacer@.pending_flip
                &&& is_told(ready.output, candidate.name@, millimetres, ready.mode)
            },
            Err(InitError::NoMode { name }) => name@ == candidate.name@
                && candidate.preferred_mode is None,
            Err(InitError::NoResources { name }) => {
                &&& name@ == candidate.name@
                &&& candidate.preferred_mode is Some
                &&& encoders is None
            },
            Err(InitError::NoCrtc { name }) => {
                &&& name@ == candidate.name@
                &&& candidate.preferred_mode is Some
                &&& encoders matches Some(read) && is_first_crtc(read@, None)
            },
        },
{
    if let Some(read) = encoders {
        lemma_first_crtc(read@);
    }
}

/// The size of an output is that of its mode, and nothing without one; its rectangle is
/// anchored at the origin.
pub proof fn law_the_size_of_an_output(output: &Output, size: Size, rect: Rectangle)
    requires
        call_ensures(size_of, (output,), size),
        call_ensures(rect_of, (output,), rect),
    ensures
        output.mode matches Some(mode) ==> size == mode,
        output.mode is None ==> size.w == 0 && size.h == 0,
        rect.loc.x == 0 && rect.loc.y == 0,
        rect.size == size,
{
}

/// What the user is told where no output is selected or none comes up.
pub proof fn law_what_failures_say(err: &SelectError, failed: &InitError, text: String)
    ensures
        call_ensures(SelectError::message, (err,), text) ==> text@ == (match *err {
            SelectError::Disconnected { name, device, available: listed } => "output "@ + quoted(
                name@,
            ) + " exists on "@ + lossy(device@) + " but is disconnected; available outputs: "@
                + listed@,
            SelectError::Unknown { name, available: listed } => "no output named "@ + quoted(name@)
                + "; available outputs: "@ + listed@,
            SelectError::NoneConnected { available: listed } =>
                "no connected output found; available outputs: "@ + listed@,
        }),
        call_ensures(InitError::message, (failed,), text) ==> text@ == (match *failed {
            InitError::NoMode { name } => "output "@ + name@
                + " reports no usable mode; it may have been unplugged"@,
            InitError::NoResources { name } => "no CRTC available for output "@ + name@
                + ": failed to read DRM resources"@,
            InitError::NoCrtc { name } => "no CRTC available for output "@ + name@
                + ": connector has no usable encoder/CRTC combination"@,
        }),
{
}

/// Sorting puts the items in order, loses none and makes none up, and leaves those that
/// compare equal in the order they had.
pub proof fn law_what_sorting_does<T: Ranked>(items: Vec<T>, sorted: Vec<T>, key: T::V)
    requires
        call_ensures(sort::<T>, (items,), sorted),
    ensures
        forall|i: int, j: int|
            0 <= i < j < sorted@.len() ==> T::order(
                (#[trigger] sorted@[i])@,
                (#[trigger] sorted@[j])@,
            ) != Order::Greater,
        views(sorted@).to_multiset() == views(items@).to_multiset(),
        views(sorted@).filter(|item: T::V| T::order(item, key) == Order::Equal) == views(
            items@,
        ).filter(|item: T::V| T::order(item, key) == Order::Equal),
{
    let all = views(sorted@);
    assert forall|i: int, j: int| 0 <= i < j < sorted@.len() implies T::order(
        (#[trigger] sorted@[i])@,
        (#[trigger] sorted@[j])@,
    ) != Order::Greater by {
        assert(all[i] == sorted@[i]@ && all[j] == sorted@[j]@);
    }
    assert(crate::sorting::equal_to::<T>(all, key) == crate::sorting::equal_to::<T>(
        views(items@),
        key,
    ));
}

/// The first item that is preferred is picked, and without such an item the first of all.
pub proof fn law_which_item_is_picked<T: Copy, F: Fn(&T) -> bool>(
    items: &[T],
    preferred: F,
    picked: Option<T>,
)
    requires
        call_ensures(pick_preferred::<T, F>, (items, preferred), picked),
    ensures
        picked is None <==> items@.len() == 0,
        picked matches Some(item) ==> {
            ||| exists|i: int|
                {
                    &&& 0 <= i < items@.len()
                    &&& item == #[trigger] items@[i]
                    &&& call_ensures(preferred, (&items@[i],), true)
                    &&& forall|j: int|
                        0 <= j < i ==> call_ensures(preferred, (&#[trigger] items@[j],), false)
                }
            ||| {
                &&& item == items@[0]
                &&& forall|j: int|
                    0 <= j < items@.len() ==> call_ensures(
                        preferred,
                        (&#[trigger] items@[j],),
                        false,
                    )
            }
        },
{
}

} // verus!
