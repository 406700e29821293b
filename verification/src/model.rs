//! The mathematical model of the data-device protocol: its state, and what
//! each operation does to it and sends, as functions from state and event to
//! the next state and the events to send.
use vstd::prelude::*;
use crate::protocol::{
    ActionView, DataDevice, DeviceRequest, DndView, FixedPos, ManagerRequest, OfferRequest,
    SourceRequest, SourceUsage, SourceView, SurfaceRef,
};

verus! {

/// The mathematical view of the data-device state.
pub struct DataStateView {
    pub devices: Seq<DataDevice>,
    pub sources: Map<u64, SourceView>,
    pub clipboard: Option<u64>,
    pub clipboard_focus: Option<u64>,
    pub dnd: Option<DndView>,
}


/// The state is well formed:
/// - the clipboard source is alive;
/// - the dragged source is known (alive, or dead but kept for the drag);
/// - a dead source is kept only while it is the one dragged;
/// - a device that a drag has entered is entered on the drag's current
///   surface, which its own client owns.
pub open spec fn wf_view(s: DataStateView) -> bool {
    &&& (s.clipboard matches Some(c) ==> live(s.sources, c))
    &&& (s.dnd matches Some(e) ==> s.sources.contains_key(e.source))
    &&& forall|k: u64|
        #[trigger] s.sources.contains_key(k) && !s.sources[k].alive ==> (s.dnd matches Some(e)
            && e.source == k)
    &&& forall|i: int| 0 <= i < s.devices.len() ==> focus_ok(s.dnd, #[trigger] s.devices[i])
}

/// `source` names a data source whose protocol object is alive.
pub open spec fn live(sources: Map<u64, SourceView>, source: u64) -> bool {
    sources.contains_key(source) && sources[source].alive
}

/// A device is entered only on the current surface of the drag in progress,
/// and only when its own client owns that surface.
pub open spec fn focus_ok(dnd: Option<DndView>, d: DataDevice) -> bool {
    match d.dnd_focus {
        Some(f) => dnd matches Some(e) && e.focus == Some(f) && f.client == d.client,
        None => true,
    }
}

/// The state just created: nothing at all.
pub open spec fn empty_view() -> DataStateView {
    DataStateView {
        devices: Seq::empty(),
        sources: Map::empty(),
        clipboard: None,
        clipboard_focus: None,
        dnd: None,
    }
}

/// Devices that belong to `client`.
pub open spec fn owned_by(client: u64) -> spec_fn(DataDevice) -> bool {
    |d: DataDevice| d.client == client
}

/// The selection event a device receives: an offer of the clipboard source
/// with its mime types, or the news that there is no selection.
pub open spec fn selection_action(clipboard: Option<u64>, sources: Map<u64, SourceView>) -> spec_fn(
    DataDevice,
) -> ActionView {
    |d: DataDevice|
        match clipboard {
            Some(src) => ActionView::OfferSelection {
                device: d.id,
                source: src,
                mime_types: sources[src].mime,
            },
            None => ActionView::ClearSelection { device: d.id },
        }
}

/// What sending the clipboard gives: each device of the client with clipboard
/// focus, in order, receives the current selection; with no focused client,
/// nothing is sent.
pub open spec fn selection_actions(s: DataStateView) -> Seq<ActionView> {
    match s.clipboard_focus {
        None => Seq::empty(),
        Some(c) => s.devices.filter(owned_by(c)).map_values(selection_action(s.clipboard, s.sources)),
    }
}

/// Moving clipboard focus to `client`: when focus changes, the newly focused
/// client's devices receive the selection; otherwise nothing happens.
pub open spec fn update_focus_step(s: DataStateView, client: Option<u64>) -> (
    DataStateView,
    Seq<ActionView>,
) {
    if s.clipboard_focus == client {
        (s, Seq::empty())
    } else {
        let s2 = DataStateView { clipboard_focus: client, ..s };
        (s2, selection_actions(s2))
    }
}


/// A device on which a drag is entered leaves it when the drag moves to
/// another surface (or to none).
pub open spec fn leaves(surface: Option<SurfaceRef>) -> spec_fn(DataDevice) -> bool {
    |d: DataDevice| d.dnd_focus is Some && d.dnd_focus != surface
}

/// A device after the drag moved to `surface`: it is no longer entered on a
/// surface that the drag left.
pub open spec fn after_leave(surface: Option<SurfaceRef>) -> spec_fn(DataDevice) -> DataDevice {
    |d: DataDevice|
        if d.dnd_focus is Some && d.dnd_focus != surface {
            DataDevice { dnd_focus: None, ..d }
        } else {
            d
        }
}

/// The `leave` event for a device.
pub open spec fn leave_action() -> spec_fn(DataDevice) -> ActionView {
    |d: DataDevice| ActionView::DndLeave { device: d.id }
}

/// A device that the drag enters on `surface`: it is not entered yet, and
/// its client owns the surface.
pub open spec fn awaits_enter(surface: SurfaceRef) -> spec_fn(DataDevice) -> bool {
    |d: DataDevice| d.dnd_focus is None && d.client == surface.client
}

/// A device after the drag entered `surface`.
pub open spec fn after_enter(surface: SurfaceRef) -> spec_fn(DataDevice) -> DataDevice {
    |d: DataDevice|
        if d.dnd_focus is None && d.client == surface.client {
            DataDevice { dnd_focus: Some(surface), last_dnd_motion: None, ..d }
        } else {
            d
        }
}

/// The `enter` event for a device: an offer of the dragged source with its
/// mime types, entered on `surface`.
pub open spec fn enter_action(surface: SurfaceRef, source: u64, mime: Seq<Seq<char>>) -> spec_fn(
    DataDevice,
) -> ActionView {
    |d: DataDevice|
        ActionView::DndEnter { device: d.id, surface: surface, source: source, mime_types: mime }
}

/// An entered device receives motion unless it was last told of this very
/// position.
pub open spec fn moves(pos: FixedPos) -> spec_fn(DataDevice) -> bool {
    |d: DataDevice| d.dnd_focus is Some && d.last_dnd_motion != Some(pos)
}

/// A device after the pointer moved to `pos`.
pub open spec fn after_motion(pos: FixedPos) -> spec_fn(DataDevice) -> DataDevice {
    |d: DataDevice|
        if d.dnd_focus is Some && d.last_dnd_motion != Some(pos) {
            DataDevice { last_dnd_motion: Some(pos), ..d }
        } else {
            d
        }
}

/// The `motion` event for a device.
pub open spec fn motion_action() -> spec_fn(DataDevice) -> ActionView {
    |d: DataDevice| ActionView::DndMotion { device: d.id }
}

/// Cancelling the drag: the source is told, every entered device receives
/// `leave`, in order, and the drag is over; a dragged source that was
/// destroyed meanwhile is forgotten with it.
pub open spec fn dnd_cancel_step(s: DataStateView) -> (DataStateView, Seq<ActionView>) {
    match s.dnd {
        None => (s, Seq::empty()),
        Some(e) => (
            DataStateView {
                devices: s.devices.map_values(after_leave(None)),
                sources: if live(s.sources, e.source) {
                    s.sources
                } else {
                    s.sources.remove(e.source)
                },
                dnd: None,
                ..s
            },
            seq![ActionView::SourceCancelled { source: e.source }] + s.devices.filter(
                leaves(None),
            ).map_values(leave_action()),
        ),
    }
}

/// Moving the drag over `surface` (or over no surface) at `pos`:
/// - when the surface changes, the source is told that no type is accepted;
/// - devices entered on another surface receive `leave`;
/// - devices of the surface's client that are not entered receive an offer of
///   the source and `enter`;
/// - entered devices not yet told of `pos` receive `motion`.
pub open spec fn dnd_motion_step(s: DataStateView, surface: Option<SurfaceRef>, pos: FixedPos) -> (
    DataStateView,
    Seq<ActionView>,
) {
    match s.dnd {
        None => (s, Seq::empty()),
        Some(e) => {
            let retarget = surface != e.focus;
            let targets = if retarget {
                seq![ActionView::SourceTarget { source: e.source, mime_type: None }]
            } else {
                Seq::empty()
            };
            let dnd = DndView { focus: surface, mime: if retarget { None } else { e.mime }, ..e };
            let left = s.devices.map_values(after_leave(surface));
            let leave_actions = s.devices.filter(leaves(surface)).map_values(leave_action());
            match surface {
                None => (DataStateView { devices: left, dnd: Some(dnd), ..s }, targets + leave_actions),
                Some(sf) => {
                    let entered = left.map_values(after_enter(sf));
                    let enter_actions = left.filter(awaits_enter(sf)).map_values(
                        enter_action(sf, e.source, s.sources[e.source].mime),
                    );
                    let moved = entered.map_values(after_motion(pos));
                    let motion_actions = entered.filter(moves(pos)).map_values(motion_action());
                    (
                        DataStateView { devices: moved, dnd: Some(dnd), ..s },
                        targets + leave_actions + enter_actions + motion_actions,
                    )
                },
            }
        },
    }
}

/// A freshly created data source: alive, unused, with no mime types.
pub open spec fn fresh_source() -> SourceView {
    SourceView { alive: true, usage: SourceUsage::Unused, mime: Seq::empty() }
}

/// A freshly created data device of `client`.
pub open spec fn fresh_device(id: u64, client: u64) -> DataDevice {
    DataDevice { id: id, client: client, dnd_focus: None, last_dnd_motion: None }
}

/// Requests on the manager create sources and devices.
pub open spec fn manager_request_step(s: DataStateView, request: ManagerRequest) -> DataStateView {
    match request {
        ManagerRequest::CreateDataSource { id } => DataStateView {
            sources: s.sources.insert(id, fresh_source()),
            ..s
        },
        ManagerRequest::GetDataDevice { id, client } => DataStateView {
            devices: s.devices.push(fresh_device(id, client)),
            ..s
        },
    }
}

/// Requests on a data source: `offer` adds a mime type to the end of its
/// list; `destroy` cancels the drag when the source is the one dragged.
pub open spec fn source_request_step(s: DataStateView, source: u64, request: SourceRequest) -> (
    DataStateView,
    Seq<ActionView>,
) {
    match request {
        SourceRequest::Offer { mime_type } => (
            DataStateView {
                sources: s.sources.insert(
                    source,
                    SourceView { mime: s.sources[source].mime.push(mime_type@), ..s.sources[source] },
                ),
                ..s
            },
            Seq::empty(),
        ),
        SourceRequest::Destroy => if s.dnd matches Some(e) && e.source == source {
            dnd_cancel_step(s)
        } else {
            (s, Seq::empty())
        },
        SourceRequest::SetActions => (s, Seq::empty()),
    }
}

/// A request on a data source can be carried out: an offered mime type is
/// recorded on a source that is alive.
pub open spec fn source_request_allowed(s: DataStateView, source: u64, request: SourceRequest) -> bool {
    request is Offer ==> live(s.sources, source)
}

/// A destroyed source no longer holds the clipboard. It is forgotten, unless
/// it is the source being dragged: then it is kept, marked dead, so that the
/// drag can still offer its mime types.
pub open spec fn source_destroyed_step(s: DataStateView, source: u64) -> DataStateView {
    DataStateView {
        sources: if s.dnd matches Some(e) && e.source == source && s.sources.contains_key(source) {
            s.sources.insert(source, SourceView { alive: false, ..s.sources[source] })
        } else {
            s.sources.remove(source)
        },
        clipboard: if s.clipboard == Some(source) {
            None
        } else {
            s.clipboard
        },
        ..s
    }
}

/// Using `source` for `usage` on behalf of `device`: an unused source takes
/// that use; a source used before keeps its use, and the device gets the
/// `used_source` error.
pub open spec fn claim_source(
    sources: Map<u64, SourceView>,
    device: u64,
    source: u64,
    usage: SourceUsage,
) -> (Map<u64, SourceView>, Seq<ActionView>) {
    if sources[source].usage == SourceUsage::Unused {
        (sources.insert(source, SourceView { usage: usage, ..sources[source] }), Seq::empty())
    } else {
        (sources, seq![ActionView::ReusedSource { device: device }])
    }
}

/// The mime type by which some X11 clients announce an empty selection.
pub open spec fn save_targets() -> Seq<char> {
    "SAVE_TARGETS"@
}

/// `start_drag` with `source` (none: ignored): the source is claimed for a
/// drag; when a drag is already in progress the source is cancelled at once,
/// otherwise the new drag starts on no surface with no accepted type.
pub open spec fn start_drag_step(
    s: DataStateView,
    device: u64,
    source: Option<u64>,
    serial: u32,
) -> (DataStateView, Seq<ActionView>) {
    match source {
        None => (s, Seq::empty()),
        Some(src) => {
            let (sources, err) = claim_source(s.sources, device, src, SourceUsage::Drag);
            match s.dnd {
                Some(_) => (
                    DataStateView { sources: sources, ..s },
                    err.push(ActionView::SourceCancelled { source: src }),
                ),
                None => (
                    DataStateView {
                        sources: sources,
                        dnd: Some(DndView { start_serial: serial, source: src, focus: None, mime: None }),
                        ..s
                    },
                    err,
                ),
            }
        },
    }
}

/// `set_selection` from `client` with `source` (none: clear): ignored unless
/// `client` has clipboard focus, and ignored for a source offering
/// [`save_targets`]; otherwise the source is claimed for the selection, the
/// previous clipboard source is cancelled, the source takes the clipboard and
/// the focused client's devices receive the new selection.
pub open spec fn set_selection_step(
    s: DataStateView,
    client: u64,
    device: u64,
    source: Option<u64>,
) -> (DataStateView, Seq<ActionView>) {
    if s.clipboard_focus != Some(client) {
        (s, Seq::empty())
    } else if source matches Some(src) && s.sources[src].mime.contains(save_targets()) {
        (s, Seq::empty())
    } else {
        let (sources, err) = match source {
            Some(src) => claim_source(s.sources, device, src, SourceUsage::Selection),
            None => (s.sources, Seq::empty()),
        };
        let cancel = match s.clipboard {
            Some(prev) => seq![ActionView::SourceCancelled { source: prev }],
            None => Seq::empty(),
        };
        let s2 = DataStateView { sources: sources, clipboard: source, ..s };
        (s2, err + cancel + selection_actions(s2))
    }
}

/// Requests on a data device of `client`.
pub open spec fn device_request_step(
    s: DataStateView,
    client: u64,
    device: u64,
    request: DeviceRequest,
) -> (DataStateView, Seq<ActionView>) {
    match request {
        DeviceRequest::StartDrag { source, serial } => start_drag_step(s, device, source, serial),
        DeviceRequest::SetSelection { source } => set_selection_step(s, client, device, source),
        DeviceRequest::Release => (s, Seq::empty()),
    }
}

/// A request on a data device can be carried out: a source it uses is alive.
pub open spec fn device_request_allowed(s: DataStateView, client: u64, request: DeviceRequest) -> bool {
    match request {
        DeviceRequest::StartDrag { source: Some(src), .. } => live(s.sources, src),
        DeviceRequest::SetSelection { source: Some(src) } => s.clipboard_focus == Some(client)
            ==> live(s.sources, src),
        _ => true,
    }
}

/// Devices other than `device`.
pub open spec fn other_than(device: u64) -> spec_fn(DataDevice) -> bool {
    |d: DataDevice| d.id != device
}

/// A destroyed device is forgotten; the others keep their order.
pub open spec fn device_destroyed_step(s: DataStateView, device: u64) -> DataStateView {
    DataStateView { devices: s.devices.filter(other_than(device)), ..s }
}

/// Requests on a data offer of `source`: `receive` asks a live source for
/// one of its own mime types; `accept` and `finish` reach the source only
/// while it is being dragged, `accept` recording the accepted type.
pub open spec fn offer_request_step(s: DataStateView, source: u64, request: OfferRequest) -> (
    DataStateView,
    Seq<ActionView>,
) {
    match request {
        OfferRequest::Receive { mime_type } => (
            s,
            if live(s.sources, source) && s.sources[source].mime.contains(mime_type@) {
                seq![ActionView::SourceSend { source: source, mime_type: mime_type@ }]
            } else {
                Seq::empty()
            },
        ),
        OfferRequest::Accept { mime_type } => match s.dnd {
            Some(e) if e.source == source => (
                DataStateView { dnd: Some(DndView { mime: mime_type.deep_view(), ..e }), ..s },
                seq![ActionView::SourceTarget { source: source, mime_type: mime_type.deep_view() }],
            ),
            _ => (s, Seq::empty()),
        },
        OfferRequest::Finish => (
            s,
            if s.dnd matches Some(e) && e.source == source {
                seq![ActionView::SourceDndFinished { source: source }]
            } else {
                Seq::empty()
            },
        ),
        OfferRequest::Destroy => (s, Seq::empty()),
        OfferRequest::SetActions => (s, Seq::empty()),
    }
}

/// A drag motion keeps the state well formed.
pub proof fn lemma_motion_wf(s: DataStateView, surface: Option<SurfaceRef>, pos: FixedPos)
    requires
        wf_view(s),
    ensures
        wf_view(dnd_motion_step(s, surface, pos).0),
{
    let s2 = dnd_motion_step(s, surface, pos).0;
    if let Some(e) = s.dnd {
        assert forall|i: int| 0 <= i < s2.devices.len() implies focus_ok(
            s2.dnd,
            #[trigger] s2.devices[i],
        ) by {
            assert(focus_ok(s.dnd, s.devices[i]));
        }
    }
}

} // verus!
