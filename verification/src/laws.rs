//! Properties of the data-device state machine that span several operations.
use vstd::prelude::*;
use crate::protocol::{
    ActionView, DataDevice, DeviceRequest, FixedPos, ManagerRequest, OfferRequest, SourceRequest,
    SourceUsage, SurfaceRef,
};
use crate::model::{
    enter_action, owned_by, selection_action, selection_actions,
    DataStateView, after_enter, after_leave, after_motion, awaits_enter, dnd_cancel_step,
    dnd_motion_step, focus_ok, leaves, moves, save_targets, set_selection_step, start_drag_step,
    update_focus_step, wf_view, device_destroyed_step, device_request_step, leave_action,
    manager_request_step, motion_action, offer_request_step, other_than, source_destroyed_step,
    source_request_step, claim_source, live,
};

verus! {

/// Filtering with a predicate that no element meets gives nothing.
proof fn lemma_filter_none<A>(s: Seq<A>, p: spec_fn(A) -> bool)
    requires
        forall|i: int| 0 <= i < s.len() ==> !p(#[trigger] s[i]),
    ensures
        s.filter(p) =~= Seq::<A>::empty(),
    decreases s.len(),
{
    reveal(Seq::filter);
    if s.len() > 0 {
        lemma_filter_none(s.drop_last(), p);
    }
}

/// Every element of a filtered sequence is an element of the original that
/// passes the filter.
proof fn lemma_filter_from<A>(s: Seq<A>, p: spec_fn(A) -> bool)
    ensures
        forall|j: int|
            0 <= j < s.filter(p).len() ==> s.contains(#[trigger] s.filter(p)[j]) && p(
                s.filter(p)[j],
            ),
    decreases s.len(),
{
    reveal(Seq::filter);
    if s.len() > 0 {
        let d = s.drop_last();
        lemma_filter_from(d, p);
        let f = s.filter(p);
        let g = d.filter(p);
        assert forall|j: int| 0 <= j < f.len() implies s.contains(#[trigger] f[j]) && p(f[j]) by {
            if j < g.len() {
                assert(f[j] == g[j]);
                assert(d.contains(g[j]));
                let i = choose|i: int| 0 <= i < d.len() && d[i] == g[j];
                assert(s[i] == f[j]);
            } else {
                assert(s[s.len() - 1] == f[j]);
            }
        }
    }
}

/// Mapping a function that fixes every element changes nothing.
proof fn lemma_map_fixed<A>(s: Seq<A>, f: spec_fn(A) -> A)
    requires
        forall|i: int| 0 <= i < s.len() ==> f(#[trigger] s[i]) == s[i],
    ensures
        s.map_values(f) =~= s,
{
}

/// After a drag motion over `surface`, every device is entered on nothing or
/// on `surface`; over a surface, every device of its client is entered on
/// it; and every entered device was last told of `pos`.
proof fn lemma_motion_settles(s: DataStateView, surface: Option<SurfaceRef>, pos: FixedPos)
    requires
        wf_view(s),
        s.dnd is Some,
    ensures
        ({
            let s1 = dnd_motion_step(s, surface, pos).0;
            forall|i: int|
                0 <= i < s1.devices.len() ==> {
                    &&& (#[trigger] s1.devices[i]).dnd_focus is None || s1.devices[i].dnd_focus
                        == surface
                    &&& (surface matches Some(sf) && s1.devices[i].client == sf.client)
                        ==> s1.devices[i].dnd_focus == surface
                    &&& s1.devices[i].dnd_focus is Some ==> s1.devices[i].last_dnd_motion == Some(pos)
                }
        }),
{
}

/// Moving a drag twice to the same surface and position: the second motion
/// sends nothing and changes nothing.
pub proof fn law_repeated_motion_is_quiet(s: DataStateView, surface: Option<SurfaceRef>, pos: FixedPos)
    requires
        wf_view(s),
    ensures
        ({
            let s1 = dnd_motion_step(s, surface, pos).0;
            let (s2, actions) = dnd_motion_step(s1, surface, pos);
            s2 == s1 && actions == Seq::<ActionView>::empty()
        }),
{
    if s.dnd is Some {
        lemma_motion_settles(s, surface, pos);
        let s1 = dnd_motion_step(s, surface, pos).0;
        let e1 = s1.dnd.unwrap();
        assert(e1.focus == surface);
        let devs = s1.devices;
        lemma_filter_none(devs, leaves(surface));
        lemma_map_fixed(devs, after_leave(surface));
        let left = devs.map_values(after_leave(surface));
        assert(left == devs);
        if let Some(sf) = surface {
            lemma_filter_none(left, awaits_enter(sf));
            lemma_map_fixed(left, after_enter(sf));
            lemma_filter_none(left, moves(pos));
            lemma_map_fixed(left, after_motion(pos));
        }
        let (s2, actions) = dnd_motion_step(s1, surface, pos);
        assert(s2.devices =~= s1.devices);
        assert(s2 == s1);
        assert(actions =~= Seq::<ActionView>::empty());
    }
}

/// Cancelling a drag ends it: no drag is in progress, no device is entered,
/// and a later motion sends nothing and changes nothing.
pub proof fn law_cancel_ends_drag(s: DataStateView, surface: Option<SurfaceRef>, pos: FixedPos)
    requires
        wf_view(s),
    ensures
        ({
            let s1 = dnd_cancel_step(s).0;
            &&& s1.dnd is None
            &&& forall|i: int| 0 <= i < s1.devices.len() ==> (#[trigger] s1.devices[i]).dnd_focus is None
            &&& dnd_motion_step(s1, surface, pos) == (s1, Seq::<ActionView>::empty())
        }),
{
    if let Some(e) = s.dnd {
        let s1 = dnd_cancel_step(s).0;
        assert forall|i: int| 0 <= i < s1.devices.len() implies (#[trigger] s1.devices[i]).dnd_focus is None by {
            assert(s1.devices[i] == after_leave(None)(s.devices[i]));
        }
    } else {
        assert forall|i: int| 0 <= i < s.devices.len() implies (#[trigger] s.devices[i]).dnd_focus is None by {
            assert(focus_ok(s.dnd, s.devices[i]));
        }
    }
}

/// Giving clipboard focus to the client that already has it sends nothing
/// and changes nothing; so a repeated focus change is quiet.
pub proof fn law_repeated_focus_is_quiet(s: DataStateView, client: Option<u64>)
    ensures
        ({
            let s1 = update_focus_step(s, client).0;
            update_focus_step(s1, client) == (s1, Seq::<ActionView>::empty())
        }),
{
}

/// A data source serves once: after a drag started with an unused source,
/// starting another drag with it posts the `used_source` error on the
/// requesting device and leaves the source's use as it was.
pub proof fn law_source_used_once(
    s: DataStateView,
    first_device: u64,
    second_device: u64,
    src: u64,
    serial1: u32,
    serial2: u32,
)
    requires
        wf_view(s),
        s.sources.contains_key(src),
        s.sources[src].usage == SourceUsage::Unused,
    ensures
        ({
            let s1 = start_drag_step(s, first_device, Some(src), serial1).0;
            let (s2, actions) = start_drag_step(s1, second_device, Some(src), serial2);
            &&& s1.sources[src].usage == SourceUsage::Drag
            &&& actions[0] == ActionView::ReusedSource { device: second_device }
            &&& s2.sources[src].usage == SourceUsage::Drag
        }),
{
}

/// The same holds of the selection: after the focused client set an unused
/// source as the selection, setting it again posts the `used_source` error
/// on the requesting device and leaves the source's use as it was.
pub proof fn law_selection_source_used_once(
    s: DataStateView,
    client: u64,
    first_device: u64,
    second_device: u64,
    src: u64,
)
    requires
        wf_view(s),
        s.clipboard_focus == Some(client),
        s.sources.contains_key(src),
        s.sources[src].usage == SourceUsage::Unused,
        !s.sources[src].mime.contains(save_targets()),
    ensures
        ({
            let s1 = set_selection_step(s, client, first_device, Some(src)).0;
            let (s2, actions) = set_selection_step(s1, client, second_device, Some(src));
            &&& s1.sources[src].usage == SourceUsage::Selection
            &&& s1.clipboard == Some(src)
            &&& actions[0] == ActionView::ReusedSource { device: second_device }
            &&& s2.sources[src].usage == SourceUsage::Selection
        }),
{
    let s1 = set_selection_step(s, client, first_device, Some(src)).0;
    assert(s1.sources[src].mime == s.sources[src].mime);
}

/// The selection is sent only to devices of the client with clipboard focus.
pub proof fn law_selection_goes_to_focused_client(s: DataStateView)
    ensures
        forall|k: int|
            0 <= k < selection_actions(s).len() ==> exists|i: int|
                0 <= i < s.devices.len() && Some(s.devices[i].client) == s.clipboard_focus && match
                    #[trigger] selection_actions(s)[k] {
                    ActionView::OfferSelection { device, .. } => device == s.devices[i].id,
                    ActionView::ClearSelection { device } => device == s.devices[i].id,
                    _ => false,
                },
{
    if let Some(c) = s.clipboard_focus {
        lemma_filter_from(s.devices, owned_by(c));
        let f = s.devices.filter(owned_by(c));
        assert forall|k: int| 0 <= k < selection_actions(s).len() implies exists|i: int|
            0 <= i < s.devices.len() && Some(s.devices[i].client) == s.clipboard_focus && match
                #[trigger] selection_actions(s)[k] {
                ActionView::OfferSelection { device, .. } => device == s.devices[i].id,
                ActionView::ClearSelection { device } => device == s.devices[i].id,
                _ => false,
            } by {
            assert(selection_actions(s)[k] == selection_action(s.clipboard, s.sources)(f[k]));
            assert(s.devices.contains(f[k]));
            let i = choose|i: int| 0 <= i < s.devices.len() && s.devices[i] == f[k];
            assert(s.devices[i] == f[k]);
        }
    }
}

/// A drag enters a device only on the surface it moved over, and only when
/// the device's client owns that surface.
pub proof fn law_drag_enters_only_owner(s: DataStateView, surface: Option<SurfaceRef>, pos: FixedPos)
    ensures
        ({
            let actions = dnd_motion_step(s, surface, pos).1;
            forall|k: int|
                0 <= k < actions.len() ==> match #[trigger] actions[k] {
                    ActionView::DndEnter { device, surface: sf, .. } => {
                        &&& surface == Some(sf)
                        &&& exists|i: int|
                            0 <= i < s.devices.len() && s.devices[i].id == device
                                && s.devices[i].client == sf.client
                    },
                    _ => true,
                }
        }),
{
    if let Some(e) = s.dnd {
        if let Some(sf) = surface {
            let left = s.devices.map_values(after_leave(surface));
            let entered_devs = left.filter(awaits_enter(sf));
            lemma_filter_from(left, awaits_enter(sf));
            let actions = dnd_motion_step(s, surface, pos).1;
            let enters = entered_devs.map_values(enter_action(sf, e.source, s.sources[e.source].mime));
            let before = actions.len() - enters.len() - left.map_values(after_enter(sf)).filter(moves(pos)).len();
            assert forall|k: int| 0 <= k < actions.len() implies match #[trigger] actions[k] {
                ActionView::DndEnter { device, surface: sf2, .. } => {
                    &&& surface == Some(sf2)
                    &&& exists|i: int|
                        0 <= i < s.devices.len() && s.devices[i].id == device
                            && s.devices[i].client == sf2.client
                },
                _ => true,
            } by {
                if actions[k] is DndEnter {
                    assert(before <= k < before + enters.len());
                    let j = k - before;
                    assert(actions[k] == enters[j]);
                    assert(left.contains(entered_devs[j]));
                    let i = choose|i: int| 0 <= i < left.len() && left[i] == entered_devs[j];
                    assert(s.devices[i].id == left[i].id);
                }
            }
        }
    }
}

/// No device of the list has the handle `dv`.
pub open spec fn absent(devices: Seq<DataDevice>, dv: u64) -> bool {
    forall|i: int| 0 <= i < devices.len() ==> (#[trigger] devices[i]).id != dv
}

/// The device an event is sent to, if it is sent to a device.
pub open spec fn addressee(a: ActionView) -> Option<u64> {
    match a {
        ActionView::OfferSelection { device, .. } => Some(device),
        ActionView::ClearSelection { device } => Some(device),
        ActionView::DndEnter { device, .. } => Some(device),
        ActionView::DndLeave { device } => Some(device),
        ActionView::DndMotion { device } => Some(device),
        ActionView::ReusedSource { device } => Some(device),
        _ => None,
    }
}

/// None of the events is sent to the device `dv`.
pub open spec fn silent_to(actions: Seq<ActionView>, dv: u64) -> bool {
    forall|k: int| 0 <= k < actions.len() ==> addressee(#[trigger] actions[k]) != Some(dv)
}

/// Filtering keeps a handle absent.
proof fn lemma_absent_filter(devices: Seq<DataDevice>, p: spec_fn(DataDevice) -> bool, dv: u64)
    requires
        absent(devices, dv),
    ensures
        absent(devices.filter(p), dv),
{
    lemma_filter_from(devices, p);
    assert forall|i: int| 0 <= i < devices.filter(p).len() implies (#[trigger] devices.filter(p)[i]).id != dv by {
        assert(devices.contains(devices.filter(p)[i]));
    }
}

/// Events addressed, one per device, to the devices of a list where `dv` is
/// absent are silent to `dv`.
proof fn lemma_silent_map(devices: Seq<DataDevice>, g: spec_fn(DataDevice) -> ActionView, dv: u64)
    requires
        absent(devices, dv),
        forall|d: DataDevice| #[trigger] addressee(g(d)) == Some(d.id),
    ensures
        silent_to(devices.map_values(g), dv),
{
    assert forall|k: int| 0 <= k < devices.map_values(g).len() implies addressee(
        #[trigger] devices.map_values(g)[k],
    ) != Some(dv) by {
        assert(addressee(g(devices[k])) == Some(devices[k].id));
    }
}

/// Sending the selection is silent to an absent device.
proof fn lemma_selection_silent(s: DataStateView, dv: u64)
    requires
        absent(s.devices, dv),
    ensures
        silent_to(selection_actions(s), dv),
{
    if let Some(c) = s.clipboard_focus {
        lemma_absent_filter(s.devices, owned_by(c), dv);
        lemma_silent_map(s.devices.filter(owned_by(c)), selection_action(s.clipboard, s.sources), dv);
    }
}

/// A cancelled drag is silent to an absent device and keeps it absent.
proof fn lemma_cancel_silent(s: DataStateView, dv: u64)
    requires
        absent(s.devices, dv),
    ensures
        silent_to(dnd_cancel_step(s).1, dv),
        absent(dnd_cancel_step(s).0.devices, dv),
{
    if s.dnd is Some {
        lemma_absent_filter(s.devices, leaves(None), dv);
        lemma_silent_map(s.devices.filter(leaves(None)), leave_action(), dv);
        let r = dnd_cancel_step(s).1;
        assert forall|k: int| 0 <= k < r.len() implies addressee(#[trigger] r[k]) != Some(dv) by {
            if k > 0 {
                assert(r[k] == s.devices.filter(leaves(None)).map_values(leave_action())[k - 1]);
            }
        }
        assert forall|i: int| 0 <= i < dnd_cancel_step(s).0.devices.len() implies (
        #[trigger] dnd_cancel_step(s).0.devices[i]).id != dv by {
            assert(dnd_cancel_step(s).0.devices[i] == after_leave(None)(s.devices[i]));
        }
    }
}

/// A destroyed device leaves the list.
pub proof fn law_destroyed_device_leaves(s: DataStateView, dv: u64)
    ensures
        absent(device_destroyed_step(s, dv).devices, dv),
{
    lemma_filter_from(s.devices, other_than(dv));
    let f = s.devices.filter(other_than(dv));
    assert forall|i: int| 0 <= i < f.len() implies (#[trigger] f[i]).id != dv by {
        assert(other_than(dv)(f[i]));
    }
}

/// A device that is not in the list (a destroyed one, say) receives no event
/// from a focus change, a drag motion or a drag cancel, and stays out of the
/// list. With [`law_destroyed_device_leaves`], a destroyed device hears
/// nothing more until a new device is created with its handle.
pub proof fn law_absent_device_hears_nothing(
    s: DataStateView,
    dv: u64,
    client: Option<u64>,
    surface: Option<SurfaceRef>,
    pos: FixedPos,
)
    requires
        absent(s.devices, dv),
    ensures
        silent_to(update_focus_step(s, client).1, dv),
        absent(update_focus_step(s, client).0.devices, dv),
        silent_to(dnd_motion_step(s, surface, pos).1, dv),
        absent(dnd_motion_step(s, surface, pos).0.devices, dv),
        silent_to(dnd_cancel_step(s).1, dv),
        absent(dnd_cancel_step(s).0.devices, dv),
{
    lemma_selection_silent(DataStateView { clipboard_focus: client, ..s }, dv);
    lemma_cancel_silent(s, dv);
    if let Some(e) = s.dnd {
        let r = dnd_motion_step(s, surface, pos);
        let left = s.devices.map_values(after_leave(surface));
        assert forall|i: int| 0 <= i < left.len() implies (#[trigger] left[i]).id != dv by {
            assert(left[i].id == s.devices[i].id);
        }
        lemma_absent_filter(s.devices, leaves(surface), dv);
        lemma_silent_map(s.devices.filter(leaves(surface)), leave_action(), dv);
        let targets: Seq<ActionView> = if surface != e.focus {
            seq![ActionView::SourceTarget { source: e.source, mime_type: None }]
        } else {
            Seq::empty()
        };
        assert(silent_to(targets, dv));
        let leave_actions = s.devices.filter(leaves(surface)).map_values(leave_action());
        if let Some(sf) = surface {
            let g = enter_action(sf, e.source, s.sources[e.source].mime);
            lemma_absent_filter(left, awaits_enter(sf), dv);
            lemma_silent_map(left.filter(awaits_enter(sf)), g, dv);
            let entered = left.map_values(after_enter(sf));
            assert forall|i: int| 0 <= i < entered.len() implies (#[trigger] entered[i]).id != dv by {
                assert(entered[i].id == left[i].id);
            }
            lemma_absent_filter(entered, moves(pos), dv);
            lemma_silent_map(entered.filter(moves(pos)), motion_action(), dv);
            let moved = entered.map_values(after_motion(pos));
            assert forall|i: int| 0 <= i < moved.len() implies (#[trigger] moved[i]).id != dv by {
                assert(moved[i].id == entered[i].id);
            }
            let enter_actions = left.filter(awaits_enter(sf)).map_values(g);
            let motion_actions = entered.filter(moves(pos)).map_values(motion_action());
            let all = targets + leave_actions + enter_actions + motion_actions;
            assert(r.1 == all);
            assert forall|k: int| 0 <= k < all.len() implies addressee(#[trigger] all[k]) != Some(dv) by {
                if k < targets.len() {
                    assert(all[k] == targets[k]);
                } else if k < targets.len() + leave_actions.len() {
                    assert(all[k] == leave_actions[k - targets.len()]);
                } else if k < targets.len() + leave_actions.len() + enter_actions.len() {
                    assert(all[k] == enter_actions[k - targets.len() - leave_actions.len()]);
                } else {
                    assert(all[k] == motion_actions[k - targets.len() - leave_actions.len() - enter_actions.len()]);
                }
            }
        } else {
            let all = targets + leave_actions;
            assert(r.1 == all);
            assert forall|k: int| 0 <= k < all.len() implies addressee(#[trigger] all[k]) != Some(dv) by {
                if k < targets.len() {
                    assert(all[k] == targets[k]);
                } else {
                    assert(all[k] == leave_actions[k - targets.len()]);
                }
            }
        }
    }
}

/// The same holds of requests: a request from another device, on a source or
/// on an offer, or on the manager (unless it creates a device with the handle
/// `dv`), and the destruction of a source or of another device, send no event
/// to an absent device and keep it absent.
pub proof fn law_absent_device_ignores_requests(
    s: DataStateView,
    dv: u64,
    client: u64,
    device: u64,
    device_request: DeviceRequest,
    source: u64,
    source_request: SourceRequest,
    offer_request: OfferRequest,
    manager_request: ManagerRequest,
    other_device: u64,
)
    requires
        absent(s.devices, dv),
        device != dv,
        !(manager_request matches ManagerRequest::GetDataDevice { id, .. } && id == dv),
    ensures
        silent_to(device_request_step(s, client, device, device_request).1, dv),
        absent(device_request_step(s, client, device, device_request).0.devices, dv),
        silent_to(source_request_step(s, source, source_request).1, dv),
        absent(source_request_step(s, source, source_request).0.devices, dv),
        silent_to(offer_request_step(s, source, offer_request).1, dv),
        absent(offer_request_step(s, source, offer_request).0.devices, dv),
        absent(manager_request_step(s, manager_request).devices, dv),
        absent(source_destroyed_step(s, source).devices, dv),
        absent(device_destroyed_step(s, other_device).devices, dv),
{
    lemma_cancel_silent(s, dv);
    lemma_absent_filter(s.devices, other_than(other_device), dv);
    match device_request {
        DeviceRequest::SetSelection { source: src } => {
            let r = set_selection_step(s, client, device, src);
            if s.clipboard_focus == Some(client) && !(src matches Some(x) && s.sources[x].mime.contains(
                save_targets(),
            )) {
                let (sources, err) = match src {
                    Some(x) => claim_source(s.sources, device, x, SourceUsage::Selection),
                    None => (s.sources, Seq::empty()),
                };
                let s2 = DataStateView { sources: sources, clipboard: src, ..s };
                lemma_selection_silent(s2, dv);
            }
            assert(silent_to(r.1, dv));
        },
        _ => {},
    }
    match manager_request {
        ManagerRequest::GetDataDevice { id, client: c } => {
            let d = manager_request_step(s, manager_request).devices;
            assert forall|i: int| 0 <= i < d.len() implies (#[trigger] d[i]).id != dv by {
                if i < s.devices.len() {
                    assert(d[i] == s.devices[i]);
                }
            }
        },
        _ => {},
    }
}

/// A sequence holding `x` still holds it with anything added on either side.
proof fn lemma_contains_add<A>(a: Seq<A>, b: Seq<A>, x: A)
    ensures
        a.contains(x) ==> (a + b).contains(x),
        b.contains(x) ==> (a + b).contains(x),
{
    if a.contains(x) {
        let k = choose|k: int| 0 <= k < a.len() && a[k] == x;
        assert((a + b)[k] == x);
    }
    if b.contains(x) {
        let k = choose|k: int| 0 <= k < b.len() && b[k] == x;
        assert((a + b)[a.len() + k] == x);
    }
}

/// Mapping keeps what an element maps to.
proof fn lemma_contains_map<A, B>(s: Seq<A>, g: spec_fn(A) -> B, x: A)
    requires
        s.contains(x),
    ensures
        s.map_values(g).contains(g(x)),
{
    let k = choose|k: int| 0 <= k < s.len() && s[k] == x;
    assert(s.map_values(g)[k] == g(x));
}

/// The `i`-th element of `s`, when it passes `p`, is sent as `g` of it.
proof fn lemma_sent<A, B>(s: Seq<A>, p: spec_fn(A) -> bool, g: spec_fn(A) -> B, i: int)
    requires
        0 <= i < s.len(),
        p(s[i]),
    ensures
        s.filter(p).map_values(g).contains(g(s[i])),
{
    s.lemma_filter_contains(p, i);
    lemma_contains_map(s.filter(p), g, s[i]);
}

/// A drag motion over `surface` sends `leave` to every device entered on
/// another surface (on every surface, when the drag leaves all surfaces);
/// every device that ends up entered on a surface it was not entered on
/// before is entered on `surface`, and it receives `enter` on `surface` with
/// an offer of the dragged source listing all the source's mime types; and
/// every device entered on `surface` is told of `pos` by a `motion`, unless it
/// was told of `pos` already.
pub proof fn law_motion_leaves_and_enters(s: DataStateView, surface: Option<SurfaceRef>, pos: FixedPos)
    requires
        wf_view(s),
        s.dnd is Some,
    ensures
        ({
            let (s1, a) = dnd_motion_step(s, surface, pos);
            let e = s.dnd.unwrap();
            &&& s1.devices.len() == s.devices.len()
            &&& forall|i: int|
                0 <= i < s.devices.len() && (#[trigger] s.devices[i]).dnd_focus is Some
                    && s.devices[i].dnd_focus != surface ==> a.contains(
                    ActionView::DndLeave { device: s.devices[i].id },
                )
            &&& forall|i: int|
                0 <= i < s1.devices.len() && (#[trigger] s1.devices[i]).dnd_focus is Some
                    && s1.devices[i].dnd_focus != s.devices[i].dnd_focus ==> {
                    &&& s1.devices[i].dnd_focus == surface
                    &&& a.contains(
                        ActionView::DndEnter {
                            device: s.devices[i].id,
                            surface: surface.unwrap(),
                            source: e.source,
                            mime_types: s.sources[e.source].mime,
                        },
                    )
                }
            &&& forall|i: int|
                0 <= i < s1.devices.len() && (#[trigger] s1.devices[i]).dnd_focus is Some
                    && s.devices[i].last_dnd_motion != Some(pos)
                    && s.devices[i].dnd_focus == s1.devices[i].dnd_focus ==> a.contains(
                    ActionView::DndMotion { device: s.devices[i].id },
                )
        }),
{
    let e = s.dnd.unwrap();
    let (s1, a) = dnd_motion_step(s, surface, pos);
    let retarget = surface != e.focus;
    let targets: Seq<ActionView> = if retarget {
        seq![ActionView::SourceTarget { source: e.source, mime_type: None }]
    } else {
        Seq::empty()
    };
    let left = s.devices.map_values(after_leave(surface));
    let leave_actions = s.devices.filter(leaves(surface)).map_values(leave_action());
    assert forall|i: int|
        0 <= i < s.devices.len() && (#[trigger] s.devices[i]).dnd_focus is Some
            && s.devices[i].dnd_focus != surface implies a.contains(
            ActionView::DndLeave { device: s.devices[i].id },
        ) by {
        lemma_sent(s.devices, leaves(surface), leave_action(), i);
        lemma_contains_add(targets, leave_actions, ActionView::DndLeave { device: s.devices[i].id });
        if let Some(sf) = surface {
            let g = enter_action(sf, e.source, s.sources[e.source].mime);
            let entered = left.map_values(after_enter(sf));
            let enter_actions = left.filter(awaits_enter(sf)).map_values(g);
            let motion_actions = entered.filter(moves(pos)).map_values(motion_action());
            lemma_contains_add(targets + leave_actions, enter_actions, ActionView::DndLeave { device: s.devices[i].id });
            lemma_contains_add(targets + leave_actions + enter_actions, motion_actions, ActionView::DndLeave { device: s.devices[i].id });
        }
    }
    if let Some(sf) = surface {
        let g = enter_action(sf, e.source, s.sources[e.source].mime);
        let entered = left.map_values(after_enter(sf));
        let enter_actions = left.filter(awaits_enter(sf)).map_values(g);
        let motion_actions = entered.filter(moves(pos)).map_values(motion_action());
        assert(a == targets + leave_actions + enter_actions + motion_actions);
        assert forall|i: int|
            0 <= i < s1.devices.len() && (#[trigger] s1.devices[i]).dnd_focus is Some
                && s1.devices[i].dnd_focus != s.devices[i].dnd_focus implies {
                &&& s1.devices[i].dnd_focus == surface
                &&& a.contains(
                    ActionView::DndEnter {
                        device: s.devices[i].id,
                        surface: surface.unwrap(),
                        source: e.source,
                        mime_types: s.sources[e.source].mime,
                    },
                )
            } by {
            assert(left[i] == after_leave(surface)(s.devices[i]));
            assert(entered[i] == after_enter(sf)(left[i]));
            assert(s1.devices[i] == after_motion(pos)(entered[i]));
            assert(awaits_enter(sf)(left[i]));
            lemma_sent(left, awaits_enter(sf), g, i);
            let x = g(left[i]);
            lemma_contains_add(targets + leave_actions, enter_actions, x);
            lemma_contains_add(targets + leave_actions + enter_actions, motion_actions, x);
        }
        assert forall|i: int|
            0 <= i < s1.devices.len() && (#[trigger] s1.devices[i]).dnd_focus is Some
                && s.devices[i].last_dnd_motion != Some(pos)
                && s.devices[i].dnd_focus == s1.devices[i].dnd_focus implies a.contains(
                ActionView::DndMotion { device: s.devices[i].id },
            ) by {
            assert(left[i] == after_leave(surface)(s.devices[i]));
            assert(entered[i] == after_enter(sf)(left[i]));
            assert(s1.devices[i] == after_motion(pos)(entered[i]));
            assert(moves(pos)(entered[i]));
            lemma_sent(entered, moves(pos), motion_action(), i);
            let x = ActionView::DndMotion { device: s.devices[i].id };
            lemma_contains_add(targets + leave_actions + enter_actions, motion_actions, x);
        }
    } else {
        assert forall|i: int|
            0 <= i < s1.devices.len() && (#[trigger] s1.devices[i]).dnd_focus is Some
                && s.devices[i].last_dnd_motion != Some(pos)
                && s.devices[i].dnd_focus == s1.devices[i].dnd_focus implies a.contains(
                ActionView::DndMotion { device: s.devices[i].id },
            ) by {
            assert(s1.devices[i] == after_leave(surface)(s.devices[i]));
        }
    }
}

/// A selection whose source offers the `SAVE_TARGETS` type, at any
/// position of its list, is ignored: nothing is sent and nothing changes.
pub proof fn law_save_targets_selection_is_ignored(
    s: DataStateView,
    client: u64,
    device: u64,
    src: u64,
    j: int,
)
    requires
        s.sources.contains_key(src),
        0 <= j < s.sources[src].mime.len(),
        s.sources[src].mime[j] == save_targets(),
    ensures
        device_request_step(s, client, device, DeviceRequest::SetSelection { source: Some(src) }) == (
            s,
            Seq::<ActionView>::empty(),
        ),
{
    assert(s.sources[src].mime.contains(save_targets()));
}

/// Receiving asks for exactly the requested type: a live source that
/// offers `m` is asked to send its data as `m`, and nothing else; any other
/// request to receive sends nothing; and the state never changes.
pub proof fn law_receive_sends_requested_type(s: DataStateView, src: u64, m: String)
    ensures
        ({
            let (s1, a) = offer_request_step(s, src, OfferRequest::Receive { mime_type: m });
            &&& s1 == s
            &&& live(s.sources, src) && s.sources[src].mime.contains(m@) ==> a == seq![
                ActionView::SourceSend { source: src, mime_type: m@ },
            ]
            &&& !(live(s.sources, src) && s.sources[src].mime.contains(m@)) ==> a.len() == 0
            &&& forall|k: int|
                0 <= k < a.len() ==> a[k] == ActionView::SourceSend { source: src, mime_type: m@ }
        }),
{
}

/// Accepting a type on an offer of the dragged source tells the source
/// exactly that type, which the drag records as its accepted type; on an
/// offer of another source, or with no drag, nothing is sent and nothing
/// changes. Finishing on an offer of the dragged source tells it so.
pub proof fn law_accept_reports_accepted_type(s: DataStateView, src: u64, m: Option<String>)
    ensures
        ({
            let (s1, a) = offer_request_step(s, src, OfferRequest::Accept { mime_type: m });
            let (s2, b) = offer_request_step(s, src, OfferRequest::Finish);
            &&& (s.dnd matches Some(e) && e.source == src) ==> {
                &&& a == seq![ActionView::SourceTarget { source: src, mime_type: m.deep_view() }]
                &&& s1.dnd matches Some(e1) && e1.mime == m.deep_view() && e1.source == src
                    && e1.focus == s.dnd.unwrap().focus
                &&& a[0] == ActionView::SourceTarget { source: src, mime_type: s1.dnd.unwrap().mime }
                &&& b == seq![ActionView::SourceDndFinished { source: src }]
            }
            &&& !(s.dnd matches Some(e) && e.source == src) ==> s1 == s && a.len() == 0 && b.len() == 0
            &&& s1.devices == s.devices && s1.sources == s.sources && s1.clipboard == s.clipboard
            &&& s2 == s
        }),
{
}

/// Destroying a source never touches a clipboard held by another source, and
/// leaves no clipboard held by the destroyed one; devices, focus and the
/// drag are untouched, and so is every other source.
pub proof fn law_destroy_keeps_other_clipboard(s: DataStateView, src: u64)
    ensures
        ({
            let s1 = source_destroyed_step(s, src);
            &&& s.clipboard != Some(src) ==> s1.clipboard == s.clipboard
            &&& s1.clipboard != Some(src)
            &&& s1.devices == s.devices && s1.clipboard_focus == s.clipboard_focus && s1.dnd == s.dnd
            &&& forall|k: u64|
                k != src ==> (#[trigger] s1.sources.contains_key(k) == s.sources.contains_key(k))
                    && s1.sources[k] == s.sources[k]
            &&& !live(s1.sources, src)
        }),
{
}

/// Moving clipboard focus to another client gives it the focus, changes
/// nothing else, and hands every one of its devices the current selection:
/// an offer of the clipboard source with all its mime types, or the news
/// that there is none.
pub proof fn law_focus_change_hands_selection(s: DataStateView, c: u64)
    requires
        wf_view(s),
        s.clipboard_focus != Some(c),
    ensures
        ({
            let (s1, a) = update_focus_step(s, Some(c));
            &&& s1 == DataStateView { clipboard_focus: Some(c), ..s }
            &&& forall|i: int|
                0 <= i < s.devices.len() && (#[trigger] s.devices[i]).client == c ==> a.contains(
                    match s.clipboard {
                        Some(src) => ActionView::OfferSelection {
                            device: s.devices[i].id,
                            source: src,
                            mime_types: s.sources[src].mime,
                        },
                        None => ActionView::ClearSelection { device: s.devices[i].id },
                    },
                )
        }),
{
    let s1 = DataStateView { clipboard_focus: Some(c), ..s };
    assert forall|i: int|
        0 <= i < s.devices.len() && (#[trigger] s.devices[i]).client == c implies update_focus_step(
            s,
            Some(c),
        ).1.contains(
            match s.clipboard {
                Some(src) => ActionView::OfferSelection {
                    device: s.devices[i].id,
                    source: src,
                    mime_types: s.sources[src].mime,
                },
                None => ActionView::ClearSelection { device: s.devices[i].id },
            },
        ) by {
        lemma_sent(s.devices, owned_by(c), selection_action(s.clipboard, s.sources), i);
    }
}

/// A selection set by a client without clipboard focus is ignored. Set by
/// the focused client with a live source that does not offer
/// `SAVE_TARGETS`, it makes that source the clipboard, cancels the previous
/// clipboard source, claims an unused source for the selection (a used one
/// draws the `used_source` error and keeps its use), and hands every device
/// of the client an offer of the new source with all its mime types.
pub proof fn law_selection_replaces_clipboard(
    s: DataStateView,
    client: u64,
    device: u64,
    src: u64,
)
    requires
        wf_view(s),
    ensures
        ({
            let (s1, a) = device_request_step(s, client, device, DeviceRequest::SetSelection { source: Some(src) });
            &&& s.clipboard_focus != Some(client) ==> s1 == s && a.len() == 0
            &&& (s.clipboard_focus == Some(client) && live(s.sources, src)
                && !s.sources[src].mime.contains(save_targets())) ==> {
                &&& s1.clipboard == Some(src)
                &&& s1.devices == s.devices && s1.dnd == s.dnd && s1.clipboard_focus == s.clipboard_focus
                &&& s1.sources[src].mime == s.sources[src].mime
                &&& s1.sources[src].usage == (if s.sources[src].usage == SourceUsage::Unused {
                    SourceUsage::Selection
                } else {
                    s.sources[src].usage
                })
                &&& (s.sources[src].usage != SourceUsage::Unused) == a.contains(
                    ActionView::ReusedSource { device: device },
                )
                &&& (s.clipboard matches Some(prev) ==> a.contains(
                    ActionView::SourceCancelled { source: prev },
                ))
                &&& forall|i: int|
                    0 <= i < s.devices.len() && (#[trigger] s.devices[i]).client == client
                        ==> a.contains(
                        ActionView::OfferSelection {
                            device: s.devices[i].id,
                            source: src,
                            mime_types: s.sources[src].mime,
                        },
                    )
            }
        }),
{
    if s.clipboard_focus == Some(client) && live(s.sources, src) && !s.sources[src].mime.contains(
        save_targets(),
    ) {
        let (sources, err) = claim_source(s.sources, device, src, SourceUsage::Selection);
        let cancel: Seq<ActionView> = match s.clipboard {
            Some(prev) => seq![ActionView::SourceCancelled { source: prev }],
            None => Seq::empty(),
        };
        let s2 = DataStateView { sources: sources, clipboard: Some(src), ..s };
        let sel = selection_actions(s2);
        let a = err + cancel + sel;
        assert(a == device_request_step(s, client, device, DeviceRequest::SetSelection { source: Some(src) }).1);
        law_selection_goes_to_focused_client(s2);
        assert(!sel.contains(ActionView::ReusedSource { device: device })) by {
            if sel.contains(ActionView::ReusedSource { device: device }) {
                let k = choose|k: int| 0 <= k < sel.len() && sel[k] == ActionView::ReusedSource { device: device };
                let i = choose|i: int|
                    0 <= i < s2.devices.len() && Some(s2.devices[i].client) == s2.clipboard_focus && match
                        #[trigger] selection_actions(s2)[k] {
                        ActionView::OfferSelection { device, .. } => device == s2.devices[i].id,
                        ActionView::ClearSelection { device } => device == s2.devices[i].id,
                        _ => false,
                    };
            }
        }
        if s.sources[src].usage != SourceUsage::Unused {
            assert(err[0] == ActionView::ReusedSource { device: device });
            lemma_contains_add(err, cancel, ActionView::ReusedSource { device: device });
            lemma_contains_add(err + cancel, sel, ActionView::ReusedSource { device: device });
        } else {
            assert(err.len() == 0);
            assert(!a.contains(ActionView::ReusedSource { device: device })) by {
                if a.contains(ActionView::ReusedSource { device: device }) {
                    let k = choose|k: int| 0 <= k < a.len() && a[k] == ActionView::ReusedSource { device: device };
                    if k >= cancel.len() {
                        assert(sel[k - cancel.len()] == a[k]);
                    }
                }
            }
        }
        if let Some(prev) = s.clipboard {
            assert(cancel[0] == ActionView::SourceCancelled { source: prev });
            lemma_contains_add(err, cancel, ActionView::SourceCancelled { source: prev });
            lemma_contains_add(err + cancel, sel, ActionView::SourceCancelled { source: prev });
        }
        assert forall|i: int|
            0 <= i < s.devices.len() && (#[trigger] s.devices[i]).client == client implies a.contains(
                ActionView::OfferSelection {
                    device: s.devices[i].id,
                    source: src,
                    mime_types: s.sources[src].mime,
                },
            ) by {
            lemma_sent(s2.devices, owned_by(client), selection_action(s2.clipboard, s2.sources), i);
            lemma_contains_add(err + cancel, sel, selection_action(s2.clipboard, s2.sources)(s.devices[i]));
        }
    }
}

/// Starting a drag with a live source: with no drag in progress, the drag
/// starts with that source and serial, on no surface and with no accepted
/// type; with a drag in progress, the drag stays as it was and the new
/// source is cancelled. Either way an unused source is claimed for the drag,
/// and a used one draws the `used_source` error first; devices, clipboard
/// and focus are untouched.
pub proof fn law_start_drag(s: DataStateView, client: u64, device: u64, src: u64, serial: u32)
    requires
        wf_view(s),
        live(s.sources, src),
    ensures
        ({
            let (s1, a) = device_request_step(
                s,
                client,
                device,
                DeviceRequest::StartDrag { source: Some(src), serial: serial },
            );
            &&& s1.devices == s.devices && s1.clipboard == s.clipboard
                && s1.clipboard_focus == s.clipboard_focus
            &&& s1.sources[src].usage == (if s.sources[src].usage == SourceUsage::Unused {
                SourceUsage::Drag
            } else {
                s.sources[src].usage
            })
            &&& s1.sources[src].mime == s.sources[src].mime
            &&& s.dnd is None ==> s1.dnd == Some(
                crate::protocol::DndView { start_serial: serial, source: src, focus: None, mime: None },
            ) && a == (if s.sources[src].usage == SourceUsage::Unused {
                Seq::<ActionView>::empty()
            } else {
                seq![ActionView::ReusedSource { device: device }]
            })
            &&& s.dnd is Some ==> s1.dnd == s.dnd && a.last() == ActionView::SourceCancelled { source: src }
                && a.len() == (if s.sources[src].usage == SourceUsage::Unused { 1int } else { 2int })
        }),
{
}

/// Cancelling a drag tells the dragged source first, then sends `leave` to
/// every device the drag had entered; the clipboard and its focus are
/// untouched, and every device keeps its handle and client.
pub proof fn law_cancel_tells_everyone(s: DataStateView)
    requires
        wf_view(s),
        s.dnd is Some,
    ensures
        ({
            let (s1, a) = dnd_cancel_step(s);
            &&& a[0] == ActionView::SourceCancelled { source: s.dnd.unwrap().source }
            &&& forall|i: int|
                0 <= i < s.devices.len() && (#[trigger] s.devices[i]).dnd_focus is Some ==> a.contains(
                    ActionView::DndLeave { device: s.devices[i].id },
                )
            &&& s1.clipboard == s.clipboard && s1.clipboard_focus == s.clipboard_focus
            &&& s1.devices.len() == s.devices.len()
            &&& forall|i: int|
                0 <= i < s.devices.len() ==> (#[trigger] s1.devices[i]).id == s.devices[i].id
                    && s1.devices[i].client == s.devices[i].client
        }),
{
    let e = s.dnd.unwrap();
    let (s1, a) = dnd_cancel_step(s);
    let head = seq![ActionView::SourceCancelled { source: e.source }];
    let leave_actions = s.devices.filter(leaves(None)).map_values(leave_action());
    assert forall|i: int|
        0 <= i < s.devices.len() && (#[trigger] s.devices[i]).dnd_focus is Some implies a.contains(
            ActionView::DndLeave { device: s.devices[i].id },
        ) by {
        lemma_sent(s.devices, leaves(None), leave_action(), i);
        lemma_contains_add(head, leave_actions, ActionView::DndLeave { device: s.devices[i].id });
    }
    assert forall|i: int| 0 <= i < s.devices.len() implies (#[trigger] s1.devices[i]).id == s.devices[i].id
        && s1.devices[i].client == s.devices[i].client by {
        assert(s1.devices[i] == after_leave(None)(s.devices[i]));
    }
}

/// A drag motion keeps the dragged source and serial and moves the drag to
/// `surface`; when the surface changes, the source is told first that no
/// type is accepted and the accepted type is forgotten; otherwise the source
/// hears nothing and the accepted type stays. The clipboard, its focus and
/// the sources are untouched, and every device keeps its handle and client.
pub proof fn law_motion_moves_drag(s: DataStateView, surface: Option<SurfaceRef>, pos: FixedPos)
    requires
        wf_view(s),
        s.dnd is Some,
    ensures
        ({
            let (s1, a) = dnd_motion_step(s, surface, pos);
            let e = s.dnd.unwrap();
            &&& s1.dnd matches Some(e1) && e1.focus == surface && e1.source == e.source
                && e1.start_serial == e.start_serial
            &&& surface != e.focus ==> a[0] == ActionView::SourceTarget { source: e.source, mime_type: None }
                && s1.dnd.unwrap().mime == None::<Seq<char>>
            &&& surface == e.focus ==> s1.dnd.unwrap().mime == e.mime && !a.contains(
                ActionView::SourceTarget { source: e.source, mime_type: None },
            )
            &&& s1.clipboard == s.clipboard && s1.clipboard_focus == s.clipboard_focus
                && s1.sources == s.sources
            &&& s1.devices.len() == s.devices.len()
            &&& forall|i: int|
                0 <= i < s.devices.len() ==> (#[trigger] s1.devices[i]).id == s.devices[i].id
                    && s1.devices[i].client == s.devices[i].client
        }),
{
    let e = s.dnd.unwrap();
    let (s1, a) = dnd_motion_step(s, surface, pos);
    let left = s.devices.map_values(after_leave(surface));
    let leave_actions = s.devices.filter(leaves(surface)).map_values(leave_action());
    lemma_silent_kinds(s, surface, pos);
    if surface == e.focus {
        assert(!a.contains(ActionView::SourceTarget { source: e.source, mime_type: None }));
    }
    assert forall|i: int| 0 <= i < s.devices.len() implies (#[trigger] s1.devices[i]).id == s.devices[i].id
        && s1.devices[i].client == s.devices[i].client by {
        assert(left[i] == after_leave(surface)(s.devices[i]));
        if let Some(sf) = surface {
            let entered = left.map_values(after_enter(sf));
            assert(entered[i] == after_enter(sf)(left[i]));
            assert(s1.devices[i] == after_motion(pos)(entered[i]));
        }
    }
}

/// Only the first event of a drag motion can be addressed to the source:
/// the rest are `leave`, `enter` and `motion` events for devices.
proof fn lemma_silent_kinds(s: DataStateView, surface: Option<SurfaceRef>, pos: FixedPos)
    requires
        s.dnd is Some,
    ensures
        ({
            let a = dnd_motion_step(s, surface, pos).1;
            let e = s.dnd.unwrap();
            forall|k: int|
                0 <= k < a.len() && (surface == e.focus || k > 0) ==> (#[trigger] a[k]) is DndLeave
                    || a[k] is DndEnter || a[k] is DndMotion
        }),
{
    let e = s.dnd.unwrap();
    let a = dnd_motion_step(s, surface, pos).1;
    let targets: Seq<ActionView> = if surface != e.focus {
        seq![ActionView::SourceTarget { source: e.source, mime_type: None }]
    } else {
        Seq::empty()
    };
    let left = s.devices.map_values(after_leave(surface));
    let leave_actions = s.devices.filter(leaves(surface)).map_values(leave_action());
    assert forall|k: int| 0 <= k < leave_actions.len() implies (#[trigger] leave_actions[k]) is DndLeave by {}
    if let Some(sf) = surface {
        let g = enter_action(sf, e.source, s.sources[e.source].mime);
        let entered = left.map_values(after_enter(sf));
        let enter_actions = left.filter(awaits_enter(sf)).map_values(g);
        let motion_actions = entered.filter(moves(pos)).map_values(motion_action());
        let all = targets + leave_actions + enter_actions + motion_actions;
        assert(a == all);
        assert forall|k: int|
            0 <= k < all.len() && (surface == e.focus || k > 0) implies (#[trigger] all[k]) is DndLeave
                || all[k] is DndEnter || all[k] is DndMotion by {
            if k < targets.len() {
            } else if k < targets.len() + leave_actions.len() {
                assert(all[k] == leave_actions[k - targets.len()]);
            } else if k < targets.len() + leave_actions.len() + enter_actions.len() {
                assert(all[k] == enter_actions[k - targets.len() - leave_actions.len()]);
            } else {
                assert(all[k] == motion_actions[k - targets.len() - leave_actions.len() - enter_actions.len()]);
            }
        }
    } else {
        let all = targets + leave_actions;
        assert(a == all);
        assert forall|k: int|
            0 <= k < all.len() && (surface == e.focus || k > 0) implies (#[trigger] all[k]) is DndLeave
                || all[k] is DndEnter || all[k] is DndMotion by {
            if k >= targets.len() {
                assert(all[k] == leave_actions[k - targets.len()]);
            }
        }
    }
}

/// Requests on a source: `offer` adds the type at the end of the source's
/// list and changes nothing else; `destroy` cancels the drag when it drags
/// that source, and otherwise does nothing.
pub proof fn law_source_requests(s: DataStateView, src: u64, m: String)
    requires
        wf_view(s),
        live(s.sources, src),
    ensures
        ({
            let (s1, a) = source_request_step(s, src, SourceRequest::Offer { mime_type: m });
            &&& a.len() == 0
            &&& s1.sources[src].mime == s.sources[src].mime.push(m@)
            &&& s1.sources[src].usage == s.sources[src].usage && s1.sources[src].alive
            &&& s1.sources.dom() == s.sources.dom()
            &&& forall|k: u64| k != src && #[trigger] s.sources.contains_key(k) ==> s1.sources[k] == s.sources[k]
            &&& s1.devices == s.devices && s1.dnd == s.dnd && s1.clipboard == s.clipboard
        }),
        (s.dnd matches Some(e) && e.source == src) ==> source_request_step(s, src, SourceRequest::Destroy)
            == dnd_cancel_step(s),
        !(s.dnd matches Some(e) && e.source == src) ==> source_request_step(s, src, SourceRequest::Destroy)
            == (s, Seq::<ActionView>::empty()),
{
    let s1 = source_request_step(s, src, SourceRequest::Offer { mime_type: m }).0;
    assert(s1.sources.dom() =~= s.sources.dom());
}

/// Requests on the manager: a new source is alive, unused and offers
/// nothing yet; a new device joins the end of the list, entered nowhere;
/// nothing else changes.
pub proof fn law_manager_requests(s: DataStateView, id: u64, client: u64)
    ensures
        ({
            let s1 = manager_request_step(s, ManagerRequest::CreateDataSource { id: id });
            &&& live(s1.sources, id) && s1.sources[id].usage == SourceUsage::Unused
                && s1.sources[id].mime.len() == 0
            &&& forall|k: u64| k != id ==> (#[trigger] s1.sources.contains_key(k)
                == s.sources.contains_key(k)) && s1.sources[k] == s.sources[k]
            &&& s1.devices == s.devices && s1.dnd == s.dnd && s1.clipboard == s.clipboard
        }),
        ({
            let s1 = manager_request_step(s, ManagerRequest::GetDataDevice { id: id, client: client });
            &&& s1.devices.len() == s.devices.len() + 1
            &&& s1.devices.last() == DataDevice {
                id: id,
                client: client,
                dnd_focus: None,
                last_dnd_motion: None,
            }
            &&& forall|i: int| 0 <= i < s.devices.len() ==> #[trigger] s1.devices[i] == s.devices[i]
            &&& s1.sources == s.sources && s1.dnd == s.dnd && s1.clipboard == s.clipboard
        }),
{
}

/// Destroying a device keeps every other device, in its order.
pub proof fn law_destroyed_device_keeps_others(s: DataStateView, dv: u64)
    ensures
        ({
            let s1 = device_destroyed_step(s, dv);
            &&& forall|i: int|
                0 <= i < s.devices.len() && (#[trigger] s.devices[i]).id != dv ==> s1.devices.contains(
                    s.devices[i],
                )
            &&& forall|j: int| 0 <= j < s1.devices.len() ==> s.devices.contains(#[trigger] s1.devices[j])
            &&& s1.sources == s.sources && s1.dnd == s.dnd && s1.clipboard == s.clipboard
        }),
{
    lemma_filter_from(s.devices, other_than(dv));
    assert forall|i: int|
        0 <= i < s.devices.len() && (#[trigger] s.devices[i]).id != dv implies device_destroyed_step(
            s,
            dv,
        ).devices.contains(s.devices[i]) by {
        s.devices.lemma_filter_contains(other_than(dv), i);
    }
}

} // verus!
