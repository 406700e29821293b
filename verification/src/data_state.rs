//! The compositor's side of the `wl_data_device_manager` protocol: the
//! clipboard (selection) and drag-and-drop.
//!
//! Every operation takes the state and an event (a request, a focus change, a
//! pointer motion) and returns the events to send to clients, as a list of
//! [`DataAction`]s, in order. The event loop sends them.
use std::collections::HashMap;
use vstd::prelude::*;
use crate::model::{
    DataStateView, after_enter, after_leave, after_motion, awaits_enter, claim_source, device_destroyed_step,
    device_request_allowed, device_request_step, dnd_cancel_step, dnd_motion_step,
    empty_view, enter_action, focus_ok, live, fresh_device, fresh_source,
    leave_action, leaves, lemma_motion_wf, manager_request_step, motion_action,
    moves, offer_request_step, other_than, owned_by, save_targets, selection_action, selection_actions,
    set_selection_step, source_destroyed_step, source_request_allowed, source_request_step,
    start_drag_step, update_focus_step, wf_view,
};
use crate::protocol::{
    ActionView, DataAction, DataDevice, DataSource, DeviceRequest, FixedPos, ManagerRequest,
    OfferRequest, SourceRequest, SourceUsage, SourceView, SurfaceRef, WLCDndEvent,
};

verus! {

broadcast use vstd::std_specs::hash::group_hash_axioms;

/// The state of the data-device protocol: the devices clients created (in
/// creation order), the data sources by handle (live ones, and a destroyed
/// one while it is being dragged), the source that holds the clipboard, the
/// client that has clipboard focus, and the drag in progress.
pub struct WLCDataState {
    pub devices: Vec<DataDevice>,
    pub clipboard: Option<u64>,
    pub clipboard_focus: Option<u64>,
    pub dnd: Option<WLCDndEvent>,
    pub sources: HashMap<u64, DataSource>,
}

impl View for WLCDataState {
    type V = DataStateView;

    open spec fn view(&self) -> DataStateView {
        DataStateView {
            devices: self.devices@,
            sources: self.sources@.map_values(|s: DataSource| s@),
            clipboard: self.clipboard,
            clipboard_focus: self.clipboard_focus,
            dnd: match self.dnd {
                Some(e) => Some(e@),
                None => None,
            },
        }
    }
}

// ----------------------------------------------------------------------------
// Helpers
// ----------------------------------------------------------------------------

/// Copies a list of mime types.
fn clone_mimes(v: &Vec<String>) -> (r: Vec<String>)
    ensures
        r.deep_view() == v.deep_view(),
{
    let mut r: Vec<String> = Vec::new();
    for i in 0..v.len()
        invariant
            r.deep_view() =~= v.deep_view().take(i as int),
    {
        let ghost prev = r.deep_view();
        let m = v[i].clone();
        assert(m@ == v@[i as int]@);
        r.push(m);
        assert(r.deep_view() =~= prev.push(m@));
        assert(v.deep_view().take(i + 1) =~= v.deep_view().take(i as int).push(v@[i as int]@));
    }
    r
}

/// Whether a list of mime types holds `m`.
fn mimes_contain(v: &Vec<String>, m: &String) -> (r: bool)
    ensures
        r == v.deep_view().contains(m@),
{
    for i in 0..v.len()
        invariant
            forall|j: int| 0 <= j < i ==> v.deep_view()[j] != m@,
    {
        if v[i] == *m {
            assert(v.deep_view()[i as int] == m@);
            return true;
        }
    }
    false
}

/// Copies an optional mime type.
fn clone_mime(m: &Option<String>) -> (r: Option<String>)
    ensures
        r.deep_view() == m.deep_view(),
{
    match m {
        Some(s) => Some(s.clone()),
        None => None,
    }
}

/// Option equality on client handles.
fn same_client(a: Option<u64>, b: Option<u64>) -> (r: bool)
    ensures
        r == (a == b),
{
    match (a, b) {
        (Some(x), Some(y)) => x == y,
        (None, None) => true,
        _ => false,
    }
}

/// Option equality on surfaces.
fn same_surface(a: Option<SurfaceRef>, b: Option<SurfaceRef>) -> (r: bool)
    ensures
        r == (a == b),
{
    match (a, b) {
        (Some(x), Some(y)) => x.id == y.id && x.client == y.client,
        (None, None) => true,
        _ => false,
    }
}

/// Appending one action to a list extends its view by that action's view.
proof fn lemma_push_action(before: Seq<DataAction>, a: DataAction)
    ensures
        Seq::new(before.push(a).len(), |i: int| before.push(a)[i].deep_view())
            =~= Seq::new(before.len(), |i: int| before[i].deep_view()).push(a.deep_view()),
{
}

/// Filtering a sequence one element longer adds that element when it passes.
proof fn lemma_filter_take_succ<A>(s: Seq<A>, p: spec_fn(A) -> bool, i: int)
    requires
        0 <= i < s.len(),
    ensures
        s.take(i + 1).filter(p) == (if p(s[i]) {
            s.take(i).filter(p).push(s[i])
        } else {
            s.take(i).filter(p)
        }),
{
    reveal(Seq::filter);
    assert(s.take(i + 1).drop_last() =~= s.take(i));
}

/// Mapping over a sequence with one more element at its end.
proof fn lemma_map_push<A, B>(s: Seq<A>, x: A, f: spec_fn(A) -> B)
    ensures
        s.push(x).map_values(f) =~= s.map_values(f).push(f(x)),
{
}

impl WLCDataState {
    /// The state is well formed (see [`wf_view`]).
    pub open spec fn wf(&self) -> bool {
        wf_view(self@)
    }

    /// A new, empty state.
    pub fn new() -> (st: Self)
        ensures
            st@ == empty_view(),
            st.wf(),
    {
        let st = WLCDataState {
            devices: Vec::new(),
            clipboard: None,
            clipboard_focus: None,
            dnd: None,
            sources: HashMap::new(),
        };
        assert(st@.sources =~= Map::empty());
        st
    }

    /// Appends the selection events for the client with clipboard focus.
    fn send_clipboard(&self, actions: &mut Vec<DataAction>)
        requires
            self.wf(),
        ensures
            final(actions).deep_view() == old(actions).deep_view() + selection_actions(self@),
    {
        let client = match self.clipboard_focus {
            Some(c) => c,
            None => {
                assert(old(actions).deep_view() + Seq::<ActionView>::empty() =~= old(
                    actions,
                ).deep_view());
                return;
            },
        };
        let ghost start = actions.deep_view();
        let ghost p = owned_by(client);
        let ghost f = selection_action(self@.clipboard, self@.sources);
        for i in 0..self.devices.len()
            invariant
                self.wf(),
                self.clipboard_focus == Some(client),
                p == owned_by(client),
                f == selection_action(self@.clipboard, self@.sources),
                actions.deep_view() =~= start + self@.devices.take(i as int).filter(p).map_values(f),
        {
            let device = self.devices[i];
            proof {
                lemma_filter_take_succ(self@.devices, p, i as int);
            }
            if device.client == client {
                let ghost prev = actions@;
                let action = match self.clipboard {
                    Some(src) => {
                        let mime = match self.sources.get(&src) {
                            Some(data) => clone_mimes(&data.mime),
                            None => {
                                assert(false);
                                Vec::new()
                            },
                        };
                        DataAction::OfferSelection { device: device.id, source: src, mime_types: mime }
                    },
                    None => DataAction::ClearSelection { device: device.id },
                };
                actions.push(action);
                proof {
                    lemma_push_action(prev, action);
                    lemma_map_push(self@.devices.take(i as int).filter(p), device, f);
                }
            }
        }
        assert(self@.devices.take(self.devices.len() as int) =~= self@.devices);
    }


    /// Sends `leave` to every device entered on a surface other than
    /// `surface`, in order, and forgets that surface.
    fn leave_devices(&mut self, surface: Option<SurfaceRef>, actions: &mut Vec<DataAction>)
        ensures
            final(self)@ == (DataStateView {
                devices: old(self)@.devices.map_values(after_leave(surface)),
                ..old(self)@
            }),
            final(actions).deep_view() == old(actions).deep_view() + old(self)@.devices.filter(
                leaves(surface),
            ).map_values(leave_action()),
    {
        let ghost start = actions.deep_view();
        let ghost devs = self@.devices;
        let ghost p = leaves(surface);
        let ghost f = after_leave(surface);
        let ghost g = leave_action();
        let n = self.devices.len();
        for i in 0..n
            invariant
                n == devs.len(),
                self.devices@.len() == n,
                self.clipboard == old(self).clipboard,
                self.clipboard_focus == old(self).clipboard_focus,
                self.dnd == old(self).dnd,
                self.sources == old(self).sources,
                devs == old(self)@.devices,
                p == leaves(surface),
                f == after_leave(surface),
                g == leave_action(),
                forall|j: int| 0 <= j < i ==> self.devices@[j] == f(devs[j]),
                forall|j: int| i <= j < n ==> self.devices@[j] == devs[j],
                actions.deep_view() =~= start + devs.take(i as int).filter(p).map_values(g),
        {
            let mut device = self.devices[i];
            proof {
                lemma_filter_take_succ(devs, p, i as int);
            }
            match device.dnd_focus {
                Some(focus) => {
                    if !same_surface(surface, Some(focus)) {
                        let ghost prev = actions@;
                        let action = DataAction::DndLeave { device: device.id };
                        actions.push(action);
                        proof {
                            lemma_push_action(prev, action);
                            lemma_map_push(devs.take(i as int).filter(p), device, g);
                        }
                        device.dnd_focus = None;
                        self.devices.set(i, device);
                    }
                },
                None => {},
            }
        }
        assert(devs.take(n as int) =~= devs);
        assert(self.devices@ =~= devs.map_values(f));
    }

    /// Sends an offer of `source` and `enter` on `sf` to every device of
    /// `sf`'s client that no drag has entered, in order.
    fn enter_devices(&mut self, sf: SurfaceRef, source: u64, actions: &mut Vec<DataAction>)
        requires
            old(self)@.sources.contains_key(source),
        ensures
            final(self)@ == (DataStateView {
                devices: old(self)@.devices.map_values(after_enter(sf)),
                ..old(self)@
            }),
            final(actions).deep_view() == old(actions).deep_view() + old(self)@.devices.filter(
                awaits_enter(sf),
            ).map_values(enter_action(sf, source, old(self)@.sources[source].mime)),
    {
        let ghost start = actions.deep_view();
        let ghost devs = self@.devices;
        let ghost p = awaits_enter(sf);
        let ghost f = after_enter(sf);
        let ghost g = enter_action(sf, source, self@.sources[source].mime);
        let n = self.devices.len();
        for i in 0..n
            invariant
                n == devs.len(),
                self.devices@.len() == n,
                self.clipboard == old(self).clipboard,
                self.clipboard_focus == old(self).clipboard_focus,
                self.dnd == old(self).dnd,
                self.sources == old(self).sources,
                devs == old(self)@.devices,
                old(self)@.sources.contains_key(source),
                p == awaits_enter(sf),
                f == after_enter(sf),
                g == enter_action(sf, source, old(self)@.sources[source].mime),
                forall|j: int| 0 <= j < i ==> self.devices@[j] == f(devs[j]),
                forall|j: int| i <= j < n ==> self.devices@[j] == devs[j],
                actions.deep_view() =~= start + devs.take(i as int).filter(p).map_values(g),
        {
            let mut device = self.devices[i];
            proof {
                lemma_filter_take_succ(devs, p, i as int);
            }
            if device.dnd_focus.is_none() && device.client == sf.client {
                let mime = match self.sources.get(&source) {
                    Some(data) => clone_mimes(&data.mime),
                    None => {
                        assert(false);
                        Vec::new()
                    },
                };
                let ghost prev = actions@;
                let action = DataAction::DndEnter {
                    device: device.id,
                    surface: sf,
                    source: source,
                    mime_types: mime,
                };
                actions.push(action);
                proof {
                    lemma_push_action(prev, action);
                    lemma_map_push(devs.take(i as int).filter(p), device, g);
                }
                device.dnd_focus = Some(sf);
                device.last_dnd_motion = None;
                self.devices.set(i, device);
            }
        }
        assert(devs.take(n as int) =~= devs);
        assert(self.devices@ =~= devs.map_values(f));
    }

    /// Sends `motion` to every entered device not yet told of `pos`, in order.
    fn move_devices(&mut self, pos: FixedPos, actions: &mut Vec<DataAction>)
        ensures
            final(self)@ == (DataStateView {
                devices: old(self)@.devices.map_values(after_motion(pos)),
                ..old(self)@
            }),
            final(actions).deep_view() == old(actions).deep_view() + old(self)@.devices.filter(
                moves(pos),
            ).map_values(motion_action()),
    {
        let ghost start = actions.deep_view();
        let ghost devs = self@.devices;
        let ghost p = moves(pos);
        let ghost f = after_motion(pos);
        let ghost g = motion_action();
        let n = self.devices.len();
        for i in 0..n
            invariant
                n == devs.len(),
                self.devices@.len() == n,
                self.clipboard == old(self).clipboard,
                self.clipboard_focus == old(self).clipboard_focus,
                self.dnd == old(self).dnd,
                self.sources == old(self).sources,
                devs == old(self)@.devices,
                p == moves(pos),
                f == after_motion(pos),
                g == motion_action(),
                forall|j: int| 0 <= j < i ==> self.devices@[j] == f(devs[j]),
                forall|j: int| i <= j < n ==> self.devices@[j] == devs[j],
                actions.deep_view() =~= start + devs.take(i as int).filter(p).map_values(g),
        {
            let mut device = self.devices[i];
            proof {
                lemma_filter_take_succ(devs, p, i as int);
            }
            let same = match device.last_dnd_motion {
                Some(last) => last.x == pos.x && last.y == pos.y,
                None => false,
            };
            if device.dnd_focus.is_some() && !same {
                let ghost prev = actions@;
                let action = DataAction::DndMotion { device: device.id };
                actions.push(action);
                proof {
                    lemma_push_action(prev, action);
                    lemma_map_push(devs.take(i as int).filter(p), device, g);
                }
                device.last_dnd_motion = Some(pos);
                self.devices.set(i, device);
            }
        }
        assert(devs.take(n as int) =~= devs);
        assert(self.devices@ =~= devs.map_values(f));
    }

    /// Cancels the drag in progress, if any: the source receives `cancelled`
    /// and every entered device receives `leave`; a dragged source destroyed
    /// meanwhile is forgotten.
    pub fn dnd_cancel(&mut self) -> (actions: Vec<DataAction>)
        requires
            old(self).wf(),
        ensures
            final(self).wf(),
            (final(self)@, actions.deep_view()) == dnd_cancel_step(old(self)@),
    {
        let mut actions: Vec<DataAction> = Vec::new();
        match self.dnd.take() {
            None => {
                assert(actions.deep_view() =~= Seq::<ActionView>::empty());
                actions
            },
            Some(e) => {
                let action = DataAction::SourceCancelled { source: e.source };
                actions.push(action);
                assert(actions.deep_view() =~= seq![ActionView::SourceCancelled { source: e.source }]);
                self.leave_devices(None, &mut actions);
                let dead = match self.sources.get(&e.source) {
                    Some(data) => !data.alive,
                    None => true,
                };
                if dead {
                    self.sources.remove(&e.source);
                }
                assert(self@.sources =~= dnd_cancel_step(old(self)@).0.sources);
                assert(wf_view(self@));
                actions
            },
        }
    }

    /// Moves the drag over `surface` (or over no surface) at the fixed-point
    /// position `pos`; see [`dnd_motion_step`]. Without a drag in progress,
    /// nothing happens.
    pub fn dnd_motion(&mut self, surface: Option<SurfaceRef>, pos: FixedPos) -> (actions: Vec<
        DataAction,
    >)
        requires
            old(self).wf(),
        ensures
            final(self).wf(),
            (final(self)@, actions.deep_view()) == dnd_motion_step(old(self)@, surface, pos),
    {
        let mut actions: Vec<DataAction> = Vec::new();
        let mut dnd = match self.dnd.take() {
            Some(e) => e,
            None => {
                assert(actions.deep_view() =~= Seq::<ActionView>::empty());
                return actions;
            },
        };
        let ghost s0 = old(self)@;
        let ghost e0 = dnd@;
        let source = dnd.source;
        if !same_surface(surface, dnd.focus) {
            actions.push(DataAction::SourceTarget { source: source, mime_type: None });
            dnd.mime = None;
        }
        dnd.focus = surface;
        self.dnd = Some(dnd);
        let ghost targets = actions.deep_view();
        assert(targets =~= (if surface != e0.focus {
            seq![ActionView::SourceTarget { source: e0.source, mime_type: None }]
        } else {
            Seq::<ActionView>::empty()
        }));
        self.leave_devices(surface, &mut actions);
        let sf = match surface {
            Some(sf) => sf,
            None => {
                proof { lemma_motion_wf(s0, surface, pos); }
                return actions;
            },
        };
        self.enter_devices(sf, source, &mut actions);
        self.move_devices(pos, &mut actions);
        proof { lemma_motion_wf(s0, surface, pos); }
        actions
    }

    /// Claims the live source `src` for `usage` on behalf of `device`; see
    /// [`claim_source`].
    fn claim(&mut self, device: u64, src: u64, usage: SourceUsage, actions: &mut Vec<DataAction>)
        requires
            old(self)@.sources.contains_key(src),
        ensures
            final(self)@ == (DataStateView {
                sources: claim_source(old(self)@.sources, device, src, usage).0,
                ..old(self)@
            }),
            final(actions).deep_view() == old(actions).deep_view() + claim_source(
                old(self)@.sources,
                device,
                src,
                usage,
            ).1,
    {
        let ghost m0 = self.sources@;
        let mut data = match self.sources.remove(&src) {
            Some(d) => d,
            None => {
                assert(false);
                return;
            },
        };
        if data.usage != SourceUsage::Unused {
            let ghost prev = actions@;
            let action = DataAction::ReusedSource { device: device };
            actions.push(action);
            proof {
                lemma_push_action(prev, action);
            }
        } else {
            data.usage = usage;
            assert(actions.deep_view() =~= old(actions).deep_view() + Seq::<ActionView>::empty());
        }
        self.sources.insert(src, data);
        assert(self@.sources =~= claim_source(old(self)@.sources, device, src, usage).0);
    }

    /// Handles a request on the data-device manager.
    pub fn manager_request(&mut self, request: ManagerRequest)
        requires
            old(self).wf(),
        ensures
            final(self).wf(),
            final(self)@ == manager_request_step(old(self)@, request),
    {
        match request {
            ManagerRequest::CreateDataSource { id } => {
                let data = DataSource { alive: true, usage: SourceUsage::Unused, mime: Vec::new() };
                assert(data.mime.deep_view() =~= Seq::<Seq<char>>::empty());
                assert(data@ == fresh_source());
                self.sources.insert(id, data);
                assert(self@.sources =~= old(self)@.sources.insert(id, fresh_source()));
            },
            ManagerRequest::GetDataDevice { id, client } => {
                self.devices.push(
                    DataDevice { id: id, client: client, dnd_focus: None, last_dnd_motion: None },
                );
                assert(self@.devices =~= old(self)@.devices.push(fresh_device(id, client)));
            },
        }
        assert(wf_view(self@));
    }

    /// Handles a request on the data source `source`.
    pub fn source_request(&mut self, source: u64, request: SourceRequest) -> (actions: Vec<DataAction>)
        requires
            old(self).wf(),
            source_request_allowed(old(self)@, source, request),
        ensures
            final(self).wf(),
            (final(self)@, actions.deep_view()) == source_request_step(old(self)@, source, request),
    {
        let mut actions: Vec<DataAction> = Vec::new();
        assert(actions.deep_view() =~= Seq::<ActionView>::empty());
        match request {
            SourceRequest::Offer { mime_type } => {
                let ghost mv = mime_type@;
                let mut data = match self.sources.remove(&source) {
                    Some(d) => d,
                    None => {
                        assert(false);
                        return actions;
                    },
                };
                let ghost before = data.mime.deep_view();
                data.mime.push(mime_type);
                assert(data.mime.deep_view() =~= before.push(mv));
                self.sources.insert(source, data);
                assert(self@.devices == old(self)@.devices);
                assert(self@.dnd == old(self)@.dnd);
                assert(self@.sources =~= old(self)@.sources.insert(
                    source,
                    SourceView { mime: old(self)@.sources[source].mime.push(mv), ..old(self)@.sources[source] },
                ));
                actions
            },
            SourceRequest::Destroy => {
                let dragged = match &self.dnd {
                    Some(e) => e.source == source,
                    None => false,
                };
                if dragged {
                    self.dnd_cancel()
                } else {
                    actions
                }
            },
            SourceRequest::SetActions => actions,
        }
    }

    /// The data source `source` was destroyed; see [`source_destroyed_step`].
    pub fn source_destroyed(&mut self, source: u64)
        requires
            old(self).wf(),
        ensures
            final(self).wf(),
            final(self)@ == source_destroyed_step(old(self)@, source),
    {
        let dragged = match &self.dnd {
            Some(e) => e.source == source,
            None => false,
        };
        let removed = self.sources.remove(&source);
        if dragged {
            if let Some(mut data) = removed {
                data.alive = false;
                self.sources.insert(source, data);
            }
        }
        if self.clipboard == Some(source) {
            self.clipboard = None;
        }
        assert(self@.sources =~= source_destroyed_step(old(self)@, source).sources);
        assert(wf_view(self@));
    }

    /// Handles `start_drag`; see [`start_drag_step`].
    fn start_drag(&mut self, device: u64, source: Option<u64>, serial: u32, actions: &mut Vec<DataAction>)
        requires
            old(self).wf(),
            device_request_allowed(old(self)@, 0, DeviceRequest::StartDrag { source, serial }),
        ensures
            final(self).wf(),
            (final(self)@, final(actions).deep_view()) == ({
                let r = start_drag_step(old(self)@, device, source, serial);
                (r.0, old(actions).deep_view() + r.1)
            }),
    {
        let src = match source {
            Some(s) => s,
            None => {
                assert(actions.deep_view() =~= old(actions).deep_view() + Seq::<ActionView>::empty());
                return;
            },
        };
        self.claim(device, src, SourceUsage::Drag, actions);
        if self.dnd.is_some() {
            let ghost prev = actions@;
            let action = DataAction::SourceCancelled { source: src };
            actions.push(action);
            proof {
                lemma_push_action(prev, action);
            }
            assert(actions.deep_view() =~= old(actions).deep_view() + claim_source(
                old(self)@.sources,
                device,
                src,
                SourceUsage::Drag,
            ).1.push(ActionView::SourceCancelled { source: src }));
        } else {
            self.dnd = Some(WLCDndEvent { start_serial: serial, source: src, focus: None, mime: None });
        }
        assert(wf_view(self@));
    }

    /// Handles `set_selection` from `client`; see [`set_selection_step`].
    fn set_selection(&mut self, client: u64, device: u64, source: Option<u64>, actions: &mut Vec<DataAction>)
        requires
            old(self).wf(),
            device_request_allowed(old(self)@, client, DeviceRequest::SetSelection { source }),
        ensures
            final(self).wf(),
            (final(self)@, final(actions).deep_view()) == ({
                let r = set_selection_step(old(self)@, client, device, source);
                (r.0, old(actions).deep_view() + r.1)
            }),
    {
        if !same_client(self.clipboard_focus, Some(client)) {
            assert(actions.deep_view() =~= old(actions).deep_view() + Seq::<ActionView>::empty());
            return;
        }
        if let Some(src) = source {
            let save = "SAVE_TARGETS".to_owned();
            assert(save@ == save_targets());
            let offers_save = match self.sources.get(&src) {
                Some(data) => mimes_contain(&data.mime, &save),
                None => {
                    assert(false);
                    false
                },
            };
            if offers_save {
                assert(actions.deep_view() =~= old(actions).deep_view() + Seq::<ActionView>::empty());
                return;
            }
            self.claim(device, src, SourceUsage::Selection, actions);
            assert(self@.sources.contains_key(src));
        } else {
            assert(actions.deep_view() =~= old(actions).deep_view() + Seq::<ActionView>::empty());
        }
        if let Some(prev_src) = self.clipboard {
            let ghost prev = actions@;
            let action = DataAction::SourceCancelled { source: prev_src };
            actions.push(action);
            proof {
                lemma_push_action(prev, action);
            }
        }
        self.clipboard = source;
        assert(self@.devices == old(self)@.devices);
        assert(wf_view(self@));
        self.send_clipboard(actions);
        let ghost r = set_selection_step(old(self)@, client, device, source);
        assert(actions.deep_view() =~= old(actions).deep_view() + r.1);
    }

    /// Handles a request on the data device `device` of `client`.
    pub fn device_request(&mut self, client: u64, device: u64, request: DeviceRequest) -> (actions: Vec<
        DataAction,
    >)
        requires
            old(self).wf(),
            device_request_allowed(old(self)@, client, request),
        ensures
            final(self).wf(),
            (final(self)@, actions.deep_view()) == device_request_step(old(self)@, client, device, request),
    {
        let mut actions: Vec<DataAction> = Vec::new();
        assert(actions.deep_view() =~= Seq::<ActionView>::empty());
        match request {
            DeviceRequest::StartDrag { source, serial } => {
                self.start_drag(device, source, serial, &mut actions);
                assert(actions.deep_view() =~= start_drag_step(old(self)@, device, source, serial).1);
            },
            DeviceRequest::SetSelection { source } => {
                self.set_selection(client, device, source, &mut actions);
                assert(actions.deep_view() =~= set_selection_step(old(self)@, client, device, source).1);
            },
            DeviceRequest::Release => {},
        }
        actions
    }

    /// The data device `device` was destroyed.
    pub fn device_destroyed(&mut self, device: u64)
        requires
            old(self).wf(),
        ensures
            final(self).wf(),
            final(self)@ == device_destroyed_step(old(self)@, device),
    {
        let ghost devs = self@.devices;
        let ghost p = other_than(device);
        let mut kept: Vec<DataDevice> = Vec::new();
        let n = self.devices.len();
        for i in 0..n
            invariant
                n == devs.len(),
                devs == self@.devices,
                self@ == old(self)@,
                wf_view(self@),
                p == other_than(device),
                kept@ =~= devs.take(i as int).filter(p),
                forall|j: int| 0 <= j < kept@.len() ==> focus_ok(self@.dnd, #[trigger] kept@[j]),
        {
            let d = self.devices[i];
            proof {
                lemma_filter_take_succ(devs, p, i as int);
                assert(focus_ok(self@.dnd, devs[i as int]));
            }
            if d.id != device {
                kept.push(d);
            }
        }
        assert(devs.take(n as int) =~= devs);
        self.devices = kept;
        assert(wf_view(self@));
    }

    /// Handles a request on a data offer made for the source `source`.
    pub fn offer_request(&mut self, source: u64, request: OfferRequest) -> (actions: Vec<DataAction>)
        requires
            old(self).wf(),
        ensures
            final(self).wf(),
            (final(self)@, actions.deep_view()) == offer_request_step(old(self)@, source, request),
    {
        let mut actions: Vec<DataAction> = Vec::new();
        assert(actions.deep_view() =~= Seq::<ActionView>::empty());
        match request {
            OfferRequest::Receive { mime_type } => {
                let offered = match self.sources.get(&source) {
                    Some(data) => data.alive && mimes_contain(&data.mime, &mime_type),
                    None => false,
                };
                if offered {
                    let ghost mv = mime_type@;
                    let action = DataAction::SourceSend { source: source, mime_type: mime_type };
                    actions.push(action);
                    assert(actions.deep_view() =~= seq![ActionView::SourceSend { source: source, mime_type: mv }]);
                }
            },
            OfferRequest::Accept { mime_type } => {
                match self.dnd.take() {
                    Some(mut e) => {
                        if e.source == source {
                            let action = DataAction::SourceTarget {
                                source: source,
                                mime_type: clone_mime(&mime_type),
                            };
                            actions.push(action);
                            assert(actions.deep_view() =~= seq![ActionView::SourceTarget { source: source, mime_type: mime_type.deep_view() }]);
                            e.mime = mime_type;
                        }
                        self.dnd = Some(e);
                    },
                    None => {},
                }
                assert(wf_view(self@));
            },
            OfferRequest::Finish => {
                let dragged = match &self.dnd {
                    Some(e) => e.source == source,
                    None => false,
                };
                if dragged {
                    actions.push(DataAction::SourceDndFinished { source: source });
                    assert(actions.deep_view() =~= seq![ActionView::SourceDndFinished { source: source }]);
                }
            },
            OfferRequest::Destroy => {},
            OfferRequest::SetActions => {},
        }
        actions
    }

    /// The use of the live source `source`, or `None` when no such source is
    /// alive.
    pub fn source_usage(&self, source: u64) -> (usage: Option<SourceUsage>)
        ensures
            usage == (if live(self@.sources, source) {
                Some(self@.sources[source].usage)
            } else {
                None
            }),
    {
        match self.sources.get(&source) {
            Some(data) => if data.alive {
                Some(data.usage)
            } else {
                None
            },
            None => None,
        }
    }

    /// Gives clipboard focus to `client` (or to nobody). When focus changes,
    /// the devices of the newly focused client receive the current selection.
    pub fn update_clipboard_client(&mut self, client: Option<u64>) -> (actions: Vec<DataAction>)
        requires
            old(self).wf(),
        ensures
            final(self).wf(),
            (final(self)@, actions.deep_view()) == update_focus_step(old(self)@, client),
    {
        let mut actions: Vec<DataAction> = Vec::new();
        if !same_client(self.clipboard_focus, client) {
            self.clipboard_focus = client;
            assert(self@ == DataStateView { clipboard_focus: client, ..old(self)@ });
            self.send_clipboard(&mut actions);
            assert(actions.deep_view() =~= selection_actions(self@));
        } else {
            assert(actions.deep_view() =~= Seq::<ActionView>::empty());
        }
        actions
    }
}

} // verus!
