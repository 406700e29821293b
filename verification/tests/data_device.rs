use wlc::data_state::WLCDataState;
use wlc::protocol::{
    DataAction, DeviceRequest, FixedPos, ManagerRequest, OfferRequest, SourceRequest, SourceUsage,
    SurfaceRef,
};

const ALICE: u64 = 1;
const BOB: u64 = 2;

fn s(x: &str) -> String {
    x.to_string()
}

/// Two clients; Alice owns devices 10 and 12, Bob owns device 11.
fn setup() -> WLCDataState {
    let mut st = WLCDataState::new();
    st.manager_request(ManagerRequest::GetDataDevice { id: 10, client: ALICE });
    st.manager_request(ManagerRequest::GetDataDevice { id: 11, client: BOB });
    st.manager_request(ManagerRequest::GetDataDevice { id: 12, client: ALICE });
    st
}

fn source_with(st: &mut WLCDataState, id: u64, mimes: &[&str]) {
    st.manager_request(ManagerRequest::CreateDataSource { id });
    for m in mimes {
        assert!(st.source_request(id, SourceRequest::Offer { mime_type: s(m) }).is_empty());
    }
}

#[test]
fn new_state_is_empty() {
    let st = WLCDataState::new();
    assert!(st.devices.is_empty());
    assert_eq!(st.clipboard, None);
    assert_eq!(st.clipboard_focus, None);
    assert!(st.dnd.is_none());
}

#[test]
fn devices_are_recorded_in_order() {
    let st = setup();
    let ids: Vec<u64> = st.devices.iter().map(|d| d.id).collect();
    assert_eq!(ids, vec![10, 11, 12]);
    assert!(st.devices.iter().all(|d| d.dnd_focus.is_none() && d.last_dnd_motion.is_none()));
}

#[test]
fn focus_without_clipboard_clears_selection_of_focused_client() {
    let mut st = setup();
    let a = st.update_clipboard_client(Some(ALICE));
    assert_eq!(a, vec![DataAction::ClearSelection { device: 10 }, DataAction::ClearSelection { device: 12 }]);
    assert_eq!(st.clipboard_focus, Some(ALICE));
}

#[test]
fn repeated_focus_is_quiet() {
    let mut st = setup();
    st.update_clipboard_client(Some(BOB));
    assert!(st.update_clipboard_client(Some(BOB)).is_empty());
    assert!(st.update_clipboard_client(None).is_empty());
    assert_eq!(st.clipboard_focus, None);
}

#[test]
fn selection_from_unfocused_client_is_ignored() {
    let mut st = setup();
    source_with(&mut st, 5, &["text/plain"]);
    st.update_clipboard_client(Some(ALICE));
    let a = st.device_request(BOB, 11, DeviceRequest::SetSelection { source: Some(5) });
    assert!(a.is_empty());
    assert_eq!(st.clipboard, None);
    assert_eq!(st.source_usage(5), Some(SourceUsage::Unused));
}

#[test]
fn selection_is_offered_to_focused_client() {
    let mut st = setup();
    source_with(&mut st, 5, &["text/plain", "text/html"]);
    st.update_clipboard_client(Some(ALICE));
    let a = st.device_request(ALICE, 10, DeviceRequest::SetSelection { source: Some(5) });
    let mimes = vec![s("text/plain"), s("text/html")];
    assert_eq!(
        a,
        vec![
            DataAction::OfferSelection { device: 10, source: 5, mime_types: mimes.clone() },
            DataAction::OfferSelection { device: 12, source: 5, mime_types: mimes },
        ]
    );
    assert_eq!(st.clipboard, Some(5));
    assert_eq!(st.source_usage(5), Some(SourceUsage::Selection));
}

#[test]
fn focus_change_sends_current_selection() {
    let mut st = setup();
    source_with(&mut st, 5, &["text/plain"]);
    st.update_clipboard_client(Some(ALICE));
    st.device_request(ALICE, 10, DeviceRequest::SetSelection { source: Some(5) });
    let a = st.update_clipboard_client(Some(BOB));
    assert_eq!(a, vec![DataAction::OfferSelection { device: 11, source: 5, mime_types: vec![s("text/plain")] }]);
}

#[test]
fn new_selection_cancels_previous_source() {
    let mut st = setup();
    source_with(&mut st, 5, &["a"]);
    source_with(&mut st, 6, &["b"]);
    st.update_clipboard_client(Some(BOB));
    st.device_request(BOB, 11, DeviceRequest::SetSelection { source: Some(5) });
    let a = st.device_request(BOB, 11, DeviceRequest::SetSelection { source: Some(6) });
    assert_eq!(
        a,
        vec![
            DataAction::SourceCancelled { source: 5 },
            DataAction::OfferSelection { device: 11, source: 6, mime_types: vec![s("b")] },
        ]
    );
    assert_eq!(st.clipboard, Some(6));
}

#[test]
fn clearing_selection() {
    let mut st = setup();
    source_with(&mut st, 5, &["a"]);
    st.update_clipboard_client(Some(BOB));
    st.device_request(BOB, 11, DeviceRequest::SetSelection { source: Some(5) });
    let a = st.device_request(BOB, 11, DeviceRequest::SetSelection { source: None });
    assert_eq!(a, vec![DataAction::SourceCancelled { source: 5 }, DataAction::ClearSelection { device: 11 }]);
    assert_eq!(st.clipboard, None);
}

#[test]
fn save_targets_selection_is_ignored() {
    let mut st = setup();
    source_with(&mut st, 5, &["text/plain", "SAVE_TARGETS"]);
    st.update_clipboard_client(Some(ALICE));
    let a = st.device_request(ALICE, 10, DeviceRequest::SetSelection { source: Some(5) });
    assert!(a.is_empty());
    assert_eq!(st.clipboard, None);
    assert_eq!(st.source_usage(5), Some(SourceUsage::Unused));
}

#[test]
fn reused_selection_source_is_reported() {
    let mut st = setup();
    source_with(&mut st, 5, &["a"]);
    st.update_clipboard_client(Some(BOB));
    st.device_request(BOB, 11, DeviceRequest::SetSelection { source: Some(5) });
    let a = st.device_request(BOB, 11, DeviceRequest::SetSelection { source: Some(5) });
    assert_eq!(
        a,
        vec![
            DataAction::ReusedSource { device: 11 },
            DataAction::SourceCancelled { source: 5 },
            DataAction::OfferSelection { device: 11, source: 5, mime_types: vec![s("a")] },
        ]
    );
}

#[test]
fn destroyed_clipboard_source_leaves_clipboard() {
    let mut st = setup();
    source_with(&mut st, 5, &["a"]);
    st.update_clipboard_client(Some(BOB));
    st.device_request(BOB, 11, DeviceRequest::SetSelection { source: Some(5) });
    st.source_destroyed(5);
    assert_eq!(st.clipboard, None);
    assert_eq!(st.source_usage(5), None);
}

#[test]
fn start_drag_without_source_is_ignored() {
    let mut st = setup();
    assert!(st.device_request(ALICE, 10, DeviceRequest::StartDrag { source: None, serial: 3 }).is_empty());
    assert!(st.dnd.is_none());
}

#[test]
fn start_drag_begins_drag() {
    let mut st = setup();
    source_with(&mut st, 7, &["x"]);
    let a = st.device_request(ALICE, 10, DeviceRequest::StartDrag { source: Some(7), serial: 42 });
    assert!(a.is_empty());
    let dnd = st.dnd.as_ref().unwrap();
    assert_eq!(dnd.start_serial, 42);
    assert_eq!(dnd.source, 7);
    assert!(dnd.focus.is_none() && dnd.mime.is_none());
    assert_eq!(st.source_usage(7), Some(SourceUsage::Drag));
}

#[test]
fn second_drag_is_cancelled() {
    let mut st = setup();
    source_with(&mut st, 7, &["x"]);
    source_with(&mut st, 8, &["y"]);
    st.device_request(ALICE, 10, DeviceRequest::StartDrag { source: Some(7), serial: 1 });
    let a = st.device_request(BOB, 11, DeviceRequest::StartDrag { source: Some(8), serial: 2 });
    assert_eq!(a, vec![DataAction::SourceCancelled { source: 8 }]);
    assert_eq!(st.dnd.as_ref().unwrap().source, 7);
}

#[test]
fn source_used_once() {
    let mut st = setup();
    source_with(&mut st, 7, &["x"]);
    st.device_request(ALICE, 10, DeviceRequest::StartDrag { source: Some(7), serial: 1 });
    let a = st.device_request(BOB, 11, DeviceRequest::StartDrag { source: Some(7), serial: 2 });
    assert_eq!(a, vec![DataAction::ReusedSource { device: 11 }, DataAction::SourceCancelled { source: 7 }]);
    assert_eq!(st.source_usage(7), Some(SourceUsage::Drag));
}

fn dragging() -> WLCDataState {
    let mut st = setup();
    source_with(&mut st, 7, &["x", "y"]);
    st.device_request(ALICE, 10, DeviceRequest::StartDrag { source: Some(7), serial: 1 });
    st
}

const BOB_SURFACE: SurfaceRef = SurfaceRef { id: 200, client: BOB };
const ALICE_SURFACE: SurfaceRef = SurfaceRef { id: 100, client: ALICE };

#[test]
fn drag_enters_owner_devices() {
    let mut st = dragging();
    let pos = FixedPos { x: 256, y: 512 };
    let a = st.dnd_motion(Some(ALICE_SURFACE), pos);
    let mimes = vec![s("x"), s("y")];
    assert_eq!(
        a,
        vec![
            DataAction::SourceTarget { source: 7, mime_type: None },
            DataAction::DndEnter { device: 10, surface: ALICE_SURFACE, source: 7, mime_types: mimes.clone() },
            DataAction::DndEnter { device: 12, surface: ALICE_SURFACE, source: 7, mime_types: mimes },
            DataAction::DndMotion { device: 10 },
            DataAction::DndMotion { device: 12 },
        ]
    );
    assert_eq!(st.devices[0].dnd_focus, Some(ALICE_SURFACE));
    assert_eq!(st.devices[1].dnd_focus, None);
    assert_eq!(st.devices[2].last_dnd_motion, Some(pos));
    assert_eq!(st.dnd.as_ref().unwrap().focus, Some(ALICE_SURFACE));
}

#[test]
fn repeated_motion_is_quiet() {
    let mut st = dragging();
    let pos = FixedPos { x: 1, y: 1 };
    st.dnd_motion(Some(ALICE_SURFACE), pos);
    assert!(st.dnd_motion(Some(ALICE_SURFACE), pos).is_empty());
}

#[test]
fn motion_to_new_position() {
    let mut st = dragging();
    st.dnd_motion(Some(ALICE_SURFACE), FixedPos { x: 1, y: 1 });
    let a = st.dnd_motion(Some(ALICE_SURFACE), FixedPos { x: 2, y: 1 });
    assert_eq!(a, vec![DataAction::DndMotion { device: 10 }, DataAction::DndMotion { device: 12 }]);
}

#[test]
fn moving_to_other_surface_leaves_and_enters() {
    let mut st = dragging();
    st.dnd_motion(Some(ALICE_SURFACE), FixedPos { x: 1, y: 1 });
    st.offer_request(7, OfferRequest::Accept { mime_type: Some(s("x")) });
    assert_eq!(st.dnd.as_ref().unwrap().mime, Some(s("x")));
    let a = st.dnd_motion(Some(BOB_SURFACE), FixedPos { x: 1, y: 1 });
    assert_eq!(
        a,
        vec![
            DataAction::SourceTarget { source: 7, mime_type: None },
            DataAction::DndLeave { device: 10 },
            DataAction::DndLeave { device: 12 },
            DataAction::DndEnter { device: 11, surface: BOB_SURFACE, source: 7, mime_types: vec![s("x"), s("y")] },
            DataAction::DndMotion { device: 11 },
        ]
    );
    assert_eq!(st.dnd.as_ref().unwrap().mime, None);
}

#[test]
fn moving_off_surfaces_leaves() {
    let mut st = dragging();
    st.dnd_motion(Some(BOB_SURFACE), FixedPos { x: 1, y: 1 });
    let a = st.dnd_motion(None, FixedPos { x: 5, y: 5 });
    assert_eq!(a, vec![DataAction::SourceTarget { source: 7, mime_type: None }, DataAction::DndLeave { device: 11 }]);
    assert!(st.devices.iter().all(|d| d.dnd_focus.is_none()));
}

#[test]
fn motion_without_drag_does_nothing() {
    let mut st = setup();
    assert!(st.dnd_motion(Some(ALICE_SURFACE), FixedPos { x: 0, y: 0 }).is_empty());
}

#[test]
fn cancel_ends_drag() {
    let mut st = dragging();
    st.dnd_motion(Some(ALICE_SURFACE), FixedPos { x: 1, y: 1 });
    let a = st.dnd_cancel();
    assert_eq!(
        a,
        vec![
            DataAction::SourceCancelled { source: 7 },
            DataAction::DndLeave { device: 10 },
            DataAction::DndLeave { device: 12 },
        ]
    );
    assert!(st.dnd.is_none());
    assert!(st.dnd_motion(Some(ALICE_SURFACE), FixedPos { x: 1, y: 1 }).is_empty());
    assert!(st.dnd_cancel().is_empty());
}

#[test]
fn destroying_dragged_source_cancels_drag() {
    let mut st = dragging();
    st.dnd_motion(Some(BOB_SURFACE), FixedPos { x: 1, y: 1 });
    let a = st.source_request(7, SourceRequest::Destroy);
    assert_eq!(a, vec![DataAction::SourceCancelled { source: 7 }, DataAction::DndLeave { device: 11 }]);
    assert!(st.dnd.is_none());
}

#[test]
fn destroying_other_source_keeps_drag() {
    let mut st = dragging();
    source_with(&mut st, 9, &[]);
    assert!(st.source_request(9, SourceRequest::Destroy).is_empty());
    assert!(st.source_request(9, SourceRequest::SetActions).is_empty());
    assert!(st.dnd.is_some());
}

#[test]
fn drag_goes_on_after_its_source_is_destroyed() {
    let mut st = dragging();
    st.source_destroyed(7);
    assert_eq!(st.source_usage(7), None);
    assert_eq!(st.dnd.as_ref().unwrap().source, 7);
    let a = st.dnd_motion(Some(BOB_SURFACE), FixedPos { x: 1, y: 1 });
    assert_eq!(
        a,
        vec![
            DataAction::SourceTarget { source: 7, mime_type: None },
            DataAction::DndEnter { device: 11, surface: BOB_SURFACE, source: 7, mime_types: vec![s("x"), s("y")] },
            DataAction::DndMotion { device: 11 },
        ]
    );
    assert!(st.offer_request(7, OfferRequest::Receive { mime_type: s("x") }).is_empty());
    let a = st.dnd_cancel();
    assert_eq!(a, vec![DataAction::SourceCancelled { source: 7 }, DataAction::DndLeave { device: 11 }]);
    assert!(st.sources.is_empty());
}

#[test]
fn destroyed_device_hears_nothing() {
    let mut st = dragging();
    st.dnd_motion(Some(ALICE_SURFACE), FixedPos { x: 1, y: 1 });
    st.device_destroyed(12);
    assert!(st.devices.iter().all(|d| d.id != 12));
    let a = st.dnd_motion(Some(ALICE_SURFACE), FixedPos { x: 3, y: 3 });
    assert_eq!(a, vec![DataAction::DndMotion { device: 10 }]);
    let a = st.dnd_cancel();
    assert_eq!(a, vec![DataAction::SourceCancelled { source: 7 }, DataAction::DndLeave { device: 10 }]);
    let a = st.update_clipboard_client(Some(ALICE));
    assert_eq!(a, vec![DataAction::ClearSelection { device: 10 }]);
}

#[test]
fn receive_sends_only_offered_types() {
    let mut st = setup();
    source_with(&mut st, 5, &["text/plain"]);
    assert_eq!(
        st.offer_request(5, OfferRequest::Receive { mime_type: s("text/plain") }),
        vec![DataAction::SourceSend { source: 5, mime_type: s("text/plain") }]
    );
    assert!(st.offer_request(5, OfferRequest::Receive { mime_type: s("image/png") }).is_empty());
    st.source_destroyed(5);
    assert!(st.offer_request(5, OfferRequest::Receive { mime_type: s("text/plain") }).is_empty());
}

#[test]
fn accept_and_finish_reach_dragged_source_only() {
    let mut st = dragging();
    source_with(&mut st, 9, &["z"]);
    assert!(st.offer_request(9, OfferRequest::Accept { mime_type: Some(s("z")) }).is_empty());
    assert!(st.offer_request(9, OfferRequest::Finish).is_empty());
    assert_eq!(
        st.offer_request(7, OfferRequest::Accept { mime_type: None }),
        vec![DataAction::SourceTarget { source: 7, mime_type: None }]
    );
    assert_eq!(st.offer_request(7, OfferRequest::Finish), vec![DataAction::SourceDndFinished { source: 7 }]);
    assert!(st.offer_request(7, OfferRequest::Destroy).is_empty());
    assert!(st.offer_request(7, OfferRequest::SetActions).is_empty());
}

#[test]
fn offer_requests_without_drag() {
    let mut st = setup();
    assert!(st.offer_request(7, OfferRequest::Accept { mime_type: Some(s("x")) }).is_empty());
    assert!(st.offer_request(7, OfferRequest::Finish).is_empty());
}

#[test]
fn destroyed_device_is_forgotten() {
    let mut st = setup();
    st.device_destroyed(11);
    let ids: Vec<u64> = st.devices.iter().map(|d| d.id).collect();
    assert_eq!(ids, vec![10, 12]);
    assert!(st.device_request(ALICE, 10, DeviceRequest::Release).is_empty());
}
