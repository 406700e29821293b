//! The plain-valued vocabulary of the data-device protocol: the objects the
//! compositor tracks (surfaces, devices, sources, the drag in progress), the
//! requests that clients send, and the events the compositor answers with.
//!
//! Protocol objects are named by integer handles that the event loop assigns;
//! two handles are equal exactly when they name the same object.
use vstd::prelude::*;

verus! {

/// A surface, named by its handle, with the handle of the client that owns it.
#[derive(Clone, Copy, Debug, PartialEq, Eq, Structural)]
pub struct SurfaceRef {
    pub id: u64,
    pub client: u64,
}

/// What a data source has been used for. A source may be used once.
#[derive(Clone, Copy, Debug, PartialEq, Eq, Structural)]
pub enum SourceUsage {
    Unused,
    Selection,
    Drag,
}

/// The state the compositor keeps for a `wl_data_source`: whether the
/// protocol object is still alive, its use, and the mime types its client
/// offered, in offering order. A destroyed source that is still being
/// dragged is kept, marked dead, until the drag ends.
pub struct DataSource {
    pub alive: bool,
    pub usage: SourceUsage,
    pub mime: Vec<String>,
}

/// The mathematical view of a data source.
pub struct SourceView {
    pub alive: bool,
    pub usage: SourceUsage,
    pub mime: Seq<Seq<char>>,
}

impl View for DataSource {
    type V = SourceView;

    open spec fn view(&self) -> SourceView {
        SourceView { alive: self.alive, usage: self.usage, mime: self.mime.deep_view() }
    }
}

/// A `wl_data_device`: its handle, the client that owns it, the surface a drag
/// has entered on it, and the last pointer position (in 24.8 fixed point) that
/// was sent to it as drag motion.
#[derive(Clone, Copy, Debug, PartialEq, Eq, Structural)]
pub struct DataDevice {
    pub id: u64,
    pub client: u64,
    pub dnd_focus: Option<SurfaceRef>,
    pub last_dnd_motion: Option<FixedPos>,
}

/// A pointer position in the protocol's 24.8 fixed-point coordinates.
#[derive(Clone, Copy, Debug, PartialEq, Eq, Structural)]
pub struct FixedPos {
    pub x: i32,
    pub y: i32,
}

/// The drag-and-drop operation in progress.
pub struct WLCDndEvent {
    pub start_serial: u32,
    pub source: u64,
    pub focus: Option<SurfaceRef>,
    pub mime: Option<String>,
}

/// The mathematical view of a drag in progress.
pub struct DndView {
    pub start_serial: u32,
    pub source: u64,
    pub focus: Option<SurfaceRef>,
    pub mime: Option<Seq<char>>,
}

impl View for WLCDndEvent {
    type V = DndView;

    open spec fn view(&self) -> DndView {
        DndView {
            start_serial: self.start_serial,
            source: self.source,
            focus: self.focus,
            mime: self.mime.deep_view(),
        }
    }
}

/// Requests on `wl_data_device_manager`.
pub enum ManagerRequest {
    CreateDataSource { id: u64 },
    GetDataDevice { id: u64, client: u64 },
}

/// Requests on `wl_data_source`.
pub enum SourceRequest {
    Offer { mime_type: String },
    Destroy,
    SetActions,
}

/// Requests on `wl_data_device`.
pub enum DeviceRequest {
    StartDrag { source: Option<u64>, serial: u32 },
    SetSelection { source: Option<u64> },
    Release,
}

/// Requests on `wl_data_offer`.
#[allow(inconsistent_fields)]
pub enum OfferRequest {
    Receive { mime_type: String },
    Accept { mime_type: Option<String> },
    Destroy,
    Finish,
    SetActions,
}

/// What the compositor sends to clients, in the order it must be sent.
#[derive(Clone, Debug, PartialEq, Eq)]
#[allow(inconsistent_fields)]
pub enum DataAction {
    /// Create a data offer for `source` on `device`'s client, announce it on
    /// the device, offer each of `mime_types` in order, and make it the
    /// device's selection.
    OfferSelection { device: u64, source: u64, mime_types: Vec<String> },
    /// Tell `device` that there is no selection.
    ClearSelection { device: u64 },
    /// Create a data offer for `source` on `device`'s client, announce it on
    /// the device, offer each of `mime_types` in order, and send a drag
    /// `enter` on `surface` with that offer.
    DndEnter { device: u64, surface: SurfaceRef, source: u64, mime_types: Vec<String> },
    /// Send a drag `leave` to `device`.
    DndLeave { device: u64 },
    /// Send a drag `motion` to `device` at the current pointer position.
    DndMotion { device: u64 },
    /// Send `target` to `source`.
    SourceTarget { source: u64, mime_type: Option<String> },
    /// Send `cancelled` to `source`.
    SourceCancelled { source: u64 },
    /// Send `dnd_finished` to `source`.
    SourceDndFinished { source: u64 },
    /// Ask `source` to write its data in `mime_type` to the receiver.
    SourceSend { source: u64, mime_type: String },
    /// Post the `used_source` protocol error on `device`.
    ReusedSource { device: u64 },
}

/// The mathematical view of an action.
#[allow(inconsistent_fields)]
pub enum ActionView {
    OfferSelection { device: u64, source: u64, mime_types: Seq<Seq<char>> },
    ClearSelection { device: u64 },
    DndEnter { device: u64, surface: SurfaceRef, source: u64, mime_types: Seq<Seq<char>> },
    DndLeave { device: u64 },
    DndMotion { device: u64 },
    SourceTarget { source: u64, mime_type: Option<Seq<char>> },
    SourceCancelled { source: u64 },
    SourceDndFinished { source: u64 },
    SourceSend { source: u64, mime_type: Seq<char> },
    ReusedSource { device: u64 },
}

impl DeepView for DataAction {
    type V = ActionView;

    open spec fn deep_view(&self) -> ActionView {
        match self {
            DataAction::OfferSelection { device, source, mime_types } => ActionView::OfferSelection {
                device: *device,
                source: *source,
                mime_types: mime_types.deep_view(),
            },
            DataAction::ClearSelection { device } => ActionView::ClearSelection { device: *device },
            DataAction::DndEnter { device, surface, source, mime_types } => ActionView::DndEnter {
                device: *device,
                surface: *surface,
                source: *source,
                mime_types: mime_types.deep_view(),
            },
            DataAction::DndLeave { device } => ActionView::DndLeave { device: *device },
            DataAction::DndMotion { device } => ActionView::DndMotion { device: *device },
            DataAction::SourceTarget { source, mime_type } => ActionView::SourceTarget {
                source: *source,
                mime_type: mime_type.deep_view(),
            },
            DataAction::SourceCancelled { source } => ActionView::SourceCancelled { source: *source },
            DataAction::SourceDndFinished { source } => ActionView::SourceDndFinished {
                source: *source,
            },
            DataAction::SourceSend { source, mime_type } => ActionView::SourceSend {
                source: *source,
                mime_type: mime_type@,
            },
            DataAction::ReusedSource { device } => ActionView::ReusedSource { device: *device },
        }
    }
}

} // verus!
