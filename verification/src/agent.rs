//! The agent between the daemon and the compositor.
//!
//! Text copied on the host is served lazily: when the host takes the clipboard
//! the agent only puts a source on the guest's clipboard, and the data is
//! fetched when a guest application pastes. Text copied in the guest is
//! announced to the host and read from the compositor when the host asks for
//! it. Besides, the agent reports the size of the output, passes monitor
//! requests on and takes up file transfers.
//!
//! [`AppState`] holds what the agent knows. Each message of the daemon and
//! each event of the compositor changes it and leads to actions, which the
//! caller performs in order.

use vstd::prelude::*;
use crate::data_control::{Device, GlobalStep, Globals, Manager, Offer, Source};
use crate::file_xfer::{DataStep, StartStep, Teardown, Xfers};
use crate::monitors::parse_first_monitor;
use crate::udscs::{
    UdscsMsg, VDAGENTD_CLIENT_DISCONNECTED, VDAGENTD_CLIPBOARD_DATA, VDAGENTD_CLIPBOARD_GRAB,
    VDAGENTD_CLIPBOARD_RELEASE, VDAGENTD_CLIPBOARD_REQUEST, VDAGENTD_FILE_XFER_DATA,
    VDAGENTD_FILE_XFER_START, VDAGENTD_FILE_XFER_STATUS, VDAGENTD_GRAPHICS_DEVICE_INFO,
    VDAGENTD_GUEST_XORG_RESOLUTION, VDAGENTD_MONITORS_CONFIG, VD_AGENT_CLIPBOARD_NONE,
    VD_AGENT_CLIPBOARD_UTF8_TEXT,
};
use crate::wire::{i32_bits, push_u32, read_u32};
#[allow(unused_imports)]
use crate::data_control::{chosen, device_of, global_step, source_of, takes};
#[allow(unused_imports)]
use crate::file_xfer::{
    data_step, start_step, status_step, DataStepView, StartStepView, TeardownView, XfersView,
};
#[allow(unused_imports)]
use crate::monitors::first_monitor;
#[allow(unused_imports)]
use crate::udscs::{frame, law_frame_read_back, unframe, MsgView};
#[allow(unused_imports)]
use crate::wire::{law_two_complement, law_u32_read_back, le_bytes, two_complement, u32_at};

verus! {

/// The width reported while no output has told its size.
pub const FALLBACK_WIDTH: i32 = 1280;

/// The height reported while no output has told its size.
pub const FALLBACK_HEIGHT: i32 = 800;

/// The type under which guest text is read.
pub const TEXT_MIME_TYPE: &'static str = "text/plain;charset=utf-8";

/// How many seconds a paste waits for each message of the daemon.
pub const PASTE_TIMEOUT_SECS: u64 = 3;

/// How many milliseconds the main loop waits for the rest of a message.
pub const READ_TIMEOUT_MILLIS: u64 = 10;

/// The size of an output in pixels.
#[derive(Clone, Copy, Debug, PartialEq, Eq, Structural)]
pub struct Size {
    pub width: i32,
    pub height: i32,
}

/// What the agent knows.
pub struct AppState {
    /// The globals that the compositor has announced.
    pub globals: Globals,
    /// The manager, once bound.
    pub manager: Option<Manager>,
    /// The device of the seat, once there is one.
    pub device: Option<Device>,
    /// The source that the agent has put on the clipboard for the host.
    pub current_source: Option<Source>,
    /// Whether the clipboard is the host's.
    pub we_own_clipboard: bool,
    /// The latest offer of the compositor.
    pub current_offer: Option<Offer>,
    /// Whether a guest application owns the clipboard.
    pub guest_owns_clipboard: bool,
    /// The size that the output has named but not yet committed.
    pub pending_size: Option<Size>,
    /// The size that the output has committed.
    pub current_size: Option<Size>,
    /// Whether the size has been reported for the first time.
    pub ready: bool,
    /// The file transfers under way.
    pub xfers: Xfers,
}

/// The state with its file transfers as a map.
#[verifier::ext_equal]
pub struct AppView {
    pub globals: Globals,
    pub manager: Option<Manager>,
    pub device: Option<Device>,
    pub current_source: Option<Source>,
    pub we_own_clipboard: bool,
    pub current_offer: Option<Offer>,
    pub guest_owns_clipboard: bool,
    pub pending_size: Option<Size>,
    pub current_size: Option<Size>,
    pub ready: bool,
    pub xfers: XfersView,
}

impl View for AppState {
    type V = AppView;

    open spec fn view(&self) -> AppView {
        AppView {
            globals: self.globals,
            manager: self.manager,
            device: self.device,
            current_source: self.current_source,
            we_own_clipboard: self.we_own_clipboard,
            current_offer: self.current_offer,
            guest_owns_clipboard: self.guest_owns_clipboard,
            pending_size: self.pending_size,
            current_size: self.current_size,
            ready: self.ready,
            xfers: self.xfers@,
        }
    }
}

impl AppView {
    /// Whoever owns the clipboard for the host has a source on it, and all
    /// objects belong to the protocol of the manager.
    pub open spec fn wf(self) -> bool {
        &&& self.we_own_clipboard ==> self.current_source is Some
        &&& self.device matches Some(d) ==> self.manager matches Some(m) && d == device_of(m)
        &&& self.current_source matches Some(s) ==> self.manager matches Some(m) && s
            == source_of(m)
    }
}

/// Something for the caller to do.
#[derive(Debug, PartialEq, Eq)]
pub enum Action {
    /// Send this message to the daemon.
    Send(UdscsMsg),
    /// Destroy the source on the clipboard.
    DestroySource(Source),
    /// Create a source, offer these types on it, make it the selection if
    /// `select` is set, and keep it.
    CreateSource { source: Source, mime_types: Vec<String>, select: bool },
    /// Destroy the offer that is kept.
    DestroyOffer(Offer),
    /// Have the kept offer written to a pipe as `mime_type`, read the pipe to
    /// its end and hand the data to [`offer_answer`] with `selection`.
    ReadOffer { mime_type: &'static str, selection: u32 },
    /// Ask the compositor for this monitor size.
    SetMonitor { width: u32, height: u32 },
    /// Take the first step of a file transfer.
    StartTransfer(StartStep),
    /// Take a step of a file transfer under way.
    TransferData(DataStep),
    /// Close and remove the file of a transfer.
    RemoveTransfer(Teardown),
}

/// An action with its contents as sequences.
pub enum ActionView {
    Send(MsgView),
    DestroySource(Source),
    CreateSource { source: Source, mime_types: Seq<Seq<char>>, select: bool },
    DestroyOffer(Offer),
    ReadOffer { mime_type: Seq<char>, selection: u32 },
    SetMonitor { width: u32, height: u32 },
    StartTransfer(StartStepView),
    TransferData(DataStepView),
    RemoveTransfer(TeardownView),
}

impl View for Action {
    type V = ActionView;

    open spec fn view(&self) -> ActionView {
        match self {
            Action::Send(m) => ActionView::Send(m@),
            Action::DestroySource(s) => ActionView::DestroySource(*s),
            Action::CreateSource { source, mime_types, select } => ActionView::CreateSource {
                source: *source,
                mime_types: mime_types@.map_values(|t: String| t@),
                select: *select,
            },
            Action::DestroyOffer(o) => ActionView::DestroyOffer(*o),
            Action::ReadOffer { mime_type, selection } => ActionView::ReadOffer {
                mime_type: mime_type@,
                selection: *selection,
            },
            Action::SetMonitor { width, height } => ActionView::SetMonitor {
                width: *width,
                height: *height,
            },
            Action::StartTransfer(s) => ActionView::StartTransfer(s@),
            Action::TransferData(s) => ActionView::TransferData(s@),
            Action::RemoveTransfer(t) => ActionView::RemoveTransfer(t@),
        }
    }
}

/// The actions as sequences.
pub open spec fn actions_view(actions: Seq<Action>) -> Seq<ActionView> {
    actions.map_values(|a: Action| a@)
}

/// The body of a resolution report: size, position and id of the display, each
/// in 32 bits.
pub open spec fn resolution_body(w: i32, h: i32, x: i32, y: i32, id: i32) -> Seq<u8> {
    le_bytes(two_complement(w), 4) + le_bytes(two_complement(h), 4) + le_bytes(
        two_complement(x),
        4,
    ) + le_bytes(two_complement(y), 4) + le_bytes(two_complement(id), 4)
}

/// The body of a resolution report.
pub fn guest_xorg_resolution(w: i32, h: i32, x: i32, y: i32, id: i32) -> (body: Vec<u8>)
    ensures
        body@ == resolution_body(w, h, x, y, id),
{
    let mut buf: Vec<u8> = Vec::new();
    push_u32(&mut buf, i32_bits(w));
    push_u32(&mut buf, i32_bits(h));
    push_u32(&mut buf, i32_bits(x));
    push_u32(&mut buf, i32_bits(y));
    push_u32(&mut buf, i32_bits(id));
    assert(buf@ =~= resolution_body(w, h, x, y, id));
    buf
}

/// The report of a size: the display stands at the origin and is the first.
pub open spec fn resolution_message(s: Size) -> MsgView {
    MsgView {
        msg_type: VDAGENTD_GUEST_XORG_RESOLUTION,
        arg1: two_complement(s.width) as u32,
        arg2: two_complement(s.height) as u32,
        data: resolution_body(s.width, s.height, 0, 0, 0),
    }
}

/// The size that is reported: the committed one, or the fallback.
pub open spec fn resolution(v: AppView) -> Size {
    match v.current_size {
        Some(s) => s,
        None => Size { width: FALLBACK_WIDTH, height: FALLBACK_HEIGHT },
    }
}

/// Host text is among the types of a grab: the body is a row of 32-bit types.
pub open spec fn offers_text(types: Seq<u8>) -> bool {
    exists|i: int|
        0 <= i < types.len() / 4 && #[trigger] u32_at(types, 4 * i) == VD_AGENT_CLIPBOARD_UTF8_TEXT
}

/// The types under which host text is offered in the guest.
pub open spec fn offered_types() -> Seq<Seq<char>> {
    seq![
        "text/plain"@,
        "text/plain;charset=utf-8"@,
        "UTF8_STRING"@,
        "STRING"@,
        "TEXT"@,
    ]
}

/// The answer to a clipboard request of the host.
pub open spec fn data_message(selection: u32, kind: u32, data: Seq<u8>) -> MsgView {
    MsgView { msg_type: VDAGENTD_CLIPBOARD_DATA, arg1: selection, arg2: kind, data }
}

/// The state and the actions once the host has taken the clipboard and has
/// text to offer.
pub open spec fn grab_step(v: AppView) -> (AppView, Seq<ActionView>) {
    match v.manager {
        None => (v, Seq::empty()),
        Some(m) => {
            let source = source_of(m);
            let old = match v.current_source {
                Some(s) => seq![ActionView::DestroySource(s)],
                None => Seq::empty(),
            };
            let create = ActionView::CreateSource {
                source,
                mime_types: offered_types(),
                select: v.device matches Some(d) && takes(d, source),
            };
            (
                AppView { current_source: Some(source), we_own_clipboard: true, ..v },
                old.push(create),
            )
        },
    }
}

/// The state and the actions once the host has given the clipboard up.
pub open spec fn release_step(v: AppView) -> (AppView, Seq<ActionView>) {
    (
        AppView { current_source: None, we_own_clipboard: false, ..v },
        match v.current_source {
            Some(s) => seq![ActionView::DestroySource(s)],
            None => Seq::empty(),
        },
    )
}

/// The action for a clipboard request of the host.
pub open spec fn request_action(v: AppView, selection: u32) -> ActionView {
    if v.current_offer is Some {
        ActionView::ReadOffer { mime_type: TEXT_MIME_TYPE@, selection }
    } else {
        ActionView::Send(data_message(selection, VD_AGENT_CLIPBOARD_NONE, Seq::empty()))
    }
}

/// The state and the actions for a message of the daemon. Only the clipboard
/// itself, selection 0, is taken and released; other kinds of messages are
/// passed over.
pub open spec fn daemon_step(v: AppView, m: MsgView) -> (AppView, Seq<ActionView>) {
    if m.msg_type == VDAGENTD_GRAPHICS_DEVICE_INFO {
        (v, seq![ActionView::Send(resolution_message(resolution(v)))])
    } else if m.msg_type == VDAGENTD_CLIPBOARD_GRAB && m.arg1 == 0 && offers_text(m.data) {
        grab_step(v)
    } else if m.msg_type == VDAGENTD_CLIPBOARD_REQUEST {
        (v, seq![request_action(v, m.arg1)])
    } else if m.msg_type == VDAGENTD_CLIPBOARD_RELEASE && m.arg1 == 0 {
        release_step(v)
    } else if m.msg_type == VDAGENTD_CLIENT_DISCONNECTED {
        release_step(v)
    } else if m.msg_type == VDAGENTD_MONITORS_CONFIG {
        match first_monitor(m.data) {
            Some((w, h)) => (
                v,
                seq![ActionView::SetMonitor { width: w as u32, height: h as u32 }],
            ),
            None => (v, Seq::empty()),
        }
    } else if m.msg_type == VDAGENTD_FILE_XFER_START {
        (v, seq![ActionView::StartTransfer(start_step(v.xfers, m.data))])
    } else if m.msg_type == VDAGENTD_FILE_XFER_DATA {
        let (xfers, step) = data_step(v.xfers, m.data);
        (AppView { xfers, ..v }, seq![ActionView::TransferData(step)])
    } else if m.msg_type == VDAGENTD_FILE_XFER_STATUS {
        let (xfers, ended) = status_step(v.xfers, m.data);
        (
            AppView { xfers, ..v },
            match ended {
                Some(t) => seq![ActionView::RemoveTransfer(t)],
                None => Seq::empty(),
            },
        )
    } else {
        (v, Seq::empty())
    }
}

/// An event of the compositor.
#[derive(Clone, Copy, Debug, PartialEq, Eq)]
pub enum WaylandEvent {
    /// A new offer, to be kept once the actions are done.
    DataOffer(Offer),
    /// The selection has changed; `true` when there is one.
    Selection(bool),
    /// The source on the clipboard has been replaced.
    SourceCancelled,
    /// A mode of the output, which may be the current one.
    OutputMode { current: bool, size: Size },
    /// The output has told everything that has changed.
    OutputDone,
}

/// The announcement that the guest has text to offer.
pub open spec fn grab_message() -> MsgView {
    MsgView {
        msg_type: VDAGENTD_CLIPBOARD_GRAB,
        arg1: 0,
        arg2: 0,
        data: le_bytes(VD_AGENT_CLIPBOARD_UTF8_TEXT as nat, 4),
    }
}

/// The state and the actions for an event of the compositor.
pub open spec fn wayland_step(v: AppView, e: WaylandEvent) -> (AppView, Seq<ActionView>) {
    match e {
        WaylandEvent::DataOffer(offer) => (
            AppView { current_offer: Some(offer), ..v },
            match v.current_offer {
                Some(old) => seq![ActionView::DestroyOffer(old)],
                None => Seq::empty(),
            },
        ),
        WaylandEvent::Selection(true) if !v.we_own_clipboard => (
            AppView { guest_owns_clipboard: true, ..v },
            seq![ActionView::Send(grab_message())],
        ),
        WaylandEvent::Selection(true) => (v, Seq::empty()),
        WaylandEvent::Selection(false) => (
            AppView { guest_owns_clipboard: false, ..v },
            Seq::empty(),
        ),
        WaylandEvent::SourceCancelled => (
            AppView { we_own_clipboard: false, ..v },
            Seq::empty(),
        ),
        WaylandEvent::OutputMode { current, size } => if current {
            (AppView { pending_size: Some(size), ..v }, Seq::empty())
        } else {
            (v, Seq::empty())
        },
        WaylandEvent::OutputDone => commit_step(v),
    }
}

/// The state and the actions once the output has committed what it has told:
/// a size other than the one known is reported, once reporting has begun.
pub open spec fn commit_step(v: AppView) -> (AppView, Seq<ActionView>) {
    match v.pending_size {
        None => (v, Seq::empty()),
        Some(s) => (
            AppView { pending_size: None, current_size: Some(s), ..v },
            if v.ready && v.current_size != Some(s) {
                seq![ActionView::Send(resolution_message(s))]
            } else {
                Seq::empty()
            },
        ),
    }
}

/// The state, and the manager to bind with its number, once all globals are
/// known; `None` without a manager or a seat, and then the agent cannot run.
pub open spec fn bind_step(v: AppView) -> (AppView, Option<(Manager, u32)>) {
    match (chosen(v.globals), v.globals.seat) {
        (Some((m, name)), Some(_)) => (
            AppView { manager: Some(m), device: Some(device_of(m)), ..v },
            Some((m, name)),
        ),
        _ => (v, None),
    }
}

/// The state and the step once the compositor has announced a global.
pub open spec fn announce_step(v: AppView, name: u32, interface: Seq<char>) -> (
    AppView,
    GlobalStep,
) {
    let (globals, step) = global_step(v.globals, name, interface);
    (AppView { globals, ..v }, step)
}

/// The state and the first report once the start-up is over.
pub open spec fn startup_step(v: AppView) -> (AppView, MsgView) {
    (AppView { ready: true, ..v }, resolution_message(resolution(v)))
}

/// A state in which nothing has happened yet.
pub open spec fn fresh(xfers: XfersView) -> AppView {
    AppView {
        globals: Globals { seat: None, ext: None, wlr: None },
        manager: None,
        device: None,
        current_source: None,
        we_own_clipboard: false,
        current_offer: None,
        guest_owns_clipboard: false,
        pending_size: None,
        current_size: None,
        ready: false,
        xfers,
    }
}

fn resolution_report(s: Size) -> (m: UdscsMsg)
    ensures
        m@ == resolution_message(s),
{
    UdscsMsg {
        msg_type: VDAGENTD_GUEST_XORG_RESOLUTION,
        arg1: i32_bits(s.width),
        arg2: i32_bits(s.height),
        data: guest_xorg_resolution(s.width, s.height, 0, 0, 0),
    }
}

fn clipboard_data(selection: u32, kind: u32, data: Vec<u8>) -> (m: UdscsMsg)
    ensures
        m@ == data_message(selection, kind, data@),
{
    UdscsMsg { msg_type: VDAGENTD_CLIPBOARD_DATA, arg1: selection, arg2: kind, data }
}

fn has_text(types: &[u8]) -> (r: bool)
    ensures
        r == offers_text(types@),
{
    let n: usize = types.len() / 4;
    let mut i: usize = 0;
    while i < n
        invariant
            i <= n,
            n == types@.len() / 4,
            forall|j: int| 0 <= j < i ==> #[trigger] u32_at(types@, 4 * j)
                != VD_AGENT_CLIPBOARD_UTF8_TEXT,
        decreases n - i,
    {
        assert(4 * i + 4 <= types.len());
        if read_u32(types, 4 * i) == VD_AGENT_CLIPBOARD_UTF8_TEXT {
            assert(u32_at(types@, 4 * (i as int)) == VD_AGENT_CLIPBOARD_UTF8_TEXT);
            return true;
        }
        i += 1;
    }
    false
}

fn text_types() -> (types: Vec<String>)
    ensures
        types@.map_values(|t: String| t@) == offered_types(),
{
    let mut types: Vec<String> = Vec::new();
    types.push("text/plain".to_owned());
    types.push("text/plain;charset=utf-8".to_owned());
    types.push("UTF8_STRING".to_owned());
    types.push("STRING".to_owned());
    types.push("TEXT".to_owned());
    assert(types@.map_values(|t: String| t@) =~= offered_types());
    types
}

impl AppState {
    /// A state in which nothing has happened yet.
    pub fn new(xfers: Xfers) -> (s: AppState)
        ensures
            s@ == fresh(xfers@),
    {
        AppState {
            globals: Globals::new(),
            manager: None,
            device: None,
            current_source: None,
            we_own_clipboard: false,
            current_offer: None,
            guest_owns_clipboard: false,
            pending_size: None,
            current_size: None,
            ready: false,
            xfers,
        }
    }

    /// Takes note of a global that the compositor announces.
    pub fn handle_global(&mut self, name: u32, interface: &str) -> (step: GlobalStep)
        ensures
            final(self)@ == (AppView {
                globals: global_step(old(self)@.globals, name, interface@).0,
                ..old(self)@
            }),
            step == global_step(old(self)@.globals, name, interface@).1,
            (final(self)@, step) == announce_step(old(self)@, name, interface@),
    {
        self.globals.announce(name, interface)
    }

    /// Decides, once all globals are known, which manager to bind and to ask
    /// for a device. `None` when the manager or the seat is missing.
    pub fn bind_manager(&mut self) -> (r: Option<(Manager, u32)>)
        ensures
            (final(self)@, r) == bind_step(old(self)@),
    {
        if self.globals.seat.is_none() {
            return None;
        }
        match self.globals.choose_manager() {
            Some((m, name)) => {
                self.manager = Some(m);
                self.device = Some(m.get_data_device());
                Some((m, name))
            },
            None => None,
        }
    }

    /// The size that is reported at present.
    pub fn resolution(&self) -> (s: Size)
        ensures
            s == resolution(self@),
    {
        match self.current_size {
            Some(s) => s,
            None => Size { width: FALLBACK_WIDTH, height: FALLBACK_HEIGHT },
        }
    }

    /// Ends the start-up: gives the first report of the size, and has every
    /// new size reported from now on.
    pub fn finish_startup(&mut self) -> (m: UdscsMsg)
        ensures
            final(self)@ == (AppView { ready: true, ..old(self)@ }),
            m@ == resolution_message(resolution(old(self)@)),
            (final(self)@, m@) == startup_step(old(self)@),
    {
        self.ready = true;
        resolution_report(self.resolution())
    }

    /// Takes a message of the daemon.
    pub fn handle_daemon_msg(&mut self, msg: &UdscsMsg) -> (actions: Vec<Action>)
        ensures
            (final(self)@, actions_view(actions@)) == daemon_step(old(self)@, msg@),
    {
        let mut actions: Vec<Action> = Vec::new();
        let kind: u32 = msg.msg_type;
        if kind == VDAGENTD_GRAPHICS_DEVICE_INFO {
            actions.push(Action::Send(resolution_report(self.resolution())));
        } else if kind == VDAGENTD_CLIPBOARD_GRAB {
            if msg.arg1 == 0 && has_text(msg.data.as_slice()) {
                self.grab(&mut actions);
            }
        } else if kind == VDAGENTD_CLIPBOARD_REQUEST {
            if self.current_offer.is_some() {
                actions.push(
                    Action::ReadOffer { mime_type: TEXT_MIME_TYPE, selection: msg.arg1 },
                );
            } else {
                actions.push(
                    Action::Send(clipboard_data(msg.arg1, VD_AGENT_CLIPBOARD_NONE, Vec::new())),
                );
            }
        } else if kind == VDAGENTD_CLIPBOARD_RELEASE {
            if msg.arg1 == 0 {
                self.release(&mut actions);
            }
        } else if kind == VDAGENTD_CLIENT_DISCONNECTED {
            self.release(&mut actions);
        } else if kind == VDAGENTD_MONITORS_CONFIG {
            if let Some((width, height)) = parse_first_monitor(msg.data.as_slice()) {
                actions.push(Action::SetMonitor { width, height });
            }
        } else if kind == VDAGENTD_FILE_XFER_START {
            actions.push(Action::StartTransfer(self.xfers.start(msg.data.as_slice())));
        } else if kind == VDAGENTD_FILE_XFER_DATA {
            let step = self.xfers.data(msg.data.as_slice());
            actions.push(Action::TransferData(step));
        } else if kind == VDAGENTD_FILE_XFER_STATUS {
            if let Some(ended) = self.xfers.remote_status(msg.data.as_slice()) {
                actions.push(Action::RemoveTransfer(ended));
            }
        }
        assert(actions_view(actions@) =~= daemon_step(old(self)@, msg@).1);
        actions
    }

    fn grab(&mut self, actions: &mut Vec<Action>)
        ensures
            final(self)@ == grab_step(old(self)@).0,
            actions_view(final(actions)@) == actions_view(old(actions)@) + grab_step(old(self)@).1,
    {
        if let Some(manager) = self.manager {
            if let Some(old) = self.current_source {
                actions.push(Action::DestroySource(old));
            }
            let source = manager.create_data_source();
            let select = match self.device {
                Some(device) => device.set_selection(Some(&source)),
                None => false,
            };
            actions.push(Action::CreateSource { source, mime_types: text_types(), select });
            self.current_source = Some(source);
            self.we_own_clipboard = true;
        }
        assert(actions_view(actions@) =~= actions_view(old(actions)@) + grab_step(old(self)@).1);
    }

    fn release(&mut self, actions: &mut Vec<Action>)
        ensures
            final(self)@ == release_step(old(self)@).0,
            actions_view(final(actions)@) == actions_view(old(actions)@) + release_step(
                old(self)@,
            ).1,
    {
        self.we_own_clipboard = false;
        if let Some(old) = self.current_source {
            actions.push(Action::DestroySource(old));
            self.current_source = None;
        }
        assert(actions_view(actions@) =~= actions_view(old(actions)@) + release_step(
            old(self)@,
        ).1);
    }

    /// Takes an event of the compositor.
    pub fn handle_wayland_event(&mut self, event: WaylandEvent) -> (actions: Vec<Action>)
        ensures
            (final(self)@, actions_view(actions@)) == wayland_step(old(self)@, event),
    {
        let mut actions: Vec<Action> = Vec::new();
        match event {
            WaylandEvent::DataOffer(offer) => {
                if let Some(old) = self.current_offer {
                    actions.push(Action::DestroyOffer(old));
                }
                self.current_offer = Some(offer);
            },
            WaylandEvent::Selection(present) => {
                if present && !self.we_own_clipboard {
                    self.guest_owns_clipboard = true;
                    let mut types: Vec<u8> = Vec::new();
                    push_u32(&mut types, VD_AGENT_CLIPBOARD_UTF8_TEXT);
                    assert(types@ =~= grab_message().data);
                    actions.push(
                        Action::Send(
                            UdscsMsg {
                                msg_type: VDAGENTD_CLIPBOARD_GRAB,
                                arg1: 0,
                                arg2: 0,
                                data: types,
                            },
                        ),
                    );
                } else if !present {
                    self.guest_owns_clipboard = false;
                }
            },
            WaylandEvent::SourceCancelled => {
                self.we_own_clipboard = false;
            },
            WaylandEvent::OutputMode { current, size } => {
                if current {
                    self.pending_size = Some(size);
                }
            },
            WaylandEvent::OutputDone => {
                if let Some(s) = self.pending_size {
                    let known = match self.current_size {
                        Some(c) => c == s,
                        None => false,
                    };
                    self.pending_size = None;
                    self.current_size = Some(s);
                    if self.ready && !known {
                        actions.push(Action::Send(resolution_report(s)));
                    }
                }
            },
        }
        assert(actions_view(actions@) =~= wayland_step(old(self)@, event).1);
        actions
    }
}

/// The answer to the host once the guest's offer has been read: the text, or
/// word that there is none. Without a pipe to read there is no answer.
pub open spec fn answer(selection: u32, data: Option<Seq<u8>>) -> Option<MsgView> {
    match data {
        None => None,
        Some(text) => Some(
            if text.len() > 0 {
                data_message(selection, VD_AGENT_CLIPBOARD_UTF8_TEXT, text)
            } else {
                data_message(selection, VD_AGENT_CLIPBOARD_NONE, text)
            },
        ),
    }
}

/// The answer to the host once the guest's offer has been read; `data` is
/// `None` when there was no pipe to read it through.
pub fn offer_answer(selection: u32, data: Option<Vec<u8>>) -> (r: Option<UdscsMsg>)
    ensures
        r is Some <==> data is Some,
        data matches Some(d) ==> r matches Some(m) && Some(m@) == answer(selection, Some(d@)),
{
    match data {
        None => None,
        Some(text) => {
            let kind: u32 = if text.is_empty() {
                VD_AGENT_CLIPBOARD_NONE
            } else {
                VD_AGENT_CLIPBOARD_UTF8_TEXT
            };
            Some(clipboard_data(selection, kind, text))
        },
    }
}

/// The request for host text.
pub open spec fn request_message() -> MsgView {
    MsgView {
        msg_type: VDAGENTD_CLIPBOARD_REQUEST,
        arg1: 0,
        arg2: VD_AGENT_CLIPBOARD_UTF8_TEXT,
        data: Seq::empty(),
    }
}

/// The message with which a paste begins: the request for host text.
pub fn paste_request() -> (m: UdscsMsg)
    ensures
        m@ == request_message(),
{
    let data: Vec<u8> = Vec::new();
    assert(data@ =~= Seq::empty());
    UdscsMsg {
        msg_type: VDAGENTD_CLIPBOARD_REQUEST,
        arg1: 0,
        arg2: VD_AGENT_CLIPBOARD_UTF8_TEXT,
        data,
    }
}

/// What comes from the daemon while a paste waits.
#[derive(Debug, PartialEq, Eq)]
pub enum PasteEvent {
    Message(UdscsMsg),
    ReadFailed,
}

/// An event with its message as a view.
pub enum PasteEventView {
    Message(MsgView),
    ReadFailed,
}

impl View for PasteEvent {
    type V = PasteEventView;

    open spec fn view(&self) -> PasteEventView {
        match self {
            PasteEvent::Message(m) => PasteEventView::Message(m@),
            PasteEvent::ReadFailed => PasteEventView::ReadFailed,
        }
    }
}

/// What a paste does next.
#[derive(Debug, PartialEq, Eq)]
pub enum PasteStep {
    /// Read another message.
    Wait,
    /// Write this text to the application.
    Serve(Vec<u8>),
    /// Write nothing.
    GiveUp,
}

/// A step with its text as a sequence.
pub enum PasteStepView {
    Wait,
    Serve(Seq<u8>),
    GiveUp,
}

impl View for PasteStep {
    type V = PasteStepView;

    open spec fn view(&self) -> PasteStepView {
        match self {
            PasteStep::Wait => PasteStepView::Wait,
            PasteStep::Serve(d) => PasteStepView::Serve(d@),
            PasteStep::GiveUp => PasteStepView::GiveUp,
        }
    }
}

/// The message carries clipboard data for the clipboard itself.
pub open spec fn is_paste_data(m: MsgView) -> bool {
    m.msg_type == VDAGENTD_CLIPBOARD_DATA && m.arg1 == 0
}

/// What a paste does about an event: it passes over every message but the
/// data that it waits for, and ends when reading fails.
pub open spec fn paste_reaction(e: PasteEventView) -> PasteStepView {
    match e {
        PasteEventView::ReadFailed => PasteStepView::GiveUp,
        PasteEventView::Message(m) => if !is_paste_data(m) {
            PasteStepView::Wait
        } else if m.data.len() > 0 {
            PasteStepView::Serve(m.data)
        } else {
            PasteStepView::GiveUp
        },
    }
}

/// Takes what has come from the daemon while a paste waits.
pub fn paste_step(event: PasteEvent) -> (step: PasteStep)
    ensures
        step@ == paste_reaction(event@),
{
    match event {
        PasteEvent::ReadFailed => PasteStep::GiveUp,
        PasteEvent::Message(m) => {
            if m.msg_type != VDAGENTD_CLIPBOARD_DATA || m.arg1 != 0 {
                PasteStep::Wait
            } else if m.data.is_empty() {
                PasteStep::GiveUp
            } else {
                PasteStep::Serve(m.data)
            }
        },
    }
}

/// Why a message could not be read.
#[derive(Clone, Copy, Debug, PartialEq, Eq)]
pub enum ReadFailure {
    WouldBlock,
    TimedOut,
    Other,
}

/// The agent goes on after this failure.
pub open spec fn survivable(failure: ReadFailure) -> bool {
    failure is WouldBlock || failure is TimedOut
}

/// Whether the agent goes on after a failed read: only a message that has not
/// come in time is no reason to stop.
pub fn survives(failure: ReadFailure) -> (r: bool)
    ensures
        r == (failure is WouldBlock || failure is TimedOut),
        r == survivable(failure),
{
    match failure {
        ReadFailure::WouldBlock => true,
        ReadFailure::TimedOut => true,
        ReadFailure::Other => false,
    }
}

/// Anything that the agent reacts to once it runs.
pub enum InputView {
    Daemon(MsgView),
    Wayland(WaylandEvent),
}

pub open spec fn input_step(v: AppView, i: InputView) -> (AppView, Seq<ActionView>) {
    match i {
        InputView::Daemon(m) => daemon_step(v, m),
        InputView::Wayland(e) => wayland_step(v, e),
    }
}

/// The state after a row of inputs.
pub open spec fn after(v: AppView, inputs: Seq<InputView>) -> AppView
    decreases inputs.len(),
{
    if inputs.len() == 0 {
        v
    } else {
        input_step(after(v, inputs.drop_last()), inputs.last()).0
    }
}

proof fn lemma_wf_step(v: AppView, i: InputView)
    requires
        v.wf(),
    ensures
        input_step(v, i).0.wf(),
{
}

/// The state stays consistent from the first moment on: through start-up and
/// through every input, whoever owns the clipboard for the host has a source
/// on it, and every object belongs to the protocol of the one manager.
pub proof fn law_state_consistent(
    xfers: XfersView,
    v: AppView,
    globals: Globals,
    inputs: Seq<InputView>,
)
    requires
        v.wf(),
    ensures
        fresh(xfers).wf(),
        v.manager is None ==> bind_step(AppView { globals, ..v }).0.wf(),
        after(v, inputs).wf(),
    decreases inputs.len(),
{
    if inputs.len() > 0 {
        law_state_consistent(xfers, v, globals, inputs.drop_last());
        lemma_wf_step(after(v, inputs.drop_last()), inputs.last());
    }
}

/// Once a manager is bound, a host that takes the clipboard with text always
/// gets it: the new source becomes the selection.
pub proof fn law_grab_selects(v: AppView, m: MsgView)
    requires
        v.wf(),
        v.device is Some,
        m.msg_type == VDAGENTD_CLIPBOARD_GRAB,
        m.arg1 == 0,
        offers_text(m.data),
    ensures
        ({
            let (w, actions) = daemon_step(v, m);
            &&& w.we_own_clipboard
            &&& w.current_source is Some
            &&& actions.last() == (ActionView::CreateSource {
                source: w.current_source.unwrap(),
                mime_types: offered_types(),
                select: true,
            })
        }),
{
}

/// Data is served lazily: no message of the daemon and no event of the
/// compositor makes the agent ask the host for clipboard data. Only a paste
/// does.
pub proof fn law_lazy(v: AppView, i: InputView, k: int)
    requires
        0 <= k < input_step(v, i).1.len(),
    ensures
        input_step(v, i).1[k] matches ActionView::Send(m) ==> m.msg_type
            != VDAGENTD_CLIPBOARD_REQUEST,
{
}

/// The agent does not echo: while the clipboard is the host's, a change of the
/// selection is not announced to the host.
pub proof fn law_no_echo(v: AppView, present: bool)
    requires
        v.we_own_clipboard,
    ensures
        wayland_step(v, WaylandEvent::Selection(present)).1 == Seq::<ActionView>::empty(),
{
}

/// Once the host has given the clipboard up, its client has gone or the
/// source has been replaced, the next selection of the guest is announced.
pub proof fn law_guest_announced_after_release(v: AppView, m: MsgView)
    requires
        m.msg_type == VDAGENTD_CLIENT_DISCONNECTED || (m.msg_type == VDAGENTD_CLIPBOARD_RELEASE
            && m.arg1 == 0),
    ensures
        ({
            let released = daemon_step(v, m).0;
            let cancelled = wayland_step(v, WaylandEvent::SourceCancelled).0;
            let selection = WaylandEvent::Selection(true);
            &&& wayland_step(released, selection).1 == seq![ActionView::Send(grab_message())]
            &&& wayland_step(cancelled, selection).1 == seq![ActionView::Send(grab_message())]
        }),
{
}

/// Every clipboard request of the host gets exactly one answer, for the
/// selection that it names: at once where the guest offers nothing, else when
/// the offer has been read.
pub proof fn law_request_answered(v: AppView, m: MsgView, data: Seq<u8>)
    requires
        m.msg_type == VDAGENTD_CLIPBOARD_REQUEST,
    ensures
        ({
            let (w, actions) = daemon_step(v, m);
            &&& w == v
            &&& actions.len() == 1
            &&& v.current_offer is None ==> actions[0] == ActionView::Send(
                data_message(m.arg1, VD_AGENT_CLIPBOARD_NONE, Seq::empty()),
            )
            &&& v.current_offer is Some ==> {
                &&& actions[0] matches ActionView::ReadOffer { selection, .. }
                &&& answer(selection, Some(data)) matches Some(r)
                &&& r.msg_type == VDAGENTD_CLIPBOARD_DATA
                &&& r.arg1 == m.arg1
                &&& r.data == data
                &&& r.arg2 == VD_AGENT_CLIPBOARD_NONE <==> data.len() == 0
            }
        }),
{
}

/// The daemon always knows the size of the output: once reporting has begun,
/// an input that changes the size reports the new one, and whatever size is
/// reported is the one that holds.
pub proof fn law_size_reported(v: AppView, i: InputView)
    requires
        v.ready,
    ensures
        ({
            let (w, actions) = input_step(v, i);
            &&& w.ready
            &&& w.current_size != v.current_size ==> actions == seq![
                ActionView::Send(resolution_message(resolution(w))),
            ]
            &&& forall|k: int| 0 <= k < actions.len() ==> (#[trigger] actions[k] matches
                ActionView::Send(m) ==> m.msg_type == VDAGENTD_GUEST_XORG_RESOLUTION ==> m
                == resolution_message(resolution(w)))
        }),
{
}

/// A mode that the output commits becomes the size that is reported; a mode
/// that is not the current one, and one not yet committed, does not.
pub proof fn law_committed_mode(v: AppView, size: Size)
    ensures
        ({
            let told = wayland_step(v, WaylandEvent::OutputMode { current: true, size }).0;
            let other = wayland_step(v, WaylandEvent::OutputMode { current: false, size }).0;
            &&& resolution(told) == resolution(v)
            &&& other == v
            &&& resolution(wayland_step(told, WaylandEvent::OutputDone).0) == size
        }),
{
}

/// The Wayland objects that the caller keeps.
pub struct Held {
    pub source: Option<Source>,
    pub offer: Option<Offer>,
}

/// The objects that go with a state.
pub open spec fn held(v: AppView) -> Held {
    Held { source: v.current_source, offer: v.current_offer }
}

/// The objects once an action has been performed, or `None` where it cannot
/// be: what is destroyed or read must be there, and a second source must not
/// displace a first.
pub open spec fn perform(h: Held, a: ActionView) -> Option<Held> {
    match a {
        ActionView::DestroySource(s) => if h.source == Some(s) {
            Some(Held { source: None, ..h })
        } else {
            None
        },
        ActionView::CreateSource { source, .. } => if h.source is None {
            Some(Held { source: Some(source), ..h })
        } else {
            None
        },
        ActionView::DestroyOffer(o) => if h.offer == Some(o) {
            Some(Held { offer: None, ..h })
        } else {
            None
        },
        ActionView::ReadOffer { .. } => if h.offer is Some {
            Some(h)
        } else {
            None
        },
        _ => Some(h),
    }
}

/// The objects once the actions have been performed in order.
pub open spec fn perform_all(h: Held, actions: Seq<ActionView>) -> Option<Held>
    decreases actions.len(),
{
    if actions.len() == 0 {
        Some(h)
    } else {
        match perform(h, actions[0]) {
            Some(next) => perform_all(next, actions.drop_first()),
            None => None,
        }
    }
}

/// The objects once an input has been dealt with: an offer that it brings is
/// kept after the actions, and must not displace another.
pub open spec fn deal_with(h: Held, i: InputView, actions: Seq<ActionView>) -> Option<Held> {
    match (perform_all(h, actions), i) {
        (Some(rest), InputView::Wayland(WaylandEvent::DataOffer(o))) => if rest.offer is None {
            Some(Held { offer: Some(o), ..rest })
        } else {
            None
        },
        (r, _) => r,
    }
}

/// The objects after a row of inputs, beginning with those of `v`.
pub open spec fn held_after(v: AppView, inputs: Seq<InputView>) -> Option<Held>
    decreases inputs.len(),
{
    if inputs.len() == 0 {
        Some(held(v))
    } else {
        let before = inputs.drop_last();
        match held_after(v, before) {
            Some(h) => deal_with(h, inputs.last(), input_step(after(v, before), inputs.last()).1),
            None => None,
        }
    }
}

proof fn lemma_perform_one(h: Held, a: ActionView)
    ensures
        perform_all(h, seq![a]) == perform(h, a),
{
    let one = seq![a];
    assert(one[0] == a);
    assert(one.drop_first().len() == 0);
    reveal_with_fuel(perform_all, 2);
}

proof fn lemma_objects_step(v: AppView, i: InputView)
    ensures
        deal_with(held(v), i, input_step(v, i).1) == Some(held(input_step(v, i).0)),
{
    let h = held(v);
    let actions = input_step(v, i).1;
    if actions.len() == 1 {
        lemma_perform_one(h, actions[0]);
        assert(actions =~= seq![actions[0]]);
    } else if actions.len() == 2 {
        let rest = actions.drop_first();
        assert(rest =~= seq![actions[1]]);
        lemma_perform_one(perform(h, actions[0]).unwrap(), actions[1]);
    }
}

/// No object is lost and none is used after its end: through any row of inputs
/// the caller can perform every action, and keeps exactly the source and the
/// offer that the state speaks of.
pub proof fn law_objects_kept(v: AppView, inputs: Seq<InputView>)
    ensures
        held_after(v, inputs) == Some(held(after(v, inputs))),
    decreases inputs.len(),
{
    if inputs.len() > 0 {
        law_objects_kept(v, inputs.drop_last());
        lemma_objects_step(after(v, inputs.drop_last()), inputs.last());
    }
}

/// How a paste ends, given what comes from the daemon; `Wait` while it has not
/// ended.
pub open spec fn paste_outcome(events: Seq<PasteEventView>) -> PasteStepView
    decreases events.len(),
{
    if events.len() == 0 {
        PasteStepView::Wait
    } else {
        match paste_reaction(events[0]) {
            PasteStepView::Wait => paste_outcome(events.drop_first()),
            end => end,
        }
    }
}

/// A paste is decided by the first event that matters: whatever other messages
/// come before it and whatever comes after, the first clipboard data is what
/// is served, and a failed read before it ends the paste with nothing.
pub proof fn law_paste_first(events: Seq<PasteEventView>, k: int)
    requires
        0 <= k < events.len(),
        forall|j: int|
            0 <= j < k ==> (#[trigger] events[j] matches PasteEventView::Message(m)
                && !is_paste_data(m)),
        events[k] matches PasteEventView::Message(m) ==> is_paste_data(m),
    ensures
        paste_outcome(events) == paste_reaction(events[k]),
        events[k] matches PasteEventView::Message(m) ==> m.data.len() > 0 ==> paste_outcome(events)
            == PasteStepView::Serve(m.data),
    decreases k,
{
    if k > 0 {
        assert(events[0] is Message);
        let rest = events.drop_first();
        assert forall|j: int| 0 <= j < k - 1 implies (#[trigger] rest[j] matches
            PasteEventView::Message(m) && !is_paste_data(m)) by {
            assert(rest[j] == events[j + 1]);
        }
        law_paste_first(rest, k - 1);
    }
}

/// Every copy in the guest is announced: whenever the clipboard is not the
/// host's, a selection sends exactly one grab of the clipboard that offers
/// text and nothing else, whatever was announced before. A second selection
/// sends a second one.
pub proof fn law_every_guest_copy_announced(v: AppView)
    requires
        !v.we_own_clipboard,
    ensures
        ({
            let (w, actions) = wayland_step(v, WaylandEvent::Selection(true));
            let (again, more) = wayland_step(w, WaylandEvent::Selection(true));
            &&& actions.len() == 1
            &&& actions[0] matches ActionView::Send(m)
            &&& m.msg_type == VDAGENTD_CLIPBOARD_GRAB
            &&& m.arg1 == 0 && m.arg2 == 0
            &&& m.data.len() == 4
            &&& u32_at(m.data, 0) == VD_AGENT_CLIPBOARD_UTF8_TEXT
            &&& w == (AppView { guest_owns_clipboard: true, ..v })
            &&& more == actions
            &&& again == w
        }),
{
    law_u32_read_back(VD_AGENT_CLIPBOARD_UTF8_TEXT as nat);
    let d = grab_message().data;
    assert(d.subrange(0, 4) =~= d);
}

/// Events that announce nothing: a selection while the clipboard is the
/// host's, which changes nothing; a selection that is gone, which only ends
/// the guest's ownership; and a source that has been replaced, which only
/// ends the host's.
pub proof fn law_quiet_events(v: AppView)
    ensures
        v.we_own_clipboard ==> wayland_step(v, WaylandEvent::Selection(true)) == (
            v,
            Seq::<ActionView>::empty(),
        ),
        wayland_step(v, WaylandEvent::Selection(false)) == (
            AppView { guest_owns_clipboard: false, ..v },
            Seq::<ActionView>::empty(),
        ),
        wayland_step(v, WaylandEvent::SourceCancelled) == (
            AppView { we_own_clipboard: false, ..v },
            Seq::<ActionView>::empty(),
        ),
{
}

/// The latest offer is the one that is kept, and the only thing that its
/// arrival ends is the offer before it.
pub proof fn law_latest_offer(v: AppView, first: Offer, second: Offer)
    ensures
        ({
            let (w, _) = wayland_step(v, WaylandEvent::DataOffer(first));
            let (x, actions) = wayland_step(w, WaylandEvent::DataOffer(second));
            &&& w == (AppView { current_offer: Some(first), ..v })
            &&& x == (AppView { current_offer: Some(second), ..v })
            &&& actions == seq![ActionView::DestroyOffer(first)]
            &&& v.current_offer is None ==> wayland_step(
                v,
                WaylandEvent::DataOffer(first),
            ).1.len() == 0
        }),
{
}

/// The body of a grab with these types, in this order.
pub open spec fn type_row(types: Seq<u32>) -> Seq<u8>
    decreases types.len(),
{
    if types.len() == 0 {
        Seq::empty()
    } else {
        type_row(types.drop_last()) + le_bytes(types.last() as nat, 4)
    }
}

proof fn lemma_type_row(types: Seq<u32>, tail: Seq<u8>)
    ensures
        type_row(types).len() == 4 * types.len(),
        forall|i: int|
            0 <= i < types.len() ==> #[trigger] u32_at(type_row(types) + tail, 4 * i) == types[i],
    decreases types.len(),
{
    if types.len() > 0 {
        let before = types.drop_last();
        let last = le_bytes(types.last() as nat, 4);
        let row = type_row(types) + tail;
        lemma_type_row(before, last + tail);
        law_u32_read_back(types.last() as nat);
        assert(row =~= type_row(before) + (last + tail));
        assert forall|i: int| 0 <= i < types.len() implies #[trigger] u32_at(row, 4 * i)
            == types[i] by {
            if i < before.len() {
                assert(u32_at(type_row(before) + (last + tail), 4 * i) == before[i]);
            } else {
                assert(row.subrange(4 * i, 4 * i + 4) =~= last);
            }
        }
    }
}

/// Text is offered exactly when it is among the types of a grab, at whatever
/// place and whatever stands before and behind it; a type that is cut off at
/// the end does not count. So one type more never takes the offer back.
pub proof fn law_text_among_types(types: Seq<u32>, tail: Seq<u8>, more: u32)
    requires
        tail.len() < 4,
    ensures
        offers_text(type_row(types) + tail) <==> types.contains(VD_AGENT_CLIPBOARD_UTF8_TEXT),
        offers_text(type_row(types)) ==> offers_text(type_row(types) + le_bytes(more as nat, 4)),
{
    lemma_offers(types, tail);
    lemma_offers(types, Seq::empty());
    lemma_offers(types.push(more), Seq::empty());
    assert(type_row(types) + Seq::<u8>::empty() =~= type_row(types));
    assert(types.push(more).drop_last() =~= types);
    let longer = type_row(types.push(more));
    assert(longer + Seq::<u8>::empty() =~= type_row(types) + le_bytes(more as nat, 4));
    if types.contains(VD_AGENT_CLIPBOARD_UTF8_TEXT) {
        let i = choose|i: int| 0 <= i < types.len() && types[i] == VD_AGENT_CLIPBOARD_UTF8_TEXT;
        assert(types.push(more)[i] == VD_AGENT_CLIPBOARD_UTF8_TEXT);
    }
}

proof fn lemma_offers(types: Seq<u32>, tail: Seq<u8>)
    requires
        tail.len() < 4,
    ensures
        offers_text(type_row(types) + tail) <==> types.contains(VD_AGENT_CLIPBOARD_UTF8_TEXT),
{
    let data = type_row(types) + tail;
    lemma_type_row(types, tail);
    assert(data.len() / 4 == types.len());
    if types.contains(VD_AGENT_CLIPBOARD_UTF8_TEXT) {
        let i = choose|i: int| 0 <= i < types.len() && types[i] == VD_AGENT_CLIPBOARD_UTF8_TEXT;
        assert(u32_at(data, 4 * i) == VD_AGENT_CLIPBOARD_UTF8_TEXT);
    }
    if offers_text(data) {
        let i = choose|i: int|
            0 <= i < data.len() / 4 && #[trigger] u32_at(data, 4 * i)
                == VD_AGENT_CLIPBOARD_UTF8_TEXT;
        assert(types[i] == VD_AGENT_CLIPBOARD_UTF8_TEXT);
    }
}

/// A grab of the host is taken up exactly when it is of the clipboard, text is
/// among its types and a manager is bound. Then the source before it ends, a
/// new one of the manager's protocol takes its place, and nothing else of the
/// state changes.
pub proof fn law_grab_taken_up(v: AppView, m: MsgView, types: Seq<u32>, tail: Seq<u8>)
    requires
        m.msg_type == VDAGENTD_CLIPBOARD_GRAB,
        m.data == type_row(types) + tail,
        tail.len() < 4,
    ensures
        ({
            let (w, actions) = daemon_step(v, m);
            match v.manager {
                Some(manager) if m.arg1 == 0 && types.contains(VD_AGENT_CLIPBOARD_UTF8_TEXT) => {
                    let source = source_of(manager);
                    &&& w == (AppView {
                        current_source: Some(source),
                        we_own_clipboard: true,
                        ..v
                    })
                    &&& actions.last() matches ActionView::CreateSource {
                        source: s,
                        mime_types,
                        select,
                    }
                    &&& s == source
                    &&& mime_types == offered_types()
                    &&& select <==> v.device == Some(device_of(manager))
                    &&& v.current_source is None ==> actions.len() == 1
                    &&& v.current_source matches Some(old) ==> actions.drop_last() == seq![
                        ActionView::DestroySource(old),
                    ]
                },
                _ => w == v && actions.len() == 0,
            }
        }),
{
    law_text_among_types(types, tail, 0);
    let actions = daemon_step(v, m).1;
    if let Some(old) = v.current_source {
        if actions.len() > 0 {
            assert(actions.drop_last() =~= seq![ActionView::DestroySource(old)]);
        }
    }
}

/// The types on a source: plain text with and without its encoding named, and
/// the three names that X clients know text by.
pub proof fn law_offered_types(t: Seq<char>)
    ensures
        offered_types().len() == 5,
        offered_types().contains(t) <==> t == "text/plain"@ || t == "text/plain;charset=utf-8"@
            || t == "UTF8_STRING"@ || t == "STRING"@ || t == "TEXT"@,
{
    let all = offered_types();
    assert(all[0] == "text/plain"@);
    assert(all[1] == "text/plain;charset=utf-8"@);
    assert(all[2] == "UTF8_STRING"@);
    assert(all[3] == "STRING"@);
    assert(all[4] == "TEXT"@);
}

/// When the host gives the clipboard up, or its client goes, the source on it
/// ends and nothing else of the state changes; the release of another
/// selection changes nothing.
pub proof fn law_release(v: AppView, m: MsgView)
    requires
        m.msg_type == VDAGENTD_CLIENT_DISCONNECTED || m.msg_type == VDAGENTD_CLIPBOARD_RELEASE,
    ensures
        ({
            let (w, actions) = daemon_step(v, m);
            if m.msg_type == VDAGENTD_CLIPBOARD_RELEASE && m.arg1 != 0 {
                w == v && actions.len() == 0
            } else {
                &&& w == (AppView { current_source: None, we_own_clipboard: false, ..v })
                &&& v.current_source is None ==> actions.len() == 0
                &&& v.current_source matches Some(old) ==> actions == seq![
                    ActionView::DestroySource(old),
                ]
            }
        }),
{
}

/// A request of the host has the kept offer read as plain text in UTF-8, for
/// the selection that it names. Text is handed on byte by byte under that
/// kind, and where no pipe could be had there is no answer.
pub proof fn law_offer_read(v: AppView, m: MsgView, selection: u32, text: Seq<u8>)
    requires
        m.msg_type == VDAGENTD_CLIPBOARD_REQUEST,
        v.current_offer is Some,
        text.len() > 0,
    ensures
        daemon_step(v, m) == (
            v,
            seq![
                ActionView::ReadOffer {
                    mime_type: "text/plain;charset=utf-8"@,
                    selection: m.arg1,
                },
            ],
        ),
        answer(selection, Some(text)) == Some(
            MsgView {
                msg_type: VDAGENTD_CLIPBOARD_DATA,
                arg1: selection,
                arg2: VD_AGENT_CLIPBOARD_UTF8_TEXT,
                data: text,
            },
        ),
        answer(selection, None) is None,
{
}

/// The body of a resolution report reads back: the width, the height, the
/// position and the id stand in it one after the other, and nothing else
/// does.
pub proof fn law_resolution_read_back(w: i32, h: i32, x: i32, y: i32, id: i32)
    ensures
        ({
            let body = resolution_body(w, h, x, y, id);
            &&& body.len() == 20
            &&& u32_at(body, 0) == two_complement(w)
            &&& u32_at(body, 4) == two_complement(h)
            &&& u32_at(body, 8) == two_complement(x)
            &&& u32_at(body, 12) == two_complement(y)
            &&& u32_at(body, 16) == two_complement(id)
        }),
{
    let body = resolution_body(w, h, x, y, id);
    law_u32_read_back(two_complement(w));
    law_u32_read_back(two_complement(h));
    law_u32_read_back(two_complement(x));
    law_u32_read_back(two_complement(y));
    law_u32_read_back(two_complement(id));
    assert(body.subrange(0, 4) =~= le_bytes(two_complement(w), 4));
    assert(body.subrange(4, 8) =~= le_bytes(two_complement(h), 4));
    assert(body.subrange(8, 12) =~= le_bytes(two_complement(x), 4));
    assert(body.subrange(12, 16) =~= le_bytes(two_complement(y), 4));
    assert(body.subrange(16, 20) =~= le_bytes(two_complement(id), 4));
}

/// A report carries its size twice, in the arguments and in the body, for the
/// first display at the origin. Different sizes are reported differently.
pub proof fn law_report_carries_the_size(s: Size, t: Size)
    ensures
        ({
            let m = resolution_message(s);
            &&& m.msg_type == VDAGENTD_GUEST_XORG_RESOLUTION
            &&& m.arg1 == two_complement(s.width)
            &&& m.arg2 == two_complement(s.height)
            &&& m.data.len() == 20
            &&& u32_at(m.data, 0) == m.arg1
            &&& u32_at(m.data, 4) == m.arg2
            &&& u32_at(m.data, 8) == 0 && u32_at(m.data, 12) == 0 && u32_at(m.data, 16) == 0
            &&& resolution_message(s).data == resolution_message(t).data ==> s == t
        }),
{
    law_resolution_read_back(s.width, s.height, 0, 0, 0);
    law_resolution_read_back(t.width, t.height, 0, 0, 0);
    law_two_complement(s.width, t.width);
    law_two_complement(s.height, t.height);
}

/// The size that is reported is the one that the output has committed; only
/// while there is none it is 1280 by 800.
pub proof fn law_resolution(v: AppView, s: Size)
    ensures
        v.current_size == Some(s) ==> resolution(v) == s,
        v.current_size is None ==> resolution(v).width == 1280 && resolution(v).height == 800,
{
}

/// The start-up ends with one report of the size, and changes nothing but that
/// sizes are reported from then on. The daemon gets the same report whenever
/// it asks.
pub proof fn law_startup(v: AppView, m: MsgView)
    requires
        m.msg_type == VDAGENTD_GRAPHICS_DEVICE_INFO,
    ensures
        ({
            let (w, report) = startup_step(v);
            &&& w == (AppView { ready: true, ..v })
            &&& report == resolution_message(resolution(v))
            &&& daemon_step(w, m) == (w, seq![ActionView::Send(report)])
            &&& daemon_step(v, m) == (v, seq![ActionView::Send(report)])
        }),
{
}

/// How the size of the output is followed: the latest current mode is the one
/// that a commit makes the size, a commit without one changes nothing, and
/// nothing is sent before the start-up is over or for a size that is known.
pub proof fn law_output_followed(v: AppView, first: Size, second: Size)
    ensures
        ({
            let mode = |s: Size| WaylandEvent::OutputMode { current: true, size: s };
            let told = wayland_step(wayland_step(v, mode(first)).0, mode(second)).0;
            let (w, actions) = wayland_step(told, WaylandEvent::OutputDone);
            &&& wayland_step(v, mode(first)).1.len() == 0
            &&& told == (AppView { pending_size: Some(second), ..v })
            &&& w == (AppView { pending_size: None, current_size: Some(second), ..v })
            &&& v.ready && v.current_size != Some(second) ==> actions == seq![
                ActionView::Send(resolution_message(second)),
            ]
            &&& !v.ready || v.current_size == Some(second) ==> actions.len() == 0
            &&& wayland_step(w, WaylandEvent::OutputDone) == (w, Seq::<ActionView>::empty())
            &&& wayland_step(
                v,
                WaylandEvent::OutputMode { current: false, size: first },
            ) == (v, Seq::<ActionView>::empty())
        }),
{
}

/// A monitor request changes nothing in the agent; it is passed on with its
/// width and height exactly when it asks for a size.
pub proof fn law_monitor_request(v: AppView, m: MsgView, width: u32, height: u32)
    requires
        m.msg_type == VDAGENTD_MONITORS_CONFIG,
    ensures
        first_monitor(m.data) == Some((width as nat, height as nat)) ==> daemon_step(v, m) == (
            v,
            seq![ActionView::SetMonitor { width, height }],
        ),
        first_monitor(m.data) is None ==> daemon_step(v, m) == (v, Seq::<ActionView>::empty()),
{
}

/// Transfer messages reach the transfers with their bodies, and touch nothing
/// else of the agent: each leads to the one step that the transfers answer
/// with.
pub proof fn law_transfer_messages(v: AppView, body: Seq<u8>, arg1: u32, arg2: u32)
    ensures
        ({
            let message = |kind: u32| MsgView { msg_type: kind, arg1, arg2, data: body };
            let (after_data, data) = data_step(v.xfers, body);
            let (after_status, ended) = status_step(v.xfers, body);
            let (w, actions) = daemon_step(v, message(VDAGENTD_FILE_XFER_STATUS));
            &&& daemon_step(v, message(VDAGENTD_FILE_XFER_START)) == (
                v,
                seq![ActionView::StartTransfer(start_step(v.xfers, body))],
            )
            &&& daemon_step(v, message(VDAGENTD_FILE_XFER_DATA)) == (
                AppView { xfers: after_data, ..v },
                seq![ActionView::TransferData(data)],
            )
            &&& w == (AppView { xfers: after_status, ..v })
            &&& ended is None ==> actions.len() == 0
            &&& ended matches Some(t) ==> actions == seq![ActionView::RemoveTransfer(t)]
        }),
{
}

/// Messages of any other kind change nothing and lead to nothing: versions,
/// volumes, clipboard data that no paste waits for, the agent's own reports,
/// and kinds that the agent does not know.
pub proof fn law_other_messages(v: AppView, m: MsgView)
    requires
        m.msg_type == 0 || m.msg_type == 4 || m.msg_type == 6 || m.msg_type == 7 || m.msg_type
            == 11 || m.msg_type > 13,
    ensures
        daemon_step(v, m) == (v, Seq::<ActionView>::empty()),
{
}

/// The agent can run exactly when a seat and a manager have been announced.
/// Then the chosen manager is bound, under its number, and the device is of
/// its protocol; otherwise nothing changes.
pub proof fn law_bind(v: AppView)
    ensures
        ({
            let (w, bound) = bind_step(v);
            &&& bound is Some <==> v.globals.seat is Some && (v.globals.ext is Some
                || v.globals.wlr is Some)
            &&& bound is None ==> w == v
            &&& bound matches Some((m, name)) ==> {
                &&& Some((m, name)) == chosen(v.globals)
                &&& m is Ext <==> v.globals.ext is Some
                &&& w.device matches Some(d)
                &&& (d is Ext <==> m is Ext)
                &&& w == (AppView { manager: Some(m), device: Some(d), ..v })
            }
        }),
{
}

/// An announcement is noted among the globals and changes nothing else.
pub proof fn law_announcement_noted(v: AppView, name: u32, interface: Seq<char>)
    ensures
        ({
            let (w, step) = announce_step(v, name, interface);
            &&& step == global_step(v.globals, name, interface).1
            &&& w == (AppView { globals: global_step(v.globals, name, interface).0, ..v })
        }),
{
}

/// In the beginning there is nothing: no global, no object, no owner, no size,
/// no report; only the transfers are those that were given.
pub proof fn law_fresh(xfers: XfersView)
    ensures
        ({
            let v = fresh(xfers);
            &&& chosen(v.globals) is None && v.globals.seat is None
            &&& v.manager is None && v.device is None
            &&& v.current_source is None && v.current_offer is None
            &&& !v.we_own_clipboard && !v.guest_owns_clipboard
            &&& v.pending_size is None && v.current_size is None
            &&& !v.ready
            &&& v.xfers == xfers
        }),
{
}

/// What a paste makes of a message: it waits through all but clipboard data
/// for the clipboard, whatever kind that data claims to be; data with any byte
/// in it is served as it is, and empty data ends the paste.
pub proof fn law_paste_reaction(m: MsgView)
    ensures
        ({
            let step = paste_reaction(PasteEventView::Message(m));
            let awaited = m.msg_type == VDAGENTD_CLIPBOARD_DATA && m.arg1 == 0;
            &&& step is Wait <==> !awaited
            &&& awaited && m.data.len() > 0 ==> step == PasteStepView::Serve(m.data)
            &&& awaited && m.data.len() == 0 ==> step is GiveUp
        }),
        paste_reaction(PasteEventView::ReadFailed) is GiveUp,
{
}

/// A paste asks for the text of the clipboard, in a message without a body
/// that reads back as such from the socket.
pub proof fn law_paste_request(rest: Seq<u8>)
    ensures
        unframe(frame(request_message()) + rest) matches Some((m, after)) && m.msg_type
            == VDAGENTD_CLIPBOARD_REQUEST && m.arg1 == 0 && m.arg2 == VD_AGENT_CLIPBOARD_UTF8_TEXT
            && m.data.len() == 0 && after == rest,
{
    law_frame_read_back(request_message(), rest);
}

/// A paste waits three seconds for each message, as long as three hundred of
/// the waits of the main loop.
pub proof fn law_time_limits()
    ensures
        PASTE_TIMEOUT_SECS == 3,
        PASTE_TIMEOUT_SECS * 1000 == 300 * READ_TIMEOUT_MILLIS,
{
}

/// Of the failures to read, only those that mean that nothing has come yet are
/// survived.
pub proof fn law_survivable(failure: ReadFailure)
    ensures
        survivable(failure) <==> !(failure is Other),
{
}

/// The views of actions leave nothing out and change nothing.
pub proof fn law_action_views(
    m: UdscsMsg,
    source: Source,
    offer: Offer,
    mime_types: Vec<String>,
    select: bool,
    mime_type: &'static str,
    selection: u32,
    width: u32,
    height: u32,
    start: StartStep,
    data: DataStep,
    ended: Teardown,
)
    ensures
        Action::Send(m)@ == ActionView::Send(m@),
        Action::DestroySource(source)@ == ActionView::DestroySource(source),
        Action::DestroyOffer(offer)@ == ActionView::DestroyOffer(offer),
        ({
            &&& (Action::CreateSource { source, mime_types, select })@ matches
                ActionView::CreateSource { source: s, mime_types: types, select: chosen }
            &&& s == source
            &&& chosen == select
            &&& types.len() == mime_types@.len()
            &&& forall|i: int| 0 <= i < types.len() ==> #[trigger] types[i] == mime_types@[i]@
        }),
        (Action::ReadOffer { mime_type, selection })@ == (ActionView::ReadOffer {
            mime_type: mime_type@,
            selection,
        }),
        (Action::SetMonitor { width, height })@ == (ActionView::SetMonitor { width, height }),
        Action::StartTransfer(start)@ == ActionView::StartTransfer(start@),
        Action::TransferData(data)@ == ActionView::TransferData(data@),
        Action::RemoveTransfer(ended)@ == ActionView::RemoveTransfer(ended@),
{
}

/// The view of a row of actions keeps their number and their order.
pub proof fn law_actions_in_order(actions: Seq<Action>)
    ensures
        actions_view(actions).len() == actions.len(),
        forall|i: int| 0 <= i < actions.len() ==> #[trigger] actions_view(actions)[i] == actions[i]@,
{
}

/// The views of what a paste meets and does leave nothing out and change
/// nothing.
pub proof fn law_paste_views(m: UdscsMsg, text: Vec<u8>)
    ensures
        PasteEvent::Message(m)@ == PasteEventView::Message(m@),
        PasteEvent::ReadFailed@ == PasteEventView::ReadFailed,
        PasteStep::Wait@ == PasteStepView::Wait,
        PasteStep::Serve(text)@ == PasteStepView::Serve(text@),
        PasteStep::GiveUp@ == PasteStepView::GiveUp,
{
}

/// The view of the state leaves nothing out and changes nothing.
pub proof fn law_state_view(s: AppState)
    ensures
        s@.globals == s.globals,
        s@.manager == s.manager,
        s@.device == s.device,
        s@.current_source == s.current_source,
        s@.we_own_clipboard == s.we_own_clipboard,
        s@.current_offer == s.current_offer,
        s@.guest_owns_clipboard == s.guest_owns_clipboard,
        s@.pending_size == s.pending_size,
        s@.current_size == s.current_size,
        s@.ready == s.ready,
        s@.xfers == s.xfers@,
{
}

} // verus!
