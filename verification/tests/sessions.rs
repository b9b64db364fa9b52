use wayland_vdagent::agent::{
    guest_xorg_resolution, offer_answer, paste_request, paste_step, survives, Action, AppState,
    PasteEvent, PasteStep, ReadFailure, Size, WaylandEvent,
};
use wayland_vdagent::data_control::{
    Device, GlobalStep, Globals, Manager, Offer, Source, EXT_MANAGER_INTERFACE,
    WLR_MANAGER_INTERFACE,
};
use wayland_vdagent::file_xfer::{DataStep, Ending, StartStep, Teardown, Xfers};
use wayland_vdagent::udscs::{
    UdscsMsg, VDAGENTD_AUDIO_VOLUME_SYNC, VDAGENTD_CLIENT_DISCONNECTED, VDAGENTD_CLIPBOARD_DATA,
    VDAGENTD_CLIPBOARD_GRAB, VDAGENTD_CLIPBOARD_RELEASE, VDAGENTD_CLIPBOARD_REQUEST,
    VDAGENTD_FILE_XFER_DATA, VDAGENTD_FILE_XFER_START, VDAGENTD_FILE_XFER_STATUS,
    VDAGENTD_GRAPHICS_DEVICE_INFO, VDAGENTD_GUEST_XORG_RESOLUTION, VDAGENTD_MONITORS_CONFIG,
    VDAGENTD_VERSION, VD_AGENT_CLIPBOARD_NONE, VD_AGENT_CLIPBOARD_UTF8_TEXT,
};

fn msg(msg_type: u32, arg1: u32, arg2: u32, data: &[u8]) -> UdscsMsg {
    UdscsMsg { msg_type, arg1, arg2, data: data.to_vec() }
}

fn host_grab() -> UdscsMsg {
    msg(VDAGENTD_CLIPBOARD_GRAB, 0, 0, &[1, 0, 0, 0])
}

fn agent() -> AppState {
    AppState::new(Xfers::new(b"/save".to_vec()))
}

fn running(interface: &str) -> AppState {
    let mut s = agent();
    s.handle_global(1, "wl_seat");
    s.handle_global(2, interface);
    assert!(s.bind_manager().is_some());
    s.finish_startup();
    s
}

fn size_report(width: i32, height: i32) -> UdscsMsg {
    UdscsMsg {
        msg_type: VDAGENTD_GUEST_XORG_RESOLUTION,
        arg1: width as u32,
        arg2: height as u32,
        data: guest_xorg_resolution(width, height, 0, 0, 0),
    }
}

fn new_source(source: Source, select: bool) -> Action {
    Action::CreateSource {
        source,
        mime_types: ["text/plain", "text/plain;charset=utf-8", "UTF8_STRING", "STRING", "TEXT"]
            .iter()
            .map(|t| t.to_string())
            .collect(),
        select,
    }
}

fn guest_grab() -> Action {
    Action::Send(msg(VDAGENTD_CLIPBOARD_GRAB, 0, 0, &[1, 0, 0, 0]))
}

#[test]
fn resolution_body_bytes() {
    assert_eq!(
        guest_xorg_resolution(1280, 800, 0, -1, i32::MIN),
        [0, 5, 0, 0, 0x20, 3, 0, 0, 0, 0, 0, 0, 255, 255, 255, 255, 0, 0, 0, 128]
    );
}

#[test]
fn globals_are_bound_or_remembered() {
    let mut g = Globals::new();
    assert_eq!(g.announce(3, "wl_compositor"), GlobalStep::Nothing);
    assert_eq!(g.choose_manager(), None);
    assert_eq!(g.announce(4, "wl_seat"), GlobalStep::BindSeat(4));
    assert_eq!(g.announce(5, "wl_output"), GlobalStep::BindOutput(5));
    assert_eq!(g.announce(6, WLR_MANAGER_INTERFACE), GlobalStep::Nothing);
    assert_eq!(g.choose_manager(), Some((Manager::Wlr, 6)));
    assert_eq!(g.announce(7, EXT_MANAGER_INTERFACE), GlobalStep::Nothing);
    assert_eq!(g.choose_manager(), Some((Manager::Ext, 7)));
    assert_eq!(g, Globals { seat: Some(4), ext: Some(7), wlr: Some(6) });
}

#[test]
fn the_stable_protocol_wins_in_any_order() {
    for order in [[EXT_MANAGER_INTERFACE, WLR_MANAGER_INTERFACE], [WLR_MANAGER_INTERFACE, EXT_MANAGER_INTERFACE]] {
        let mut g = Globals::new();
        for (k, interface) in order.iter().enumerate() {
            g.announce(k as u32, interface);
        }
        assert_eq!(g.choose_manager().map(|c| c.0), Some(Manager::Ext));
    }
}

#[test]
fn a_seat_and_a_manager_are_needed() {
    let mut s = agent();
    s.handle_global(1, "wl_seat");
    assert_eq!(s.bind_manager(), None);
    let mut s = agent();
    s.handle_global(2, EXT_MANAGER_INTERFACE);
    assert_eq!(s.bind_manager(), None);
    s.handle_global(1, "wl_seat");
    assert_eq!(s.bind_manager(), Some((Manager::Ext, 2)));
    assert_eq!(s.device, Some(Device::Ext));
}

#[test]
fn devices_take_sources_of_their_protocol() {
    for m in [Manager::Ext, Manager::Wlr] {
        assert!(m.get_data_device().set_selection(Some(&m.create_data_source())));
        assert!(m.get_data_device().set_selection(None));
    }
    assert!(!Device::Ext.set_selection(Some(&Source::Wlr)));
    assert!(!Device::Wlr.set_selection(Some(&Source::Ext)));
}

#[test]
fn a_host_grab_offers_a_source() {
    let mut s = running(WLR_MANAGER_INTERFACE);
    assert_eq!(s.handle_daemon_msg(&host_grab()), vec![new_source(Source::Wlr, true)]);
    assert!(s.we_own_clipboard);
    assert_eq!(
        s.handle_daemon_msg(&host_grab()),
        vec![Action::DestroySource(Source::Wlr), new_source(Source::Wlr, true)]
    );
}

#[test]
fn grabs_without_text_or_of_other_selections_are_passed_over() {
    let mut s = running(EXT_MANAGER_INTERFACE);
    for m in [
        msg(VDAGENTD_CLIPBOARD_GRAB, 1, 0, &[1, 0, 0, 0]),
        msg(VDAGENTD_CLIPBOARD_GRAB, 0, 0, &[]),
        msg(VDAGENTD_CLIPBOARD_GRAB, 0, 0, &[1, 0, 0]),
        msg(VDAGENTD_CLIPBOARD_GRAB, 0, 0, &[2, 0, 0, 0, 1, 0, 0]),
        msg(VDAGENTD_CLIPBOARD_GRAB, 0, 0, &[0, 1, 0, 0]),
    ] {
        assert_eq!(s.handle_daemon_msg(&m), vec![]);
        assert!(!s.we_own_clipboard);
    }
    let second = msg(VDAGENTD_CLIPBOARD_GRAB, 0, 0, &[2, 0, 0, 0, 1, 0, 0, 0, 9]);
    assert_eq!(s.handle_daemon_msg(&second), vec![new_source(Source::Ext, true)]);
}

#[test]
fn a_grab_before_a_manager_is_bound_does_nothing() {
    let mut s = agent();
    assert_eq!(s.handle_daemon_msg(&host_grab()), vec![]);
    assert!(!s.we_own_clipboard);
}

#[test]
fn the_guest_selection_is_announced_unless_it_is_ours() {
    let mut s = running(EXT_MANAGER_INTERFACE);
    assert_eq!(s.handle_wayland_event(WaylandEvent::Selection(true)), vec![guest_grab()]);
    assert!(s.guest_owns_clipboard);
    assert_eq!(s.handle_wayland_event(WaylandEvent::Selection(false)), vec![]);
    assert!(!s.guest_owns_clipboard);
    s.handle_daemon_msg(&host_grab());
    assert_eq!(s.handle_wayland_event(WaylandEvent::Selection(true)), vec![]);
    assert_eq!(s.handle_wayland_event(WaylandEvent::SourceCancelled), vec![]);
    assert_eq!(s.current_source, Some(Source::Ext));
    assert_eq!(s.handle_wayland_event(WaylandEvent::Selection(true)), vec![guest_grab()]);
}

#[test]
fn release_and_disconnect_give_the_clipboard_back() {
    for m in [
        msg(VDAGENTD_CLIPBOARD_RELEASE, 0, 0, &[]),
        msg(VDAGENTD_CLIENT_DISCONNECTED, 3, 0, &[]),
    ] {
        let mut s = running(EXT_MANAGER_INTERFACE);
        s.handle_daemon_msg(&host_grab());
        assert_eq!(s.handle_daemon_msg(&m), vec![Action::DestroySource(Source::Ext)]);
        assert_eq!(s.handle_daemon_msg(&m), vec![]);
        assert_eq!(s.handle_wayland_event(WaylandEvent::Selection(true)), vec![guest_grab()]);
    }
    let mut s = running(EXT_MANAGER_INTERFACE);
    s.handle_daemon_msg(&host_grab());
    assert_eq!(s.handle_daemon_msg(&msg(VDAGENTD_CLIPBOARD_RELEASE, 1, 0, &[])), vec![]);
    assert!(s.we_own_clipboard);
}

#[test]
fn offers_replace_each_other() {
    let mut s = running(WLR_MANAGER_INTERFACE);
    assert_eq!(s.handle_wayland_event(WaylandEvent::DataOffer(Offer::Wlr)), vec![]);
    assert_eq!(
        s.handle_wayland_event(WaylandEvent::DataOffer(Offer::Wlr)),
        vec![Action::DestroyOffer(Offer::Wlr)]
    );
}

#[test]
fn host_requests_are_answered() {
    let mut s = running(EXT_MANAGER_INTERFACE);
    let request = msg(VDAGENTD_CLIPBOARD_REQUEST, 2, 1, &[]);
    assert_eq!(
        s.handle_daemon_msg(&request),
        vec![Action::Send(msg(VDAGENTD_CLIPBOARD_DATA, 2, VD_AGENT_CLIPBOARD_NONE, &[]))]
    );
    s.handle_wayland_event(WaylandEvent::DataOffer(Offer::Ext));
    assert_eq!(
        s.handle_daemon_msg(&request),
        vec![Action::ReadOffer { mime_type: "text/plain;charset=utf-8", selection: 2 }]
    );
    assert_eq!(
        offer_answer(2, Some(b"text".to_vec())),
        Some(msg(VDAGENTD_CLIPBOARD_DATA, 2, VD_AGENT_CLIPBOARD_UTF8_TEXT, b"text"))
    );
    assert_eq!(
        offer_answer(2, Some(vec![])),
        Some(msg(VDAGENTD_CLIPBOARD_DATA, 2, VD_AGENT_CLIPBOARD_NONE, &[]))
    );
    assert_eq!(offer_answer(2, None), None);
}

#[test]
fn sizes_are_reported() {
    let mut s = agent();
    assert_eq!(s.resolution(), Size { width: 1280, height: 800 });
    let full = Size { width: 1920, height: 1080 };
    let mode = WaylandEvent::OutputMode { current: true, size: full };
    assert_eq!(s.handle_wayland_event(mode), vec![]);
    assert_eq!(s.handle_wayland_event(WaylandEvent::OutputDone), vec![]);
    assert_eq!(s.finish_startup(), size_report(1920, 1080));
    assert_eq!(s.handle_wayland_event(mode), vec![]);
    assert_eq!(s.handle_wayland_event(WaylandEvent::OutputDone), vec![]);
    let small = Size { width: 800, height: 600 };
    s.handle_wayland_event(WaylandEvent::OutputMode { current: true, size: small });
    s.handle_wayland_event(WaylandEvent::OutputMode { current: false, size: full });
    assert_eq!(s.resolution(), full);
    assert_eq!(
        s.handle_wayland_event(WaylandEvent::OutputDone),
        vec![Action::Send(size_report(800, 600))]
    );
    assert_eq!(s.handle_wayland_event(WaylandEvent::OutputDone), vec![]);
    assert_eq!(
        s.handle_daemon_msg(&msg(VDAGENTD_GRAPHICS_DEVICE_INFO, 0, 0, &[])),
        vec![Action::Send(size_report(800, 600))]
    );
}

#[test]
fn the_fallback_size_stands_in() {
    let mut s = agent();
    let m = s.finish_startup();
    assert_eq!((m.arg1, m.arg2), (1280, 800));
    assert_eq!(m, size_report(1280, 800));
    assert_eq!(
        s.handle_daemon_msg(&msg(VDAGENTD_GRAPHICS_DEVICE_INFO, 0, 0, b"x")),
        vec![Action::Send(size_report(1280, 800))]
    );
}

#[test]
fn monitor_requests_are_passed_on() {
    let mut s = running(EXT_MANAGER_INTERFACE);
    let mut body = vec![1, 0, 0, 0, 0, 0, 0, 0];
    body.extend_from_slice(&600u32.to_le_bytes());
    body.extend_from_slice(&800u32.to_le_bytes());
    body.extend_from_slice(&[0; 12]);
    assert_eq!(
        s.handle_daemon_msg(&msg(VDAGENTD_MONITORS_CONFIG, 0, 0, &body)),
        vec![Action::SetMonitor { width: 800, height: 600 }]
    );
    assert_eq!(s.handle_daemon_msg(&msg(VDAGENTD_MONITORS_CONFIG, 0, 0, &body[..27])), vec![]);
}

#[test]
fn other_messages_are_passed_over() {
    let mut s = running(EXT_MANAGER_INTERFACE);
    for kind in [
        VDAGENTD_VERSION,
        VDAGENTD_AUDIO_VOLUME_SYNC,
        VDAGENTD_CLIPBOARD_DATA,
        VDAGENTD_GUEST_XORG_RESOLUTION,
        11,
        14,
        u32::MAX,
    ] {
        assert_eq!(s.handle_daemon_msg(&msg(kind, 0, 0, &[1, 0, 0, 0])), vec![]);
    }
}

#[test]
fn transfer_messages_reach_the_transfers() {
    let mut s = running(EXT_MANAGER_INTERFACE);
    let mut body = 3u32.to_le_bytes().to_vec();
    body.extend_from_slice(b"[vdagent-file-xfer]\nname=a\nsize=2\n");
    let mut actions = s.handle_daemon_msg(&msg(VDAGENTD_FILE_XFER_START, 0, 0, &body));
    assert_eq!(actions.len(), 1);
    let a = match actions.pop() {
        Some(Action::StartTransfer(StartStep::QuerySpace(a))) => a,
        other => panic!("{:?}", other),
    };
    let c = match s.xfers.space_known(a, None) {
        StartStep::CreateFile(c) => c,
        other => panic!("{:?}", other),
    };
    s.xfers.preallocated(c, true);
    let mut chunk = 3u32.to_le_bytes().to_vec();
    chunk.extend_from_slice(&1u64.to_le_bytes());
    chunk.push(b'x');
    assert_eq!(
        s.handle_daemon_msg(&msg(VDAGENTD_FILE_XFER_DATA, 0, 0, &chunk)),
        vec![Action::TransferData(DataStep::Write { id: 3, start: 12, end: 13 })]
    );
    let cancel = msg(VDAGENTD_FILE_XFER_STATUS, 0, 0, &[3, 0, 0, 0, 1, 0, 0, 0]);
    assert_eq!(
        s.handle_daemon_msg(&cancel),
        vec![Action::RemoveTransfer(Teardown {
            id: 3,
            path: b"/save/a".to_vec(),
            ending: Ending::CancelledByHost
        })]
    );
    assert_eq!(s.handle_daemon_msg(&cancel), vec![]);
}

#[test]
fn no_message_asks_for_clipboard_data() {
    let mut s = running(EXT_MANAGER_INTERFACE);
    for kind in 0..20 {
        for arg1 in 0..2 {
            for action in s.handle_daemon_msg(&msg(kind, arg1, 1, &[1, 0, 0, 0])) {
                if let Action::Send(m) = action {
                    assert_ne!(m.msg_type, VDAGENTD_CLIPBOARD_REQUEST);
                }
            }
        }
    }
}

#[test]
fn sources_and_offers_are_never_lost() {
    let mut s = running(WLR_MANAGER_INTERFACE);
    let mut sources = 0;
    let mut offers = 0;
    for round in 0..40 {
        let actions = match round % 7 {
            0 | 1 | 5 => s.handle_daemon_msg(&host_grab()),
            2 => s.handle_wayland_event(WaylandEvent::SourceCancelled),
            3 => s.handle_daemon_msg(&msg(VDAGENTD_CLIPBOARD_RELEASE, 0, 0, &[])),
            4 => s.handle_wayland_event(WaylandEvent::DataOffer(Offer::Wlr)),
            _ => s.handle_daemon_msg(&msg(VDAGENTD_CLIENT_DISCONNECTED, 0, 0, &[])),
        };
        for action in actions {
            match action {
                Action::CreateSource { .. } => sources += 1,
                Action::DestroySource(_) => sources -= 1,
                Action::DestroyOffer(_) => offers -= 1,
                _ => {}
            }
            assert!(sources == 0 || sources == 1);
        }
        if round % 7 == 4 {
            offers += 1;
        }
        assert_eq!(sources == 1, s.current_source.is_some());
        assert_eq!(offers == 1, s.current_offer.is_some());
    }
}

#[test]
fn a_paste_begins_with_a_request() {
    assert_eq!(
        paste_request(),
        msg(VDAGENTD_CLIPBOARD_REQUEST, 0, VD_AGENT_CLIPBOARD_UTF8_TEXT, &[])
    );
}

#[test]
fn a_paste_serves_the_first_data() {
    let other = |kind, arg1| paste_step(PasteEvent::Message(msg(kind, arg1, 1, b"no")));
    assert_eq!(other(VDAGENTD_VERSION, 0), PasteStep::Wait);
    assert_eq!(other(VDAGENTD_CLIPBOARD_DATA, 1), PasteStep::Wait);
    assert_eq!(other(VDAGENTD_CLIPBOARD_DATA, 0), PasteStep::Serve(b"no".to_vec()));
    assert_eq!(
        paste_step(PasteEvent::Message(msg(VDAGENTD_CLIPBOARD_DATA, 0, 0, &[]))),
        PasteStep::GiveUp
    );
    assert_eq!(paste_step(PasteEvent::ReadFailed), PasteStep::GiveUp);
}

#[test]
fn a_paste_passes_over_what_comes_before() {
    let mut incoming = vec![
        msg(VDAGENTD_VERSION, 0, 0, b"1"),
        msg(VDAGENTD_CLIPBOARD_DATA, 1, 1, b"primary"),
        host_grab(),
        msg(VDAGENTD_CLIPBOARD_DATA, 0, 1, b"first"),
        msg(VDAGENTD_CLIPBOARD_DATA, 0, 1, b"second"),
    ]
    .into_iter();
    let step = loop {
        let event = match incoming.next() {
            Some(m) => PasteEvent::Message(m),
            None => PasteEvent::ReadFailed,
        };
        match paste_step(event) {
            PasteStep::Wait => continue,
            step => break step,
        }
    };
    assert_eq!(step, PasteStep::Serve(b"first".to_vec()));
    assert_eq!(incoming.count(), 1);
}

#[test]
fn only_late_messages_are_survived() {
    assert!(survives(ReadFailure::WouldBlock));
    assert!(survives(ReadFailure::TimedOut));
    assert!(!survives(ReadFailure::Other));
}
