//! The two data control protocols: `ext_data_control_v1`, the stable one, and
//! `wlr_data_control_v1`, its predecessor.
//!
//! They have the same requests and events, so an object is told apart only by
//! the protocol that it belongs to. The compositor offers one or both as
//! globals; which one is bound is decided once, when all globals are known.

use vstd::prelude::*;
use crate::text::{chars_of, is_text};

verus! {

pub const EXT_MANAGER_INTERFACE: &'static str = "ext_data_control_manager_v1";

pub const WLR_MANAGER_INTERFACE: &'static str = "zwlr_data_control_manager_v1";

pub const SEAT_INTERFACE: &'static str = "wl_seat";

pub const OUTPUT_INTERFACE: &'static str = "wl_output";

/// The manager that is bound.
#[derive(Clone, Copy, Debug, PartialEq, Eq, Structural)]
pub enum Manager {
    Ext,
    Wlr,
}

/// The data control device of the seat.
#[derive(Clone, Copy, Debug, PartialEq, Eq, Structural)]
pub enum Device {
    Ext,
    Wlr,
}

/// A source that the agent puts on the clipboard.
#[derive(Clone, Copy, Debug, PartialEq, Eq, Structural)]
pub enum Source {
    Ext,
    Wlr,
}

/// An offer that the compositor has introduced.
#[derive(Clone, Copy, Debug, PartialEq, Eq, Structural)]
pub enum Offer {
    Ext,
    Wlr,
}

/// The kind of source that a manager creates: one of its own protocol.
pub open spec fn source_of(m: Manager) -> Source {
    match m {
        Manager::Ext => Source::Ext,
        Manager::Wlr => Source::Wlr,
    }
}

/// The kind of device that a manager hands out: one of its own protocol.
pub open spec fn device_of(m: Manager) -> Device {
    match m {
        Manager::Ext => Device::Ext,
        Manager::Wlr => Device::Wlr,
    }
}

/// A device takes sources of its own protocol.
pub open spec fn takes(d: Device, s: Source) -> bool {
    (d is Ext) == (s is Ext)
}

/// A request to make `source` the selection goes out: to clear it always, to
/// set it where the device takes the source.
pub open spec fn selection_sent(d: Device, source: Option<Source>) -> bool {
    match source {
        None => true,
        Some(s) => takes(d, s),
    }
}

impl Manager {
    /// The kind of source that this manager creates.
    pub fn create_data_source(&self) -> (s: Source)
        ensures
            s == source_of(*self),
    {
        match self {
            Manager::Ext => Source::Ext,
            Manager::Wlr => Source::Wlr,
        }
    }

    /// The kind of device that this manager hands out for a seat.
    pub fn get_data_device(&self) -> (d: Device)
        ensures
            d == device_of(*self),
    {
        match self {
            Manager::Ext => Device::Ext,
            Manager::Wlr => Device::Wlr,
        }
    }
}

impl Device {
    /// Whether a request to make `source` the selection goes out: clearing the
    /// selection always does, and so does a source of the device's protocol.
    pub fn set_selection(&self, source: Option<&Source>) -> (sent: bool)
        ensures
            sent == (source matches Some(s) ==> takes(*self, *s)),
            sent == selection_sent(
                *self,
                (match source {
                    Some(s) => Some(*s),
                    None => None,
                }),
            ),
    {
        match (self, source) {
            (Device::Ext, Some(Source::Ext)) => true,
            (Device::Ext, None) => true,
            (Device::Wlr, Some(Source::Wlr)) => true,
            (Device::Wlr, None) => true,
            _ => false,
        }
    }
}

/// A source and a device of the same manager always go together.
pub proof fn law_same_manager_matches(m: Manager)
    ensures
        takes(device_of(m), source_of(m)),
{
}

/// The globals that start-up depends on, by the number under which the
/// compositor announced each.
#[derive(Clone, Copy, Debug, PartialEq, Eq)]
pub struct Globals {
    pub seat: Option<u32>,
    pub ext: Option<u32>,
    pub wlr: Option<u32>,
}

/// What to do about a global right away. Managers are not bound before all
/// globals are known.
#[derive(Clone, Copy, Debug, PartialEq, Eq, Structural)]
pub enum GlobalStep {
    BindSeat(u32),
    BindOutput(u32),
    Nothing,
}

/// The globals and the step once the compositor has announced `interface`
/// under the number `name`.
pub open spec fn global_step(g: Globals, name: u32, interface: Seq<char>) -> (Globals, GlobalStep) {
    if interface == SEAT_INTERFACE@ {
        (Globals { seat: Some(name), ..g }, GlobalStep::BindSeat(name))
    } else if interface == OUTPUT_INTERFACE@ {
        (g, GlobalStep::BindOutput(name))
    } else if interface == EXT_MANAGER_INTERFACE@ {
        (Globals { ext: Some(name), ..g }, GlobalStep::Nothing)
    } else if interface == WLR_MANAGER_INTERFACE@ {
        (Globals { wlr: Some(name), ..g }, GlobalStep::Nothing)
    } else {
        (g, GlobalStep::Nothing)
    }
}

/// The manager to bind, with its number: the stable protocol where it is
/// announced, else the other one.
pub open spec fn chosen(g: Globals) -> Option<(Manager, u32)> {
    match (g.ext, g.wlr) {
        (Some(name), _) => Some((Manager::Ext, name)),
        (None, Some(name)) => Some((Manager::Wlr, name)),
        (None, None) => None,
    }
}

impl Globals {
    /// Nothing announced yet.
    pub fn new() -> (g: Globals)
        ensures
            g == (Globals { seat: None, ext: None, wlr: None }),
    {
        Globals { seat: None, ext: None, wlr: None }
    }

    /// Takes note of a global.
    pub fn announce(&mut self, name: u32, interface: &str) -> (step: GlobalStep)
        ensures
            (*final(self), step) == global_step(*old(self), name, interface@),
    {
        let chars = chars_of(interface);
        if is_text(chars.as_slice(), SEAT_INTERFACE) {
            self.seat = Some(name);
            GlobalStep::BindSeat(name)
        } else if is_text(chars.as_slice(), OUTPUT_INTERFACE) {
            GlobalStep::BindOutput(name)
        } else if is_text(chars.as_slice(), EXT_MANAGER_INTERFACE) {
            self.ext = Some(name);
            GlobalStep::Nothing
        } else if is_text(chars.as_slice(), WLR_MANAGER_INTERFACE) {
            self.wlr = Some(name);
            GlobalStep::Nothing
        } else {
            GlobalStep::Nothing
        }
    }

    /// The manager to bind, with its number.
    pub fn choose_manager(&self) -> (r: Option<(Manager, u32)>)
        ensures
            r == chosen(*self),
    {
        match self.ext {
            Some(name) => Some((Manager::Ext, name)),
            None => match self.wlr {
                Some(name) => Some((Manager::Wlr, name)),
                None => None,
            },
        }
    }
}

/// The globals once all of these have been announced, in this order.
pub open spec fn announced_all(g: Globals, all: Seq<(u32, Seq<char>)>) -> Globals
    decreases all.len(),
{
    if all.len() == 0 {
        g
    } else {
        let (name, interface) = all.last();
        global_step(announced_all(g, all.drop_last()), name, interface).0
    }
}

/// One of these announcements is of `interface`.
pub open spec fn among(all: Seq<(u32, Seq<char>)>, interface: Seq<char>) -> bool {
    exists|i: int| 0 <= i < all.len() && (#[trigger] all[i]).1 == interface
}

/// Whatever else is announced and in whatever order, the stable protocol is
/// chosen exactly where it is among the globals, and some protocol is chosen
/// exactly where one of the two is.
pub proof fn law_stable_protocol_preferred(all: Seq<(u32, Seq<char>)>)
    ensures
        ({
            let g = announced_all(Globals { seat: None, ext: None, wlr: None }, all);
            let ext = among(all, EXT_MANAGER_INTERFACE@);
            let wlr = among(all, WLR_MANAGER_INTERFACE@);
            &&& chosen(g) is Some <==> ext || wlr
            &&& chosen(g) matches Some((m, _)) ==> (m is Ext) == ext
        }),
{
    lemma_announced(all);
}

proof fn lemma_among_last(all: Seq<(u32, Seq<char>)>, interface: Seq<char>)
    requires
        all.len() > 0,
    ensures
        among(all, interface) <==> among(all.drop_last(), interface) || all.last().1 == interface,
{
    let before = all.drop_last();
    if all.last().1 == interface {
        assert(all[all.len() - 1].1 == interface);
    }
    if among(before, interface) {
        let i = choose|i: int| 0 <= i < before.len() && (#[trigger] before[i]).1 == interface;
        assert(all[i].1 == interface);
    }
    if among(all, interface) {
        let i = choose|i: int| 0 <= i < all.len() && (#[trigger] all[i]).1 == interface;
        if i < before.len() {
            assert(before[i].1 == interface);
        }
    }
}

proof fn lemma_announced(all: Seq<(u32, Seq<char>)>)
    ensures
        ({
            let g = announced_all(Globals { seat: None, ext: None, wlr: None }, all);
            &&& g.ext is Some <==> among(all, EXT_MANAGER_INTERFACE@)
            &&& g.wlr is Some <==> among(all, WLR_MANAGER_INTERFACE@)
        }),
    decreases all.len(),
{
    reveal_strlit("wl_seat");
    reveal_strlit("wl_output");
    reveal_strlit("ext_data_control_manager_v1");
    reveal_strlit("zwlr_data_control_manager_v1");
    assert(SEAT_INTERFACE@.len() == 7);
    assert(OUTPUT_INTERFACE@.len() == 9);
    assert(EXT_MANAGER_INTERFACE@.len() == 27);
    assert(WLR_MANAGER_INTERFACE@.len() == 28);
    if all.len() > 0 {
        lemma_announced(all.drop_last());
        lemma_among_last(all, EXT_MANAGER_INTERFACE@);
        lemma_among_last(all, WLR_MANAGER_INTERFACE@);
    }
}

/// What a manager makes belongs to the manager's protocol.
pub proof fn law_protocol_kept(m: Manager)
    ensures
        source_of(m) is Ext <==> m is Ext,
        device_of(m) is Ext <==> m is Ext,
{
}

/// A source is put on a device exactly when one manager made both; taking the
/// selection away always goes through.
pub proof fn law_selection_sent(d: Device, s: Source)
    ensures
        selection_sent(d, Some(s)) <==> exists|m: Manager|
            #[trigger] device_of(m) == d && source_of(m) == s,
        selection_sent(d, None),
{
    assert(device_of(Manager::Ext) == Device::Ext && source_of(Manager::Ext) == Source::Ext);
    assert(device_of(Manager::Wlr) == Device::Wlr && source_of(Manager::Wlr) == Source::Wlr);
}

/// What an announcement does: a seat and an output are bound at once under the
/// announced number, a manager is only remembered, and the latest number of
/// each counts. Any other interface changes nothing.
pub proof fn law_announcement(g: Globals, name: u32, other: Seq<char>)
    requires
        other != "wl_seat"@,
        other != "wl_output"@,
        other != "ext_data_control_manager_v1"@,
        other != "zwlr_data_control_manager_v1"@,
    ensures
        ({
            let (seat, bind_seat) = global_step(g, name, "wl_seat"@);
            let (output, bind_output) = global_step(g, name, "wl_output"@);
            let (ext, with_ext) = global_step(g, name, "ext_data_control_manager_v1"@);
            let (wlr, with_wlr) = global_step(g, name, "zwlr_data_control_manager_v1"@);
            &&& bind_seat == GlobalStep::BindSeat(name)
            &&& seat.seat == Some(name) && seat.ext == g.ext && seat.wlr == g.wlr
            &&& bind_output == GlobalStep::BindOutput(name)
            &&& output == g
            &&& with_ext == GlobalStep::Nothing
            &&& ext.seat == g.seat && ext.wlr == g.wlr
            &&& chosen(ext) == Some((Manager::Ext, name))
            &&& with_wlr == GlobalStep::Nothing
            &&& wlr.seat == g.seat && wlr.ext == g.ext
            &&& g.ext is None ==> chosen(wlr) == Some((Manager::Wlr, name))
            &&& g.ext is Some ==> chosen(wlr) == chosen(g)
            &&& global_step(g, name, other) == (g, GlobalStep::Nothing)
        }),
{
    reveal_strlit("wl_seat");
    reveal_strlit("wl_output");
    reveal_strlit("ext_data_control_manager_v1");
    reveal_strlit("zwlr_data_control_manager_v1");
    assert(SEAT_INTERFACE@.len() == 7);
    assert(OUTPUT_INTERFACE@.len() == 9);
    assert(EXT_MANAGER_INTERFACE@.len() == 27);
    assert(WLR_MANAGER_INTERFACE@.len() == 28);
}

} // verus!
