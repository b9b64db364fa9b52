//! Host monitor requests, in answer to `VDAGENTD_MONITORS_CONFIG`.
//!
//! Wayland has no call that sets a monitor mode, so the request is handed to
//! the running compositor's own command line tool: `hyprctl` under Hyprland,
//! `swaymsg` under Sway. The resize itself shows up later as an output event.

use vstd::prelude::*;
use crate::text::{push_decimal, push_text, string_of};
use crate::wire::read_u32;
#[allow(unused_imports)]
use crate::text::{
    decimal, first_index, is_digit, law_decimal_read_back, lemma_first_digit, lemma_first_index_is,
    number,
};
#[allow(unused_imports)]
use crate::wire::{law_u32_read_back, le_bytes};

verus! {

/// Size of the monitor count and the flags.
pub const HEADER: usize = 8;

/// Size of one monitor's record.
pub const MON: usize = 20;

/// The size that a monitor request asks of the first monitor.
///
/// A request is the number of monitors and the flags, then for each monitor
/// its height, its width, its depth and its position, all of 32 bits. The
/// height stands before the width.
pub open spec fn first_monitor(data: Seq<u8>) -> Option<(nat, nat)> {
    let height = crate::wire::u32_at(data, 8);
    let width = crate::wire::u32_at(data, 12);
    if data.len() < HEADER + MON || crate::wire::u32_at(data, 0) == 0 || width == 0 || height == 0 {
        None
    } else {
        Some((width, height))
    }
}

/// The width and height that the body of a `VDAGENTD_MONITORS_CONFIG` message
/// asks of the first monitor. `None` for a body too short for one monitor, for
/// a request without monitors, and for a side of length zero.
pub fn parse_first_monitor(data: &[u8]) -> (r: Option<(u32, u32)>)
    ensures
        r is Some <==> first_monitor(data@) is Some,
        r matches Some((width, height)) ==> first_monitor(data@) == Some(
            (width as nat, height as nat),
        ),
{
    if data.len() < HEADER + MON {
        return None;
    }
    let num: u32 = read_u32(data, 0);
    if num == 0 {
        return None;
    }
    let height: u32 = read_u32(data, HEADER);
    let width: u32 = read_u32(data, HEADER + 4);
    if width == 0 || height == 0 {
        return None;
    }
    Some((width, height))
}

/// Only the record of the first monitor counts: whatever follows it, the
/// request asks for the same size.
pub proof fn law_only_first_monitor(data: Seq<u8>, more: Seq<u8>)
    requires
        data.len() >= HEADER + MON,
    ensures
        first_monitor(data + more) == first_monitor(data),
{
    let both = data + more;
    assert(both.subrange(0, 4) =~= data.subrange(0, 4));
    assert(both.subrange(8, 12) =~= data.subrange(8, 12));
    assert(both.subrange(12, 16) =~= data.subrange(12, 16));
}

/// A program to run, with its arguments.
#[derive(Debug, PartialEq, Eq)]
pub struct Invocation {
    pub program: &'static str,
    pub args: Vec<String>,
}

/// An invocation with its texts as sequences.
pub struct InvocationView {
    pub program: Seq<char>,
    pub args: Seq<Seq<char>>,
}

impl View for Invocation {
    type V = InvocationView;

    open spec fn view(&self) -> InvocationView {
        InvocationView {
            program: self.program@,
            args: self.args@.map_values(|a: String| a@),
        }
    }
}

/// `WIDTHxHEIGHT` in decimal.
pub open spec fn size_text(width: u32, height: u32) -> Seq<char> {
    crate::text::decimal(width as nat) + "x"@ + crate::text::decimal(height as nat)
}

/// Hyprland's request: an empty monitor name stands for the current output.
pub open spec fn hyprland_command(width: u32, height: u32) -> InvocationView {
    InvocationView {
        program: "hyprctl"@,
        args: seq!["keyword"@, "monitor"@, ","@ + size_text(width, height) + "@60,0x0,1"@],
    }
}

/// Sway's request: the star stands for every output.
pub open spec fn sway_command(width: u32, height: u32) -> InvocationView {
    InvocationView {
        program: "swaymsg"@,
        args: seq!["output"@, "*"@, "mode"@, size_text(width, height)],
    }
}

fn push_size(out: &mut Vec<char>, width: u32, height: u32)
    ensures
        final(out)@ == old(out)@ + size_text(width, height),
{
    push_decimal(out, width);
    push_text(out, "x");
    push_decimal(out, height);
    assert(out@ =~= old(out)@ + size_text(width, height));
}

/// The command that asks Hyprland for a monitor size.
pub fn apply_hyprland(width: u32, height: u32) -> (c: Invocation)
    ensures
        c@ == hyprland_command(width, height),
{
    let mut arg: Vec<char> = Vec::new();
    push_text(&mut arg, ",");
    push_size(&mut arg, width, height);
    push_text(&mut arg, "@60,0x0,1");
    assert(arg@ =~= ","@ + size_text(width, height) + "@60,0x0,1"@);
    let mut args: Vec<String> = Vec::new();
    args.push("keyword".to_owned());
    args.push("monitor".to_owned());
    args.push(string_of(arg.as_slice()));
    let c = Invocation { program: "hyprctl", args };
    assert(c@.args =~= hyprland_command(width, height).args);
    c
}

/// The command that asks Sway for a monitor size.
pub fn apply_sway(width: u32, height: u32) -> (c: Invocation)
    ensures
        c@ == sway_command(width, height),
{
    let mut mode: Vec<char> = Vec::new();
    push_size(&mut mode, width, height);
    assert(mode@ =~= size_text(width, height));
    let mut args: Vec<String> = Vec::new();
    args.push("output".to_owned());
    args.push("*".to_owned());
    args.push("mode".to_owned());
    args.push(string_of(mode.as_slice()));
    let c = Invocation { program: "swaymsg", args };
    assert(c@.args =~= sway_command(width, height).args);
    c
}

/// The commands worth trying, in order, given which compositors announce
/// themselves in the environment.
pub open spec fn backends(
    width: u32,
    height: u32,
    hyprland: bool,
    sway: bool,
) -> Seq<InvocationView> {
    let h = if hyprland {
        seq![hyprland_command(width, height)]
    } else {
        Seq::empty()
    };
    let s = if sway {
        seq![sway_command(width, height)]
    } else {
        Seq::empty()
    };
    h + s
}

/// What to do next about a monitor request.
#[derive(Debug, PartialEq, Eq)]
pub enum ApplyStep {
    /// Run this command and report whether it exited successfully.
    Run(Invocation),
    /// Nothing is left to do; `true` when a command succeeded.
    Done(bool),
}

/// A step with its command as sequences.
pub enum ApplyStepView {
    Run(InvocationView),
    Done(bool),
}

impl View for ApplyStep {
    type V = ApplyStepView;

    open spec fn view(&self) -> ApplyStepView {
        match self {
            ApplyStep::Run(c) => ApplyStepView::Run(c@),
            ApplyStep::Done(b) => ApplyStepView::Done(*b),
        }
    }
}

/// The next step, given how the commands run so far have ended: the commands
/// are tried in order until one succeeds.
pub open spec fn apply_step(commands: Seq<InvocationView>, outcomes: Seq<bool>) -> ApplyStepView {
    if outcomes.contains(true) {
        ApplyStepView::Done(true)
    } else if outcomes.len() < commands.len() {
        ApplyStepView::Run(commands[outcomes.len() as int])
    } else {
        ApplyStepView::Done(false)
    }
}

/// Decides the next step of a monitor request. `hyprland` and `sway` tell
/// which compositors announce themselves; `outcomes` tells for each command
/// run so far whether it succeeded.
pub fn apply(width: u32, height: u32, hyprland: bool, sway: bool, outcomes: &[bool]) -> (step:
    ApplyStep)
    ensures
        step@ == apply_step(backends(width, height, hyprland, sway), outcomes@),
{
    let mut i: usize = 0;
    while i < outcomes.len()
        invariant
            i <= outcomes@.len(),
            forall|j: int| 0 <= j < i ==> !outcomes@[j],
        decreases outcomes@.len() - i,
    {
        if outcomes[i] {
            assert(outcomes@.contains(true));
            return ApplyStep::Done(true);
        }
        i += 1;
    }
    let tried: usize = outcomes.len();
    if hyprland && tried == 0 {
        ApplyStep::Run(apply_hyprland(width, height))
    } else if sway && tried == (if hyprland {
        1usize
    } else {
        0usize
    }) {
        ApplyStep::Run(apply_sway(width, height))
    } else {
        ApplyStep::Done(false)
    }
}

/// Once every command has been tried the request is over, and it counts as
/// applied exactly when one of them succeeded.
pub proof fn law_apply_ends(commands: Seq<InvocationView>, outcomes: Seq<bool>)
    requires
        outcomes.len() >= commands.len(),
    ensures
        apply_step(commands, outcomes) == ApplyStepView::Done(outcomes.contains(true)),
{
}

/// A command is run only while all earlier ones have failed, and after a
/// success nothing more is run.
pub proof fn law_apply_stops_at_success(commands: Seq<InvocationView>, outcomes: Seq<bool>)
    ensures
        apply_step(commands, outcomes) is Run ==> forall|i: int|
            0 <= i < outcomes.len() ==> !outcomes[i],
        apply_step(commands, outcomes.push(true)) == ApplyStepView::Done(true),
        forall|i: int|
            0 <= i < outcomes.len() && outcomes[i] ==> apply_step(commands, outcomes)
                == ApplyStepView::Done(true),
{
    assert(outcomes.push(true)[outcomes.len() as int]);
    assert forall|i: int|
        apply_step(commands, outcomes) is Run && 0 <= i < outcomes.len() implies !outcomes[i] by {
        if outcomes[i] {
            assert(outcomes.contains(true));
        }
    }
}

/// The request that was written is the request that is read: a monitor count,
/// flags, and for the first monitor its height, its width and whatever follows
/// ask for that width and height, unless a side or the count is zero.
pub proof fn law_request_read_back(
    num: u32,
    flags: u32,
    height: u32,
    width: u32,
    rest: Seq<u8>,
)
    requires
        rest.len() >= 12,
    ensures
        ({
            let data = le_bytes(num as nat, 4) + le_bytes(flags as nat, 4) + le_bytes(
                height as nat,
                4,
            ) + le_bytes(width as nat, 4) + rest;
            if num == 0 || width == 0 || height == 0 {
                first_monitor(data) is None
            } else {
                first_monitor(data) == Some((width as nat, height as nat))
            }
        }),
{
    let data = le_bytes(num as nat, 4) + le_bytes(flags as nat, 4) + le_bytes(height as nat, 4)
        + le_bytes(width as nat, 4) + rest;
    law_u32_read_back(num as nat);
    law_u32_read_back(flags as nat);
    law_u32_read_back(height as nat);
    law_u32_read_back(width as nat);
    assert(data.subrange(0, 4) =~= le_bytes(num as nat, 4));
    assert(data.subrange(8, 12) =~= le_bytes(height as nat, 4));
    assert(data.subrange(12, 16) =~= le_bytes(width as nat, 4));
}

/// A request too short for one monitor asks for nothing.
pub proof fn law_short_request(data: Seq<u8>)
    requires
        data.len() < 28,
    ensures
        first_monitor(data) is None,
{
}

/// A size is written as the two numbers with one `x` between them, so that
/// both can be read from it; different sizes are written differently.
pub proof fn law_size_read_back(width: u32, height: u32)
    ensures
        ({
            let text = size_text(width, height);
            let k = first_index(text, 'x') as int;
            &&& k < text.len()
            &&& number(text.take(k)) == Some(width as u64)
            &&& number(text.skip(k + 1)) == Some(height as u64)
            &&& text[0] != '+' && text[k + 1] != '+'
            &&& text[0] == '0' ==> width == 0
            &&& text[k + 1] == '0' ==> height == 0
        }),
{
    let w = decimal(width as nat);
    let h = decimal(height as nat);
    let text = size_text(width, height);
    reveal_strlit("x");
    law_decimal_read_back(width as nat);
    law_decimal_read_back(height as nat);
    lemma_first_digit(width as nat);
    lemma_first_digit(height as nat);
    let k = w.len() as int;
    assert(is_digit(w[0]) && is_digit(h[0]));
    assert(text[0] == w[0]);
    assert(text[k] == 'x');
    assert forall|i: int| 0 <= i < k implies text[i] != 'x' by {
        assert(text[i] == w[i]);
        assert(is_digit(w[i]));
    }
    lemma_first_index_is(text, 'x', k);
    assert(text.take(k) =~= w);
    assert(text.skip(k + 1) =~= h);
    assert(text[k + 1] == h[0]);
}

/// Both compositors are asked for the same size. Hyprland gets it as the mode
/// of the monitor without a name, at sixty hertz, at the origin and unscaled;
/// Sway gets it as the mode of every output.
pub proof fn law_commands_ask_for_the_size(width: u32, height: u32)
    ensures
        ({
            let h = hyprland_command(width, height);
            let s = sway_command(width, height);
            let size = size_text(width, height);
            &&& h.program == "hyprctl"@
            &&& h.args.len() == 3
            &&& h.args.take(2) == seq!["keyword"@, "monitor"@]
            &&& h.args[2] == seq![','] + size + seq!['@', '6', '0', ',', '0', 'x', '0', ',', '1']
            &&& s.program == "swaymsg"@
            &&& s.args == seq!["output"@, "*"@, "mode"@].push(size)
        }),
{
    reveal_strlit(",");
    reveal_strlit("@60,0x0,1");
    let h = hyprland_command(width, height);
    let s = sway_command(width, height);
    assert(","@ =~= seq![',']);
    assert("@60,0x0,1"@ =~= seq!['@', '6', '0', ',', '0', 'x', '0', ',', '1']);
    assert(h.args.take(2) =~= seq!["keyword"@, "monitor"@]);
    assert(s.args =~= seq!["output"@, "*"@, "mode"@].push(size_text(width, height)));
}

/// Exactly the compositors that announce themselves are asked, each with its
/// own command, Hyprland before Sway.
pub proof fn law_backends(width: u32, height: u32)
    ensures
        backends(width, height, true, true) == seq![
            hyprland_command(width, height),
            sway_command(width, height),
        ],
        backends(width, height, true, false) == seq![hyprland_command(width, height)],
        backends(width, height, false, true) == seq![sway_command(width, height)],
        backends(width, height, false, false).len() == 0,
{
    assert(backends(width, height, true, true) =~= seq![
        hyprland_command(width, height),
        sway_command(width, height),
    ]);
    assert(backends(width, height, true, false) =~= seq![hyprland_command(width, height)]);
    assert(backends(width, height, false, true) =~= seq![sway_command(width, height)]);
}

/// After `n` failures in a row the command that comes next in order is run.
pub proof fn law_apply_in_order(commands: Seq<InvocationView>, outcomes: Seq<bool>)
    requires
        outcomes.len() < commands.len(),
        forall|i: int| 0 <= i < outcomes.len() ==> !outcomes[i],
    ensures
        apply_step(commands, outcomes) == ApplyStepView::Run(commands[outcomes.len() as int]),
{
}

/// The views of a command and of a step leave nothing out and change nothing.
pub proof fn law_apply_views(c: Invocation, b: bool)
    ensures
        c@.program == c.program@,
        c@.args.len() == c.args@.len(),
        forall|i: int| 0 <= i < c.args@.len() ==> #[trigger] c@.args[i] == c.args@[i]@,
        ApplyStep::Run(c)@ == ApplyStepView::Run(c@),
        ApplyStep::Done(b)@ == ApplyStepView::Done(b),
{
}

} // verus!
