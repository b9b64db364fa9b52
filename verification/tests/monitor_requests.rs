use wayland_vdagent::monitors::{apply, apply_hyprland, apply_sway, parse_first_monitor, ApplyStep};

fn request(num: u32, monitors: &[(u32, u32)]) -> Vec<u8> {
    let mut data = Vec::new();
    data.extend_from_slice(&num.to_le_bytes());
    data.extend_from_slice(&1u32.to_le_bytes());
    for (width, height) in monitors {
        data.extend_from_slice(&height.to_le_bytes());
        data.extend_from_slice(&width.to_le_bytes());
        data.extend_from_slice(&32u32.to_le_bytes());
        data.extend_from_slice(&0i32.to_le_bytes());
        data.extend_from_slice(&(-5i32).to_le_bytes());
    }
    data
}

fn ran(step: ApplyStep) -> Vec<String> {
    match step {
        ApplyStep::Run(c) => {
            let mut all = vec![c.program.to_string()];
            all.extend(c.args);
            all
        }
        ApplyStep::Done(b) => panic!("done: {}", b),
    }
}

#[test]
fn height_stands_before_width() {
    assert_eq!(parse_first_monitor(&request(1, &[(1920, 1080)])), Some((1920, 1080)));
}

#[test]
fn only_the_first_monitor_counts() {
    let two = request(2, &[(1920, 1080), (800, 600)]);
    assert_eq!(parse_first_monitor(&two), Some((1920, 1080)));
    assert_eq!(parse_first_monitor(&two[..28]), Some((1920, 1080)));
}

#[test]
fn short_or_empty_requests_are_none() {
    let one = request(1, &[(1920, 1080)]);
    for n in 0..one.len() {
        assert_eq!(parse_first_monitor(&one[..n]), None);
    }
    assert_eq!(parse_first_monitor(&request(0, &[(1920, 1080)])), None);
    assert_eq!(parse_first_monitor(&request(1, &[(0, 1080)])), None);
    assert_eq!(parse_first_monitor(&request(1, &[(1920, 0)])), None);
}

#[test]
fn hyprland_command_line() {
    let c = apply_hyprland(1920, 1080);
    assert_eq!(c.program, "hyprctl");
    assert_eq!(c.args, ["keyword", "monitor", ",1920x1080@60,0x0,1"]);
}

#[test]
fn sway_command_line() {
    let c = apply_sway(4294967295, 7);
    assert_eq!(c.program, "swaymsg");
    assert_eq!(c.args, ["output", "*", "mode", "4294967295x7"]);
}

#[test]
fn hyprland_is_tried_before_sway() {
    assert_eq!(ran(apply(10, 20, true, true, &[]))[0], "hyprctl");
    assert_eq!(ran(apply(10, 20, true, true, &[false]))[0], "swaymsg");
    assert_eq!(apply(10, 20, true, true, &[false, false]), ApplyStep::Done(false));
    assert_eq!(apply(10, 20, true, true, &[false, true]), ApplyStep::Done(true));
}

#[test]
fn nothing_runs_after_a_success() {
    assert_eq!(apply(10, 20, true, true, &[true]), ApplyStep::Done(true));
    assert_eq!(apply(10, 20, false, true, &[true]), ApplyStep::Done(true));
}

#[test]
fn compositors_that_are_not_there_are_skipped() {
    assert_eq!(ran(apply(10, 20, false, true, &[])), ["swaymsg", "output", "*", "mode", "10x20"]);
    assert_eq!(ran(apply(10, 20, true, false, &[]))[0], "hyprctl");
    assert_eq!(apply(10, 20, true, false, &[false]), ApplyStep::Done(false));
    assert_eq!(apply(10, 20, false, false, &[]), ApplyStep::Done(false));
}
