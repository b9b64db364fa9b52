use wayland_vdagent::file_xfer::{
    available_space, create_unique_file, reply_status, Announcement, Candidate, CreateOutcome,
    DataStep, Ending, Reply, StartStep, Teardown, Xfers, MAX_ATTEMPTS,
};
use wayland_vdagent::udscs::{
    UdscsMsg, VDAGENTD_FILE_XFER_STATUS, VD_AGENT_FILE_XFER_STATUS_CANCELLED,
    VD_AGENT_FILE_XFER_STATUS_CAN_SEND_DATA, VD_AGENT_FILE_XFER_STATUS_ERROR,
    VD_AGENT_FILE_XFER_STATUS_NOT_ENOUGH_SPACE, VD_AGENT_FILE_XFER_STATUS_SUCCESS,
};

fn start_body(id: u32, name: &str, size: u64) -> Vec<u8> {
    let mut body = id.to_le_bytes().to_vec();
    body.extend_from_slice(
        format!("[vdagent-file-xfer]\nname={}\nsize={}\n\0", name, size).as_bytes(),
    );
    body
}

fn data_body(id: u32, chunk: &[u8]) -> Vec<u8> {
    let mut body = id.to_le_bytes().to_vec();
    body.extend_from_slice(&(chunk.len() as u64).to_le_bytes());
    body.extend_from_slice(chunk);
    body
}

fn status_body(id: u32, status: u32) -> Vec<u8> {
    let mut body = id.to_le_bytes().to_vec();
    body.extend_from_slice(&status.to_le_bytes());
    body
}

fn xfers() -> Xfers {
    Xfers::new(b"/save".to_vec())
}

fn error(id: u32) -> Reply {
    Reply { id, status: VD_AGENT_FILE_XFER_STATUS_ERROR }
}

fn announced(x: &Xfers, id: u32, name: &str, size: u64) -> Announcement {
    match x.start(&start_body(id, name, size)) {
        StartStep::QuerySpace(a) => a,
        other => panic!("{:?}", other),
    }
}

fn first_candidate(x: &Xfers, id: u32, name: &str, size: u64) -> Candidate {
    match x.space_known(announced(x, id, name, size), None) {
        StartStep::CreateFile(c) => c,
        other => panic!("{:?}", other),
    }
}

fn accept(x: &mut Xfers, id: u32, name: &str, size: u64) {
    let c = first_candidate(x, id, name, size);
    let c = match create_unique_file(c, CreateOutcome::Created) {
        StartStep::Preallocate(c) => c,
        other => panic!("{:?}", other),
    };
    assert_eq!(
        x.preallocated(c, true),
        StartStep::Accepted(Reply { id, status: VD_AGENT_FILE_XFER_STATUS_CAN_SEND_DATA })
    );
}

fn deliver(x: &mut Xfers, id: u32, chunk: &[u8]) -> DataStep {
    let body = data_body(id, chunk);
    match x.data(&body) {
        DataStep::Write { id: to, start, end } => {
            assert_eq!(to, id);
            assert_eq!(&body[start..end], chunk);
            x.chunk_written(id, (end - start) as u64, true)
        }
        other => panic!("{:?}", other),
    }
}

#[test]
fn a_transfer_from_start_to_end() {
    let mut x = xfers();
    assert_eq!(x.save_dir(), b"/save");
    let a = announced(&x, 5, "notes.txt", 10);
    assert_eq!(a, Announcement { id: 5, name: "notes.txt".to_string(), size: 10 });
    accept(&mut x, 5, "notes.txt", 10);
    assert_eq!(deliver(&mut x, 5, b"01234"), DataStep::Nothing);
    assert_eq!(deliver(&mut x, 5, b""), DataStep::Nothing);
    assert_eq!(
        deliver(&mut x, 5, b"56789"),
        DataStep::Complete(Reply { id: 5, status: VD_AGENT_FILE_XFER_STATUS_SUCCESS })
    );
    assert_eq!(x.data(&data_body(5, b"x")), DataStep::Nothing);
}

#[test]
fn an_empty_file_is_complete_with_its_first_chunk() {
    let mut x = xfers();
    accept(&mut x, 1, "empty", 0);
    assert_eq!(
        deliver(&mut x, 1, b""),
        DataStep::Complete(Reply { id: 1, status: VD_AGENT_FILE_XFER_STATUS_SUCCESS })
    );
}

#[test]
fn too_much_data_fails_the_transfer() {
    let mut x = xfers();
    accept(&mut x, 1, "a", 3);
    assert_eq!(deliver(&mut x, 1, b"ab"), DataStep::Nothing);
    assert_eq!(deliver(&mut x, 1, b"cd"), DataStep::Failed(Some(b"/save/a".to_vec()), error(1)));
    assert_eq!(x.data(&data_body(1, b"")), DataStep::Nothing);
}

#[test]
fn counts_do_not_wrap_around() {
    let mut x = xfers();
    accept(&mut x, 1, "a", u64::MAX);
    assert_eq!(x.chunk_written(1, u64::MAX - 1, true), DataStep::Nothing);
    assert_eq!(
        x.chunk_written(1, 2, true),
        DataStep::Failed(Some(b"/save/a".to_vec()), error(1))
    );
}

#[test]
fn a_failed_write_fails_only_its_transfer() {
    let mut x = xfers();
    accept(&mut x, 1, "a", 3);
    accept(&mut x, 2, "b", 3);
    assert_eq!(
        x.chunk_written(1, 1, false),
        DataStep::Failed(Some(b"/save/a".to_vec()), error(1))
    );
    assert_eq!(
        deliver(&mut x, 2, b"xyz"),
        DataStep::Complete(Reply { id: 2, status: VD_AGENT_FILE_XFER_STATUS_SUCCESS })
    );
    assert_eq!(x.chunk_written(1, 1, true), DataStep::Nothing);
}

#[test]
fn transfers_in_either_order() {
    let run = |order: [u32; 4]| {
        let mut x = xfers();
        accept(&mut x, 1, "a", 2);
        accept(&mut x, 2, "b", 3);
        let mut steps: Vec<(u32, DataStep)> =
            order.iter().map(|&id| (id, deliver(&mut x, id, b"z"))).collect();
        steps.sort_by_key(|s| s.0);
        steps
    };
    assert_eq!(run([1, 1, 2, 2]), run([2, 1, 2, 1]));
}

#[test]
fn truncated_data_fails_the_transfer() {
    let mut x = xfers();
    accept(&mut x, 7, "a", 100);
    let mut body = data_body(7, b"0123456789");
    body.pop();
    assert_eq!(x.data(&body), DataStep::Failed(Some(b"/save/a".to_vec()), error(7)));
    assert_eq!(x.data(&body), DataStep::Failed(None, error(7)));
    let mut huge = 7u32.to_le_bytes().to_vec();
    huge.extend_from_slice(&u64::MAX.to_le_bytes());
    assert_eq!(x.data(&huge), DataStep::Failed(None, error(7)));
}

#[test]
fn data_without_a_header_or_a_transfer_is_passed_over() {
    let mut x = xfers();
    assert_eq!(x.data(&[1, 0, 0, 0, 0, 0, 0, 0, 0, 0, 0]), DataStep::Nothing);
    assert_eq!(x.data(&data_body(9, b"abc")), DataStep::Nothing);
}

#[test]
fn bytes_behind_the_chunk_do_not_count() {
    let mut x = xfers();
    accept(&mut x, 3, "a", 4);
    let mut body = data_body(3, b"ab");
    body.extend_from_slice(b"tail");
    assert_eq!(x.data(&body), DataStep::Write { id: 3, start: 12, end: 14 });
}

#[test]
fn start_messages_that_lead_nowhere() {
    let mut x = xfers();
    assert_eq!(x.start(&[1, 2, 3]), StartStep::Finished(None));
    assert_eq!(x.start(&[4, 0, 0, 0, b'x']), StartStep::Finished(Some(error(4))));
    assert_eq!(x.start(&[4, 0, 0, 0]), StartStep::Finished(Some(error(4))));
    accept(&mut x, 4, "a", 1);
    assert_eq!(x.start(&start_body(4, "b", 2)), StartStep::Finished(None));
    assert_eq!(
        deliver(&mut x, 4, b"1"),
        DataStep::Complete(Reply { id: 4, status: VD_AGENT_FILE_XFER_STATUS_SUCCESS })
    );
}

#[test]
fn space_is_checked_where_it_is_known() {
    let x = xfers();
    assert_eq!(
        x.space_known(announced(&x, 1, "a", 101), Some(100)),
        StartStep::Finished(Some(Reply {
            id: 1,
            status: VD_AGENT_FILE_XFER_STATUS_NOT_ENOUGH_SPACE
        }))
    );
    for free in [Some(101), Some(u64::MAX), None] {
        match x.space_known(announced(&x, 1, "a", 101), free) {
            StartStep::CreateFile(c) => assert_eq!(c.path, b"/save/a"),
            other => panic!("{:?}", other),
        }
    }
    assert_eq!(available_space(4096, 3), 12288);
}

#[test]
fn only_the_last_component_of_a_name_counts() {
    let x = xfers();
    for (name, path) in [
        ("../../etc/passwd", "/save/passwd"),
        ("/etc/shadow", "/save/shadow"),
        ("a/b/c.txt", "/save/c.txt"),
        ("dir/", "/save/dir"),
        ("日本/ü.txt", "/save/ü.txt"),
    ] {
        assert_eq!(first_candidate(&x, 1, name, 1).path, path.as_bytes());
    }
    for name in ["..", "/", "a/..", "."] {
        assert_eq!(
            x.space_known(announced(&x, 1, name, 1), None),
            StartStep::Finished(Some(error(1)))
        );
    }
}

#[test]
fn taken_names_lead_to_numbered_ones() {
    let x = xfers();
    let mut c = first_candidate(&x, 8, "a.txt", 1);
    let mut paths = vec![c.path.clone()];
    for n in 1..MAX_ATTEMPTS {
        c = match create_unique_file(c, CreateOutcome::AlreadyExists) {
            StartStep::CreateFile(c) => c,
            other => panic!("{:?}", other),
        };
        assert_eq!(c.attempt, n);
        assert_eq!(c.path, format!("/save/a ({}).txt", n).into_bytes());
        assert!(!paths.contains(&c.path));
        paths.push(c.path.clone());
    }
    assert_eq!(paths.len(), 64);
    assert_eq!(
        create_unique_file(c, CreateOutcome::AlreadyExists),
        StartStep::Finished(Some(error(8)))
    );
}

#[test]
fn a_file_that_cannot_be_created_is_an_error() {
    let x = xfers();
    let c = first_candidate(&x, 8, "a.txt", 1);
    assert_eq!(
        create_unique_file(c, CreateOutcome::Failed),
        StartStep::Finished(Some(error(8)))
    );
}

#[test]
fn a_file_that_cannot_be_sized_is_removed() {
    let mut x = xfers();
    let c = first_candidate(&x, 8, "a.txt", 1);
    assert_eq!(
        x.preallocated(c, false),
        StartStep::Abandoned(b"/save/a.txt".to_vec(), error(8))
    );
    assert_eq!(x.data(&data_body(8, b"1")), DataStep::Nothing);
}

#[test]
fn statuses_of_the_host_end_a_transfer() {
    for (status, ending) in [
        (VD_AGENT_FILE_XFER_STATUS_CANCELLED, Ending::CancelledByHost),
        (VD_AGENT_FILE_XFER_STATUS_ERROR, Ending::HostError),
        (VD_AGENT_FILE_XFER_STATUS_SUCCESS, Ending::HostTerminated),
        (77, Ending::HostTerminated),
    ] {
        let mut x = xfers();
        accept(&mut x, 2, "b", 9);
        assert_eq!(
            x.remote_status(&status_body(2, status)),
            Some(Teardown { id: 2, path: b"/save/b".to_vec(), ending })
        );
        assert_eq!(x.remote_status(&status_body(2, status)), None);
        assert_eq!(x.data(&data_body(2, b"1")), DataStep::Nothing);
    }
}

#[test]
fn leave_to_send_ends_nothing() {
    let mut x = xfers();
    accept(&mut x, 2, "b", 1);
    let go = VD_AGENT_FILE_XFER_STATUS_CAN_SEND_DATA;
    assert_eq!(x.remote_status(&status_body(2, go)), None);
    assert_eq!(x.remote_status(&status_body(2, 1)[..7]), None);
    assert_eq!(x.remote_status(&status_body(3, 1)), None);
    assert_eq!(
        deliver(&mut x, 2, b"1"),
        DataStep::Complete(Reply { id: 2, status: VD_AGENT_FILE_XFER_STATUS_SUCCESS })
    );
}

#[test]
fn replies_as_messages() {
    assert_eq!(
        reply_status(Reply { id: 6, status: VD_AGENT_FILE_XFER_STATUS_SUCCESS }),
        UdscsMsg { msg_type: VDAGENTD_FILE_XFER_STATUS, arg1: 6, arg2: 3, data: vec![] }
    );
}
