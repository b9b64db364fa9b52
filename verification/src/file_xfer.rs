//! Host to guest file transfers.
//!
//! 1. The host announces a file with `VDAGENTD_FILE_XFER_START`: the transfer
//!    id and a key file with the name and the size.
//! 2. The agent creates the file under the save directory, under another name
//!    if the name is taken, gives it its full size and answers that data may
//!    be sent.
//! 3. The host streams `VDAGENTD_FILE_XFER_DATA` messages, each with the id, a
//!    chunk size and the chunk.
//! 4. When the bytes received reach the announced size, the agent closes the
//!    file and reports success.
//! 5. A status from the host other than that data may be sent, or any local
//!    error, ends the transfer and removes the partial file.
//!
//! Any number of transfers may be under way; they are told apart by their id.
//! Files are opened, written and removed by the caller, who performs each
//! step that is returned and reports its outcome.

use std::collections::HashMap;
use vstd::prelude::*;
use vstd::slice::slice_subrange;
use vstd::utf8::encode_utf8;
use crate::keyfile::parse_start_keyfile;
use crate::path::{file_name_of, joined, uniquified};
use crate::udscs::{
    UdscsMsg, VDAGENTD_FILE_XFER_STATUS, VD_AGENT_FILE_XFER_STATUS_CANCELLED, VD_AGENT_FILE_XFER_STATUS_CAN_SEND_DATA,
    VD_AGENT_FILE_XFER_STATUS_ERROR, VD_AGENT_FILE_XFER_STATUS_NOT_ENOUGH_SPACE,
    VD_AGENT_FILE_XFER_STATUS_SUCCESS,
};
use crate::wire::{push_bytes, read_u32, read_u64};
#[allow(unused_imports)]
use crate::keyfile::{announced, keyfile_text, law_keyfile_read_back};
#[allow(unused_imports)]
use crate::path::{
    alternative, file_name, is_absolute, is_plain, join, law_alternative_beside,
    law_alternative_same_dir, law_file_name_plain, law_file_name_text, law_join_bytes,
    law_join_names, law_numbered_differs, law_numbered_distinct, law_numbered_form,
    law_numbered_plain, lemma_names_single, names, number_suffix,
};
#[allow(unused_imports)]
use crate::text::is_space;
#[allow(unused_imports)]
use crate::udscs::MsgView;
#[allow(unused_imports)]
use crate::wire::{law_u32_read_back, law_u64_read_back, le_bytes, u32_at, u64_at};
#[allow(unused_imports)]
use vstd::utf8::{encode_utf8_valid_utf8, valid_utf8};

verus! {

broadcast use vstd::std_specs::hash::group_hash_axioms;

/// How many names are tried for a new file.
pub const MAX_ATTEMPTS: u32 = 64;

/// A transfer under way.
pub struct XferTask {
    pub path: Vec<u8>,
    pub file_size: u64,
    pub written: u64,
}

/// A transfer with its path as a sequence.
pub struct TaskView {
    pub path: Seq<u8>,
    pub file_size: u64,
    pub written: u64,
}

impl View for XferTask {
    type V = TaskView;

    open spec fn view(&self) -> TaskView {
        TaskView { path: self.path@, file_size: self.file_size, written: self.written }
    }
}

impl TaskView {
    /// Data is still missing, or nothing was announced and nothing has come.
    pub open spec fn wf(self) -> bool {
        self.written < self.file_size || (self.written == 0 && self.file_size == 0)
    }
}

/// All transfers under way, and the directory that new files land in.
pub struct Xfers {
    tasks: HashMap<u32, XferTask>,
    save_dir: Vec<u8>,
}

/// The transfers by id, and the directory as a sequence.
#[verifier::ext_equal]
pub struct XfersView {
    pub tasks: Map<u32, TaskView>,
    pub save_dir: Seq<u8>,
}

impl View for Xfers {
    type V = XfersView;

    closed spec fn view(&self) -> XfersView {
        XfersView {
            tasks: self.tasks@.map_values(|t: XferTask| t@),
            save_dir: self.save_dir@,
        }
    }
}

impl XfersView {
    /// Every transfer under way is unfinished.
    pub open spec fn wf(self) -> bool {
        forall|id: u32| #[trigger] self.tasks.contains_key(id) ==> self.tasks[id].wf()
    }

    pub open spec fn with_task(self, id: u32, task: TaskView) -> XfersView {
        XfersView { tasks: self.tasks.insert(id, task), save_dir: self.save_dir }
    }

    pub open spec fn without_task(self, id: u32) -> XfersView {
        XfersView { tasks: self.tasks.remove(id), save_dir: self.save_dir }
    }
}

/// A status to send to the host for one transfer.
#[derive(Clone, Copy, Debug, PartialEq, Eq)]
pub struct Reply {
    pub id: u32,
    pub status: u32,
}

/// A transfer that the host has announced.
#[derive(Debug, PartialEq, Eq)]
pub struct Announcement {
    pub id: u32,
    pub name: String,
    pub size: u64,
}

/// An announcement with its name as a sequence.
pub struct AnnouncementView {
    pub id: u32,
    pub name: Seq<char>,
    pub size: u64,
}

impl View for Announcement {
    type V = AnnouncementView;

    open spec fn view(&self) -> AnnouncementView {
        AnnouncementView { id: self.id, name: self.name@, size: self.size }
    }
}

/// A file that may become the destination of a transfer: the `attempt`th
/// choice for `base` is `path`.
#[derive(Debug, PartialEq, Eq)]
pub struct Candidate {
    pub id: u32,
    pub size: u64,
    pub base: Vec<u8>,
    pub attempt: u32,
    pub path: Vec<u8>,
}

/// A candidate with its paths as sequences.
pub struct CandidateView {
    pub id: u32,
    pub size: u64,
    pub base: Seq<u8>,
    pub attempt: u32,
    pub path: Seq<u8>,
}

impl View for Candidate {
    type V = CandidateView;

    open spec fn view(&self) -> CandidateView {
        CandidateView {
            id: self.id,
            size: self.size,
            base: self.base@,
            attempt: self.attempt,
            path: self.path@,
        }
    }
}

/// What to do next about an announced transfer.
#[derive(Debug, PartialEq, Eq)]
pub enum StartStep {
    /// Nothing more to do but to send the reply, if there is one.
    Finished(Option<Reply>),
    /// Find out the free space of the save directory and report it.
    QuerySpace(Announcement),
    /// Create the file, which must not exist yet, and report the outcome.
    CreateFile(Candidate),
    /// Give the file its full size and report whether that worked.
    Preallocate(Candidate),
    /// Keep the open file for the data to come, and send the reply.
    Accepted(Reply),
    /// Close and remove the file at this path, and send the reply.
    Abandoned(Vec<u8>, Reply),
}

/// A step with its contents as sequences.
pub enum StartStepView {
    Finished(Option<Reply>),
    QuerySpace(AnnouncementView),
    CreateFile(CandidateView),
    Preallocate(CandidateView),
    Accepted(Reply),
    Abandoned(Seq<u8>, Reply),
}

impl View for StartStep {
    type V = StartStepView;

    open spec fn view(&self) -> StartStepView {
        match self {
            StartStep::Finished(r) => StartStepView::Finished(*r),
            StartStep::QuerySpace(a) => StartStepView::QuerySpace(a@),
            StartStep::CreateFile(c) => StartStepView::CreateFile(c@),
            StartStep::Preallocate(c) => StartStepView::Preallocate(c@),
            StartStep::Accepted(r) => StartStepView::Accepted(*r),
            StartStep::Abandoned(p, r) => StartStepView::Abandoned(p@, *r),
        }
    }
}

/// How the attempt to create a file ended.
#[derive(Debug, PartialEq, Eq)]
pub enum CreateOutcome {
    Created,
    AlreadyExists,
    Failed,
}

/// What to do next about a transfer's data.
#[derive(Debug, PartialEq, Eq)]
pub enum DataStep {
    /// Nothing.
    Nothing,
    /// Append these bytes of the message body to the file of the transfer and
    /// report whether that worked.
    Write { id: u32, start: usize, end: usize },
    /// Close the file, which is complete, and send the reply.
    Complete(Reply),
    /// Close and remove the partial file, if there is one, and send the reply.
    Failed(Option<Vec<u8>>, Reply),
}

/// A step with its path as a sequence.
pub enum DataStepView {
    Nothing,
    Write { id: u32, start: usize, end: usize },
    Complete(Reply),
    Failed(Option<Seq<u8>>, Reply),
}

impl View for DataStep {
    type V = DataStepView;

    open spec fn view(&self) -> DataStepView {
        match self {
            DataStep::Nothing => DataStepView::Nothing,
            DataStep::Write { id, start, end } => DataStepView::Write {
                id: *id,
                start: *start,
                end: *end,
            },
            DataStep::Complete(r) => DataStepView::Complete(*r),
            DataStep::Failed(p, r) => DataStepView::Failed(crate::save_dir::path_view(*p), *r),
        }
    }
}

/// Why the host has ended a transfer.
#[derive(Debug, PartialEq, Eq)]
pub enum Ending {
    CancelledByHost,
    HostError,
    HostTerminated,
}

/// A transfer that the host has ended; its file is to be closed and removed.
#[derive(Debug, PartialEq, Eq)]
pub struct Teardown {
    pub id: u32,
    pub path: Vec<u8>,
    pub ending: Ending,
}

/// A teardown with its path as a sequence.
pub struct TeardownView {
    pub id: u32,
    pub path: Seq<u8>,
    pub ending: Ending,
}

impl View for Teardown {
    type V = TeardownView;

    open spec fn view(&self) -> TeardownView {
        TeardownView { id: self.id, path: self.path@, ending: self.ending }
    }
}

/// An answer of failure.
pub open spec fn error_reply(id: u32) -> Reply {
    Reply { id, status: VD_AGENT_FILE_XFER_STATUS_ERROR }
}

/// The first step for the body of a start message: the transfer id, then the
/// key file. A body without an id and an id already under way are passed over.
pub open spec fn start_step(v: XfersView, body: Seq<u8>) -> StartStepView {
    let id = u32_at(body, 0) as u32;
    if body.len() < 4 || v.tasks.contains_key(id) {
        StartStepView::Finished(None)
    } else {
        match announced(body.skip(4)) {
            None => StartStepView::Finished(Some(error_reply(id))),
            Some((name, size)) => StartStepView::QuerySpace(AnnouncementView { id, name, size }),
        }
    }
}

/// The step once the free space is known, or known not to be found out.
pub open spec fn space_step(v: XfersView, a: AnnouncementView, free: Option<u64>) -> StartStepView {
    if free matches Some(f) && a.size > f {
        StartStepView::Finished(
            Some(Reply { id: a.id, status: VD_AGENT_FILE_XFER_STATUS_NOT_ENOUGH_SPACE }),
        )
    } else {
        match file_name(encode_utf8(a.name)) {
            None => StartStepView::Finished(Some(error_reply(a.id))),
            Some(leaf) => StartStepView::CreateFile(
                candidate(a.id, a.size, join(v.save_dir, leaf), 0),
            ),
        }
    }
}

/// The `attempt`th choice for `base`: `base` itself, then its alternatives.
pub open spec fn choice(base: Seq<u8>, attempt: u32) -> Seq<u8> {
    if attempt == 0 {
        base
    } else {
        alternative(base, attempt)
    }
}

pub open spec fn candidate(id: u32, size: u64, base: Seq<u8>, attempt: u32) -> CandidateView {
    CandidateView { id, size, base, attempt, path: choice(base, attempt) }
}

/// The step once the attempt to create a candidate has ended.
pub open spec fn create_step(c: CandidateView, outcome: CreateOutcome) -> StartStepView {
    match outcome {
        CreateOutcome::Created => StartStepView::Preallocate(c),
        CreateOutcome::AlreadyExists if c.attempt + 1 < MAX_ATTEMPTS => StartStepView::CreateFile(
            candidate(c.id, c.size, c.base, (c.attempt + 1) as u32),
        ),
        _ => StartStepView::Finished(Some(error_reply(c.id))),
    }
}

/// The transfers and the step once the new file has its size, or could not be
/// given it.
pub open spec fn preallocated_step(v: XfersView, c: CandidateView, ok: bool) -> (
    XfersView,
    StartStepView,
) {
    if ok {
        (
            v.with_task(c.id, TaskView { path: c.path, file_size: c.size, written: 0 }),
            StartStepView::Accepted(
                Reply { id: c.id, status: VD_AGENT_FILE_XFER_STATUS_CAN_SEND_DATA },
            ),
        )
    } else {
        (v, StartStepView::Abandoned(c.path, error_reply(c.id)))
    }
}

/// The transfers and the step after a transfer has failed.
pub open spec fn fail_step(v: XfersView, id: u32) -> (XfersView, DataStepView) {
    (
        v.without_task(id),
        DataStepView::Failed(
            if v.tasks.contains_key(id) {
                Some(v.tasks[id].path)
            } else {
                None
            },
            error_reply(id),
        ),
    )
}

/// The transfers and the step for the body of a data message: the transfer
/// id, the chunk size and the chunk. A body that holds less than its chunk
/// fails the transfer; one without a whole header, or for no transfer under
/// way, is passed over.
pub open spec fn data_step(v: XfersView, body: Seq<u8>) -> (XfersView, DataStepView) {
    let id = u32_at(body, 0) as u32;
    let size = u64_at(body, 4);
    if body.len() < 12 {
        (v, DataStepView::Nothing)
    } else if size > body.len() - 12 {
        fail_step(v, id)
    } else if !v.tasks.contains_key(id) {
        (v, DataStepView::Nothing)
    } else {
        (v, DataStepView::Write { id, start: 12, end: (12 + size) as usize })
    }
}

/// The transfers and the step once a chunk of `len` bytes has been written,
/// or could not be.
pub open spec fn chunk_step(v: XfersView, id: u32, len: u64, ok: bool) -> (XfersView, DataStepView) {
    let t = v.tasks[id];
    if !v.tasks.contains_key(id) {
        (v, DataStepView::Nothing)
    } else if !ok || t.written + len > t.file_size {
        fail_step(v, id)
    } else if t.written + len < t.file_size {
        (
            v.with_task(id, TaskView { written: (t.written + len) as u64, ..t }),
            DataStepView::Nothing,
        )
    } else {
        (
            v.without_task(id),
            DataStepView::Complete(Reply { id, status: VD_AGENT_FILE_XFER_STATUS_SUCCESS }),
        )
    }
}

/// What a status of the host says about a transfer.
pub open spec fn ending(status: u32) -> Ending {
    if status == VD_AGENT_FILE_XFER_STATUS_CANCELLED {
        Ending::CancelledByHost
    } else if status == VD_AGENT_FILE_XFER_STATUS_ERROR {
        Ending::HostError
    } else {
        Ending::HostTerminated
    }
}

/// The transfers and what to tear down for the body of a status message: the
/// transfer id and the status. Every status but the one that data may be sent
/// ends the transfer.
pub open spec fn status_step(v: XfersView, body: Seq<u8>) -> (XfersView, Option<TeardownView>) {
    let id = u32_at(body, 0) as u32;
    let status = u32_at(body, 4) as u32;
    if body.len() < 8 || status == VD_AGENT_FILE_XFER_STATUS_CAN_SEND_DATA
        || !v.tasks.contains_key(id) {
        (v, None)
    } else {
        (
            v.without_task(id),
            Some(TeardownView { id, path: v.tasks[id].path, ending: ending(status) }),
        )
    }
}

/// The message that tells the daemon of a status.
pub open spec fn reply_message(r: Reply) -> MsgView {
    MsgView {
        msg_type: VDAGENTD_FILE_XFER_STATUS,
        arg1: r.id,
        arg2: r.status,
        data: Seq::empty(),
    }
}

/// The message that tells the daemon of a status.
pub fn reply_status(r: Reply) -> (m: UdscsMsg)
    ensures
        m@ == reply_message(r),
{
    let data: Vec<u8> = Vec::new();
    assert(data@ =~= Seq::empty());
    UdscsMsg { msg_type: VDAGENTD_FILE_XFER_STATUS, arg1: r.id, arg2: r.status, data }
}

/// The bytes in a number of blocks of one size.
pub open spec fn block_bytes(block_size: nat, blocks: nat) -> nat {
    block_size * blocks
}

/// The free bytes of a file system, from the size of its blocks and the number
/// of blocks available.
pub fn available_space(block_size: u64, available_blocks: u64) -> (free: u64)
    requires
        block_size * available_blocks <= u64::MAX,
    ensures
        free == block_size * available_blocks,
        free == block_bytes(block_size as nat, available_blocks as nat),
{
    block_size * available_blocks
}

/// No transfers yet.
pub open spec fn no_transfers(save_dir: Seq<u8>) -> XfersView {
    XfersView { tasks: Map::empty(), save_dir }
}

impl Xfers {
    /// No transfers yet; new files land in `save_dir`.
    pub fn new(save_dir: Vec<u8>) -> (r: Xfers)
        ensures
            r@ == no_transfers(save_dir@),
            r@ == (XfersView { tasks: Map::empty(), save_dir: save_dir@ }),
    {
        let r = Xfers { tasks: HashMap::new(), save_dir };
        assert(r@.tasks =~= Map::empty());
        r
    }

    /// The directory that new files land in.
    pub fn save_dir(&self) -> (r: &Vec<u8>)
        ensures
            r@ == self@.save_dir,
    {
        &self.save_dir
    }

    /// Takes the body of a `VDAGENTD_FILE_XFER_START` message.
    pub fn start(&self, data: &[u8]) -> (step: StartStep)
        ensures
            step@ == start_step(self@, data@),
    {
        if data.len() < 4 {
            return StartStep::Finished(None);
        }
        let id: u32 = read_u32(data, 0);
        if self.tasks.contains_key(&id) {
            return StartStep::Finished(None);
        }
        let keyfile = slice_subrange(data, 4, data.len());
        assert(keyfile@ =~= data@.skip(4));
        match parse_start_keyfile(keyfile) {
            Some((name, size)) => StartStep::QuerySpace(Announcement { id, name, size }),
            None => StartStep::Finished(Some(Reply { id, status: VD_AGENT_FILE_XFER_STATUS_ERROR })),
        }
    }

    /// Goes on with an announced transfer once the free space of the save
    /// directory is known; `None` when it could not be found out.
    pub fn space_known(&self, a: Announcement, free: Option<u64>) -> (step: StartStep)
        ensures
            step@ == space_step(self@, a@, free),
    {
        if let Some(f) = free {
            if a.size > f {
                return StartStep::Finished(
                    Some(
                        Reply { id: a.id, status: VD_AGENT_FILE_XFER_STATUS_NOT_ENOUGH_SPACE },
                    ),
                );
            }
        }
        match file_name_of(a.name.as_str().as_bytes()) {
            Some(leaf) => {
                let base = joined(self.save_dir.as_slice(), leaf.as_slice());
                let mut path: Vec<u8> = Vec::new();
                push_bytes(&mut path, base.as_slice());
                assert(path@ =~= base@);
                StartStep::CreateFile(Candidate { id: a.id, size: a.size, base, attempt: 0, path })
            },
            None => StartStep::Finished(
                Some(Reply { id: a.id, status: VD_AGENT_FILE_XFER_STATUS_ERROR }),
            ),
        }
    }

    /// Takes up the transfer once its file has its full size, or gives it up
    /// when that failed.
    pub fn preallocated(&mut self, c: Candidate, ok: bool) -> (step: StartStep)
        ensures
            (final(self)@, step@) == preallocated_step(old(self)@, c@, ok),
    {
        if !ok {
            return StartStep::Abandoned(
                c.path,
                Reply { id: c.id, status: VD_AGENT_FILE_XFER_STATUS_ERROR },
            );
        }
        self.tasks.insert(c.id, XferTask { path: c.path, file_size: c.size, written: 0 });
        assert(self@ =~= preallocated_step(old(self)@, c@, ok).0);
        StartStep::Accepted(Reply { id: c.id, status: VD_AGENT_FILE_XFER_STATUS_CAN_SEND_DATA })
    }

    /// Takes the body of a `VDAGENTD_FILE_XFER_DATA` message.
    pub fn data(&mut self, data: &[u8]) -> (step: DataStep)
        ensures
            (final(self)@, step@) == data_step(old(self)@, data@),
    {
        if data.len() < 12 {
            return DataStep::Nothing;
        }
        let id: u32 = read_u32(data, 0);
        let size: u64 = read_u64(data, 4);
        if size > (data.len() - 12) as u64 {
            return self.fail(id);
        }
        if !self.tasks.contains_key(&id) {
            return DataStep::Nothing;
        }
        DataStep::Write { id, start: 12, end: 12 + size as usize }
    }

    /// Goes on with a transfer once a chunk of `len` bytes has been written to
    /// its file, or could not be.
    pub fn chunk_written(&mut self, id: u32, len: u64, ok: bool) -> (step: DataStep)
        ensures
            (final(self)@, step@) == chunk_step(old(self)@, id, len, ok),
    {
        let (file_size, written): (u64, u64) = match self.tasks.get(&id) {
            Some(t) => (t.file_size, t.written),
            None => return DataStep::Nothing,
        };
        let total: u128 = written as u128 + len as u128;
        if !ok || total > file_size as u128 {
            return self.fail(id);
        }
        let task = self.tasks.remove(&id).unwrap();
        if total < file_size as u128 {
            self.tasks.insert(id, XferTask { path: task.path, file_size, written: total as u64 });
            assert(self@ =~= chunk_step(old(self)@, id, len, ok).0);
            return DataStep::Nothing;
        }
        assert(self@ =~= chunk_step(old(self)@, id, len, ok).0);
        DataStep::Complete(Reply { id, status: VD_AGENT_FILE_XFER_STATUS_SUCCESS })
    }

    /// Takes the body of a `VDAGENTD_FILE_XFER_STATUS` message.
    pub fn remote_status(&mut self, data: &[u8]) -> (r: Option<Teardown>)
        ensures
            final(self)@ == status_step(old(self)@, data@).0,
            r is Some <==> status_step(old(self)@, data@).1 is Some,
            r matches Some(t) ==> status_step(old(self)@, data@).1 == Some(t@),
    {
        if data.len() < 8 {
            return None;
        }
        let id: u32 = read_u32(data, 0);
        let status: u32 = read_u32(data, 4);
        if status == VD_AGENT_FILE_XFER_STATUS_CAN_SEND_DATA {
            return None;
        }
        match self.tasks.remove(&id) {
            Some(task) => {
                assert(self@ =~= status_step(old(self)@, data@).0);
                let ending = if status == VD_AGENT_FILE_XFER_STATUS_CANCELLED {
                    Ending::CancelledByHost
                } else if status == VD_AGENT_FILE_XFER_STATUS_ERROR {
                    Ending::HostError
                } else {
                    Ending::HostTerminated
                };
                Some(Teardown { id, path: task.path, ending })
            },
            None => {
                assert(self@ =~= old(self)@);
                None
            },
        }
    }

    fn fail(&mut self, id: u32) -> (step: DataStep)
        ensures
            (final(self)@, step@) == fail_step(old(self)@, id),
    {
        let partial = match self.tasks.remove(&id) {
            Some(task) => Some(task.path),
            None => None,
        };
        assert(self@ =~= fail_step(old(self)@, id).0);
        DataStep::Failed(partial, Reply { id, status: VD_AGENT_FILE_XFER_STATUS_ERROR })
    }
}

/// Goes on with an announced transfer once the attempt to create its file has
/// ended: a name that is taken leads to the next one, up to the last attempt.
pub fn create_unique_file(c: Candidate, outcome: CreateOutcome) -> (step: StartStep)
    ensures
        step@ == create_step(c@, outcome),
{
    match outcome {
        CreateOutcome::Created => StartStep::Preallocate(c),
        CreateOutcome::AlreadyExists => {
            if c.attempt >= MAX_ATTEMPTS - 1 {
                return StartStep::Finished(
                    Some(Reply { id: c.id, status: VD_AGENT_FILE_XFER_STATUS_ERROR }),
                );
            }
            let attempt: u32 = c.attempt + 1;
            let path = uniquified(c.base.as_slice(), attempt);
            StartStep::CreateFile(Candidate { id: c.id, size: c.size, base: c.base, attempt, path })
        },
        CreateOutcome::Failed => StartStep::Finished(
            Some(Reply { id: c.id, status: VD_AGENT_FILE_XFER_STATUS_ERROR }),
        ),
    }
}

/// The transfers after chunks of these lengths have been written one after the
/// other.
pub open spec fn deliver(v: XfersView, id: u32, lens: Seq<u64>) -> XfersView
    decreases lens.len(),
{
    if lens.len() == 0 {
        v
    } else {
        chunk_step(deliver(v, id, lens.drop_last()), id, lens.last(), true).0
    }
}

/// The sum of the lengths.
pub open spec fn total(lens: Seq<u64>) -> nat
    decreases lens.len(),
{
    if lens.len() == 0 {
        0
    } else {
        total(lens.drop_last()) + lens.last() as nat
    }
}

/// No transfer that has all its data is ever among those under way: there is
/// none at the start, and no operation leaves one.
pub proof fn law_transfers_unfinished(
    v: XfersView,
    body: Seq<u8>,
    c: CandidateView,
    id: u32,
    len: u64,
    ok: bool,
)
    requires
        v.wf(),
    ensures
        (XfersView { tasks: Map::empty(), save_dir: v.save_dir }).wf(),
        preallocated_step(v, c, ok).0.wf(),
        data_step(v, body).0.wf(),
        chunk_step(v, id, len, ok).0.wf(),
        status_step(v, body).0.wf(),
{
}

/// While data is missing the transfer stays under way, with as many bytes
/// counted as have been written.
pub proof fn law_partial_delivery(v: XfersView, id: u32, lens: Seq<u64>)
    requires
        v.tasks.contains_key(id),
        lens.len() == 0 || v.tasks[id].written + total(lens) < v.tasks[id].file_size,
    ensures
        lens.len() > 0 ==> deliver(v, id, lens) == v.with_task(
            id,
            TaskView { written: (v.tasks[id].written + total(lens)) as u64, ..v.tasks[id] },
        ),
        lens.len() == 0 ==> deliver(v, id, lens) == v,
    decreases lens.len(),
{
    if lens.len() > 0 {
        law_partial_delivery(v, id, lens.drop_last());
        assert(deliver(v, id, lens) =~= v.with_task(
            id,
            TaskView { written: (v.tasks[id].written + total(lens)) as u64, ..v.tasks[id] },
        ));
    }
}

/// A transfer succeeds exactly when the bytes written add up to the announced
/// size: one byte less and it waits, one byte more and it fails and its file
/// is removed.
pub proof fn law_transfer_outcome(v: XfersView, c: CandidateView, lens: Seq<u64>, last: u64)
    requires
        lens.len() == 0 || total(lens) < c.size,
    ensures
        ({
            let started = preallocated_step(v, c, true).0;
            let (after, step) = chunk_step(deliver(started, c.id, lens), c.id, last, true);
            let sum = total(lens) + last;
            &&& sum < c.size ==> step == DataStepView::Nothing && after == v.with_task(
                c.id,
                TaskView { path: c.path, file_size: c.size, written: sum as u64 },
            )
            &&& sum == c.size ==> step == DataStepView::Complete(
                Reply { id: c.id, status: VD_AGENT_FILE_XFER_STATUS_SUCCESS },
            ) && after == v.without_task(c.id)
            &&& sum > c.size ==> step == DataStepView::Failed(Some(c.path), error_reply(c.id))
                && after == v.without_task(c.id)
        }),
{
    let started = preallocated_step(v, c, true).0;
    law_partial_delivery(started, c.id, lens);
    let d = deliver(started, c.id, lens);
    let (after, step) = chunk_step(d, c.id, last, true);
    assert(d.tasks.contains_key(c.id));
    assert(d.tasks[c.id].written == total(lens));
    assert(d.without_task(c.id) =~= v.without_task(c.id));
    let sum = total(lens) + last;
    if sum < c.size {
        assert(after =~= v.with_task(
            c.id,
            TaskView { path: c.path, file_size: c.size, written: sum as u64 },
        ));
    }
}

/// Transfers do not disturb each other: chunks for two ids lead to the same
/// transfers and the same steps in either order.
pub proof fn law_transfers_independent(
    v: XfersView,
    a: u32,
    b: u32,
    la: u64,
    lb: u64,
    oka: bool,
    okb: bool,
)
    requires
        a != b,
    ensures
        chunk_step(chunk_step(v, a, la, oka).0, b, lb, okb).0 == chunk_step(
            chunk_step(v, b, lb, okb).0,
            a,
            la,
            oka,
        ).0,
        chunk_step(chunk_step(v, a, la, oka).0, b, lb, okb).1 == chunk_step(v, b, lb, okb).1,
        chunk_step(chunk_step(v, b, lb, okb).0, a, la, oka).1 == chunk_step(v, a, la, oka).1,
{
    assert(chunk_step(chunk_step(v, a, la, oka).0, b, lb, okb).0 =~= chunk_step(
        chunk_step(v, b, lb, okb).0,
        a,
        la,
        oka,
    ).0);
}

/// A failed write ends the transfer: it is no longer under way, its file is to
/// be removed, the host is told, and no other transfer is touched.
pub proof fn law_failure_tears_down(v: XfersView, id: u32, len: u64, other: u32)
    requires
        v.tasks.contains_key(id),
        other != id,
    ensures
        ({
            let (after, step) = chunk_step(v, id, len, false);
            &&& !after.tasks.contains_key(id)
            &&& step == DataStepView::Failed(Some(v.tasks[id].path), error_reply(id))
            &&& after.tasks.contains_key(other) == v.tasks.contains_key(other)
            &&& v.tasks.contains_key(other) ==> after.tasks[other] == v.tasks[other]
        }),
{
}

/// Every status of the host but the one that data may be sent ends the
/// transfer it names and has its file removed.
pub proof fn law_host_status_tears_down(v: XfersView, id: u32, status: u32, after: Seq<u8>)
    requires
        v.tasks.contains_key(id),
    ensures
        ({
            let body = le_bytes(id as nat, 4) + le_bytes(status as nat, 4) + after;
            let (w, t) = status_step(v, body);
            if status == VD_AGENT_FILE_XFER_STATUS_CAN_SEND_DATA {
                w == v && t is None
            } else {
                &&& w == v.without_task(id)
                &&& t == Some(
                    TeardownView { id, path: v.tasks[id].path, ending: ending(status) },
                )
            }
        }),
{
    let body = le_bytes(id as nat, 4) + le_bytes(status as nat, 4) + after;
    law_u32_read_back(id as nat);
    law_u32_read_back(status as nat);
    assert(body.subrange(0, 4) =~= le_bytes(id as nat, 4));
    assert(body.subrange(4, 8) =~= le_bytes(status as nat, 4));
}

/// A start message for a new id with a well-formed key file announces the name
/// and the size that were written into it.
pub proof fn law_start_read_back(
    v: XfersView,
    id: u32,
    name: Seq<char>,
    size: u64,
    after: Seq<u8>,
)
    requires
        !v.tasks.contains_key(id),
        !name.contains('\n'),
        !name.contains('\0'),
        name.len() > 0 ==> !is_space(name[0]) && !is_space(name.last()),
        after.len() > 0 ==> after[0] == 0,
    ensures
        start_step(
            v,
            le_bytes(id as nat, 4) + (encode_utf8(keyfile_text(name, size)) + after),
        ) == StartStepView::QuerySpace(AnnouncementView { id, name, size }),
{
    let text = encode_utf8(keyfile_text(name, size)) + after;
    let body = le_bytes(id as nat, 4) + text;
    law_u32_read_back(id as nat);
    assert(body.subrange(0, 4) =~= le_bytes(id as nat, 4));
    assert(body.skip(4) =~= text);
    law_keyfile_read_back(name, size, after);
}

/// A data message for a transfer under way has exactly its chunk written.
pub proof fn law_data_read_back(v: XfersView, id: u32, chunk: Seq<u8>, after: Seq<u8>)
    requires
        v.tasks.contains_key(id),
        12 + chunk.len() <= usize::MAX,
    ensures
        ({
            let body = le_bytes(id as nat, 4) + le_bytes(chunk.len(), 8) + chunk + after;
            let end = (12 + chunk.len()) as usize;
            &&& data_step(v, body) == (v, DataStepView::Write { id, start: 12, end })
            &&& body.subrange(12, end as int) == chunk
        }),
{
    let n = chunk.len();
    let body = le_bytes(id as nat, 4) + le_bytes(n, 8) + chunk + after;
    law_u32_read_back(id as nat);
    law_u64_read_back(n);
    assert(body.subrange(0, 4) =~= le_bytes(id as nat, 4));
    assert(body.subrange(4, 12) =~= le_bytes(n, 8));
    assert(body.subrange(12, (12 + n) as int) =~= chunk);
}

/// The step after `n` names in a row were taken.
pub open spec fn after_taken(c: CandidateView, n: nat) -> StartStepView
    decreases n,
{
    if n == 0 {
        StartStepView::CreateFile(c)
    } else {
        match after_taken(c, (n - 1) as nat) {
            StartStepView::CreateFile(d) => create_step(d, CreateOutcome::AlreadyExists),
            step => step,
        }
    }
}

/// Names are tried in order of their number, and once the last attempt finds
/// its name taken the transfer is refused.
pub proof fn law_names_tried_in_order(id: u32, size: u64, base: Seq<u8>, n: nat)
    ensures
        n < MAX_ATTEMPTS ==> after_taken(candidate(id, size, base, 0), n)
            == StartStepView::CreateFile(candidate(id, size, base, n as u32)),
        n >= MAX_ATTEMPTS ==> after_taken(candidate(id, size, base, 0), n)
            == StartStepView::Finished(Some(error_reply(id))),
    decreases n,
{
    if n > 0 {
        law_names_tried_in_order(id, size, base, (n - 1) as nat);
    }
}

/// Whatever name the host gives, every file tried for it lies directly in the
/// save directory: its path has the components of the directory and one plain
/// name more.
pub proof fn law_files_stay_in_save_dir(
    v: XfersView,
    a: AnnouncementView,
    free: Option<u64>,
    attempt: u32,
)
    ensures
        space_step(v, a, free) matches StartStepView::CreateFile(c) ==> {
            let path = choice(c.base, attempt);
            &&& names(path).len() == names(v.save_dir).len() + 1
            &&& names(path).drop_last() == names(v.save_dir)
            &&& is_plain(names(path).last())
            &&& is_absolute(path) == is_absolute(v.save_dir)
        },
{
    if let StartStepView::CreateFile(c) = space_step(v, a, free) {
        let leaf = file_name(encode_utf8(a.name)).unwrap();
        lemma_base(v.save_dir, encode_utf8(a.name));
        if attempt > 0 {
            law_alternative_beside(c.base, attempt);
            law_numbered_plain(leaf, attempt);
        }
        assert(names(choice(c.base, attempt)).drop_last() =~= names(v.save_dir));
    }
}

proof fn lemma_base(dir: Seq<u8>, name: Seq<u8>)
    requires
        file_name(name) is Some,
    ensures
        ({
            let leaf = file_name(name).unwrap();
            let base = join(dir, leaf);
            &&& is_plain(leaf)
            &&& names(base) == names(dir).push(leaf)
            &&& file_name(base) == Some(leaf)
            &&& is_absolute(base) == is_absolute(dir)
        }),
{
    let leaf = file_name(name).unwrap();
    let base = join(dir, leaf);
    law_file_name_plain(name);
    law_join_names(dir, leaf);
    lemma_names_single(leaf);
    assert(names(base) =~= names(dir).push(leaf));
}

/// No name is tried twice for one transfer.
pub proof fn law_choices_distinct(
    v: XfersView,
    a: AnnouncementView,
    free: Option<u64>,
    m: u32,
    n: u32,
)
    requires
        m != n,
    ensures
        space_step(v, a, free) matches StartStepView::CreateFile(c) ==> choice(c.base, m)
            != choice(c.base, n),
{
    if let StartStepView::CreateFile(c) = space_step(v, a, free) {
        let name = encode_utf8(a.name);
        let leaf = file_name(name).unwrap();
        lemma_base(v.save_dir, name);
        encode_utf8_valid_utf8(a.name);
        law_file_name_text(name);
        law_numbered_distinct(Some(leaf), m, n);
        law_alternative_beside(c.base, m);
        law_alternative_beside(c.base, n);
        law_numbered_differs(leaf, m);
        law_numbered_differs(leaf, n);
        assert(names(choice(c.base, m)).last() != names(choice(c.base, n)).last());
    }
}

/// At the start no id is under way, and files land in the given directory.
pub proof fn law_no_transfers(save_dir: Seq<u8>, id: u32)
    ensures
        !no_transfers(save_dir).tasks.contains_key(id),
        no_transfers(save_dir).save_dir == save_dir,
        no_transfers(save_dir).wf(),
{
}

/// Each block more adds its size to the free space, and no blocks are no
/// space.
pub proof fn law_block_bytes(block_size: nat, blocks: nat)
    ensures
        block_bytes(block_size, 0) == 0,
        block_bytes(block_size, blocks + 1) == block_bytes(block_size, blocks) + block_size,
{
    assert(block_size * (blocks + 1) == block_size * blocks + block_size) by (nonlinear_arith);
}

/// A file that has been created is the file of the transfer, whichever attempt
/// made it: it is given its size, it is kept under its own path with nothing
/// written yet, and it is this path that is removed when it cannot be sized,
/// when a write fails, and when the host ends the transfer.
pub proof fn law_created_file_is_kept(
    v: XfersView,
    c: CandidateView,
    len: u64,
    status: u32,
)
    requires
        status != 0,
    ensures
        create_step(c, CreateOutcome::Created) == StartStepView::Preallocate(c),
        ({
            let (kept, step) = preallocated_step(v, c, true);
            let body = le_bytes(c.id as nat, 4) + le_bytes(status as nat, 4);
            &&& step == StartStepView::Accepted(Reply { id: c.id, status: 0 })
            &&& kept.save_dir == v.save_dir
            &&& kept.tasks == v.tasks.insert(
                c.id,
                TaskView { path: c.path, file_size: c.size, written: 0 },
            )
            &&& chunk_step(kept, c.id, len, false).1 == DataStepView::Failed(
                Some(c.path),
                Reply { id: c.id, status: 2 },
            )
            &&& status_step(kept, body).1 matches Some(t)
            &&& t.id == c.id
            &&& t.path == c.path
            &&& !status_step(kept, body).0.tasks.contains_key(c.id)
        }),
        preallocated_step(v, c, false) == (
            v,
            StartStepView::Abandoned(c.path, Reply { id: c.id, status: 2 }),
        ),
{
    let kept = preallocated_step(v, c, true).0;
    law_host_status_tears_down(kept, c.id, status, Seq::empty());
    let body = le_bytes(c.id as nat, 4) + le_bytes(status as nat, 4);
    assert(body + Seq::<u8>::empty() =~= body);
}

/// A name that is taken leads to the next attempt of the same file for the
/// same transfer; the sixty-fourth attempt is the last, and any other failure
/// ends the search at once. Either end is an error to the host.
pub proof fn law_next_attempt(c: CandidateView)
    ensures
        c.attempt < 63 ==> {
            &&& create_step(c, CreateOutcome::AlreadyExists) matches StartStepView::CreateFile(d)
            &&& d.id == c.id
            &&& d.size == c.size
            &&& d.base == c.base
            &&& d.attempt == c.attempt + 1
            &&& d.path == alternative(c.base, d.attempt)
        },
        c.attempt >= 63 ==> create_step(c, CreateOutcome::AlreadyExists)
            == StartStepView::Finished(Some(Reply { id: c.id, status: 2 })),
        create_step(c, CreateOutcome::Failed) == StartStepView::Finished(
            Some(Reply { id: c.id, status: 2 }),
        ),
{
}

/// The names that are tried for a file `s.e`: first the name itself, then
/// `s (1).e`, `s (2).e` and so on, all in the same directory.
pub proof fn law_names_tried(
    dir: Seq<u8>,
    above: Option<Seq<u8>>,
    last: Seq<u8>,
    s: Seq<u8>,
    e: Seq<u8>,
    attempt: u32,
)
    requires
        is_plain(last),
        match above {
            Some(a) => dir == a.push('/' as u8) + last,
            None => dir == last,
        },
        s.len() > 0,
        !e.contains('.' as u8),
        is_plain(s.push('.' as u8) + e),
        valid_utf8(s),
        valid_utf8(e),
    ensures
        ({
            let base = dir.push('/' as u8) + (s.push('.' as u8) + e);
            &&& choice(base, 0) == base
            &&& attempt > 0 ==> choice(base, attempt) == dir.push('/' as u8) + (s + number_suffix(
                attempt,
            ) + seq!['.' as u8] + e)
        }),
{
    law_alternative_same_dir(dir, above, last, s.push('.' as u8) + e, attempt);
    law_numbered_form(s, e, attempt);
}

/// A file is refused for want of space exactly when the free space is known
/// and smaller than the file. Otherwise the first candidate is the last
/// component of the announced name, in the save directory, for the same
/// transfer and size; a name without such a component is an error.
pub proof fn law_space(v: XfersView, a: AnnouncementView, free: Option<u64>)
    ensures
        (free matches Some(f) && a.size > f) ==> space_step(v, a, free)
            == StartStepView::Finished(Some(Reply { id: a.id, status: 4 })),
        !(free matches Some(f) && a.size > f) ==> match file_name(encode_utf8(a.name)) {
            None => space_step(v, a, free) == StartStepView::Finished(
                Some(Reply { id: a.id, status: 2 }),
            ),
            Some(leaf) => {
                &&& space_step(v, a, free) matches StartStepView::CreateFile(c)
                &&& c.id == a.id
                &&& c.size == a.size
                &&& c.attempt == 0
                &&& c.path == join(v.save_dir, leaf)
                &&& v.save_dir.len() > 0 && v.save_dir.last() != '/' as u8 ==> c.path == v.save_dir
                    + seq!['/' as u8] + leaf
                &&& c.base == c.path
            },
        },
{
    if file_name(encode_utf8(a.name)) is Some {
        let leaf = file_name(encode_utf8(a.name)).unwrap();
        law_file_name_plain(encode_utf8(a.name));
        law_join_bytes(v.save_dir, leaf);
    }
}

/// What a start message leads to: nothing for an id that is under way, an
/// error for a key file that announces nothing, and otherwise the announced
/// file under the id of the message. A body without an id leads to nothing.
pub proof fn law_start(v: XfersView, id: u32, keyfile: Seq<u8>, short: Seq<u8>)
    requires
        short.len() < 4,
    ensures
        ({
            let step = start_step(v, le_bytes(id as nat, 4) + keyfile);
            if v.tasks.contains_key(id) {
                step == StartStepView::Finished(None)
            } else {
                match announced(keyfile) {
                    None => step == StartStepView::Finished(Some(Reply { id, status: 2 })),
                    Some((name, size)) => step == StartStepView::QuerySpace(
                        AnnouncementView { id, name, size },
                    ),
                }
            }
        }),
        start_step(v, short) == StartStepView::Finished(None),
{
    let body = le_bytes(id as nat, 4) + keyfile;
    law_u32_read_back(id as nat);
    assert(body.subrange(0, 4) =~= le_bytes(id as nat, 4));
    assert(body.skip(4) =~= keyfile);
}

/// A data message that holds less than its chunk ends the transfer it names,
/// removes its file if there is one and is answered with an error; other
/// transfers stay as they are.
pub proof fn law_truncated_data(v: XfersView, id: u32, size: u64, chunk: Seq<u8>)
    requires
        chunk.len() < size,
    ensures
        ({
            let body = le_bytes(id as nat, 4) + le_bytes(size as nat, 8) + chunk;
            let (after, step) = data_step(v, body);
            &&& after.tasks == v.tasks.remove(id)
            &&& after.save_dir == v.save_dir
            &&& step matches DataStepView::Failed(partial, reply)
            &&& partial == if v.tasks.contains_key(id) {
                Some(v.tasks[id].path)
            } else {
                None
            }
            &&& reply == (Reply { id, status: 2 })
        }),
{
    let body = le_bytes(id as nat, 4) + le_bytes(size as nat, 8) + chunk;
    law_u32_read_back(id as nat);
    law_u64_read_back(size as nat);
    assert(body.subrange(0, 4) =~= le_bytes(id as nat, 4));
    assert(body.subrange(4, 12) =~= le_bytes(size as nat, 8));
}

/// Bodies too short for their fields change nothing and lead to nothing.
pub proof fn law_short_bodies(v: XfersView, short: Seq<u8>)
    ensures
        short.len() < 12 ==> data_step(v, short) == (v, DataStepView::Nothing),
        short.len() < 8 ==> status_step(v, short) == (v, None::<TeardownView>),
        short.len() < 4 ==> start_step(v, short) == StartStepView::Finished(None),
{
}

/// Messages that name no transfer under way change nothing and lead to
/// nothing.
pub proof fn law_strangers_ignored(
    v: XfersView,
    id: u32,
    chunk: Seq<u8>,
    len: u64,
    ok: bool,
    status: u32,
    more: Seq<u8>,
)
    requires
        !v.tasks.contains_key(id),
        chunk.len() <= u64::MAX,
    ensures
        data_step(v, le_bytes(id as nat, 4) + le_bytes(chunk.len(), 8) + chunk + more) == (
            v,
            DataStepView::Nothing,
        ),
        chunk_step(v, id, len, ok) == (v, DataStepView::Nothing),
        status_step(v, le_bytes(id as nat, 4) + le_bytes(status as nat, 4) + more) == (
            v,
            None::<TeardownView>,
        ),
{
    let d = le_bytes(id as nat, 4) + le_bytes(chunk.len(), 8) + chunk + more;
    let s = le_bytes(id as nat, 4) + le_bytes(status as nat, 4) + more;
    law_u32_read_back(id as nat);
    law_u32_read_back(status as nat);
    law_u64_read_back(chunk.len());
    assert(d.subrange(0, 4) =~= le_bytes(id as nat, 4));
    assert(d.subrange(4, 12) =~= le_bytes(chunk.len(), 8));
    assert(s.subrange(0, 4) =~= le_bytes(id as nat, 4));
    assert(s.subrange(4, 8) =~= le_bytes(status as nat, 4));
}

/// A chunk that has been written counts with its full length: short of the
/// size the transfer waits for the rest, at the size it succeeds, beyond it
/// it fails. This holds at whatever point the transfer stands.
pub proof fn law_chunk_counts(v: XfersView, id: u32, len: u64)
    requires
        v.tasks.contains_key(id),
    ensures
        ({
            let t = v.tasks[id];
            let (after, step) = chunk_step(v, id, len, true);
            &&& after.save_dir == v.save_dir
            &&& t.written + len < t.file_size ==> {
                &&& step == DataStepView::Nothing
                &&& after.tasks == v.tasks.insert(id, after.tasks[id])
                &&& after.tasks[id].path == t.path
                &&& after.tasks[id].file_size == t.file_size
                &&& after.tasks[id].written == t.written + len
            }
            &&& t.written + len == t.file_size ==> {
                &&& step == DataStepView::Complete(Reply { id, status: 3 })
                &&& after.tasks == v.tasks.remove(id)
            }
            &&& t.written + len > t.file_size ==> {
                &&& step == DataStepView::Failed(Some(t.path), Reply { id, status: 2 })
                &&& after.tasks == v.tasks.remove(id)
            }
        }),
{
    let (after, step) = chunk_step(v, id, len, true);
    if v.tasks[id].written + len < v.tasks[id].file_size {
        assert(after.tasks =~= v.tasks.insert(id, after.tasks[id]));
    }
}

/// Why the host ended a transfer: it says so by the status, and a status that
/// is neither a cancellation nor an error stands for any other end.
pub proof fn law_ending(status: u32)
    ensures
        ending(status) is CancelledByHost <==> status == 1,
        ending(status) is HostError <==> status == 2,
        ending(status) is HostTerminated <==> status != 1 && status != 2,
{
}

/// A status reaches the host as it is: the transfer in the first argument, the
/// status in the second, and no body.
pub proof fn law_reply(id: u32, status: u32)
    ensures
        ({
            let m = reply_message(Reply { id, status });
            &&& m.msg_type == 9
            &&& m.arg1 == id
            &&& m.arg2 == status
            &&& m.data.len() == 0
        }),
        error_reply(id) == (Reply { id, status: 2 }),
{
}

/// The views of announcements, candidates and teardowns leave nothing out and
/// change nothing.
pub proof fn law_transfer_views(a: Announcement, c: Candidate, t: Teardown)
    ensures
        a@ == (AnnouncementView { id: a.id, name: a.name@, size: a.size }),
        c@.id == c.id && c@.size == c.size && c@.attempt == c.attempt,
        c@.base == c.base@ && c@.path == c.path@,
        t@ == (TeardownView { id: t.id, path: t.path@, ending: t.ending }),
{
}

/// The views of steps leave nothing out and change nothing.
pub proof fn law_step_views(
    a: Announcement,
    c: Candidate,
    path: Vec<u8>,
    r: Reply,
    answer: Option<Reply>,
    id: u32,
    start: usize,
    end: usize,
)
    ensures
        StartStep::Finished(answer)@ == StartStepView::Finished(answer),
        StartStep::QuerySpace(a)@ == StartStepView::QuerySpace(a@),
        StartStep::CreateFile(c)@ == StartStepView::CreateFile(c@),
        StartStep::Preallocate(c)@ == StartStepView::Preallocate(c@),
        StartStep::Accepted(r)@ == StartStepView::Accepted(r),
        StartStep::Abandoned(path, r)@ == StartStepView::Abandoned(path@, r),
        DataStep::Nothing@ == DataStepView::Nothing,
        (DataStep::Write { id, start, end })@ == (DataStepView::Write { id, start, end }),
        DataStep::Complete(r)@ == DataStepView::Complete(r),
        DataStep::Failed(None, r)@ == DataStepView::Failed(None, r),
        DataStep::Failed(Some(path), r)@ == DataStepView::Failed(Some(path@), r),
{
}

} // verus!
