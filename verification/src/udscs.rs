//! The daemon protocol: message kinds and framing.
//!
//! A message on the socket is a header of four little-endian 32-bit numbers
//! (kind, first argument, second argument, body size) followed by the body.

use vstd::prelude::*;
use crate::wire::{push_bytes, push_u32, read_u32};
#[allow(unused_imports)]
use crate::wire::{
    law_bytes_written_back, law_u32_read_back, law_u32_weights, le_bytes, u32_at,
};

verus! {

/// Size of the header that precedes every body.
pub const HDR_SIZE: usize = 16;

pub const VDAGENTD_GUEST_XORG_RESOLUTION: u32 = 0;

pub const VDAGENTD_MONITORS_CONFIG: u32 = 1;

pub const VDAGENTD_CLIPBOARD_GRAB: u32 = 2;

pub const VDAGENTD_CLIPBOARD_REQUEST: u32 = 3;

pub const VDAGENTD_CLIPBOARD_DATA: u32 = 4;

pub const VDAGENTD_CLIPBOARD_RELEASE: u32 = 5;

pub const VDAGENTD_VERSION: u32 = 6;

pub const VDAGENTD_AUDIO_VOLUME_SYNC: u32 = 7;

pub const VDAGENTD_FILE_XFER_START: u32 = 8;

pub const VDAGENTD_FILE_XFER_STATUS: u32 = 9;

pub const VDAGENTD_FILE_XFER_DATA: u32 = 10;

pub const VDAGENTD_CLIENT_DISCONNECTED: u32 = 12;

pub const VDAGENTD_GRAPHICS_DEVICE_INFO: u32 = 13;

pub const VD_AGENT_CLIPBOARD_NONE: u32 = 0;

pub const VD_AGENT_CLIPBOARD_UTF8_TEXT: u32 = 1;

pub const VD_AGENT_FILE_XFER_STATUS_CAN_SEND_DATA: u32 = 0;

pub const VD_AGENT_FILE_XFER_STATUS_CANCELLED: u32 = 1;

pub const VD_AGENT_FILE_XFER_STATUS_ERROR: u32 = 2;

pub const VD_AGENT_FILE_XFER_STATUS_SUCCESS: u32 = 3;

pub const VD_AGENT_FILE_XFER_STATUS_NOT_ENOUGH_SPACE: u32 = 4;

/// One message of the daemon protocol.
#[derive(Debug, PartialEq, Eq)]
pub struct UdscsMsg {
    pub msg_type: u32,
    pub arg1: u32,
    pub arg2: u32,
    pub data: Vec<u8>,
}

/// A message with its body as a sequence.
pub struct MsgView {
    pub msg_type: u32,
    pub arg1: u32,
    pub arg2: u32,
    pub data: Seq<u8>,
}

impl View for UdscsMsg {
    type V = MsgView;

    open spec fn view(&self) -> MsgView {
        MsgView { msg_type: self.msg_type, arg1: self.arg1, arg2: self.arg2, data: self.data@ }
    }
}

/// The bytes of a message on the socket. The size field has 32 bits and
/// carries the body size modulo their range.
pub open spec fn frame(m: MsgView) -> Seq<u8> {
    le_bytes(m.msg_type as nat, 4) + le_bytes(m.arg1 as nat, 4) + le_bytes(m.arg2 as nat, 4)
        + le_bytes(m.data.len() % 0x1_0000_0000, 4) + m.data
}

/// The first message of a byte stream and what follows it; `None` while the
/// stream holds less than a whole message.
pub open spec fn unframe(stream: Seq<u8>) -> Option<(MsgView, Seq<u8>)> {
    if stream.len() < HDR_SIZE || stream.len() < HDR_SIZE + u32_at(stream, 12) {
        None
    } else {
        let end = HDR_SIZE + u32_at(stream, 12);
        Some(
            (
                MsgView {
                    msg_type: u32_at(stream, 0) as u32,
                    arg1: u32_at(stream, 4) as u32,
                    arg2: u32_at(stream, 8) as u32,
                    data: stream.subrange(HDR_SIZE as int, end as int),
                },
                stream.skip(end as int),
            ),
        )
    }
}

/// The messages of a stream, from its start up to the first incomplete one.
pub open spec fn unframe_all(stream: Seq<u8>) -> Seq<MsgView>
    decreases stream.len(),
{
    match unframe(stream) {
        None => Seq::empty(),
        Some((m, rest)) => seq![m] + unframe_all(rest),
    }
}

/// The bytes of several messages, one after the other.
pub open spec fn frame_all(msgs: Seq<MsgView>) -> Seq<u8>
    decreases msgs.len(),
{
    if msgs.len() == 0 {
        Seq::empty()
    } else {
        frame(msgs[0]) + frame_all(msgs.drop_first())
    }
}

/// What is written can be read back: a framed message at the head of a
/// stream is the message that the reader finds there, and the reader
/// consumes exactly its bytes.
pub proof fn law_frame_read_back(m: MsgView, rest: Seq<u8>)
    requires
        m.data.len() < 0x1_0000_0000,
    ensures
        unframe(frame(m) + rest) == Some((m, rest)),
        frame(m).len() == HDR_SIZE + m.data.len(),
{
    let s = frame(m) + rest;
    let t = m.msg_type as nat;
    let a = m.arg1 as nat;
    let b = m.arg2 as nat;
    let n = m.data.len();
    law_u32_read_back(t);
    law_u32_read_back(a);
    law_u32_read_back(b);
    law_u32_read_back(n);
    assert(s.subrange(0, 4) =~= le_bytes(t, 4));
    assert(s.subrange(4, 8) =~= le_bytes(a, 4));
    assert(s.subrange(8, 12) =~= le_bytes(b, 4));
    assert(s.subrange(12, 16) =~= le_bytes(n, 4));
    assert(s.subrange(16, (16 + n) as int) =~= m.data);
    assert(s.skip((16 + n) as int) =~= rest);
}

/// A stream of framed messages is read back as the same messages in the same
/// order, and an incomplete tail adds none.
pub proof fn law_stream_read_back(msgs: Seq<MsgView>, tail: Seq<u8>)
    requires
        forall|i: int| 0 <= i < msgs.len() ==> (#[trigger] msgs[i]).data.len() < 0x1_0000_0000,
        unframe(tail) is None,
    ensures
        unframe_all(frame_all(msgs) + tail) == msgs,
    decreases msgs.len(),
{
    let s = frame_all(msgs) + tail;
    if msgs.len() == 0 {
        assert(s =~= tail);
        assert(unframe_all(s) =~= msgs);
    } else {
        let rest = frame_all(msgs.drop_first()) + tail;
        assert(s =~= frame(msgs[0]) + rest);
        law_frame_read_back(msgs[0], rest);
        law_stream_read_back(msgs.drop_first(), tail);
        assert(unframe_all(s) =~= msgs);
    }
}

/// The bytes to write to the daemon for one message.
pub fn encode_msg(msg_type: u32, arg1: u32, arg2: u32, data: &[u8]) -> (bytes: Vec<u8>)
    ensures
        bytes@ == frame((MsgView { msg_type, arg1, arg2, data: data@ })),
{
    let mut buf: Vec<u8> = Vec::new();
    push_u32(&mut buf, msg_type);
    push_u32(&mut buf, arg1);
    push_u32(&mut buf, arg2);
    push_u32(&mut buf, (data.len() as u64 % 0x1_0000_0000) as u32);
    push_bytes(&mut buf, data);
    assert(buf@ =~= frame((MsgView { msg_type, arg1, arg2, data: data@ })));
    buf
}

/// How many bytes of body a header tells of.
pub open spec fn body_len(header: Seq<u8>) -> nat {
    u32_at(header, 12)
}

/// How many bytes of body follow a header.
pub fn body_size(header: &[u8]) -> (size: usize)
    requires
        header@.len() >= HDR_SIZE,
    ensures
        size == u32_at(header@, 12),
        size == body_len(header@),
{
    read_u32(header, 12) as usize
}

/// The first message of `stream` with the number of bytes it takes up, or
/// `None` while the stream holds less than a whole message.
pub fn decode_msg(stream: &[u8]) -> (r: Option<(UdscsMsg, usize)>)
    ensures
        r is Some <==> unframe(stream@) is Some,
        r matches Some((m, n)) ==> n <= stream@.len() && unframe(stream@) == Some(
            (m@, stream@.skip(n as int)),
        ),
{
    if stream.len() < HDR_SIZE {
        return None;
    }
    let size: usize = body_size(stream);
    if stream.len() - HDR_SIZE < size {
        return None;
    }
    let msg_type: u32 = read_u32(stream, 0);
    let arg1: u32 = read_u32(stream, 4);
    let arg2: u32 = read_u32(stream, 8);
    let mut data: Vec<u8> = Vec::new();
    let body = vstd::slice::slice_subrange(stream, HDR_SIZE, HDR_SIZE + size);
    push_bytes(&mut data, body);
    assert(data@ =~= body@);
    Some((UdscsMsg { msg_type, arg1, arg2, data }, HDR_SIZE + size))
}

/// Where the parts of a message stand: kind, arguments and body size in four
/// 32-bit fields, the body right behind them, and nothing after it.
pub proof fn law_frame_layout(m: MsgView)
    ensures
        frame(m).len() == 16 + m.data.len(),
        u32_at(frame(m), 0) == m.msg_type,
        u32_at(frame(m), 4) == m.arg1,
        u32_at(frame(m), 8) == m.arg2,
        u32_at(frame(m), 12) == m.data.len() % 0x1_0000_0000,
        frame(m).skip(16) == m.data,
{
    let s = frame(m);
    let n = m.data.len() % 0x1_0000_0000;
    law_u32_read_back(m.msg_type as nat);
    law_u32_read_back(m.arg1 as nat);
    law_u32_read_back(m.arg2 as nat);
    law_u32_read_back(n);
    assert(s.subrange(0, 4) =~= le_bytes(m.msg_type as nat, 4));
    assert(s.subrange(4, 8) =~= le_bytes(m.arg1 as nat, 4));
    assert(s.subrange(8, 12) =~= le_bytes(m.arg2 as nat, 4));
    assert(s.subrange(12, 16) =~= le_bytes(n, 4));
    assert(s.skip(16) =~= m.data);
}

/// A stream gives a message exactly when it begins with the bytes of that
/// message, and what is left over is what follows them.
pub proof fn law_message_read_is_message_written(stream: Seq<u8>, m: MsgView, rest: Seq<u8>)
    ensures
        unframe(stream) == Some((m, rest)) <==> m.data.len() <= u32::MAX && stream == frame(m)
            + rest,
{
    if m.data.len() <= u32::MAX && stream == frame(m) + rest {
        law_frame_read_back(m, rest);
    }
    if unframe(stream) == Some((m, rest)) {
        law_u32_weights(stream, 0);
        law_u32_weights(stream, 4);
        law_u32_weights(stream, 8);
        law_u32_weights(stream, 12);
        law_bytes_written_back(stream.subrange(0, 4));
        law_bytes_written_back(stream.subrange(4, 8));
        law_bytes_written_back(stream.subrange(8, 12));
        law_bytes_written_back(stream.subrange(12, 16));
        assert(stream =~= stream.subrange(0, 4) + stream.subrange(4, 8) + stream.subrange(8, 12)
            + stream.subrange(12, 16) + m.data + rest);
        assert(stream =~= frame(m) + rest);
    }
}

/// A message is read as soon as its last byte is there, and not before.
pub proof fn law_message_read_when_whole(stream: Seq<u8>)
    ensures
        unframe(stream) is Some <==> stream.len() >= 16 && stream.len() >= 16 + u32_at(stream, 12),
{
}

/// The header alone, and whatever follows it, tells how long the body is.
pub proof fn law_header_tells_body(m: MsgView, rest: Seq<u8>)
    requires
        m.data.len() <= u32::MAX,
    ensures
        body_len(frame(m).take(16)) == m.data.len(),
        body_len(frame(m) + rest) == m.data.len(),
{
    law_frame_layout(m);
    let s = frame(m);
    assert(s.take(16).subrange(12, 16) =~= s.subrange(12, 16));
    assert((s + rest).subrange(12, 16) =~= s.subrange(12, 16));
}

/// The numbers of the protocol: the kinds of messages count on from zero in
/// one order, the contents of a clipboard and the statuses of a transfer in
/// others.
pub proof fn law_protocol_numbers()
    ensures
        VDAGENTD_GUEST_XORG_RESOLUTION == 0,
        VDAGENTD_MONITORS_CONFIG == VDAGENTD_GUEST_XORG_RESOLUTION + 1,
        VDAGENTD_CLIPBOARD_GRAB == VDAGENTD_MONITORS_CONFIG + 1,
        VDAGENTD_CLIPBOARD_REQUEST == VDAGENTD_CLIPBOARD_GRAB + 1,
        VDAGENTD_CLIPBOARD_DATA == VDAGENTD_CLIPBOARD_REQUEST + 1,
        VDAGENTD_CLIPBOARD_RELEASE == VDAGENTD_CLIPBOARD_DATA + 1,
        VDAGENTD_VERSION == VDAGENTD_CLIPBOARD_RELEASE + 1,
        VDAGENTD_AUDIO_VOLUME_SYNC == VDAGENTD_VERSION + 1,
        VDAGENTD_FILE_XFER_START == VDAGENTD_AUDIO_VOLUME_SYNC + 1,
        VDAGENTD_FILE_XFER_STATUS == VDAGENTD_FILE_XFER_START + 1,
        VDAGENTD_FILE_XFER_DATA == VDAGENTD_FILE_XFER_STATUS + 1,
        VDAGENTD_CLIENT_DISCONNECTED == VDAGENTD_FILE_XFER_DATA + 2,
        VDAGENTD_GRAPHICS_DEVICE_INFO == VDAGENTD_CLIENT_DISCONNECTED + 1,
        VD_AGENT_CLIPBOARD_NONE == 0,
        VD_AGENT_CLIPBOARD_UTF8_TEXT == VD_AGENT_CLIPBOARD_NONE + 1,
        VD_AGENT_FILE_XFER_STATUS_CAN_SEND_DATA == 0,
        VD_AGENT_FILE_XFER_STATUS_CANCELLED == VD_AGENT_FILE_XFER_STATUS_CAN_SEND_DATA + 1,
        VD_AGENT_FILE_XFER_STATUS_ERROR == VD_AGENT_FILE_XFER_STATUS_CANCELLED + 1,
        VD_AGENT_FILE_XFER_STATUS_SUCCESS == VD_AGENT_FILE_XFER_STATUS_ERROR + 1,
        VD_AGENT_FILE_XFER_STATUS_NOT_ENOUGH_SPACE == VD_AGENT_FILE_XFER_STATUS_SUCCESS + 1,
{
}

/// The view of a message leaves nothing out and changes nothing.
pub proof fn law_message_view(m: UdscsMsg)
    ensures
        m@.msg_type == m.msg_type,
        m@.arg1 == m.arg1,
        m@.arg2 == m.arg2,
        m@.data == m.data@,
{
}

} // verus!
