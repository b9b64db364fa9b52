use wayland_vdagent::udscs::{
    body_size, decode_msg, encode_msg, UdscsMsg, HDR_SIZE, VDAGENTD_CLIPBOARD_DATA,
    VDAGENTD_FILE_XFER_STATUS, VD_AGENT_CLIPBOARD_UTF8_TEXT,
};
use wayland_vdagent::wire::{i32_bits, push_bytes, push_u32, read_u32, read_u64};

#[test]
fn frame_is_header_then_body() {
    let bytes = encode_msg(VDAGENTD_CLIPBOARD_DATA, 0, VD_AGENT_CLIPBOARD_UTF8_TEXT, b"hi");
    assert_eq!(bytes, [4, 0, 0, 0, 0, 0, 0, 0, 1, 0, 0, 0, 2, 0, 0, 0, b'h', b'i']);
}

#[test]
fn empty_body_is_a_bare_header() {
    let bytes = encode_msg(VDAGENTD_FILE_XFER_STATUS, 0x0102_0304, u32::MAX, &[]);
    assert_eq!(
        bytes,
        [9, 0, 0, 0, 4, 3, 2, 1, 255, 255, 255, 255, 0, 0, 0, 0]
    );
    assert_eq!(bytes.len(), HDR_SIZE);
}

#[test]
fn framed_message_reads_back() {
    let mut stream = encode_msg(7, 8, 9, b"abc");
    stream.extend_from_slice(b"rest");
    let (m, n) = decode_msg(&stream).unwrap();
    assert_eq!(m, UdscsMsg { msg_type: 7, arg1: 8, arg2: 9, data: b"abc".to_vec() });
    assert_eq!(&stream[n..], b"rest");
}

#[test]
fn stream_reads_back_in_order() {
    let mut stream = Vec::new();
    for k in 0..5u32 {
        stream.extend(encode_msg(k, k + 1, k + 2, &vec![k as u8; k as usize]));
    }
    stream.extend_from_slice(&encode_msg(9, 9, 9, b"cut off")[..20]);
    let mut at = 0;
    let mut seen = 0;
    while let Some((m, n)) = decode_msg(&stream[at..]) {
        assert_eq!(m.msg_type, seen);
        assert_eq!(m.arg1, seen + 1);
        assert_eq!(m.arg2, seen + 2);
        assert_eq!(m.data, vec![seen as u8; seen as usize]);
        at += n;
        seen += 1;
    }
    assert_eq!(seen, 5);
    assert_eq!(stream.len() - at, 20);
}

#[test]
fn incomplete_messages_are_none() {
    let bytes = encode_msg(4, 0, 1, b"hello");
    for n in 0..bytes.len() {
        assert!(decode_msg(&bytes[..n]).is_none());
    }
    assert!(decode_msg(&bytes).is_some());
}

#[test]
fn body_size_of_a_header() {
    let bytes = encode_msg(1, 2, 3, &[0; 300]);
    assert_eq!(body_size(&bytes[..HDR_SIZE]), 300);
}

#[test]
fn little_endian_reads() {
    let data = [0xff, 1, 2, 3, 4, 5, 6, 7, 8];
    assert_eq!(read_u32(&data, 0), 0x0302_01ff);
    assert_eq!(read_u32(&data, 5), 0x0807_0605);
    assert_eq!(read_u64(&data, 1), 0x0807_0605_0403_0201);
}

#[test]
fn numbers_read_back() {
    for v in [0, 1, 255, 256, 0x1234_5678, u32::MAX] {
        let mut buf = vec![7];
        push_u32(&mut buf, v);
        assert_eq!(buf.len(), 5);
        assert_eq!(read_u32(&buf, 1), v);
    }
    for v in [0, 1, u32::MAX as u64 + 1, 0x0102_0304_0506_0708, u64::MAX] {
        let mut buf = Vec::new();
        push_bytes(&mut buf, &v.to_le_bytes());
        assert_eq!(read_u64(&buf, 0), v);
    }
}

#[test]
fn signed_numbers_as_bits() {
    for v in [0, 1, -1, 1280, -800, i32::MAX, i32::MIN] {
        assert_eq!(i32_bits(v), v as u32);
    }
}
