use layer8_tungstenite::coding::{push_u16_be, push_u64_be, read_u16_be, read_u64_be};
use layer8_tungstenite::error::{Error, ProtocolError};
use layer8_tungstenite::frame::{append_bytes, Frame};
use layer8_tungstenite::socket::{read_limit, FrameSocket, MAX_READ_LIMIT};
use layer8_tungstenite::OpCode;

#[test]
fn reading_with_nothing_pending_is_no_frame_and_no_error() {
    let mut socket = FrameSocket::new();
    assert_eq!(socket.read(None), Ok(None));
    assert_eq!(socket.pending_input(), 0);
    assert_eq!(socket.end_of_stream(), Ok(()));
    let mut reader = FrameSocket::from_bytes(Vec::new());
    assert_eq!(reader.read(Some(10)), Ok(None));
}

#[test]
fn written_frame_is_read_back() {
    let mut socket = FrameSocket::new();
    let frame = Frame::message(b"Hello, World!".to_vec(), OpCode::Binary, true).unwrap();
    socket.write(frame.clone());
    assert_eq!(socket.pending_output(), 15);
    let bytes = socket.flush();
    assert_eq!(bytes.len(), 15);
    assert_eq!(socket.pending_output(), 0);
    assert_eq!(socket.flush(), Vec::<u8>::new());
    socket.feed(&bytes);
    assert_eq!(socket.read(None), Ok(Some(frame)));
    assert_eq!(socket.read(None), Ok(None));
}

#[test]
fn frame_split_over_several_reads_is_put_together() {
    let frame = Frame::message(vec![7; 300], OpCode::Binary, true).unwrap();
    let mut bytes = Vec::new();
    frame.format_into_buf(&mut bytes);
    assert_eq!(bytes.len(), 304);
    let mut socket = FrameSocket::new();
    for chunk in bytes.chunks(50) {
        assert_eq!(socket.read(None), Ok(None));
        socket.feed(chunk);
    }
    assert_eq!(socket.read(None), Ok(Some(frame)));
    assert_eq!(socket.pending_input(), 0);
}

#[test]
fn frames_come_out_in_the_order_they_came_in() {
    let first = Frame::message(b"one".to_vec(), OpCode::Text, true).unwrap();
    let second = Frame::ping(b"two".to_vec()).unwrap();
    let mut writer = FrameSocket::new();
    writer.write(first.clone());
    writer.write(second.clone());
    let mut bytes = writer.flush();
    bytes.push(0x81);
    let mut reader = FrameSocket::from_bytes(bytes);
    assert_eq!(reader.read(None), Ok(Some(first)));
    assert_eq!(reader.read(None), Ok(Some(second)));
    assert_eq!(reader.read(None), Ok(None));
    assert_eq!(reader.pending_input(), 1);
    assert_eq!(reader.end_of_stream(), Err(Error::Io));
}

#[test]
fn frame_over_the_limit_is_an_error_and_not_cut_short() {
    let frame = Frame::message(vec![1; 20], OpCode::Binary, true).unwrap();
    let mut bytes = Vec::new();
    frame.format_into_buf(&mut bytes);
    let mut socket = FrameSocket::from_bytes(bytes);
    assert_eq!(socket.read(Some(19)), Err(Error::Protocol(ProtocolError::FrameTooLarge)));
    assert_eq!(socket.pending_input(), 22);
    assert_eq!(socket.read(Some(20)), Ok(Some(frame)));
}

#[test]
fn default_limit_is_one_gib() {
    assert_eq!(MAX_READ_LIMIT, 1024 * 1024 * 1024);
    assert_eq!(read_limit(None), 1 << 30);
    assert_eq!(read_limit(Some(5)), 5);
    let mut at_limit = FrameSocket::from_bytes(vec![0x82, 127, 0, 0, 0, 0, 0x40, 0, 0, 0]);
    assert_eq!(at_limit.read(None), Ok(None));
    let mut over = FrameSocket::from_bytes(vec![0x82, 127, 0, 0, 0, 0, 0x40, 0, 0, 1]);
    assert_eq!(over.read(None), Err(Error::Protocol(ProtocolError::FrameTooLarge)));
}

#[test]
fn malformed_frame_is_a_protocol_error() {
    let mut socket = FrameSocket::from_bytes(vec![0x83, 0]);
    assert_eq!(socket.read(None), Err(Error::Protocol(ProtocolError::InvalidOpcode(3))));
}

#[test]
fn big_endian_numbers_are_written_and_read() {
    let mut out = vec![9];
    push_u16_be(&mut out, 0x1234);
    push_u64_be(&mut out, 0x0102030405060708);
    append_bytes(&mut out, &[7, 7]);
    assert_eq!(out, vec![9, 0x12, 0x34, 1, 2, 3, 4, 5, 6, 7, 8, 7, 7]);
    assert_eq!(read_u16_be(&out, 1), 0x1234);
    assert_eq!(read_u64_be(&out, 3), 0x0102030405060708);
    let mut max = Vec::new();
    push_u64_be(&mut max, u64::MAX);
    assert_eq!(max, vec![0xff; 8]);
    assert_eq!(read_u64_be(&max, 0), u64::MAX);
}
