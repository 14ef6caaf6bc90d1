use layer8_tungstenite::coding::OpCode;
use layer8_tungstenite::error::{Error, ProtocolError};
use layer8_tungstenite::frame::Frame;
use layer8_tungstenite::header::{FrameHeader, HeaderParse};
use layer8_tungstenite::mask::apply_mask;

#[test]
fn mask_then_unmask_gives_the_payload_back() {
    let payload = b"Hello, World!".to_vec();
    let key = [0x37, 0xfa, 0x21, 0x3d];
    let mut buf = payload.clone();
    apply_mask(&mut buf, key);
    assert_ne!(buf, payload);
    assert_eq!(buf[0], b'H' ^ 0x37);
    assert_eq!(buf[5], b',' ^ 0xfa);
    apply_mask(&mut buf, key);
    assert_eq!(buf, payload);
}

#[test]
fn short_text_frame_has_the_bytes_of_the_standard_example() {
    let frame = Frame::message(b"Hello".to_vec(), OpCode::Text, true).unwrap();
    let mut out = Vec::new();
    frame.format_into_buf(&mut out);
    assert_eq!(out, vec![0x81, 0x05, 0x48, 0x65, 0x6c, 0x6c, 0x6f]);
}

#[test]
fn masked_text_frame_has_the_bytes_of_the_standard_example() {
    let mut frame = Frame::message(b"Hello".to_vec(), OpCode::Text, true).unwrap();
    frame.header.mask = Some([0x37, 0xfa, 0x21, 0x3d]);
    let mut out = Vec::new();
    frame.format_into_buf(&mut out);
    assert_eq!(out, vec![0x81, 0x85, 0x37, 0xfa, 0x21, 0x3d, 0x7f, 0x9f, 0x4d, 0x51, 0x58]);
    let (parsed, used) = Frame::parse(&out, 1024).unwrap().unwrap();
    assert_eq!(used, 11);
    assert_eq!(parsed, frame);
    assert_eq!(parsed.payload, b"Hello".to_vec());
}

#[test]
fn length_field_takes_the_shortest_form() {
    let header = FrameHeader::new(OpCode::Binary, true);
    for (length, expected) in [
        (0u64, vec![0x82u8, 0]),
        (125, vec![0x82, 125]),
        (126, vec![0x82, 126, 0, 126]),
        (65535, vec![0x82, 126, 0xff, 0xff]),
        (65536, vec![0x82, 127, 0, 0, 0, 0, 0, 1, 0, 0]),
    ] {
        let mut out = Vec::new();
        header.format(length, &mut out);
        assert_eq!(out, expected);
        assert_eq!(header.len(length), expected.len());
    }
}

#[test]
fn longer_length_forms_are_accepted_on_read() {
    let bytes = [0x82u8, 126, 0, 3, 1, 2, 3];
    let (frame, used) = Frame::parse(&bytes, 1024).unwrap().unwrap();
    assert_eq!(used, 7);
    assert_eq!(frame.payload, vec![1, 2, 3]);
    let bytes = [0x82u8, 127, 0, 0, 0, 0, 0, 0, 0, 2, 9, 8];
    let (frame, used) = Frame::parse(&bytes, 1024).unwrap().unwrap();
    assert_eq!(used, 12);
    assert_eq!(frame.payload, vec![9, 8]);
}

#[test]
fn header_parse_reports_length_and_size() {
    let parsed = FrameHeader::parse(&[0x01, 0xfe, 0x01, 0x00, 1, 2, 3, 4]).unwrap().unwrap();
    assert_eq!(
        parsed,
        HeaderParse {
            header: FrameHeader {
                is_final: false,
                rsv1: false,
                rsv2: false,
                rsv3: false,
                opcode: OpCode::Text,
                mask: Some([1, 2, 3, 4]),
            },
            length: 256,
            consumed: 8,
        }
    );
}

#[test]
fn incomplete_input_is_waited_for() {
    assert_eq!(Frame::parse(&[], 1024), Ok(None));
    assert_eq!(Frame::parse(&[0x81], 1024), Ok(None));
    assert_eq!(Frame::parse(&[0x81, 126, 0], 1024), Ok(None));
    assert_eq!(Frame::parse(&[0x81, 0x85, 1, 2, 3], 1024), Ok(None));
    assert_eq!(Frame::parse(&[0x81, 0x05, 0x48, 0x65], 1024), Ok(None));
}

#[test]
fn reserved_bits_are_a_protocol_error() {
    for first in [0xc1u8, 0xa1, 0x91] {
        assert_eq!(
            Frame::parse(&[first, 0], 1024),
            Err(Error::Protocol(ProtocolError::NonZeroReservedBits))
        );
    }
}

#[test]
fn unknown_opcodes_are_a_protocol_error() {
    for code in [3u8, 4, 5, 6, 7, 11, 12, 13, 14, 15] {
        assert_eq!(
            Frame::parse(&[0x80 | code, 0], 1024),
            Err(Error::Protocol(ProtocolError::InvalidOpcode(code)))
        );
        assert_eq!(OpCode::from_code(code), None);
    }
    for opcode in [
        OpCode::Continuation,
        OpCode::Text,
        OpCode::Binary,
        OpCode::Close,
        OpCode::Ping,
        OpCode::Pong,
    ] {
        assert_eq!(OpCode::from_code(opcode.code()), Some(opcode));
    }
}

#[test]
fn control_frames_are_final_and_short_on_read() {
    assert_eq!(
        Frame::parse(&[0x09, 0], 1024),
        Err(Error::Protocol(ProtocolError::FragmentedControlFrame))
    );
    assert_eq!(
        Frame::parse(&[0x89, 126, 0, 126], 1024),
        Err(Error::Protocol(ProtocolError::ControlFrameTooBig))
    );
}

#[test]
fn payload_beyond_the_limit_is_a_protocol_error() {
    let bytes = [0x82u8, 3, 1, 2, 3];
    assert_eq!(Frame::parse(&bytes, 2), Err(Error::Protocol(ProtocolError::FrameTooLarge)));
    assert!(Frame::parse(&bytes, 3).unwrap().is_some());
}

#[test]
fn control_frames_over_125_bytes_fail_at_construction() {
    assert!(Frame::ping(vec![0; 125]).is_ok());
    assert_eq!(Frame::ping(vec![0; 126]), Err(Error::Protocol(ProtocolError::ControlFrameTooBig)));
    assert!(Frame::pong(vec![0; 125]).is_ok());
    assert_eq!(Frame::pong(vec![0; 126]), Err(Error::Protocol(ProtocolError::ControlFrameTooBig)));
    assert_eq!(
        Frame::message(vec![0; 126], OpCode::Close, true),
        Err(Error::Protocol(ProtocolError::ControlFrameTooBig))
    );
    assert_eq!(
        Frame::message(vec![], OpCode::Ping, false),
        Err(Error::Protocol(ProtocolError::FragmentedControlFrame))
    );
    assert!(Frame::message(vec![0; 70000], OpCode::Binary, false).is_ok());
}
