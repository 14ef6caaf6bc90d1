use layer8_tungstenite::error::{Error, ProtocolError};
use layer8_tungstenite::frame::{CloseFrame, Frame};
use layer8_tungstenite::header::FrameHeader;
use layer8_tungstenite::layer8_streamer::{
    cipher_failure_error, read_nested_frame, CipherFailure, Layer8Streamer, ReadStep, SendStep,
    WriteStep,
};
use layer8_tungstenite::message::Message;
use layer8_tungstenite::role::{Role, WebSocketConfig};
use layer8_tungstenite::OpCode;
use std::io::{Cursor, Read, Seek, SeekFrom, Write};

type Streamer = Layer8Streamer<Cursor<Vec<u8>>, Vec<u8>>;

const MASK: [u8; 4] = [0x11, 0x22, 0x33, 0x44];

// A toy cipher and envelope: it seals to `{"data":"<hex>"}`, where the hex spells the bytes
// combined with the key and a one-byte tag over the plain bytes.
fn seal(key: &[u8], plain: &[u8]) -> Result<Vec<u8>, CipherFailure> {
    if key.is_empty() {
        return Err(CipherFailure::Crypto);
    }
    let mut sealed: Vec<u8> =
        plain.iter().enumerate().map(|(i, b)| b ^ key[i % key.len()]).collect();
    sealed.push(plain.iter().fold(key[0], |tag, b| tag.wrapping_mul(31).wrapping_add(*b)));
    let mut out = b"{\"data\":\"".to_vec();
    for byte in sealed {
        out.extend(format!("{:02x}", byte).bytes());
    }
    out.extend(b"\"}");
    Ok(out)
}

fn hex_digit(c: u8) -> Option<u8> {
    match c {
        b'0'..=b'9' => Some(c - b'0'),
        b'a'..=b'f' => Some(c - b'a' + 10),
        _ => None,
    }
}

fn open(key: &[u8], transport: &[u8]) -> Result<Vec<u8>, CipherFailure> {
    let hex = transport
        .strip_prefix(b"{\"data\":\"")
        .and_then(|rest| rest.strip_suffix(b"\"}"))
        .ok_or(CipherFailure::Envelope)?;
    if hex.len() % 2 != 0 {
        return Err(CipherFailure::Envelope);
    }
    let mut sealed = Vec::new();
    for pair in hex.chunks(2) {
        let hi = hex_digit(pair[0]).ok_or(CipherFailure::Envelope)?;
        let lo = hex_digit(pair[1]).ok_or(CipherFailure::Envelope)?;
        sealed.push(hi * 16 + lo);
    }
    let tag = sealed.pop().ok_or(CipherFailure::Crypto)?;
    if key.is_empty() {
        return Err(CipherFailure::Crypto);
    }
    let plain: Vec<u8> = sealed.iter().enumerate().map(|(i, b)| b ^ key[i % key.len()]).collect();
    if plain.iter().fold(key[0], |tag, b| tag.wrapping_mul(31).wrapping_add(*b)) != tag {
        return Err(CipherFailure::Crypto);
    }
    Ok(plain)
}

// Runs one send to its end and gives the bytes for the stream.
fn send_bytes(streamer: &mut Streamer, message: Message) -> Result<Vec<u8>, Error> {
    match streamer.send(message, MASK)? {
        SendStep::Transmit(bytes) => Ok(bytes),
        SendStep::Seal(inner) => {
            let sealed = seal(streamer.shared_secret().unwrap(), &inner);
            streamer.send_sealed(sealed, MASK)
        }
    }
}

// Sends over the streamer's own stream.
fn send(streamer: &mut Streamer, message: Message) -> Result<usize, Error> {
    let bytes = send_bytes(streamer, message)?;
    streamer.get_mut().write_all(&bytes).map_err(|_| Error::Io)?;
    streamer.get_mut().flush().map_err(|_| Error::Io)?;
    Ok(bytes.len())
}

// Reads one message from the streamer's own stream, a few bytes at a time.
fn read(streamer: &mut Streamer) -> Result<Option<Message>, Error> {
    loop {
        match streamer.read()? {
            Some(ReadStep::Deliver(message)) => return Ok(Some(message)),
            Some(ReadStep::Open(payload)) => {
                let opened = open(streamer.shared_secret().unwrap(), &payload);
                return streamer.read_opened(opened).map(Some);
            }
            None => {
                let mut buf = [0u8; 7];
                let n = streamer.get_mut().read(&mut buf).map_err(|_| Error::Io)?;
                if n == 0 {
                    streamer.end_of_stream()?;
                    return Ok(None);
                }
                streamer.feed(&buf[..n]);
            }
        }
    }
}

// Puts bytes where the peer will read them.
fn deliver(peer: &mut Streamer, bytes: &[u8]) {
    peer.get_mut().get_mut().extend_from_slice(bytes);
}

fn lenient() -> WebSocketConfig {
    WebSocketConfig { accept_unmasked_frames: true, ..WebSocketConfig::default() }
}

fn plain_frame(opcode: OpCode, payload: &[u8]) -> Frame {
    Frame {
        header: FrameHeader {
            is_final: true,
            rsv1: false,
            rsv2: false,
            rsv3: false,
            opcode,
            mask: None,
        },
        payload: payload.to_vec(),
    }
}

#[test]
fn layer8_client_test_stream() {
    let symmetric_key = b"shared secret".to_vec();
    let cursor = Cursor::new(Vec::new());
    let mut stream = Layer8Streamer::new(cursor, Some(symmetric_key));
    stream.set_config(lenient());

    let payload = b"Hello, World!";

    // write test
    let written_len = send(&mut stream, Message::Binary(payload.to_vec())).unwrap();
    assert!(written_len > payload.len());
    assert_eq!(stream.get_ref().get_ref().len(), written_len);

    // read test
    stream.get_mut().seek(SeekFrom::Start(0)).unwrap();
    let message = read(&mut stream).unwrap().unwrap();
    let frame = match message {
        Message::Frame(frame) => frame,
        other => panic!("expected a frame, got {:?}", other),
    };
    assert_eq!(frame.payload.len(), payload.len());
    assert_eq!(frame.payload, payload.to_vec());
    assert_eq!(Message::from_frame(frame), Ok(Message::Binary(payload.to_vec())));
    assert_eq!(read(&mut stream), Ok(None));
}

#[test]
fn layer8_streamer_test_stream() {
    let symmetric_key = b"another secret".to_vec();
    let cursor = Cursor::new(Vec::new());
    let mut stream = Layer8Streamer::with_role(cursor, Some(symmetric_key), Role::Client);

    let payload = b"Hello, World!";

    match stream.write(Message::Binary(payload.to_vec()), MASK).unwrap() {
        WriteStep::Seal(inner) => {
            assert_eq!(inner, [&[0x82u8, 13][..], &payload[..]].concat());
            let sealed = seal(stream.shared_secret().unwrap(), &inner);
            stream.write_sealed(sealed, MASK).unwrap();
        }
        WriteStep::Queued => panic!("a streamer with a secret seals"),
    }
    let bytes = stream.flush();
    stream.get_mut().write_all(&bytes).unwrap();
    stream.get_mut().seek(SeekFrom::Start(0)).unwrap(); // the cursor reads from the beginning

    let msg = read(&mut stream).unwrap().unwrap();
    assert_eq!(msg, Message::Frame(plain_frame(OpCode::Binary, payload)));
}

#[test]
fn ping() {
    let symmetric_key = b"negotiated".to_vec();
    let mut socket =
        Layer8Streamer::with_role(Cursor::new(Vec::new()), None, Role::Client);
    socket.set_shared_secret(symmetric_key.clone());
    let mut websocket = Layer8Streamer::new(Cursor::new(Vec::new()), None);
    websocket.set_shared_secret(symmetric_key);
    websocket.set_config(lenient());

    let sent = send_bytes(&mut socket, Message::Ping(b"ping from layer8".to_vec())).unwrap();
    deliver(&mut websocket, &sent);

    let msg = match read(&mut websocket).unwrap().unwrap() {
        Message::Frame(frame) => Message::from_frame(frame).unwrap(),
        other => other,
    };
    assert!(msg.is_ping());
    assert_eq!(msg, Message::Ping(b"ping from layer8".to_vec()));
    let reply = send_bytes(&mut websocket, Message::Pong(b"pong from layer8".to_vec())).unwrap();
    deliver(&mut socket, &reply);

    let out_msg = read(&mut socket).unwrap().unwrap();
    assert_eq!(out_msg, Message::Frame(plain_frame(OpCode::Pong, b"pong from layer8")));

    let close = send_bytes(&mut socket, Message::Close(None)).unwrap();
    deliver(&mut websocket, &close);
    assert_eq!(
        read(&mut websocket),
        Ok(Some(Message::Frame(plain_frame(OpCode::Close, b""))))
    );
    assert_eq!(read(&mut websocket), Ok(None));
}

#[test]
fn plaintext_ping_is_answered_by_pong() {
    let mut client = Layer8Streamer::with_role(Cursor::new(Vec::new()), None, Role::Client);
    let mut server = Layer8Streamer::new(Cursor::new(Vec::new()), None);

    let sent = send_bytes(&mut client, Message::Ping(b"ping".to_vec())).unwrap();
    assert_eq!(
        sent,
        vec![0x89, 0x84, 0x11, 0x22, 0x33, 0x44, b'p' ^ 0x11, b'i' ^ 0x22, b'n' ^ 0x33, b'g' ^ 0x44]
    );
    deliver(&mut server, &sent);
    let frame = match read(&mut server).unwrap().unwrap() {
        Message::Frame(frame) => frame,
        other => panic!("expected a frame, got {:?}", other),
    };
    assert_eq!(frame, plain_frame(OpCode::Ping, b"ping"));
    assert_eq!(Message::from_frame(frame), Ok(Message::Ping(b"ping".to_vec())));

    let reply = send_bytes(&mut server, Message::Pong(b"pong".to_vec())).unwrap();
    assert_eq!(reply, vec![0x8a, 4, b'p', b'o', b'n', b'g']);
    deliver(&mut client, &reply);
    let frame = match read(&mut client).unwrap().unwrap() {
        Message::Frame(frame) => frame,
        other => panic!("expected a frame, got {:?}", other),
    };
    assert_eq!(Message::from_frame(frame), Ok(Message::Pong(b"pong".to_vec())));
}

#[test]
fn encrypted_echo_carries_the_payload_exactly() {
    let key = b"ecdh shared secret".to_vec();
    let mut client =
        Layer8Streamer::with_role(Cursor::new(Vec::new()), Some(key.clone()), Role::Client);
    let mut server = Layer8Streamer::new(Cursor::new(Vec::new()), Some(key));

    let sent = send_bytes(&mut client, Message::Binary(b"Hello, World!".to_vec())).unwrap();
    assert_eq!(sent[0], 0x82);
    assert!(!sent.windows(13).any(|w| w == b"Hello, World!"));
    deliver(&mut server, &sent);
    let message = read(&mut server).unwrap().unwrap();
    assert_eq!(message, Message::Frame(plain_frame(OpCode::Binary, b"Hello, World!")));

    let echo = send_bytes(&mut server, message).unwrap();
    deliver(&mut client, &echo);
    assert_eq!(
        read(&mut client),
        Ok(Some(Message::Frame(plain_frame(OpCode::Binary, b"Hello, World!"))))
    );
}

#[test]
fn every_kind_of_message_crosses_both_paths() {
    let messages = vec![
        Message::Text("grüße".to_string()),
        Message::Binary(vec![3; 70000]),
        Message::Binary(vec![1; 126]),
        Message::Ping(vec![1, 2, 3]),
        Message::Pong(vec![]),
        Message::Close(Some(CloseFrame { code: 1000, reason: "done".to_string() })),
    ];
    for secret in [None, Some(b"k".to_vec())] {
        let mut client =
            Layer8Streamer::with_role(Cursor::new(Vec::new()), secret.clone(), Role::Client);
        let mut server = Layer8Streamer::new(Cursor::new(Vec::new()), secret);
        for message in &messages {
            let sent = send_bytes(&mut client, message.clone()).unwrap();
            deliver(&mut server, &sent);
        }
        for message in &messages {
            let frame = match read(&mut server).unwrap().unwrap() {
                Message::Frame(frame) => frame,
                other => panic!("expected a frame, got {:?}", other),
            };
            assert_eq!(frame, message.clone().into_frame().unwrap());
            assert_eq!(Message::from_frame(frame).as_ref(), Ok(message));
        }
        assert_eq!(read(&mut server), Ok(None));
    }
}

#[test]
fn end_of_stream_is_none_and_no_error() {
    let mut plain: Streamer = Layer8Streamer::new(Cursor::new(Vec::new()), None);
    assert_eq!(plain.read(), Ok(None));
    assert_eq!(read(&mut plain), Ok(None));
    let mut sealed = Layer8Streamer::new(Cursor::new(Vec::new()), Some(b"k".to_vec()));
    assert_eq!(sealed.read(), Ok(None));
    assert_eq!(read(&mut sealed), Ok(None));
}

#[test]
fn tampering_with_the_transport_bytes_is_detected() {
    let key = b"tamper".to_vec();
    let mut sender =
        Layer8Streamer::with_role(Cursor::new(Vec::new()), Some(key.clone()), Role::Server);
    let sent = send_bytes(&mut sender, Message::Text("secret text".to_string())).unwrap();
    let header = 2;
    assert_eq!(sent[1] as usize, sent.len() - header);
    for at in header..sent.len() {
        for bit in 0..8 {
            let mut bytes = sent.clone();
            bytes[at] ^= 1 << bit;
            let mut server = Layer8Streamer::new(Cursor::new(bytes), Some(key.clone()));
            server.set_config(lenient());
            let result = read(&mut server);
            assert!(
                result == Err(Error::Crypto) || result == Err(Error::Envelope),
                "byte {} bit {}: {:?}",
                at,
                bit,
                result
            );
        }
    }
}

#[test]
fn wrong_key_is_a_crypto_error() {
    let mut client = Layer8Streamer::with_role(
        Cursor::new(Vec::new()),
        Some(b"right".to_vec()),
        Role::Client,
    );
    let sent = send_bytes(&mut client, Message::Binary(vec![1, 2, 3])).unwrap();
    let mut server = Layer8Streamer::new(Cursor::new(sent), Some(b"wrong".to_vec()));
    assert_eq!(read(&mut server), Err(Error::Crypto));
}

#[test]
fn failures_of_the_cipher_surface_as_errors() {
    let mut streamer: Streamer = Layer8Streamer::new(Cursor::new(Vec::new()), Some(vec![1]));
    assert_eq!(streamer.write_sealed(Err(CipherFailure::Crypto), MASK), Err(Error::Crypto));
    assert_eq!(streamer.write_sealed(Err(CipherFailure::Envelope), MASK), Err(Error::Envelope));
    assert_eq!(streamer.send_sealed(Err(CipherFailure::Crypto), MASK), Err(Error::Crypto));
    assert_eq!(streamer.flush(), Vec::<u8>::new());
    assert_eq!(streamer.read_opened(Err(CipherFailure::Crypto)), Err(Error::Crypto));
    assert_eq!(streamer.read_opened(Err(CipherFailure::Envelope)), Err(Error::Envelope));
    assert_eq!(cipher_failure_error(CipherFailure::Crypto), Error::Crypto);
    assert_eq!(cipher_failure_error(CipherFailure::Envelope), Error::Envelope);
}

#[test]
fn opened_bytes_without_a_whole_frame_are_a_missing_nested_frame() {
    let streamer: Streamer = Layer8Streamer::new(Cursor::new(Vec::new()), Some(vec![1]));
    assert_eq!(streamer.read_opened(Ok(Vec::new())), Err(Error::NestedFrameMissing));
    assert_eq!(streamer.read_opened(Ok(vec![0x82])), Err(Error::NestedFrameMissing));
    assert_eq!(streamer.read_opened(Ok(vec![0x82, 3, 1, 2])), Err(Error::NestedFrameMissing));
    assert_eq!(
        streamer.read_opened(Ok(vec![0x82, 3, 1, 2, 3, 0xff])),
        Ok(Message::Frame(plain_frame(OpCode::Binary, &[1, 2, 3])))
    );
    assert_eq!(
        streamer.read_opened(Ok(vec![0x8f, 0])),
        Err(Error::Protocol(ProtocolError::InvalidOpcode(15)))
    );
    assert_eq!(read_nested_frame(vec![0x82, 1], 10), Err(Error::NestedFrameMissing));
    assert_eq!(
        read_nested_frame(vec![0x82, 1, 5], 0),
        Err(Error::Protocol(ProtocolError::FrameTooLarge))
    );
    assert_eq!(read_nested_frame(vec![0x82, 1, 5], 1), Ok(plain_frame(OpCode::Binary, &[5])));
}

#[test]
fn fragments_are_refused_on_the_encrypted_path() {
    let fragment_error = Error::Protocol(ProtocolError::FragmentedEncryptedFrame);
    let mut first = plain_frame(OpCode::Text, b"he");
    first.header.is_final = false;
    let last = plain_frame(OpCode::Continuation, b"y");

    let mut sealed: Streamer = Layer8Streamer::new(Cursor::new(Vec::new()), Some(vec![1]));
    assert_eq!(sealed.write(Message::Frame(first.clone()), MASK), Err(fragment_error));
    assert_eq!(sealed.send(Message::Frame(last.clone()), MASK), Err(fragment_error));
    assert_eq!(sealed.flush(), Vec::<u8>::new());
    assert_eq!(sealed.read_opened(Ok(vec![0x01, 2, b'h', b'e'])), Err(fragment_error));
    assert_eq!(sealed.read_opened(Ok(vec![0x80, 1, b'y'])), Err(fragment_error));
    sealed.set_config(lenient());
    sealed.feed(&[0x02, 1, 7]);
    assert_eq!(sealed.read(), Err(fragment_error));

    let mut plain: Streamer = Layer8Streamer::new(Cursor::new(Vec::new()), None);
    assert_eq!(plain.write(Message::Frame(first), MASK), Ok(WriteStep::Queued));
    assert_eq!(plain.write(Message::Frame(last), MASK), Ok(WriteStep::Queued));
    assert_eq!(plain.flush(), vec![0x01, 2, b'h', b'e', 0x80, 1, b'y']);
}

#[test]
fn server_refuses_unmasked_frames_unless_told_otherwise() {
    let unmasked = vec![0x81, 2, b'h', b'i'];
    let mut server: Streamer = Layer8Streamer::new(Cursor::new(Vec::new()), None);
    assert_eq!(server.role(), Role::Server);
    assert_eq!(server.config(), WebSocketConfig::default());
    assert!(!server.config().accept_unmasked_frames);
    assert_eq!(server.config().max_read_size, 1 << 30);
    server.feed(&unmasked);
    assert_eq!(server.read(), Err(Error::Protocol(ProtocolError::UnmaskedFrameFromClient)));

    server.set_config(lenient());
    server.feed(&unmasked);
    assert_eq!(
        server.read(),
        Ok(Some(ReadStep::Deliver(Message::Frame(plain_frame(OpCode::Text, b"hi")))))
    );

    let mut client: Streamer =
        Layer8Streamer::with_role(Cursor::new(Vec::new()), None, Role::Client);
    client.feed(&unmasked);
    assert_eq!(
        client.read(),
        Ok(Some(ReadStep::Deliver(Message::Frame(plain_frame(OpCode::Text, b"hi")))))
    );
}

#[test]
fn client_masks_and_server_does_not() {
    assert!(Role::Client.masks_outbound());
    assert!(!Role::Server.masks_outbound());
    let frame = plain_frame(OpCode::Binary, &[0, 0, 0, 0, 0]);
    let sent = Role::Client.mask_outbound(frame.clone(), MASK);
    assert_eq!(sent.header.mask, Some(MASK));
    assert_eq!(sent.payload, frame.payload);
    let mut bytes = Vec::new();
    sent.format_into_buf(&mut bytes);
    assert_eq!(bytes, vec![0x82, 0x85, 0x11, 0x22, 0x33, 0x44, 0x11, 0x22, 0x33, 0x44, 0x11]);

    assert_eq!(Role::Server.mask_outbound(frame.clone(), MASK), frame);
    let mut keyed = frame.clone();
    keyed.header.mask = Some([9, 9, 9, 9]);
    assert_eq!(Role::Server.mask_outbound(keyed.clone(), MASK), keyed);
    assert_eq!(Role::Client.mask_outbound(keyed.clone(), MASK), keyed);
    assert_eq!(Role::Server.accept_inbound(&WebSocketConfig::default(), keyed), Ok(frame.clone()));
    assert_eq!(
        Role::Server.accept_inbound(&WebSocketConfig::default(), frame.clone()),
        Err(Error::Protocol(ProtocolError::UnmaskedFrameFromClient))
    );
    assert_eq!(Role::Server.accept_inbound(&lenient(), frame.clone()), Ok(frame.clone()));
    assert_eq!(Role::Client.accept_inbound(&WebSocketConfig::default(), frame.clone()), Ok(frame));
}

#[test]
fn write_queues_until_flush_and_send_flushes() {
    let mut streamer: Streamer = Layer8Streamer::new(Cursor::new(Vec::new()), None);
    assert_eq!(streamer.write(Message::Binary(vec![1]), MASK), Ok(WriteStep::Queued));
    assert_eq!(
        streamer.send(Message::Binary(vec![2]), MASK),
        Ok(SendStep::Transmit(vec![0x82, 1, 1, 0x82, 1, 2]))
    );
    assert_eq!(streamer.flush(), Vec::<u8>::new());
    assert_eq!(
        streamer.write(Message::Ping(vec![0; 126]), MASK),
        Err(Error::Protocol(ProtocolError::ControlFrameTooBig))
    );
    assert_eq!(streamer.flush(), Vec::<u8>::new());

    streamer.set_shared_secret(vec![7]);
    assert_eq!(
        streamer.send(Message::Binary(vec![2]), MASK),
        Ok(SendStep::Seal(vec![0x82, 1, 2]))
    );
    assert_eq!(
        streamer.send_sealed(Ok(b"xyz".to_vec()), MASK),
        Ok(vec![0x82, 3, b'x', b'y', b'z'])
    );
}

#[test]
fn read_limit_of_the_options_is_enforced() {
    let mut streamer: Streamer = Layer8Streamer::new(Cursor::new(Vec::new()), None);
    streamer.set_config(WebSocketConfig { accept_unmasked_frames: true, max_read_size: 4 });
    streamer.feed(&[0x82, 5, 1, 2, 3, 4, 5]);
    assert_eq!(streamer.read(), Err(Error::Protocol(ProtocolError::FrameTooLarge)));
    let sealed: Streamer = {
        let mut s = Layer8Streamer::new(Cursor::new(Vec::new()), Some(vec![1]));
        s.set_config(WebSocketConfig { accept_unmasked_frames: false, max_read_size: 4 });
        s
    };
    assert_eq!(
        sealed.read_opened(Ok(vec![0x82, 5, 1, 2, 3, 4, 5])),
        Err(Error::Protocol(ProtocolError::FrameTooLarge))
    );
}

#[test]
fn arbitrary_bytes_are_read_without_panic() {
    let mut state: u32 = 0x2545_f491;
    for round in 0..2000 {
        let mut data = Vec::new();
        for _ in 0..(round % 40) {
            state ^= state << 13;
            state ^= state >> 17;
            state ^= state << 5;
            data.push((state >> 11) as u8);
        }
        let secret = if round % 2 == 0 { None } else { Some(vec![1u8]) };
        let mut socket = Layer8Streamer::with_role(Cursor::new(data.clone()), secret, Role::Client);
        let mut reads = 0;
        while let Ok(Some(_)) = read(&mut socket) {
            reads += 1;
            assert!(reads <= data.len());
        }
    }
}

#[test]
fn hand_built_frame_with_a_key_is_written_as_built() {
    let mut hello = plain_frame(OpCode::Text, b"Hello");
    hello.header.mask = Some([0x37, 0xfa, 0x21, 0x3d]);
    let masked = vec![0x81, 0x85, 0x37, 0xfa, 0x21, 0x3d, 0x7f, 0x9f, 0x4d, 0x51, 0x58];

    let mut server: Streamer = Layer8Streamer::new(Cursor::new(Vec::new()), None);
    assert_eq!(server.write(Message::Frame(hello.clone()), MASK), Ok(WriteStep::Queued));
    assert_eq!(server.flush(), masked);
    assert_eq!(send(&mut server, Message::Frame(hello.clone())), Ok(11));
    assert_eq!(*server.get_ref().get_ref(), masked);

    let mut client: Streamer =
        Layer8Streamer::with_role(Cursor::new(Vec::new()), None, Role::Client);
    assert_eq!(
        client.send(Message::Frame(hello.clone()), MASK),
        Ok(SendStep::Transmit(masked.clone()))
    );

    // what is written under the key is read back in the clear
    server.get_mut().seek(SeekFrom::Start(0)).unwrap();
    assert_eq!(
        read(&mut server),
        Ok(Some(Message::Frame(plain_frame(OpCode::Text, b"Hello"))))
    );
}

#[test]
fn hand_built_frame_without_a_key_is_masked_by_a_client_only() {
    let hello = plain_frame(OpCode::Text, b"Hello");
    let mut server: Streamer = Layer8Streamer::new(Cursor::new(Vec::new()), None);
    assert_eq!(
        server.send(Message::Frame(hello.clone()), MASK),
        Ok(SendStep::Transmit(vec![0x81, 0x05, 0x48, 0x65, 0x6c, 0x6c, 0x6f]))
    );
    let mut client: Streamer =
        Layer8Streamer::with_role(Cursor::new(Vec::new()), None, Role::Client);
    assert_eq!(
        client.send(Message::Frame(hello), MASK),
        Ok(SendStep::Transmit(vec![
            0x81,
            0x85,
            0x11,
            0x22,
            0x33,
            0x44,
            0x48 ^ 0x11,
            0x65 ^ 0x22,
            0x6c ^ 0x33,
            0x6c ^ 0x44,
            0x6f ^ 0x11,
        ]))
    );
}

#[test]
fn stream_that_ends_inside_a_frame_is_an_error() {
    let mut streamer: Streamer =
        Layer8Streamer::with_role(Cursor::new(vec![0x81u8, 0x05, 0x48]), None, Role::Client);
    assert_eq!(read(&mut streamer), Err(Error::Io));
    assert_eq!(streamer.pending_input(), 3);
    assert_eq!(streamer.read(), Ok(None));
    assert_eq!(streamer.end_of_stream(), Err(Error::Io));

    let mut header_only: Streamer =
        Layer8Streamer::with_role(Cursor::new(vec![0x81u8]), Some(vec![1]), Role::Client);
    assert_eq!(read(&mut header_only), Err(Error::Io));

    let mut whole: Streamer = Layer8Streamer::with_role(
        Cursor::new(vec![0x81u8, 0x02, 0x48, 0x69]),
        None,
        Role::Client,
    );
    assert_eq!(read(&mut whole), Ok(Some(Message::Frame(plain_frame(OpCode::Text, b"Hi")))));
    assert_eq!(whole.pending_input(), 0);
    assert_eq!(whole.end_of_stream(), Ok(()));
    assert_eq!(read(&mut whole), Ok(None));
}

#[test]
fn clean_end_of_stream_is_none_exactly_when_nothing_is_pending() {
    for secret in [None, Some(vec![1u8])] {
        let mut empty: Streamer = Layer8Streamer::new(Cursor::new(Vec::new()), secret.clone());
        assert_eq!(empty.end_of_stream(), Ok(()));
        assert_eq!(read(&mut empty), Ok(None));
        let mut pending: Streamer = Layer8Streamer::new(Cursor::new(vec![0x82u8]), secret);
        assert_eq!(read(&mut pending), Err(Error::Io));
    }
}
