//! The streamer: messages over a frame socket, with an optional encrypted overlay.
//!
//! With a shared secret every outgoing frame is written out whole, sealed, and sent as the
//! payload of a binary frame; every incoming payload is opened and parsed as a frame of its
//! own. The streamer decides what is framed, sealed, opened and delivered. Moving bytes over
//! the stream and the cipher itself are its owner's part: the streamer hands out what is to
//! be sealed or opened and takes the result back.
//!
//! Only whole frames travel in an envelope: a continuation frame or a frame that is not
//! final is refused on the encrypted path, in both directions.

use crate::coding::OpCode;
use crate::error::{Error, ProtocolError};
use crate::frame::{parse_frame, Frame, FrameView};
use crate::header::FrameHeader;
use crate::message::{message_frame, Message, MessageView};
use crate::role::{Role, WebSocketConfig};
use crate::socket::{read_outcome, FrameSocket, FrameSocketView};
use vstd::prelude::*;

verus! {

/// Why sealing or opening failed.
#[derive(Debug, Clone, Copy, PartialEq, Eq, Structural)]
pub enum CipherFailure {
    /// The cipher refused to encrypt or to decrypt.
    Crypto,
    /// The envelope could not be encoded or decoded.
    Envelope,
}

/// What is to be done after a write.
#[derive(Debug, Clone, PartialEq, Eq)]
pub enum WriteStep {
    /// The frame waits in the socket for the next flush.
    Queued,
    /// These bytes, a whole inner frame, are to be sealed and handed to `write_sealed`.
    Seal(Vec<u8>),
}

/// What is to be done after a send.
#[derive(Debug, Clone, PartialEq, Eq)]
pub enum SendStep {
    /// These bytes are to be written to the stream, which is then flushed.
    Transmit(Vec<u8>),
    /// These bytes, a whole inner frame, are to be sealed and handed to `send_sealed`.
    Seal(Vec<u8>),
}

/// What a read came to.
#[derive(Debug, Clone, PartialEq, Eq)]
pub enum ReadStep {
    /// A message for the caller.
    Deliver(Message),
    /// These bytes, the payload of an outer frame, are to be opened and handed to
    /// `read_opened`.
    Open(Vec<u8>),
}

/// A `WriteStep` as a mathematical value.
pub enum WriteStepView {
    Queued,
    Seal(Seq<u8>),
}

/// A `SendStep` as a mathematical value.
pub enum SendStepView {
    Transmit(Seq<u8>),
    Seal(Seq<u8>),
}

/// A `ReadStep` as a mathematical value.
pub enum ReadStepView {
    Deliver(MessageView),
    Open(Seq<u8>),
}

impl View for WriteStep {
    type V = WriteStepView;

    open spec fn view(&self) -> WriteStepView {
        match self {
            WriteStep::Queued => WriteStepView::Queued,
            WriteStep::Seal(inner) => WriteStepView::Seal(inner@),
        }
    }
}

impl View for SendStep {
    type V = SendStepView;

    open spec fn view(&self) -> SendStepView {
        match self {
            SendStep::Transmit(bytes) => SendStepView::Transmit(bytes@),
            SendStep::Seal(inner) => SendStepView::Seal(inner@),
        }
    }
}

impl View for ReadStep {
    type V = ReadStepView;

    open spec fn view(&self) -> ReadStepView {
        match self {
            ReadStep::Deliver(message) => ReadStepView::Deliver(message@),
            ReadStep::Open(payload) => ReadStepView::Open(payload@),
        }
    }
}

/// The error that a cipher failure surfaces as.
pub open spec fn cipher_error(failure: CipherFailure) -> Error {
    match failure {
        CipherFailure::Crypto => Error::Crypto,
        CipherFailure::Envelope => Error::Envelope,
    }
}

/// Whether a frame is part of a fragmented message: it is not final, or it continues one.
pub open spec fn is_fragment(frame: FrameView) -> bool {
    !frame.header.is_final || frame.header.opcode is Continuation
}

/// The error for a fragment on the encrypted path.
pub open spec fn fragment_error() -> Error {
    Error::Protocol(ProtocolError::FragmentedEncryptedFrame)
}

/// The frame that a message travels as inside an envelope: the frame that carries the
/// message, refused if it is a fragment.
pub open spec fn inner_frame(message: MessageView) -> Result<FrameView, Error> {
    match message_frame(message) {
        Err(e) => Err(e),
        Ok(frame) => if is_fragment(frame) {
            Err(fragment_error())
        } else {
            Ok(frame)
        },
    }
}

/// The frame that carries sealed bytes: a final binary frame.
pub open spec fn outer_frame(transport: Seq<u8>) -> FrameView {
    FrameView {
        header: FrameHeader {
            is_final: true,
            rsv1: false,
            rsv2: false,
            rsv3: false,
            opcode: OpCode::Binary,
            mask: None,
        },
        payload: transport,
    }
}

/// The frame inside opened bytes, read from their first byte on with a payload limit of
/// `limit`: a missing or unfinished frame is an error of its own, a fragment is refused,
/// and what follows the frame is ignored.
pub open spec fn nested_frame(plain: Seq<u8>, limit: u64) -> Result<FrameView, Error> {
    match parse_frame(plain, limit) {
        Err(e) => Err(e),
        Ok(None) => Err(Error::NestedFrameMissing),
        Ok(Some((frame, consumed))) => if is_fragment(frame) {
            Err(fragment_error())
        } else {
            Ok(frame)
        },
    }
}

/// What a write does to the pending output `output` and what it hands back. On the plain
/// path the frame of the message is queued as the role sends it: a frame built by hand that
/// carries a masking key goes out as built, under its own key, and a frame without a key is
/// masked with `mask_key` by a client and by no one else. On the encrypted path nothing is
/// queued, and the wire form of the inner frame is handed out to be sealed.
pub open spec fn write_step(
    encrypted: bool,
    role: Role,
    output: Seq<u8>,
    message: MessageView,
    mask_key: [u8; 4],
) -> (Seq<u8>, Result<WriteStepView, Error>) {
    if encrypted {
        match inner_frame(message) {
            Err(e) => (output, Err(e)),
            Ok(frame) => (output, Ok(WriteStepView::Seal(frame.wire()))),
        }
    } else {
        match message_frame(message) {
            Err(e) => (output, Err(e)),
            Ok(frame) => (
                output + role.outbound(frame, mask_key).wire(),
                Ok(WriteStepView::Queued),
            ),
        }
    }
}

/// What handing in the result of sealing does to the pending output: sealed bytes are
/// queued in an outer frame as the role sends it; a failure queues nothing and surfaces.
pub open spec fn sealed_step(
    role: Role,
    output: Seq<u8>,
    sealed: Result<Seq<u8>, CipherFailure>,
    mask_key: [u8; 4],
) -> (Seq<u8>, Result<(), Error>) {
    match sealed {
        Ok(transport) => (output + role.outbound(outer_frame(transport), mask_key).wire(), Ok(())),
        Err(failure) => (output, Err(cipher_error(failure))),
    }
}

/// What a read does to the pending input `input` and what it hands back. A complete frame
/// is taken out of the input and taken in as the role demands. On the plain path it is
/// delivered as a frame message. On the encrypted path its payload is handed out to be
/// opened, unless the frame is a fragment.
pub open spec fn read_step(
    encrypted: bool,
    role: Role,
    config: WebSocketConfig,
    input: Seq<u8>,
) -> (Seq<u8>, Result<Option<ReadStepView>, Error>) {
    let (rest, read) = read_outcome(input, config.max_read_size);
    match read {
        Err(e) => (rest, Err(e)),
        Ok(None) => (rest, Ok(None)),
        Ok(Some(frame)) => match role.inbound(config, frame) {
            Err(e) => (rest, Err(e)),
            Ok(taken) => if !encrypted {
                (rest, Ok(Some(ReadStepView::Deliver(MessageView::Frame(taken)))))
            } else if is_fragment(taken) {
                (rest, Err(fragment_error()))
            } else {
                (rest, Ok(Some(ReadStepView::Open(taken.payload))))
            },
        },
    }
}

/// What handing in the result of opening comes to: the inner frame as a frame message, or
/// the failure.
pub open spec fn opened_step(config: WebSocketConfig, opened: Result<Seq<u8>, CipherFailure>) -> Result<
    MessageView,
    Error,
> {
    match opened {
        Err(failure) => Err(cipher_error(failure)),
        Ok(plain) => match nested_frame(plain, config.max_read_size) {
            Err(e) => Err(e),
            Ok(frame) => Ok(MessageView::Frame(frame)),
        },
    }
}

/// The view of bytes or the failure in their place.
pub open spec fn cipher_result_view(result: Result<Vec<u8>, CipherFailure>) -> Result<
    Seq<u8>,
    CipherFailure,
> {
    match result {
        Ok(bytes) => Ok(bytes@),
        Err(failure) => Err(failure),
    }
}

/// The view of a write step or the error in its place.
pub open spec fn write_result_view(result: Result<WriteStep, Error>) -> Result<WriteStepView, Error> {
    match result {
        Ok(step) => Ok(step@),
        Err(e) => Err(e),
    }
}

/// The view of a read step, of the lack of one, or of the error in its place.
pub open spec fn read_result_view(result: Result<Option<ReadStep>, Error>) -> Result<
    Option<ReadStepView>,
    Error,
> {
    match result {
        Ok(Some(step)) => Ok(Some(step@)),
        Ok(None) => Ok(None),
        Err(e) => Err(e),
    }
}

/// A streamer wraps a stream and, if there is one, the secret shared with the peer.
///
/// The stream and the secret are kept for the owner, who reads, writes, seals and opens
/// with them; the streamer itself works on the bytes that it is fed.
#[derive(Debug)]
pub struct Layer8Streamer<Stream, Key> {
    stream: Stream,
    frame_socket: FrameSocket,
    shared_secret: Option<Key>,
    role: Role,
    config: WebSocketConfig,
}

/// A `Layer8Streamer` as a mathematical value.
pub struct Layer8StreamerView<Stream, Key> {
    /// The stream that is wrapped.
    pub stream: Stream,
    /// The frame socket.
    pub socket: FrameSocketView,
    /// The shared secret, if there is one.
    pub shared_secret: Option<Key>,
    /// The role.
    pub role: Role,
    /// The options.
    pub config: WebSocketConfig,
}

impl<Stream, Key> View for Layer8Streamer<Stream, Key> {
    type V = Layer8StreamerView<Stream, Key>;

    closed spec fn view(&self) -> Layer8StreamerView<Stream, Key> {
        Layer8StreamerView {
            stream: self.stream,
            socket: self.frame_socket@,
            shared_secret: self.shared_secret,
            role: self.role,
            config: self.config,
        }
    }
}

impl<Stream, Key> Layer8StreamerView<Stream, Key> {
    /// Whether the encrypted path is taken: there is a shared secret.
    pub open spec fn encrypted(self) -> bool {
        self.shared_secret is Some
    }

    /// This value with `socket` in place of its socket.
    pub open spec fn with_socket(self, socket: FrameSocketView) -> Self {
        Layer8StreamerView {
            stream: self.stream,
            socket,
            shared_secret: self.shared_secret,
            role: self.role,
            config: self.config,
        }
    }

    /// This value with `input` in place of its pending input.
    pub open spec fn with_input(self, input: Seq<u8>) -> Self {
        self.with_socket(FrameSocketView { input, output: self.socket.output })
    }

    /// This value with `output` in place of its pending output.
    pub open spec fn with_output(self, output: Seq<u8>) -> Self {
        self.with_socket(FrameSocketView { input: self.socket.input, output })
    }
}

impl<Stream, Key> Layer8Streamer<Stream, Key> {
    /// A streamer over `stream`, encrypted if there is a shared secret. It is a server with
    /// the default options.
    pub fn new(stream: Stream, shared_secret: Option<Key>) -> (streamer: Self)
        ensures
            streamer@ == (Layer8StreamerView {
                stream,
                socket: FrameSocketView { input: Seq::empty(), output: Seq::empty() },
                shared_secret,
                role: Role::Server,
                config: WebSocketConfig {
                    accept_unmasked_frames: false,
                    max_read_size: crate::socket::MAX_READ_LIMIT,
                },
            }),
    {
        Layer8Streamer::with_role(stream, shared_secret, Role::Server)
    }

    /// A streamer over `stream` in the given role, with the default options.
    pub fn with_role(stream: Stream, shared_secret: Option<Key>, role: Role) -> (streamer: Self)
        ensures
            streamer@ == (Layer8StreamerView {
                stream,
                socket: FrameSocketView { input: Seq::empty(), output: Seq::empty() },
                shared_secret,
                role,
                config: WebSocketConfig {
                    accept_unmasked_frames: false,
                    max_read_size: crate::socket::MAX_READ_LIMIT,
                },
            }),
    {
        let frame_socket = FrameSocket::new();
        let config = WebSocketConfig::default();
        let streamer = Layer8Streamer { stream, frame_socket, shared_secret, role, config };
        assert(streamer@.socket =~= FrameSocketView { input: Seq::empty(), output: Seq::empty() });
        streamer
    }

    /// The stream.
    pub fn get_ref(&self) -> (stream: &Stream)
        ensures
            *stream == self@.stream,
    {
        &self.stream
    }

    /// The stream, for reading and writing.
    pub fn get_mut(&mut self) -> (stream: &mut Stream)
        ensures
            *stream == old(self)@.stream,
            final(self)@ == (Layer8StreamerView {
                stream: *final(stream),
                socket: old(self)@.socket,
                shared_secret: old(self)@.shared_secret,
                role: old(self)@.role,
                config: old(self)@.config,
            }),
    {
        &mut self.stream
    }

    /// The shared secret, if there is one.
    pub fn shared_secret(&self) -> (secret: Option<&Key>)
        ensures
            match (secret, self@.shared_secret) {
                (Some(held), Some(key)) => *held == key,
                (None, None) => true,
                _ => false,
            },
    {
        self.shared_secret.as_ref()
    }

    /// Sets the shared secret: from now on the encrypted path is taken.
    pub fn set_shared_secret(&mut self, key: Key)
        ensures
            final(self)@ == (Layer8StreamerView {
                stream: old(self)@.stream,
                socket: old(self)@.socket,
                shared_secret: Some(key),
                role: old(self)@.role,
                config: old(self)@.config,
            }),
    {
        self.shared_secret = Some(key);
    }

    /// The role.
    pub fn role(&self) -> (role: Role)
        ensures
            role == self@.role,
    {
        self.role
    }

    /// The options.
    pub fn config(&self) -> (config: WebSocketConfig)
        ensures
            config == self@.config,
    {
        self.config
    }

    /// Replaces the options.
    pub fn set_config(&mut self, config: WebSocketConfig)
        ensures
            final(self)@ == (Layer8StreamerView {
                stream: old(self)@.stream,
                socket: old(self)@.socket,
                shared_secret: old(self)@.shared_secret,
                role: old(self)@.role,
                config,
            }),
    {
        self.config = config;
    }

    /// Takes in bytes that the stream delivered.
    pub fn feed(&mut self, bytes: &[u8])
        ensures
            final(self)@ == old(self)@.with_input(old(self)@.socket.input + bytes@),
    {
        self.frame_socket.feed(bytes);
        assert(self@.socket =~= old(self)@.with_input(old(self)@.socket.input + bytes@).socket);
    }
}

/// Whether a frame is a fragment.
fn frame_is_fragment(frame: &Frame) -> (fragment: bool)
    ensures
        fragment == is_fragment(frame@),
{
    !frame.header.is_final || match frame.header.opcode {
        OpCode::Continuation => true,
        _ => false,
    }
}

/// Turns a message into the frame that travels inside an envelope.
fn into_inner_frame(message: Message) -> (frame: Result<Frame, Error>)
    ensures
        crate::frame::frame_result_view(frame) == inner_frame(message@),
{
    match message.into_frame() {
        Err(e) => Err(e),
        Ok(frame) => if frame_is_fragment(&frame) {
            Err(Error::Protocol(ProtocolError::FragmentedEncryptedFrame))
        } else {
            Ok(frame)
        },
    }
}

/// Reads the frame inside opened bytes with a reader of its own, which starts at their
/// first byte and shares nothing with the socket of the connection.
pub fn read_nested_frame(plain: Vec<u8>, limit: u64) -> (frame: Result<Frame, Error>)
    ensures
        crate::frame::frame_result_view(frame) == nested_frame(plain@, limit),
{
    let mut reader = FrameSocket::from_bytes(plain);
    match reader.read(Some(limit)) {
        Err(e) => Err(e),
        Ok(None) => Err(Error::NestedFrameMissing),
        Ok(Some(frame)) => if frame_is_fragment(&frame) {
            Err(Error::Protocol(ProtocolError::FragmentedEncryptedFrame))
        } else {
            Ok(frame)
        },
    }
}

impl<Stream, Key> Layer8Streamer<Stream, Key> {
    /// Writes a message.
    ///
    /// Without a shared secret the frame of the message is queued for the next flush. A
    /// frame built by hand that carries a masking key is queued as built, masked with its
    /// own key; a frame without a key is masked with `mask_key` if this end is a client,
    /// and not at all if it is a server. With a shared secret nothing is queued yet: the
    /// inner frame is handed out as bytes, to be sealed and given to `write_sealed`.
    /// `mask_key` must be fresh for every call.
    ///
    /// A ping, pong or close of more than 125 bytes is a protocol error, and so is a
    /// fragment on the encrypted path. An error leaves the streamer as it was.
    pub fn write(&mut self, message: Message, mask_key: [u8; 4]) -> (step: Result<WriteStep, Error>)
        ensures
            ({
                let (output, outcome) = write_step(
                    old(self)@.encrypted(),
                    old(self)@.role,
                    old(self)@.socket.output,
                    message@,
                    mask_key,
                );
                final(self)@ == old(self)@.with_output(output) && write_result_view(step)
                    == outcome
            }),
    {
        if self.shared_secret.is_some() {
            match into_inner_frame(message) {
                Err(e) => {
                    assert(self@.socket =~= old(self)@.socket);
                    Err(e)
                },
                Ok(frame) => {
                    let mut inner: Vec<u8> = Vec::new();
                    frame.format_into_buf(&mut inner);
                    assert(inner@ =~= frame@.wire());
                    assert(self@.socket =~= old(self)@.socket);
                    Ok(WriteStep::Seal(inner))
                },
            }
        } else {
            match message.into_frame() {
                Err(e) => {
                    assert(self@.socket =~= old(self)@.socket);
                    Err(e)
                },
                Ok(frame) => {
                    let sent = self.role.mask_outbound(frame, mask_key);
                    self.frame_socket.write(sent);
                    assert(self@.socket =~= old(self)@.with_output(
                        old(self)@.socket.output + sent@.wire(),
                    ).socket);
                    Ok(WriteStep::Queued)
                },
            }
        }
    }

    /// Takes the result of sealing what `write` handed out.
    ///
    /// Sealed bytes are queued as the payload of a final binary frame, masked with
    /// `mask_key` if this end is a client. A failure queues nothing and comes back as a
    /// crypto or an envelope error.
    pub fn write_sealed(&mut self, sealed: Result<Vec<u8>, CipherFailure>, mask_key: [u8; 4]) -> (done:
        Result<(), Error>)
        ensures
            ({
                let (output, outcome) = sealed_step(
                    old(self)@.role,
                    old(self)@.socket.output,
                    cipher_result_view(sealed),
                    mask_key,
                );
                final(self)@ == old(self)@.with_output(output) && done == outcome
            }),
    {
        match sealed {
            Err(failure) => {
                assert(self@.socket =~= old(self)@.socket);
                Err(cipher_failure_error(failure))
            },
            Ok(transport) => {
                let outer = Frame {
                    header: FrameHeader::new(OpCode::Binary, true),
                    payload: transport,
                };
                let sent = self.role.mask_outbound(outer, mask_key);
                self.frame_socket.write(sent);
                assert(self@.socket =~= old(self)@.with_output(
                    old(self)@.socket.output + sent@.wire(),
                ).socket);
                Ok(())
            },
        }
    }

    /// Hands out the bytes of everything written since the last flush. The owner writes
    /// them to the stream and flushes it.
    pub fn flush(&mut self) -> (bytes: Vec<u8>)
        ensures
            bytes@ == old(self)@.socket.output,
            final(self)@ == old(self)@.with_output(Seq::empty()),
    {
        let bytes = self.frame_socket.flush();
        assert(self@.socket =~= old(self)@.with_output(Seq::empty()).socket);
        bytes
    }

    /// Writes a message and flushes.
    ///
    /// Without a shared secret the bytes to transmit are handed out: all that waited, then
    /// the frame of the message. With a shared secret the inner frame is handed out as for
    /// `write`, to be sealed and given to `send_sealed`. An error leaves the streamer as it
    /// was.
    pub fn send(&mut self, message: Message, mask_key: [u8; 4]) -> (step: Result<SendStep, Error>)
        ensures
            ({
                let (output, outcome) = write_step(
                    old(self)@.encrypted(),
                    old(self)@.role,
                    old(self)@.socket.output,
                    message@,
                    mask_key,
                );
                match outcome {
                    Err(e) => final(self)@ == old(self)@ && step == Err::<SendStep, Error>(e),
                    Ok(WriteStepView::Seal(inner)) => final(self)@ == old(self)@ && step is Ok
                        && step->Ok_0@ == SendStepView::Seal(inner),
                    Ok(WriteStepView::Queued) => final(self)@ == old(self)@.with_output(
                        Seq::empty(),
                    ) && step is Ok && step->Ok_0@ == SendStepView::Transmit(output),
                }
            }),
    {
        match self.write(message, mask_key) {
            Err(e) => Err(e),
            Ok(WriteStep::Seal(inner)) => Ok(SendStep::Seal(inner)),
            Ok(WriteStep::Queued) => Ok(SendStep::Transmit(self.flush())),
        }
    }

    /// Takes the result of sealing what `send` handed out, and flushes: on success the
    /// bytes to transmit are handed out, all that waited and then the outer frame.
    pub fn send_sealed(&mut self, sealed: Result<Vec<u8>, CipherFailure>, mask_key: [u8; 4]) -> (bytes:
        Result<Vec<u8>, Error>)
        ensures
            ({
                let (output, outcome) = sealed_step(
                    old(self)@.role,
                    old(self)@.socket.output,
                    cipher_result_view(sealed),
                    mask_key,
                );
                match outcome {
                    Err(e) => final(self)@ == old(self)@ && bytes == Err::<Vec<u8>, Error>(e),
                    Ok(_) => final(self)@ == old(self)@.with_output(Seq::empty()) && bytes is Ok
                        && bytes->Ok_0@ == output,
                }
            }),
    {
        match self.write_sealed(sealed, mask_key) {
            Err(e) => Err(e),
            Ok(()) => Ok(self.flush()),
        }
    }

    /// Reads from the bytes that have arrived.
    ///
    /// `Ok(None)` says that they end before a frame does: the owner feeds more and reads
    /// again, and asks `end_of_stream` once the stream reports its end. A complete frame
    /// is taken out of the input; a server refuses it without a masking key unless the
    /// options tolerate that. Without a shared secret the frame is delivered as a frame
    /// message. With one, its payload is handed out to be opened and given to
    /// `read_opened`; an outer frame that is a fragment is a protocol error.
    pub fn read(&mut self) -> (step: Result<Option<ReadStep>, Error>)
        ensures
            ({
                let (input, outcome) = read_step(
                    old(self)@.encrypted(),
                    old(self)@.role,
                    old(self)@.config,
                    old(self)@.socket.input,
                );
                final(self)@ == old(self)@.with_input(input) && read_result_view(step) == outcome
            }),
    {
        let read = self.frame_socket.read(Some(self.config.max_read_size));
        assert(self@.socket =~= old(self)@.with_input(self@.socket.input).socket);
        let frame = match read {
            Err(e) => {
                return Err(e);
            },
            Ok(None) => {
                return Ok(None);
            },
            Ok(Some(frame)) => frame,
        };
        let taken = match self.role.accept_inbound(&self.config, frame) {
            Err(e) => {
                return Err(e);
            },
            Ok(taken) => taken,
        };
        if self.shared_secret.is_none() {
            Ok(Some(ReadStep::Deliver(Message::Frame(taken))))
        } else if frame_is_fragment(&taken) {
            Err(Error::Protocol(ProtocolError::FragmentedEncryptedFrame))
        } else {
            Ok(Some(ReadStep::Open(taken.payload)))
        }
    }

    /// Judges the end of the stream. The owner calls this when the stream reports that it
    /// has ended, after a read that found no frame.
    ///
    /// With no bytes pending the end is clean: the owner reports that there is no further
    /// message, which is no error. With bytes pending the stream ended inside a frame: that
    /// is a failure of the stream, and what arrived of the frame is not handed out.
    pub fn end_of_stream(&self) -> (end: Result<(), Error>)
        ensures
            end == crate::socket::end_of_input(self@.socket.input),
            self@.socket.input.len() == 0 ==> end is Ok,
            self@.socket.input.len() > 0 ==> end == Err::<(), Error>(Error::Io),
    {
        self.frame_socket.end_of_stream()
    }

    /// The number of bytes that arrived and are not yet read as frames.
    pub fn pending_input(&self) -> (n: usize)
        ensures
            n == self@.socket.input.len(),
    {
        self.frame_socket.pending_input()
    }

    /// Takes the result of opening what `read` handed out.
    ///
    /// Opened bytes are read as a frame stream of their own, from their first byte on, and
    /// the one frame in them is delivered as a frame message. Bytes that hold no complete
    /// frame are an error of their own. A failure to open comes back as a crypto or an
    /// envelope error: nothing is ever delivered in its place.
    pub fn read_opened(&self, opened: Result<Vec<u8>, CipherFailure>) -> (message: Result<
        Message,
        Error,
    >)
        ensures
            crate::message::message_result_view(message) == opened_step(
                self@.config,
                cipher_result_view(opened),
            ),
    {
        match opened {
            Err(failure) => Err(cipher_failure_error(failure)),
            Ok(plain) => match read_nested_frame(plain, self.config.max_read_size) {
                Err(e) => Err(e),
                Ok(frame) => Ok(Message::Frame(frame)),
            },
        }
    }
}

/// The error that a cipher failure surfaces as.
pub fn cipher_failure_error(failure: CipherFailure) -> (error: Error)
    ensures
        error == cipher_error(failure),
{
    match failure {
        CipherFailure::Crypto => Error::Crypto,
        CipherFailure::Envelope => Error::Envelope,
    }
}

} // verus!
