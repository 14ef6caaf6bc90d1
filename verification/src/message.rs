//! Messages: what callers send and receive, built from frames and taken apart into them.

use crate::coding::{be_value, read_u16_be, OpCode};
use crate::error::{Error, ProtocolError};
use crate::frame::{
    build_frame, close_payload, frame_result_view, CloseFrame, CloseFrameView, Frame, FrameView,
};
use vstd::prelude::*;
use vstd::slice::{slice_subrange, slice_to_vec};
use vstd::string::StringSliceAdditionalSpecFns;
use vstd::utf8::{decode_utf8, encode_utf8, valid_utf8};

verus! {

/// One message.
#[derive(Debug, Clone, PartialEq, Eq)]
pub enum Message {
    /// Text.
    Text(String),
    /// Binary data.
    Binary(Vec<u8>),
    /// A ping, with at most 125 bytes.
    Ping(Vec<u8>),
    /// A pong, with at most 125 bytes.
    Pong(Vec<u8>),
    /// A close, with or without a reason.
    Close(Option<CloseFrame>),
    /// A frame built by hand, sent as built; only a client that finds no masking key in it
    /// adds one.
    Frame(Frame),
}

/// A `Message` as a mathematical value.
pub enum MessageView {
    Text(Seq<char>),
    Binary(Seq<u8>),
    Ping(Seq<u8>),
    Pong(Seq<u8>),
    Close(Option<CloseFrameView>),
    Frame(FrameView),
}

impl View for Message {
    type V = MessageView;

    open spec fn view(&self) -> MessageView {
        match self {
            Message::Text(text) => MessageView::Text(text@),
            Message::Binary(data) => MessageView::Binary(data@),
            Message::Ping(data) => MessageView::Ping(data@),
            Message::Pong(data) => MessageView::Pong(data@),
            Message::Close(None) => MessageView::Close(None),
            Message::Close(Some(close)) => MessageView::Close(Some(close@)),
            Message::Frame(frame) => MessageView::Frame(frame@),
        }
    }
}

/// The one frame that carries a message: text and binary data in a final data frame, text
/// as UTF-8; ping, pong and close in their control frames, refused beyond 125 bytes; a
/// frame built by hand as it is.
pub open spec fn message_frame(message: MessageView) -> Result<FrameView, Error> {
    match message {
        MessageView::Text(text) => build_frame(encode_utf8(text), OpCode::Text, true),
        MessageView::Binary(data) => build_frame(data, OpCode::Binary, true),
        MessageView::Ping(data) => build_frame(data, OpCode::Ping, true),
        MessageView::Pong(data) => build_frame(data, OpCode::Pong, true),
        MessageView::Close(close) => build_frame(close_payload(close), OpCode::Close, true),
        MessageView::Frame(frame) => Ok(frame),
    }
}

/// What the payload of a close frame says: nothing if it is empty, else a status code in
/// two bytes and a reason in UTF-8. A single byte is a protocol error, a reason that is not
/// UTF-8 an encoding error.
pub open spec fn parse_close(payload: Seq<u8>) -> Result<Option<CloseFrameView>, Error> {
    if payload.len() == 0 {
        Ok(None)
    } else if payload.len() == 1 {
        Err(Error::Protocol(ProtocolError::InvalidCloseFrame))
    } else {
        let reason = payload.subrange(2, payload.len() as int);
        if valid_utf8(reason) {
            Ok(
                Some(
                    CloseFrameView {
                        code: be_value(payload.subrange(0, 2)) as u16,
                        reason: decode_utf8(reason),
                    },
                ),
            )
        } else {
            Err(Error::Encoding)
        }
    }
}

/// The message that a frame carries. A final text, binary, ping, pong or close frame is
/// the message of that kind; a continuation frame and a frame that is not final stay
/// frames. Text that is not UTF-8 is an encoding error.
pub open spec fn frame_message(frame: FrameView) -> Result<MessageView, Error> {
    if !frame.header.is_final {
        Ok(MessageView::Frame(frame))
    } else {
        match frame.header.opcode {
            OpCode::Continuation => Ok(MessageView::Frame(frame)),
            OpCode::Text => if valid_utf8(frame.payload) {
                Ok(MessageView::Text(decode_utf8(frame.payload)))
            } else {
                Err(Error::Encoding)
            },
            OpCode::Binary => Ok(MessageView::Binary(frame.payload)),
            OpCode::Ping => Ok(MessageView::Ping(frame.payload)),
            OpCode::Pong => Ok(MessageView::Pong(frame.payload)),
            OpCode::Close => match parse_close(frame.payload) {
                Ok(close) => Ok(MessageView::Close(close)),
                Err(e) => Err(e),
            },
        }
    }
}

/// The view of a message or the error in its place.
pub open spec fn message_result_view(result: Result<Message, Error>) -> Result<
    MessageView,
    Error,
> {
    match result {
        Ok(message) => Ok(message@),
        Err(e) => Err(e),
    }
}

/// `String::from_utf8` of the standard library: the bytes as a string if they are valid
/// UTF-8, and nothing if they are not. The string is made of exactly these bytes.
#[verifier::external_body]
fn string_from_utf8(bytes: Vec<u8>) -> (text: Option<String>)
    ensures
        text is Some <==> valid_utf8(bytes@),
        text is Some ==> encode_utf8(text->0@) == bytes@,
{
    String::from_utf8(bytes).ok()
}

/// Text from bytes: the string that the bytes spell in UTF-8, or an encoding error.
fn text_from_bytes(bytes: Vec<u8>) -> (text: Result<String, Error>)
    ensures
        valid_utf8(bytes@) ==> text is Ok && text->Ok_0@ == decode_utf8(bytes@),
        !valid_utf8(bytes@) ==> text == Err::<String, Error>(Error::Encoding),
{
    match string_from_utf8(bytes) {
        Some(text) => {
            proof {
                vstd::utf8::encode_utf8_decode_utf8(text@);
            }
            Ok(text)
        },
        None => Err(Error::Encoding),
    }
}

impl Message {
    /// A text message from bytes, or an encoding error if they are not valid UTF-8.
    pub fn text(bytes: Vec<u8>) -> (message: Result<Message, Error>)
        ensures
            message_result_view(message) == if valid_utf8(bytes@) {
                Ok::<MessageView, Error>(MessageView::Text(decode_utf8(bytes@)))
            } else {
                Err::<MessageView, Error>(Error::Encoding)
            },
    {
        match text_from_bytes(bytes) {
            Ok(text) => Ok(Message::Text(text)),
            Err(e) => Err(e),
        }
    }

    /// Whether the message is text.
    pub fn is_text(&self) -> (yes: bool)
        ensures
            yes == (self@ is Text),
    {
        match self {
            Message::Text(_) => true,
            _ => false,
        }
    }

    /// Whether the message is binary data.
    pub fn is_binary(&self) -> (yes: bool)
        ensures
            yes == (self@ is Binary),
    {
        match self {
            Message::Binary(_) => true,
            _ => false,
        }
    }

    /// Whether the message is a ping.
    pub fn is_ping(&self) -> (yes: bool)
        ensures
            yes == (self@ is Ping),
    {
        match self {
            Message::Ping(_) => true,
            _ => false,
        }
    }

    /// Whether the message is a pong.
    pub fn is_pong(&self) -> (yes: bool)
        ensures
            yes == (self@ is Pong),
    {
        match self {
            Message::Pong(_) => true,
            _ => false,
        }
    }

    /// Whether the message is a close.
    pub fn is_close(&self) -> (yes: bool)
        ensures
            yes == (self@ is Close),
    {
        match self {
            Message::Close(_) => true,
            _ => false,
        }
    }

    /// Turns the message into the one frame that carries it.
    ///
    /// A ping, pong or close of more than 125 bytes is refused with a protocol error here,
    /// before anything is written.
    pub fn into_frame(self) -> (frame: Result<Frame, Error>)
        ensures
            frame_result_view(frame) == message_frame(self@),
    {
        match self {
            Message::Text(text) => {
                let data: Vec<u8> = slice_to_vec(text.as_str().as_bytes());
                Frame::message(data, OpCode::Text, true)
            },
            Message::Binary(data) => Frame::message(data, OpCode::Binary, true),
            Message::Ping(data) => Frame::ping(data),
            Message::Pong(data) => Frame::pong(data),
            Message::Close(close) => Frame::close(close),
            Message::Frame(frame) => Ok(frame),
        }
    }

    /// Reads the message that a frame carries.
    ///
    /// A continuation frame and a frame that is not final are handed back as frames. Text
    /// and close reasons that are not UTF-8 give an encoding error, a close frame of one
    /// byte a protocol error.
    pub fn from_frame(frame: Frame) -> (message: Result<Message, Error>)
        ensures
            message_result_view(message) == frame_message(frame@),
    {
        if !frame.header.is_final {
            return Ok(Message::Frame(frame));
        }
        match frame.header.opcode {
            OpCode::Continuation => Ok(Message::Frame(frame)),
            OpCode::Text => match text_from_bytes(frame.payload) {
                Ok(text) => Ok(Message::Text(text)),
                Err(e) => Err(e),
            },
            OpCode::Binary => Ok(Message::Binary(frame.payload)),
            OpCode::Ping => Ok(Message::Ping(frame.payload)),
            OpCode::Pong => Ok(Message::Pong(frame.payload)),
            OpCode::Close => {
                let n: usize = frame.payload.len();
                if n == 0 {
                    Ok(Message::Close(None))
                } else if n == 1 {
                    Err(Error::Protocol(ProtocolError::InvalidCloseFrame))
                } else {
                    let code: u16 = read_u16_be(frame.payload.as_slice(), 0);
                    let reason: Vec<u8> = slice_to_vec(
                        slice_subrange(frame.payload.as_slice(), 2, n),
                    );
                    match text_from_bytes(reason) {
                        Ok(reason) => Ok(Message::Close(Some(CloseFrame { code, reason }))),
                        Err(e) => Err(e),
                    }
                }
            },
        }
    }
}

} // verus!
