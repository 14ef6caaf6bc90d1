//! What holds of messages and the frames that carry them.

use crate::coding::{be_bytes, lemma_be_bytes_len, lemma_be_round_trip, pow256};
use crate::error::{Error, ProtocolError};
use crate::frame::{close_payload, FrameView};
use crate::message::{frame_message, message_frame, parse_close, MessageView};
use vstd::prelude::*;
use vstd::utf8::{encode_utf8, encode_utf8_decode_utf8, encode_utf8_valid_utf8};

verus! {

/// The payload that a message puts into its frame.
pub open spec fn message_payload(message: MessageView) -> Seq<u8> {
    match message {
        MessageView::Text(text) => encode_utf8(text),
        MessageView::Binary(data) => data,
        MessageView::Ping(data) => data,
        MessageView::Pong(data) => data,
        MessageView::Close(close) => close_payload(close),
        MessageView::Frame(frame) => frame.payload,
    }
}

/// A ping, pong or close is refused exactly when its payload has more than 125 bytes, and
/// then with the protocol error for an oversized control frame; text and binary data are
/// never refused.
pub proof fn lemma_control_limit(message: MessageView)
    requires
        !(message is Frame),
    ensures
        message_frame(message) is Err <==> (message is Ping || message is Pong || message is Close)
            && message_payload(message).len() > 125,
        message_frame(message) is Err ==> message_frame(message) == Err::<FrameView, Error>(
            Error::Protocol(ProtocolError::ControlFrameTooBig),
        ),
{
}

/// The frame that carries a message is well formed and carries the message's payload.
pub proof fn lemma_message_frame_well_formed(message: MessageView)
    requires
        !(message is Frame),
        message_frame(message) is Ok,
    ensures
        message_frame(message)->Ok_0.well_formed(),
        message_frame(message)->Ok_0.header.is_final,
        message_frame(message)->Ok_0.header.mask is None,
        message_frame(message)->Ok_0.payload == message_payload(message),
{
}

/// The status code and reason of a close are read back from its payload.
pub proof fn lemma_close_round_trip(close: Option<crate::frame::CloseFrameView>)
    ensures
        parse_close(close_payload(close)) == Ok::<Option<crate::frame::CloseFrameView>, Error>(
            close,
        ),
{
    match close {
        None => {},
        Some(c) => {
            let code = be_bytes(c.code as nat, 2);
            let reason = encode_utf8(c.reason);
            let payload = close_payload(close);
            lemma_be_bytes_len(c.code as nat, 2);
            reveal_with_fuel(pow256, 3);
            lemma_be_round_trip(c.code as nat, 2);
            assert(payload.subrange(0, 2) =~= code);
            assert(payload.subrange(2, payload.len() as int) =~= reason);
            encode_utf8_valid_utf8(c.reason);
            encode_utf8_decode_utf8(c.reason);
        },
    }
}

/// A message is read back from the frame that carries it.
pub proof fn lemma_message_round_trip(message: MessageView)
    requires
        !(message is Frame),
        message_frame(message) is Ok,
    ensures
        frame_message(message_frame(message)->Ok_0) == Ok::<MessageView, Error>(message),
{
    match message {
        MessageView::Text(text) => {
            encode_utf8_valid_utf8(text);
            encode_utf8_decode_utf8(text);
        },
        MessageView::Close(close) => {
            lemma_close_round_trip(close);
        },
        _ => {},
    }
}

} // verus!
