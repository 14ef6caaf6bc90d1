//! What holds of two streamers that talk to each other: what one writes, the other reads.

use crate::error::Error;
use crate::frame::FrameView;
use crate::layer8_streamer::{
    cipher_error, inner_frame, opened_step, outer_frame, read_step, sealed_step, write_step,
    CipherFailure, ReadStepView, WriteStepView,
};
use crate::message::{frame_message, message_frame, MessageView};
use crate::message_laws::{lemma_message_frame_well_formed, lemma_message_round_trip};
use crate::role::{with_mask, Role, WebSocketConfig};
use crate::socket::{end_of_input, read_outcome};
use crate::wire_laws::lemma_frame_round_trip;
use vstd::prelude::*;

verus! {

/// Whether a reader takes in a frame as a writer sends it. A server reads only masked
/// frames, unless its options tolerate unmasked ones; a frame is masked on the wire if it
/// carries a key of its own or a client sends it.
pub open spec fn reader_accepts(
    writer: Role,
    reader: Role,
    config: WebSocketConfig,
    frame: FrameView,
) -> bool {
    frame.header.mask is Some || writer is Client || reader is Client
        || config.accept_unmasked_frames
}

/// A well-formed frame within the limit that one end sends is the frame that the other end
/// takes out of its input, whatever follows it there. It arrives with the payload in the
/// clear and without its masking key.
pub proof fn lemma_frame_crosses(
    frame: FrameView,
    writer: Role,
    reader: Role,
    config: WebSocketConfig,
    mask_key: [u8; 4],
    rest: Seq<u8>,
)
    requires
        frame.well_formed(),
        frame.payload.len() <= config.max_read_size,
        reader_accepts(writer, reader, config, frame),
    ensures
        read_outcome(writer.outbound(frame, mask_key).wire() + rest, config.max_read_size) == (
            rest,
            Ok::<Option<FrameView>, Error>(Some(writer.outbound(frame, mask_key))),
        ),
        reader.inbound(config, writer.outbound(frame, mask_key)) == Ok::<FrameView, Error>(
            with_mask(frame, None),
        ),
{
    let sent = writer.outbound(frame, mask_key);
    let wire = sent.wire();
    lemma_frame_round_trip(sent, rest, config.max_read_size);
    assert((wire + rest).subrange(wire.len() as int, (wire + rest).len() as int) =~= rest);
}

/// A frame built by hand is written as built where it carries a masking key, under that key
/// and whatever the role; and a server writes every frame built by hand as built.
pub proof fn lemma_hand_built_frame_is_written_as_built(
    frame: FrameView,
    role: Role,
    output: Seq<u8>,
    mask_key: [u8; 4],
)
    requires
        frame.header.mask is Some || role is Server,
    ensures
        write_step(false, role, output, MessageView::Frame(frame), mask_key) == (
            output + frame.wire(),
            Ok::<WriteStepView, Error>(WriteStepView::Queued),
        ),
{
}

/// Plain round trip. A message that can be framed, within the reader's limit, is written by
/// one end and read by the other as a frame message; the frame is the frame of
/// the message, without masking key; and read as a message it is the message that was
/// written. A frame built by hand must be well formed, and arrives as the frame it is.
pub proof fn lemma_plain_round_trip(
    message: MessageView,
    writer: Role,
    reader: Role,
    config: WebSocketConfig,
    mask_key: [u8; 4],
    rest: Seq<u8>,
)
    requires
        message_frame(message) is Ok,
        message is Frame ==> message->Frame_0.well_formed(),
        message_frame(message)->Ok_0.payload.len() <= config.max_read_size,
        reader_accepts(writer, reader, config, message_frame(message)->Ok_0),
    ensures
        ({
            let frame = message_frame(message)->Ok_0;
            let (output, written) = write_step(false, writer, Seq::empty(), message, mask_key);
            &&& written == Ok::<WriteStepView, Error>(WriteStepView::Queued)
            &&& read_step(false, reader, config, output + rest) == (
                rest,
                Ok::<Option<ReadStepView>, Error>(
                    Some(ReadStepView::Deliver(MessageView::Frame(with_mask(frame, None)))),
                ),
            )
            &&& !(message is Frame) ==> frame_message(with_mask(frame, None)) == Ok::<
                MessageView,
                Error,
            >(message)
        }),
{
    let frame = message_frame(message)->Ok_0;
    if !(message is Frame) {
        lemma_message_frame_well_formed(message);
    }
    lemma_frame_crosses(frame, writer, reader, config, mask_key, rest);
    let wire = writer.outbound(frame, mask_key).wire();
    assert(Seq::<u8>::empty() + wire =~= wire);
    if !(message is Frame) {
        lemma_message_round_trip(message);
        assert(with_mask(frame, None) == frame);
    }
}

/// Encrypted round trip. The sender hands out the wire form of the inner frame to be
/// sealed. Whatever bytes sealing gives, within the reader's limit, they are what the
/// receiver hands out to be opened. And if opening gives back what was sealed, the receiver
/// delivers the sender's inner frame, which read as a message is the message that was sent.
pub proof fn lemma_encrypted_round_trip(
    message: MessageView,
    writer: Role,
    reader: Role,
    config: WebSocketConfig,
    transport: Seq<u8>,
    inner_key: [u8; 4],
    outer_key: [u8; 4],
    rest: Seq<u8>,
)
    requires
        inner_frame(message) is Ok,
        message is Frame ==> message->Frame_0.well_formed(),
        inner_frame(message)->Ok_0.payload.len() <= config.max_read_size,
        transport.len() <= config.max_read_size,
        reader_accepts(writer, reader, config, outer_frame(transport)),
    ensures
        ({
            let inner = inner_frame(message)->Ok_0;
            let (waiting, written) = write_step(true, writer, Seq::empty(), message, inner_key);
            let (output, queued) = sealed_step(
                writer,
                waiting,
                Ok::<Seq<u8>, CipherFailure>(transport),
                outer_key,
            );
            &&& written == Ok::<WriteStepView, Error>(WriteStepView::Seal(inner.wire()))
            &&& queued == Ok::<(), Error>(())
            &&& read_step(true, reader, config, output + rest) == (
                rest,
                Ok::<Option<ReadStepView>, Error>(Some(ReadStepView::Open(transport))),
            )
            &&& opened_step(config, Ok::<Seq<u8>, CipherFailure>(inner.wire())) == Ok::<
                MessageView,
                Error,
            >(MessageView::Frame(inner))
            &&& !(message is Frame) ==> frame_message(inner) == Ok::<MessageView, Error>(message)
        }),
{
    let inner = inner_frame(message)->Ok_0;
    if !(message is Frame) {
        lemma_message_frame_well_formed(message);
    }
    let outer = outer_frame(transport);
    lemma_frame_crosses(outer, writer, reader, config, outer_key, rest);
    let wire = writer.outbound(outer, outer_key).wire();
    assert(Seq::<u8>::empty() + wire =~= wire);
    lemma_frame_round_trip(inner, Seq::empty(), config.max_read_size);
    assert(inner.wire() + Seq::<u8>::empty() =~= inner.wire());
    if !(message is Frame) {
        lemma_message_round_trip(message);
    }
}

/// A failure to open is never passed over: it comes back as a crypto or an envelope error,
/// and no message is delivered.
pub proof fn lemma_failed_opening_is_an_error(config: WebSocketConfig, failure: CipherFailure)
    ensures
        opened_step(config, Err::<Seq<u8>, CipherFailure>(failure)) == Err::<MessageView, Error>(
            cipher_error(failure),
        ),
        cipher_error(failure) == Error::Crypto || cipher_error(failure) == Error::Envelope,
{
}

/// Opened bytes that end before their frame does hold no frame: the read fails, and asks
/// for no more bytes.
pub proof fn lemma_unfinished_nested_frame_is_missing(
    frame: FrameView,
    n: int,
    config: WebSocketConfig,
)
    requires
        frame.well_formed(),
        frame.payload.len() <= config.max_read_size,
        0 <= n < frame.wire().len(),
    ensures
        opened_step(config, Ok::<Seq<u8>, CipherFailure>(frame.wire().subrange(0, n))) == Err::<
            MessageView,
            Error,
        >(Error::NestedFrameMissing),
{
    crate::wire_laws::lemma_partial_frame_incomplete(frame, n, config.max_read_size);
}

/// The end of the stream. With nothing pending a read finds no frame, and the end is clean.
/// And whenever a read finds no frame and the stream has ended, the end is clean exactly if
/// nothing is pending: a stream that ended inside a frame is a failure.
pub proof fn lemma_end_of_stream(
    encrypted: bool,
    role: Role,
    config: WebSocketConfig,
    input: Seq<u8>,
)
    ensures
        input.len() == 0 ==> read_step(encrypted, role, config, input) == (
            input,
            Ok::<Option<ReadStepView>, Error>(None),
        ),
        read_step(encrypted, role, config, input).1 == Ok::<Option<ReadStepView>, Error>(None)
            ==> read_step(encrypted, role, config, input).0 == input && (end_of_input(input)
            is Ok <==> input.len() == 0),
        input.len() > 0 ==> end_of_input(input) == Err::<(), Error>(Error::Io),
{
}

} // verus!
