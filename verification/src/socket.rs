//! A frame socket over byte buffers: it turns the bytes that arrive into frames and the
//! frames that leave into bytes, and leaves moving the bytes to its owner.

use crate::error::Error;
use crate::frame::{append_bytes, parse_frame, Frame, FrameView};
use vstd::prelude::*;

verus! {

/// The payload limit of a read that names none: one GiB.
pub const MAX_READ_LIMIT: u64 = 1073741824;

/// The payload limit in force for a read.
pub open spec fn effective_limit(size_limit: Option<u64>) -> u64 {
    match size_limit {
        Some(limit) => limit,
        None => MAX_READ_LIMIT,
    }
}

/// Reads and writes one frame at a time.
///
/// Bytes that the stream delivered are handed in with `feed`, and are kept until they make a
/// whole frame. Frames that are written are kept as bytes until `flush` hands them out.
#[derive(Debug)]
pub struct FrameSocket {
    in_buffer: Vec<u8>,
    out_buffer: Vec<u8>,
}

/// A `FrameSocket` as a mathematical value.
pub struct FrameSocketView {
    /// The bytes that arrived and are not yet read as frames.
    pub input: Seq<u8>,
    /// The bytes of the frames that were written and are not yet handed out.
    pub output: Seq<u8>,
}

impl View for FrameSocket {
    type V = FrameSocketView;

    closed spec fn view(&self) -> FrameSocketView {
        FrameSocketView { input: self.in_buffer@, output: self.out_buffer@ }
    }
}

/// What a read leaves of the input `input` and what it hands back, under the payload limit
/// `limit`: a complete frame at the start of the input is taken out of it; otherwise the
/// input stays as it is, and the read reports that no frame is there yet (`Ok(None)`) or the
/// protocol error.
pub open spec fn read_outcome(input: Seq<u8>, limit: u64) -> (Seq<u8>, Result<
    Option<FrameView>,
    Error,
>) {
    match parse_frame(input, limit) {
        Ok(Some((frame, consumed))) => (
            input.subrange(consumed as int, input.len() as int),
            Ok(Some(frame)),
        ),
        Ok(None) => (input, Ok(None)),
        Err(e) => (input, Err(e)),
    }
}

/// What the end of the stream means with `input` pending: a clean end if nothing is
/// pending, and a failure of the stream if it ended inside a frame.
pub open spec fn end_of_input(input: Seq<u8>) -> Result<(), Error> {
    if input.len() == 0 {
        Ok(())
    } else {
        Err(Error::Io)
    }
}

/// The view of what a read hands back.
pub open spec fn read_view(result: Result<Option<Frame>, Error>) -> Result<
    Option<FrameView>,
    Error,
> {
    match result {
        Ok(Some(frame)) => Ok(Some(frame@)),
        Ok(None) => Ok(None),
        Err(e) => Err(e),
    }
}

/// The payload limit in force for a read: the one that is named, else one GiB.
pub fn read_limit(size_limit: Option<u64>) -> (limit: u64)
    ensures
        limit == effective_limit(size_limit),
{
    match size_limit {
        Some(limit) => limit,
        None => MAX_READ_LIMIT,
    }
}

impl FrameSocket {
    /// A socket with nothing buffered.
    pub fn new() -> (socket: FrameSocket)
        ensures
            socket@.input == Seq::<u8>::empty(),
            socket@.output == Seq::<u8>::empty(),
    {
        FrameSocket { in_buffer: Vec::new(), out_buffer: Vec::new() }
    }

    /// A socket whose input is `bytes`: a reader over an owned buffer, positioned at its
    /// first byte.
    pub fn from_bytes(bytes: Vec<u8>) -> (socket: FrameSocket)
        ensures
            socket@.input == bytes@,
            socket@.output == Seq::<u8>::empty(),
    {
        FrameSocket { in_buffer: bytes, out_buffer: Vec::new() }
    }

    /// Takes in bytes that the stream delivered, behind those that wait already.
    pub fn feed(&mut self, bytes: &[u8])
        ensures
            final(self)@.input == old(self)@.input + bytes@,
            final(self)@.output == old(self)@.output,
    {
        append_bytes(&mut self.in_buffer, bytes);
    }

    /// The number of bytes that arrived and are not yet read as frames.
    pub fn pending_input(&self) -> (n: usize)
        ensures
            n == self@.input.len(),
    {
        self.in_buffer.len()
    }

    /// The number of bytes that were written and are not yet handed out.
    pub fn pending_output(&self) -> (n: usize)
        ensures
            n == self@.output.len(),
    {
        self.out_buffer.len()
    }

    /// Reads one frame from the bytes that have arrived.
    ///
    /// `size_limit` bounds the payload; without one the bound is one GiB. A complete frame
    /// is taken out of the input and handed back. `Ok(None)` says that the input ends
    /// before the frame does: the caller feeds more bytes and reads again, and asks
    /// `end_of_stream` once the stream reports its end. An error leaves the input as it is.
    pub fn read(&mut self, size_limit: Option<u64>) -> (frame: Result<Option<Frame>, Error>)
        ensures
            (final(self)@.input, read_view(frame)) == read_outcome(
                old(self)@.input,
                effective_limit(size_limit),
            ),
            final(self)@.output == old(self)@.output,
    {
        let limit: u64 = read_limit(size_limit);
        match Frame::parse(self.in_buffer.as_slice(), limit) {
            Err(e) => Err(e),
            Ok(None) => Ok(None),
            Ok(Some((frame, consumed))) => {
                let rest: Vec<u8> = self.in_buffer.split_off(consumed);
                self.in_buffer = rest;
                Ok(Some(frame))
            },
        }
    }

    /// Judges the end of the stream, for the caller to whom the stream reported it after a
    /// read that found no frame: a clean end if no bytes are pending, and a failure of the
    /// stream if it ended inside a frame.
    pub fn end_of_stream(&self) -> (end: Result<(), Error>)
        ensures
            end == end_of_input(self@.input),
            self@.input.len() == 0 ==> end is Ok,
            self@.input.len() > 0 ==> end == Err::<(), Error>(Error::Io),
    {
        if self.in_buffer.len() == 0 {
            Ok(())
        } else {
            Err(Error::Io)
        }
    }

    /// Writes one frame: its wire form goes behind the bytes that wait to be handed out.
    pub fn write(&mut self, frame: Frame)
        ensures
            final(self)@.output == old(self)@.output + frame@.wire(),
            final(self)@.input == old(self)@.input,
    {
        frame.format_into_buf(&mut self.out_buffer);
    }

    /// Hands out the bytes of all frames written since the last flush, for the stream.
    pub fn flush(&mut self) -> (bytes: Vec<u8>)
        ensures
            bytes@ == old(self)@.output,
            final(self)@.output == Seq::<u8>::empty(),
            final(self)@.input == old(self)@.input,
    {
        let mut bytes: Vec<u8> = Vec::new();
        bytes.append(&mut self.out_buffer);
        bytes
    }
}

} // verus!
