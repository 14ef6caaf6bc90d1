//! Frames: a header and a payload, written to bytes and parsed from them.

use crate::coding::{be_bytes, push_u16_be, OpCode};
use crate::error::{Error, ProtocolError};
use crate::header::{parse_header, FrameHeader, MAX_CONTROL_PAYLOAD};
use crate::mask::{apply_mask, masked};
use vstd::prelude::*;
use vstd::slice::{slice_subrange, slice_to_vec};
use vstd::string::StringSliceAdditionalSpecFns;

verus! {

/// Why a connection is closed: a status code and a reason in words.
#[derive(Debug, Clone, PartialEq, Eq)]
pub struct CloseFrame {
    /// The status code.
    pub code: u16,
    /// The reason, for a human reader.
    pub reason: String,
}

/// A `CloseFrame` as a mathematical value.
pub struct CloseFrameView {
    pub code: u16,
    pub reason: Seq<char>,
}

impl View for CloseFrame {
    type V = CloseFrameView;

    open spec fn view(&self) -> CloseFrameView {
        CloseFrameView { code: self.code, reason: self.reason@ }
    }
}

/// One frame. The payload is held in the clear; a masking key in the header only says how
/// the payload is written to the wire.
#[derive(Debug, Clone, PartialEq, Eq)]
pub struct Frame {
    /// The header.
    pub header: FrameHeader,
    /// The payload, unmasked.
    pub payload: Vec<u8>,
}

/// A `Frame` as a mathematical value.
pub struct FrameView {
    pub header: FrameHeader,
    pub payload: Seq<u8>,
}

impl View for Frame {
    type V = FrameView;

    open spec fn view(&self) -> FrameView {
        FrameView { header: self.header, payload: self.payload@ }
    }
}

impl FrameView {
    /// The payload as it is written to the wire: masked if the header holds a key.
    pub open spec fn wire_payload(self) -> Seq<u8> {
        match self.header.mask {
            Some(key) => masked(self.payload, key@),
            None => self.payload,
        }
    }

    /// The whole frame on the wire: the header, then the payload.
    pub open spec fn wire(self) -> Seq<u8> {
        self.header.wire(self.payload.len()) + self.wire_payload()
    }

    /// No reserved bit is set, and a control frame is final and carries at most 125 bytes.
    pub open spec fn well_formed(self) -> bool {
        self.header.acceptable(self.payload.len())
    }
}

/// The frame that carries `payload` under `opcode`, without reserved bits or masking key;
/// for a control opcode, refused unless it is final and of at most 125 bytes.
pub open spec fn build_frame(payload: Seq<u8>, opcode: OpCode, is_final: bool) -> Result<
    FrameView,
    Error,
> {
    if opcode.spec_is_control() && !is_final {
        Err(Error::Protocol(ProtocolError::FragmentedControlFrame))
    } else if opcode.spec_is_control() && payload.len() > 125 {
        Err(Error::Protocol(ProtocolError::ControlFrameTooBig))
    } else {
        Ok(
            FrameView {
                header: FrameHeader {
                    is_final,
                    rsv1: false,
                    rsv2: false,
                    rsv3: false,
                    opcode,
                    mask: None,
                },
                payload,
            },
        )
    }
}

/// The payload of a close frame: empty without a reason, else the status code in two bytes,
/// most significant first, and the reason in UTF-8.
pub open spec fn close_payload(close: Option<CloseFrameView>) -> Seq<u8> {
    match close {
        None => Seq::empty(),
        Some(c) => be_bytes(c.code as nat, 2) + vstd::utf8::encode_utf8(c.reason),
    }
}

/// The view of an optional close reason.
pub open spec fn close_view(close: Option<CloseFrame>) -> Option<CloseFrameView> {
    match close {
        None => None,
        Some(c) => Some(c@),
    }
}

/// The view of a frame or the error in its place.
pub open spec fn frame_result_view(result: Result<Frame, Error>) -> Result<FrameView, Error> {
    match result {
        Ok(frame) => Ok(frame@),
        Err(e) => Err(e),
    }
}

/// The view of what parsing hands back.
pub open spec fn parsed_view(parsed: Result<Option<(Frame, usize)>, Error>) -> Result<
    Option<(FrameView, nat)>,
    Error,
> {
    match parsed {
        Ok(Some((frame, consumed))) => Ok(Some((frame@, consumed as nat))),
        Ok(None) => Ok(None),
        Err(e) => Err(e),
    }
}

/// What the start of `bytes` holds under the payload limit `limit`: a complete frame and the
/// number of bytes that it occupies, the beginning of a frame (`Ok(None)`), or a protocol
/// error: a header that breaks the protocol, or a payload longer than the limit. A masked
/// payload is handed back unmasked, and the key stays in the header.
pub open spec fn parse_frame(bytes: Seq<u8>, limit: u64) -> Result<Option<(FrameView, nat)>, Error> {
    match parse_header(bytes) {
        Err(e) => Err(e),
        Ok(None) => Ok(None),
        Ok(Some(h)) => if h.length > limit {
            Err(Error::Protocol(ProtocolError::FrameTooLarge))
        } else if bytes.len() - h.consumed < h.length {
            Ok(None)
        } else {
            let end = h.consumed + h.length;
            let wire = bytes.subrange(h.consumed as int, end);
            Ok(
                Some(
                    (
                        FrameView {
                            header: h.header,
                            payload: match h.header.mask {
                                Some(key) => masked(wire, key@),
                                None => wire,
                            },
                        },
                        end as nat,
                    ),
                ),
            )
        },
    }
}

/// Appends `bytes` to `out`.
pub fn append_bytes(out: &mut Vec<u8>, bytes: &[u8])
    ensures
        final(out)@ == old(out)@ + bytes@,
{
    let n: usize = bytes.len();
    let mut i: usize = 0;
    while i < n
        invariant
            i <= n,
            n == bytes.len(),
            out@ == old(out)@ + bytes@.subrange(0, i as int),
        decreases n - i,
    {
        out.push(bytes[i]);
        i = i + 1;
        assert(out@ =~= old(out)@ + bytes@.subrange(0, i as int));
    }
    assert(bytes@.subrange(0, n as int) =~= bytes@);
}

/// Appends `payload`, masked with `key`, to `out`.
fn append_masked(out: &mut Vec<u8>, payload: &[u8], key: [u8; 4])
    ensures
        final(out)@ == old(out)@ + masked(payload@, key@),
{
    let n: usize = payload.len();
    let mut i: usize = 0;
    while i < n
        invariant
            i <= n,
            n == payload.len(),
            out@ == old(out)@ + masked(payload@, key@).subrange(0, i as int),
        decreases n - i,
    {
        out.push(payload[i] ^ key[i % 4]);
        i = i + 1;
        assert(out@ =~= old(out)@ + masked(payload@, key@).subrange(0, i as int));
    }
    assert(masked(payload@, key@).subrange(0, n as int) =~= masked(payload@, key@));
}

impl Frame {
    /// A frame of `data` under `opcode`, without reserved bits or masking key.
    ///
    /// A control opcode is refused with a protocol error unless the frame is final and
    /// `data` has at most 125 bytes.
    pub fn message(data: Vec<u8>, opcode: OpCode, is_final: bool) -> (frame: Result<Frame, Error>)
        ensures
            frame_result_view(frame) == build_frame(data@, opcode, is_final),
            frame is Ok ==> frame->Ok_0@.well_formed(),
    {
        if opcode.is_control() && !is_final {
            return Err(Error::Protocol(ProtocolError::FragmentedControlFrame));
        }
        if opcode.is_control() && data.len() > MAX_CONTROL_PAYLOAD {
            return Err(Error::Protocol(ProtocolError::ControlFrameTooBig));
        }
        Ok(Frame { header: FrameHeader::new(opcode, is_final), payload: data })
    }

    /// A ping frame, or a protocol error if `data` has more than 125 bytes.
    pub fn ping(data: Vec<u8>) -> (frame: Result<Frame, Error>)
        ensures
            frame_result_view(frame) == build_frame(data@, OpCode::Ping, true),
            frame is Ok <==> data@.len() <= 125,
            frame is Ok ==> frame->Ok_0@.well_formed(),
    {
        Frame::message(data, OpCode::Ping, true)
    }

    /// A pong frame, or a protocol error if `data` has more than 125 bytes.
    pub fn pong(data: Vec<u8>) -> (frame: Result<Frame, Error>)
        ensures
            frame_result_view(frame) == build_frame(data@, OpCode::Pong, true),
            frame is Ok <==> data@.len() <= 125,
            frame is Ok ==> frame->Ok_0@.well_formed(),
    {
        Frame::message(data, OpCode::Pong, true)
    }

    /// A close frame: empty without `close`, else the status code and the reason. A protocol
    /// error if that makes more than 125 bytes, which is a reason of more than 123.
    pub fn close(close: Option<CloseFrame>) -> (frame: Result<Frame, Error>)
        ensures
            frame_result_view(frame) == build_frame(
                close_payload(close_view(close)),
                OpCode::Close,
                true,
            ),
            frame is Ok <==> close_payload(close_view(close)).len() <= 125,
            frame is Ok ==> frame->Ok_0@.well_formed(),
    {
        let mut payload: Vec<u8> = Vec::new();
        match close {
            None => {},
            Some(c) => {
                push_u16_be(&mut payload, c.code);
                append_bytes(&mut payload, c.reason.as_str().as_bytes());
            },
        }
        assert(payload@ =~= close_payload(close_view(close)));
        Frame::message(payload, OpCode::Close, true)
    }

    /// The header.
    pub fn header(&self) -> (header: &FrameHeader)
        ensures
            *header == self@.header,
    {
        &self.header
    }

    /// The payload, unmasked.
    pub fn payload(&self) -> (payload: &Vec<u8>)
        ensures
            payload@ == self@.payload,
    {
        &self.payload
    }

    /// Gives up the frame for its payload.
    pub fn into_payload(self) -> (payload: Vec<u8>)
        ensures
            payload@ == self@.payload,
    {
        self.payload
    }

    /// Whether the header holds a masking key.
    pub fn is_masked(&self) -> (masked: bool)
        ensures
            masked == (self@.header.mask is Some),
    {
        self.header.mask.is_some()
    }

    /// Appends the frame to `out` as it goes over the wire: the header, with the payload
    /// length in its shortest form, then the payload, masked if the header holds a key.
    pub fn format_into_buf(&self, out: &mut Vec<u8>)
        ensures
            final(out)@ == old(out)@ + self@.wire(),
    {
        self.header.format(self.payload.len() as u64, out);
        match self.header.mask {
            Some(key) => {
                append_masked(out, self.payload.as_slice(), key);
            },
            None => {
                append_bytes(out, self.payload.as_slice());
            },
        }
        assert(out@ =~= old(out)@ + self@.wire());
    }

    /// Parses the frame at the start of `bytes`, whose payload may have up to `limit` bytes.
    ///
    /// Gives the frame and the number of bytes that it occupies, `Ok(None)` while the frame
    /// is not complete, and a protocol error for a header that breaks the protocol or
    /// announces more than `limit` bytes.
    pub fn parse(bytes: &[u8], limit: u64) -> (parsed: Result<Option<(Frame, usize)>, Error>)
        ensures
            parsed_view(parsed) == parse_frame(bytes@, limit),
            match parsed {
                Ok(Some((frame, consumed))) => frame@.well_formed() && frame@.payload.len() <= limit
                    && consumed <= bytes@.len(),
                _ => true,
            },
    {
        let h = match FrameHeader::parse(bytes) {
            Err(e) => {
                return Err(e);
            },
            Ok(None) => {
                return Ok(None);
            },
            Ok(Some(h)) => h,
        };
        if h.length > limit {
            return Err(Error::Protocol(ProtocolError::FrameTooLarge));
        }
        let available: usize = bytes.len() - h.consumed;
        if (available as u64) < h.length {
            return Ok(None);
        }
        let length: usize = h.length as usize;
        let end: usize = h.consumed + length;
        let mut payload: Vec<u8> = slice_to_vec(slice_subrange(bytes, h.consumed, end));
        match h.header.mask {
            Some(key) => {
                apply_mask(&mut payload, key);
            },
            None => {},
        }
        Ok(Some((Frame { header: h.header, payload }, end)))
    }
}

} // verus!
