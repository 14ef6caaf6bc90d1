//! What holds of the wire format: frames are read back as they were written, lengths are
//! written in their shortest form, and a frame that has not arrived whole is waited for.

use crate::coding::{
    be_bytes, be_value, lemma_be_bytes_len, lemma_be_round_trip, lemma_code_round_trip, pow256,
};
use crate::frame::{parse_frame, FrameView};
use crate::socket::read_outcome;
use crate::header::{
    extended_width, key_at, length_code, mask_bytes, parse_header, FrameHeader, HeaderParse,
};
use vstd::prelude::*;

verus! {

/// Whether `length` can be written in a length field with `width` extended bytes: up to 125
/// in the seven bits alone, else below 256 to the power `width`.
pub open spec fn fits_width(length: nat, width: nat) -> bool {
    if width == 0 {
        length <= 125
    } else {
        length < pow256(width)
    }
}

/// The length field is minimal: of the three forms, with no, two or eight extended bytes,
/// the one written is the shortest that can hold the length.
pub proof fn lemma_length_field_minimal(length: nat, width: nat)
    requires
        length <= u64::MAX,
        width == 0 || width == 2 || width == 8,
        fits_width(length, width),
    ensures
        fits_width(length, extended_width(length)),
        extended_width(length) <= width,
        extended_width(length) == 0 || extended_width(length) == 2 || extended_width(length) == 8,
{
    reveal_with_fuel(pow256, 9);
}

/// The number of bytes of a header is two, the extended length and the masking key.
pub proof fn lemma_header_wire_len(header: FrameHeader, length: nat)
    ensures
        header.wire(length).len() == header.wire_len(length),
        2 <= header.wire_len(length) <= 14,
{
    lemma_be_bytes_len(length, extended_width(length));
}

/// A header that a receiver accepts is parsed back from its wire form, whatever follows it.
pub proof fn lemma_header_round_trip(header: FrameHeader, length: nat, rest: Seq<u8>)
    requires
        header.acceptable(length),
        length <= u64::MAX,
    ensures
        parse_header(header.wire(length) + rest) == Ok::<Option<HeaderParse>, crate::error::Error>(
            Some(
                HeaderParse {
                    header,
                    length: length as u64,
                    consumed: header.wire_len(length) as usize,
                },
            ),
        ),
{
    let wire = header.wire(length);
    let bytes = wire + rest;
    let width = extended_width(length);
    let extended = be_bytes(length, width);
    lemma_header_wire_len(header, length);
    lemma_be_bytes_len(length, width);
    lemma_code_round_trip(header.opcode);
    reveal_with_fuel(pow256, 9);
    let first = header.first_byte();
    let second = header.second_byte(length);
    assert(first < 256 && second < 256);
    assert(bytes[0] == first as u8);
    assert(bytes[1] == second as u8);
    assert(second % 128 == length_code(length));
    assert(first % 16 == header.opcode.spec_code());
    assert((first / 16) % 8 == 0);
    assert((first >= 128) == header.is_final);
    assert(bytes.subrange(2, 2 + width as int) =~= extended);
    if width > 0 {
        lemma_be_round_trip(length, width);
    }
    match header.mask {
        Some(key) => {
            let at = 2 + width as int;
            assert(bytes[at] == key@[0] && bytes[at + 1] == key@[1]);
            assert(bytes[at + 2] == key@[2] && bytes[at + 3] == key@[3]);
            assert(key_at(bytes, at) =~= key);
        },
        None => {},
    }
}

/// A well-formed frame within the limit is parsed back from its wire form, whatever follows
/// it: the same header, the same payload, and exactly its own bytes consumed.
pub proof fn lemma_frame_round_trip(frame: FrameView, rest: Seq<u8>, limit: u64)
    requires
        frame.well_formed(),
        frame.payload.len() <= limit,
    ensures
        parse_frame(frame.wire() + rest, limit) == Ok::<
            Option<(FrameView, nat)>,
            crate::error::Error,
        >(Some((frame, frame.wire().len()))),
{
    let length = frame.payload.len();
    let head = frame.header.wire(length);
    let body = frame.wire_payload();
    let bytes = frame.wire() + rest;
    lemma_header_wire_len(frame.header, length);
    lemma_header_round_trip(frame.header, length, body + rest);
    assert(bytes =~= head + (body + rest));
    let consumed = frame.header.wire_len(length);
    assert(body.len() == length);
    assert(bytes.subrange(consumed as int, consumed as int + length as int) =~= body);
    match frame.header.mask {
        Some(key) => {
            crate::mask::lemma_mask_involution(frame.payload, key@);
        },
        None => {},
    }
    assert(frame.wire().len() == consumed + length);
}

/// Every frame that parsing hands back is well formed and within the limit, and it occupies
/// no more bytes than there are.
pub proof fn lemma_parsed_frame_well_formed(bytes: Seq<u8>, limit: u64)
    ensures
        match parse_frame(bytes, limit) {
            Ok(Some((frame, consumed))) => frame.well_formed() && frame.payload.len() <= limit
                && consumed <= bytes.len(),
            _ => true,
        },
{
}

/// A frame that was read can be passed on: written out again, it is read as the same frame,
/// also where it arrived with a longer length field than it is written with.
pub proof fn lemma_read_frame_is_passed_on(
    bytes: Seq<u8>,
    frame: FrameView,
    consumed: nat,
    rest: Seq<u8>,
    limit: u64,
)
    requires
        parse_frame(bytes, limit) == Ok::<Option<(FrameView, nat)>, crate::error::Error>(
            Some((frame, consumed)),
        ),
    ensures
        parse_frame(frame.wire() + rest, limit) == Ok::<
            Option<(FrameView, nat)>,
            crate::error::Error,
        >(Some((frame, frame.wire().len()))),
{
    lemma_parsed_frame_well_formed(bytes, limit);
    lemma_frame_round_trip(frame, rest, limit);
}

/// A frame that has not arrived whole is waited for: every proper prefix of the wire form
/// of a well-formed frame within the limit parses to `Ok(None)`.
pub proof fn lemma_partial_frame_incomplete(frame: FrameView, n: int, limit: u64)
    requires
        frame.well_formed(),
        frame.payload.len() <= limit,
        0 <= n < frame.wire().len(),
    ensures
        parse_frame(frame.wire().subrange(0, n), limit) == Ok::<
            Option<(FrameView, nat)>,
            crate::error::Error,
        >(None),
{
    let length = frame.payload.len();
    let wire = frame.wire();
    let prefix = wire.subrange(0, n);
    let consumed = frame.header.wire_len(length);
    lemma_header_wire_len(frame.header, length);
    lemma_header_round_trip(frame.header, length, frame.wire_payload());
    assert(wire.len() == consumed + length);
    if n >= 2 {
        assert(prefix[0] == wire[0]);
        assert(prefix[1] == wire[1]);
        let second = wire[1] as nat;
        let width = crate::header::width_of_code(second % 128) as int;
        if n >= consumed {
            assert(prefix.subrange(2, 2 + width) =~= wire.subrange(2, 2 + width));
            if second >= 128 {
                let at = 2 + width;
                assert(prefix[at] == wire[at] && prefix[at + 1] == wire[at + 1]);
                assert(prefix[at + 2] == wire[at + 2] && prefix[at + 3] == wire[at + 3]);
                assert(key_at(prefix, 2 + width) =~= key_at(wire, 2 + width));
            }
            assert(parse_header(prefix) == parse_header(wire));
        }
    }
}

/// A frame that arrives in two pieces is put together: after the first piece alone a read
/// finds no frame and leaves the input as it is; after both it hands back the frame and
/// leaves what follows it.
pub proof fn lemma_split_frame_is_reassembled(frame: FrameView, n: int, rest: Seq<u8>, limit: u64)
    requires
        frame.well_formed(),
        frame.payload.len() <= limit,
        0 <= n < frame.wire().len(),
    ensures
        read_outcome(frame.wire().subrange(0, n), limit) == (
            frame.wire().subrange(0, n),
            Ok::<Option<FrameView>, crate::error::Error>(None),
        ),
        read_outcome(
            frame.wire().subrange(0, n) + (frame.wire().subrange(n, frame.wire().len() as int)
                + rest),
            limit,
        ) == (rest, Ok::<Option<FrameView>, crate::error::Error>(Some(frame))),
{
    let wire = frame.wire();
    let first = wire.subrange(0, n);
    let second = wire.subrange(n, wire.len() as int);
    lemma_partial_frame_incomplete(frame, n, limit);
    lemma_frame_round_trip(frame, rest, limit);
    assert(first + (second + rest) =~= wire + rest);
    assert((wire + rest).subrange(wire.len() as int, (wire + rest).len() as int) =~= rest);
}

} // verus!
