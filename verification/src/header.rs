//! Frame headers and their wire format.

use crate::coding::{be_bytes, be_value, push_u16_be, push_u64_be, read_u16_be, read_u64_be, OpCode};
use crate::error::{Error, ProtocolError};
use crate::mask::masked;
use vstd::prelude::*;

verus! {

/// The largest payload that a close, ping or pong frame may carry.
pub const MAX_CONTROL_PAYLOAD: usize = 125;

/// Everything in a frame but its payload.
#[derive(Debug, Clone, Copy, PartialEq, Eq)]
pub struct FrameHeader {
    /// Whether the frame is the last of its message.
    pub is_final: bool,
    /// The first reserved bit.
    pub rsv1: bool,
    /// The second reserved bit.
    pub rsv2: bool,
    /// The third reserved bit.
    pub rsv3: bool,
    /// What the frame is for.
    pub opcode: OpCode,
    /// The key that masks the payload on the wire, if any.
    pub mask: Option<[u8; 4]>,
}

/// What parsing a complete header yields.
#[derive(Debug, Clone, Copy, PartialEq, Eq)]
pub struct HeaderParse {
    /// The header.
    pub header: FrameHeader,
    /// The length of the payload that follows the header.
    pub length: u64,
    /// The number of bytes that the header occupies.
    pub consumed: usize,
}

/// `weight` if `flag` is set, else nothing: one bit of a header byte.
pub open spec fn bit(flag: bool, weight: nat) -> nat {
    if flag {
        weight
    } else {
        0
    }
}

/// The seven-bit length field for a payload of `length` bytes: the length itself up to 125,
/// else 126 to announce two bytes of extended length, or 127 to announce eight.
pub open spec fn length_code(length: nat) -> nat {
    if length <= 125 {
        length
    } else if length <= 65535 {
        126
    } else {
        127
    }
}

/// The number of extended length bytes that a seven-bit length field announces.
pub open spec fn width_of_code(code: nat) -> nat {
    if code == 126 {
        2
    } else if code == 127 {
        8
    } else {
        0
    }
}

/// The number of extended length bytes written for a payload of `length` bytes.
pub open spec fn extended_width(length: nat) -> nat {
    width_of_code(length_code(length))
}

/// The bytes that a masking key adds to a header.
pub open spec fn mask_bytes(mask: Option<[u8; 4]>) -> Seq<u8> {
    match mask {
        Some(key) => key@,
        None => Seq::empty(),
    }
}

/// The masking key spelled by the four bytes of `bytes` that start at `at`.
pub open spec fn key_at(bytes: Seq<u8>, at: int) -> [u8; 4] {
    [bytes[at], bytes[at + 1], bytes[at + 2], bytes[at + 3]]
}

impl FrameHeader {
    /// The first header byte: the final bit, the reserved bits and the opcode.
    pub open spec fn first_byte(self) -> nat {
        bit(self.is_final, 128) + bit(self.rsv1, 64) + bit(self.rsv2, 32) + bit(self.rsv3, 16)
            + self.opcode.spec_code() as nat
    }

    /// The second header byte for a payload of `length` bytes: the mask bit and the
    /// seven-bit length field.
    pub open spec fn second_byte(self, length: nat) -> nat {
        bit(self.mask is Some, 128) + length_code(length)
    }

    /// The header on the wire, before a payload of `length` bytes.
    pub open spec fn wire(self, length: nat) -> Seq<u8> {
        seq![self.first_byte() as u8, self.second_byte(length) as u8] + be_bytes(
            length,
            extended_width(length),
        ) + mask_bytes(self.mask)
    }

    /// The number of bytes that the header occupies before a payload of `length` bytes.
    pub open spec fn wire_len(self, length: nat) -> nat {
        2 + extended_width(length) + bit(self.mask is Some, 4)
    }

    /// What a receiver accepts: no reserved bit is set, and a control frame is final and
    /// carries at most 125 bytes.
    pub open spec fn acceptable(self, length: nat) -> bool {
        &&& !self.rsv1
        &&& !self.rsv2
        &&& !self.rsv3
        &&& self.opcode.spec_is_control() ==> self.is_final && length <= 125
    }
}

/// What the start of `bytes` holds: a complete header (`Ok(Some(..))`), the beginning of one
/// (`Ok(None)`), or a header that breaks the protocol. A header is judged only once all of
/// its bytes are there. The length field need not be the shortest that fits.
pub open spec fn parse_header(bytes: Seq<u8>) -> Result<Option<HeaderParse>, Error> {
    if bytes.len() < 2 {
        Ok(None)
    } else {
        let first = bytes[0] as nat;
        let second = bytes[1] as nat;
        let code = second % 128;
        let width = width_of_code(code);
        let consumed = 2 + width + bit(second >= 128, 4);
        if bytes.len() < consumed {
            Ok(None)
        } else {
            let length = if width == 0 {
                code
            } else {
                be_value(bytes.subrange(2, 2 + width as int))
            };
            let is_final = first >= 128;
            match OpCode::spec_from_code((first % 16) as u8) {
                None => Err(Error::Protocol(ProtocolError::InvalidOpcode((first % 16) as u8))),
                Some(opcode) => if (first / 16) % 8 != 0 {
                    Err(Error::Protocol(ProtocolError::NonZeroReservedBits))
                } else if opcode.spec_is_control() && !is_final {
                    Err(Error::Protocol(ProtocolError::FragmentedControlFrame))
                } else if opcode.spec_is_control() && length > 125 {
                    Err(Error::Protocol(ProtocolError::ControlFrameTooBig))
                } else {
                    Ok(
                        Some(
                            HeaderParse {
                                header: FrameHeader {
                                    is_final,
                                    rsv1: false,
                                    rsv2: false,
                                    rsv3: false,
                                    opcode,
                                    mask: if second >= 128 {
                                        Some(key_at(bytes, 2 + width as int))
                                    } else {
                                        None
                                    },
                                },
                                length: length as u64,
                                consumed: consumed as usize,
                            },
                        ),
                    )
                },
            }
        }
    }
}

impl FrameHeader {
    /// A header without reserved bits and without a masking key.
    pub fn new(opcode: OpCode, is_final: bool) -> (header: FrameHeader)
        ensures
            header == (FrameHeader {
                is_final,
                rsv1: false,
                rsv2: false,
                rsv3: false,
                opcode,
                mask: None,
            }),
    {
        FrameHeader { is_final, rsv1: false, rsv2: false, rsv3: false, opcode, mask: None }
    }

    /// The number of bytes that the header occupies before a payload of `length` bytes.
    pub fn len(&self, length: u64) -> (n: usize)
        ensures
            n == self.wire_len(length as nat),
            n == self.wire(length as nat).len(),
            2 <= n <= 14,
    {
        proof {
            crate::coding::lemma_be_bytes_len(length as nat, extended_width(length as nat));
        }
        let extended: usize = if length <= 125 {
            0
        } else if length <= 65535 {
            2
        } else {
            8
        };
        let key: usize = if self.mask.is_some() {
            4
        } else {
            0
        };
        2 + extended + key
    }

    /// The first header byte: the final bit, the reserved bits and the opcode.
    fn first(&self) -> (byte: u8)
        ensures
            byte == self.first_byte(),
    {
        let mut one: u8 = self.opcode.code();
        proof {
            crate::coding::lemma_code_round_trip(self.opcode);
        }
        if self.is_final {
            one = one + 128;
        }
        if self.rsv1 {
            one = one + 64;
        }
        if self.rsv2 {
            one = one + 32;
        }
        if self.rsv3 {
            one = one + 16;
        }
        one
    }

    /// The second header byte: the mask bit and the seven-bit length field.
    fn second(&self, length: u64) -> (byte: u8)
        ensures
            byte == self.second_byte(length as nat),
    {
        let code: u8 = if length <= 125 {
            length as u8
        } else if length <= 65535 {
            126
        } else {
            127
        };
        if self.mask.is_some() {
            code + 128
        } else {
            code
        }
    }

    /// Appends the header for a payload of `length` bytes to `out`. The length is written in
    /// the shortest of the three forms that can hold it.
    pub fn format(&self, length: u64, out: &mut Vec<u8>)
        ensures
            final(out)@ == old(out)@ + self.wire(length as nat),
    {
        let one: u8 = self.first();
        let two: u8 = self.second(length);
        out.push(one);
        out.push(two);
        let ghost head = out@;
        assert(head =~= old(out)@ + seq![one, two]);
        if length <= 125 {
            assert(be_bytes(length as nat, 0) =~= Seq::<u8>::empty());
        } else if length <= 65535 {
            push_u16_be(out, length as u16);
        } else {
            push_u64_be(out, length);
        }
        let ghost body = out@;
        assert(body =~= head + be_bytes(length as nat, extended_width(length as nat)));
        match self.mask {
            Some(key) => {
                out.push(key[0]);
                out.push(key[1]);
                out.push(key[2]);
                out.push(key[3]);
                assert(out@ =~= body + key@);
            },
            None => {
                assert(out@ =~= body + Seq::<u8>::empty());
            },
        }
        assert(out@ =~= body + mask_bytes(self.mask));
        assert(out@ =~= old(out)@ + self.wire(length as nat));
    }

    /// Parses the header at the start of `bytes`.
    ///
    /// Gives `Ok(None)` while the header is not complete, and a protocol error for an opcode
    /// that is not defined, a reserved bit that is set, a control frame that is not final
    /// and a control frame of more than 125 bytes, in that order.
    pub fn parse(bytes: &[u8]) -> (parsed: Result<Option<HeaderParse>, Error>)
        ensures
            parsed == parse_header(bytes@),
    {
        if bytes.len() < 2 {
            return Ok(None);
        }
        let first: u8 = bytes[0];
        let second: u8 = bytes[1];
        let code: u8 = second % 128;
        let has_mask: bool = second >= 128;
        let width: usize = if code == 126 {
            2
        } else if code == 127 {
            8
        } else {
            0
        };
        let consumed: usize = 2 + width + if has_mask {
            4
        } else {
            0
        };
        if bytes.len() < consumed {
            return Ok(None);
        }
        let length: u64 = if width == 0 {
            code as u64
        } else if width == 2 {
            read_u16_be(bytes, 2) as u64
        } else {
            read_u64_be(bytes, 2)
        };
        let is_final: bool = first >= 128;
        let opcode: OpCode = match OpCode::from_code(first % 16) {
            None => {
                return Err(Error::Protocol(ProtocolError::InvalidOpcode(first % 16)));
            },
            Some(opcode) => opcode,
        };
        if (first / 16) % 8 != 0 {
            return Err(Error::Protocol(ProtocolError::NonZeroReservedBits));
        }
        if opcode.is_control() && !is_final {
            return Err(Error::Protocol(ProtocolError::FragmentedControlFrame));
        }
        if opcode.is_control() && length > 125 {
            return Err(Error::Protocol(ProtocolError::ControlFrameTooBig));
        }
        let mask: Option<[u8; 4]> = if has_mask {
            let at: usize = 2 + width;
            Some([bytes[at], bytes[at + 1], bytes[at + 2], bytes[at + 3]])
        } else {
            None
        };
        Ok(
            Some(
                HeaderParse {
                    header: FrameHeader {
                        is_final,
                        rsv1: false,
                        rsv2: false,
                        rsv3: false,
                        opcode,
                        mask,
                    },
                    length,
                    consumed,
                },
            ),
        )
    }
}

} // verus!
