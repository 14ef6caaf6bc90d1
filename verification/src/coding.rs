//! Opcodes and the big-endian integers of the frame header.

use vstd::prelude::*;

verus! {

/// What a frame is for.
#[derive(Debug, Clone, Copy, PartialEq, Eq, Structural)]
pub enum OpCode {
    /// The frame continues a fragmented message.
    Continuation,
    /// The frame carries text.
    Text,
    /// The frame carries binary data.
    Binary,
    /// The frame closes the connection.
    Close,
    /// The frame asks for a pong.
    Ping,
    /// The frame answers a ping.
    Pong,
}

impl OpCode {
    /// The four-bit number that stands for the opcode on the wire.
    pub open spec fn spec_code(self) -> u8 {
        match self {
            OpCode::Continuation => 0,
            OpCode::Text => 1,
            OpCode::Binary => 2,
            OpCode::Close => 8,
            OpCode::Ping => 9,
            OpCode::Pong => 10,
        }
    }

    /// The opcode that a four-bit number stands for, if the protocol defines one.
    pub open spec fn spec_from_code(code: u8) -> Option<OpCode> {
        if code == 0 {
            Some(OpCode::Continuation)
        } else if code == 1 {
            Some(OpCode::Text)
        } else if code == 2 {
            Some(OpCode::Binary)
        } else if code == 8 {
            Some(OpCode::Close)
        } else if code == 9 {
            Some(OpCode::Ping)
        } else if code == 10 {
            Some(OpCode::Pong)
        } else {
            None
        }
    }

    /// Close, ping and pong are control opcodes; the others carry data.
    pub open spec fn spec_is_control(self) -> bool {
        self is Close || self is Ping || self is Pong
    }

    /// The four-bit number that stands for the opcode on the wire.
    #[verifier::when_used_as_spec(spec_code)]
    pub fn code(self) -> (code: u8)
        ensures
            code == self.spec_code(),
    {
        match self {
            OpCode::Continuation => 0,
            OpCode::Text => 1,
            OpCode::Binary => 2,
            OpCode::Close => 8,
            OpCode::Ping => 9,
            OpCode::Pong => 10,
        }
    }

    /// The opcode that `code` stands for, or `None` for a number that the protocol leaves
    /// undefined.
    #[verifier::when_used_as_spec(spec_from_code)]
    pub fn from_code(code: u8) -> (opcode: Option<OpCode>)
        ensures
            opcode == OpCode::spec_from_code(code),
    {
        match code {
            0 => Some(OpCode::Continuation),
            1 => Some(OpCode::Text),
            2 => Some(OpCode::Binary),
            8 => Some(OpCode::Close),
            9 => Some(OpCode::Ping),
            10 => Some(OpCode::Pong),
            _ => None,
        }
    }

    /// Whether the opcode is close, ping or pong.
    #[verifier::when_used_as_spec(spec_is_control)]
    pub fn is_control(self) -> (control: bool)
        ensures
            control == self.spec_is_control(),
    {
        match self {
            OpCode::Close | OpCode::Ping | OpCode::Pong => true,
            _ => false,
        }
    }
}

/// Every opcode is found again from its number, and the number fits in four bits.
pub proof fn lemma_code_round_trip(opcode: OpCode)
    ensures
        OpCode::spec_from_code(opcode.spec_code()) == Some(opcode),
        opcode.spec_code() < 16,
{
}

/// 256 to the power `width`: the number of values that `width` bytes can hold.
pub open spec fn pow256(width: nat) -> nat
    decreases width,
{
    if width == 0 {
        1
    } else {
        256 * pow256((width - 1) as nat)
    }
}

/// `value` written in `width` bytes, most significant byte first. Only the low `width` bytes
/// of a larger value are kept.
pub open spec fn be_bytes(value: nat, width: nat) -> Seq<u8>
    decreases width,
{
    if width == 0 {
        Seq::empty()
    } else {
        be_bytes(value / 256, (width - 1) as nat).push((value % 256) as u8)
    }
}

/// The number that `bytes` spell, most significant byte first.
pub open spec fn be_value(bytes: Seq<u8>) -> nat
    decreases bytes.len(),
{
    if bytes.len() == 0 {
        0
    } else {
        be_value(bytes.drop_last()) * 256 + bytes.last() as nat
    }
}

/// `be_bytes` always gives exactly `width` bytes.
pub proof fn lemma_be_bytes_len(value: nat, width: nat)
    ensures
        be_bytes(value, width).len() == width,
    decreases width,
{
    if width > 0 {
        lemma_be_bytes_len(value / 256, (width - 1) as nat);
    }
}

/// A value that fits in `width` bytes is read back from its big-endian form.
pub proof fn lemma_be_round_trip(value: nat, width: nat)
    requires
        value < pow256(width),
    ensures
        be_value(be_bytes(value, width)) == value,
    decreases width,
{
    if width > 0 {
        let rest = be_bytes(value / 256, (width - 1) as nat);
        lemma_be_round_trip(value / 256, (width - 1) as nat);
        assert(be_bytes(value, width).drop_last() =~= rest);
    }
}

/// Bytes are written back from the number they spell, and that number fits in as many bytes.
pub proof fn lemma_be_value_round_trip(bytes: Seq<u8>)
    ensures
        be_value(bytes) < pow256(bytes.len()),
        be_bytes(be_value(bytes), bytes.len()) == bytes,
    decreases bytes.len(),
{
    if bytes.len() > 0 {
        let init = bytes.drop_last();
        lemma_be_value_round_trip(init);
        let v = be_value(bytes);
        assert(v / 256 == be_value(init));
        assert(v % 256 == bytes.last() as nat);
        assert(be_bytes(v, bytes.len()) =~= bytes);
    } else {
        assert(be_bytes(0, 0) =~= bytes);
    }
}

/// Appends `value` to `out` as two bytes, most significant first.
pub fn push_u16_be(out: &mut Vec<u8>, value: u16)
    ensures
        final(out)@ == old(out)@ + be_bytes(value as nat, 2),
{
    let hi: u8 = (value / 256) as u8;
    let lo: u8 = (value % 256) as u8;
    out.push(hi);
    out.push(lo);
    proof {
        reveal_with_fuel(be_bytes, 3);
        assert(out@ =~= old(out)@ + be_bytes(value as nat, 2));
    }
}

/// Appends `value` to `out` as eight bytes, most significant first.
pub fn push_u64_be(out: &mut Vec<u8>, value: u64)
    ensures
        final(out)@ == old(out)@ + be_bytes(value as nat, 8),
{
    let b7: u8 = (value % 256) as u8;
    let r1: u64 = value / 256;
    let b6: u8 = (r1 % 256) as u8;
    let r2: u64 = r1 / 256;
    let b5: u8 = (r2 % 256) as u8;
    let r3: u64 = r2 / 256;
    let b4: u8 = (r3 % 256) as u8;
    let r4: u64 = r3 / 256;
    let b3: u8 = (r4 % 256) as u8;
    let r5: u64 = r4 / 256;
    let b2: u8 = (r5 % 256) as u8;
    let r6: u64 = r5 / 256;
    let b1: u8 = (r6 % 256) as u8;
    let r7: u64 = r6 / 256;
    let b0: u8 = (r7 % 256) as u8;
    out.push(b0);
    out.push(b1);
    out.push(b2);
    out.push(b3);
    out.push(b4);
    out.push(b5);
    out.push(b6);
    out.push(b7);
    proof {
        reveal_with_fuel(be_bytes, 9);
        assert(out@ =~= old(out)@ + be_bytes(value as nat, 8));
    }
}

/// Reads the two bytes of `bytes` that start at `at` as a big-endian number.
pub fn read_u16_be(bytes: &[u8], at: usize) -> (value: u16)
    requires
        at + 2 <= bytes.len(),
    ensures
        value == be_value(bytes@.subrange(at as int, at + 2)),
{
    let hi: u16 = bytes[at] as u16;
    let lo: u16 = bytes[at + 1] as u16;
    proof {
        let s = bytes@.subrange(at as int, at + 2);
        reveal_with_fuel(be_value, 3);
        assert(s.drop_last().drop_last().len() == 0);
        assert(s.drop_last().last() == bytes[at as int]);
        assert(s.last() == bytes[at + 1]);
    }
    hi * 256 + lo
}

/// Reads the eight bytes of `bytes` that start at `at` as a big-endian number.
pub fn read_u64_be(bytes: &[u8], at: usize) -> (value: u64)
    requires
        at + 8 <= bytes.len(),
    ensures
        value == be_value(bytes@.subrange(at as int, at + 8)),
{
    let ghost s = bytes@.subrange(at as int, at + 8);
    let mut value: u64 = 0;
    let mut i: usize = 0;
    while i < 8
        invariant
            i <= 8,
            at + 8 <= bytes.len(),
            s == bytes@.subrange(at as int, at + 8),
            value == be_value(s.subrange(0, i as int)),
            value < pow256(i as nat),
        decreases 8 - i,
    {
        proof {
            reveal_with_fuel(pow256, 9);
            let next = s.subrange(0, i + 1);
            assert(next.drop_last() =~= s.subrange(0, i as int));
            assert(next.last() == bytes[at + i]);
        }
        value = value * 256 + bytes[at + i] as u64;
        i = i + 1;
    }
    assert(s.subrange(0, 8) =~= s);
    value
}

} // verus!
