//! Payload masking: byte-wise XOR with a repeating four-byte key.

use vstd::prelude::*;

verus! {

/// The payload `payload` as it appears on the wire under the masking key `key`:
/// byte `i` is combined by XOR with byte `i mod 4` of the key.
pub open spec fn masked(payload: Seq<u8>, key: Seq<u8>) -> Seq<u8> {
    Seq::new(payload.len(), |i: int| payload[i] ^ key[i % 4])
}

/// Masking twice with one key gives the payload back: XOR is its own inverse.
pub proof fn lemma_mask_involution(payload: Seq<u8>, key: Seq<u8>)
    ensures
        masked(masked(payload, key), key) == payload,
{
    assert forall|i: int| 0 <= i < payload.len() implies #[trigger] masked(
        masked(payload, key),
        key,
    )[i] == payload[i] by {
        let a: u8 = payload[i];
        let b: u8 = key[i % 4];
        assert((a ^ b) ^ b == a) by (bit_vector);
    }
    assert(masked(masked(payload, key), key) =~= payload);
}

/// Masks `buf` in place with `key`. Applied to a masked payload it unmasks.
pub fn apply_mask(buf: &mut Vec<u8>, key: [u8; 4])
    ensures
        final(buf)@ == masked(old(buf)@, key@),
{
    let n: usize = buf.len();
    let mut i: usize = 0;
    while i < n
        invariant
            i <= n,
            buf.len() == n,
            n == old(buf).len(),
            forall|j: int| 0 <= j < i ==> #[trigger] buf[j] == old(buf)[j] ^ key[j % 4],
            forall|j: int| i <= j < n ==> #[trigger] buf[j] == old(buf)[j],
        decreases n - i,
    {
        let b: u8 = buf[i] ^ key[i % 4];
        buf.set(i, b);
        i = i + 1;
    }
    assert(buf@ =~= masked(old(buf)@, key@));
}

} // verus!
