//! Guest-side decoding of the values that syscalls hand back in registers.
use crate::abi::{be_bytes, u64_from_be};
use crate::bridge::{address_limbs, digest_limbs};
use crate::storage::Address;
use vstd::prelude::*;

verus! {

/// The bytes that three caller limbs carry: two full limbs big-endian, then
/// the four high bytes of the third.
pub open spec fn address_of_limbs(l: Seq<u64>) -> Seq<u8> {
    be_bytes(l[0]) + be_bytes(l[1]) + be_bytes(l[2]).subrange(0, 4)
}

/// The bytes that four digest limbs carry, each big-endian.
pub open spec fn digest_of_limbs(l: Seq<u64>) -> Seq<u8> {
    be_bytes(l[0]) + be_bytes(l[1]) + be_bytes(l[2]) + be_bytes(l[3])
}

/// Writes `n` big-endian into `out[start..start + 8]`.
fn put_be(out: &mut [u8], start: usize, n: u64)
    requires
        start + 8 <= old(out)@.len(),
        old(out)@.len() <= 32,
    ensures
        final(out)@.len() == old(out)@.len(),
        final(out)@.subrange(start as int, start + 8) == be_bytes(n),
        forall|i: int| 0 <= i < old(out)@.len() && !(start <= i < start + 8) ==> final(out)@[i] == old(out)@[i],
{
    let mut k: usize = 0;
    while k < 8
        invariant
            k <= 8,
            start + 8 <= out@.len(),
            out@.len() <= 32,
            out@.len() == old(out)@.len(),
            forall|i: int| 0 <= i < k ==> out@[start + i] == be_bytes(n)[i],
            forall|i: int| 0 <= i < out@.len() && !(start <= i < start + k) ==> out@[i] == old(out)@[i],
        decreases 8 - k,
    {
        out[start + k] = ((n >> (8 * (7 - k)) as u64) & 0xff) as u8;
        k = k + 1;
    }
    assert(out@.subrange(start as int, start + 8) =~= be_bytes(n));
}

/// Rebuilds the caller's address from the registers the caller syscall fills.
pub fn address_from_limbs(limbs: [u64; 3]) -> (r: Address)
    ensures
        r.bytes@ == address_of_limbs(limbs@),
{
    let mut full = [0u8; 24];
    put_be(&mut full, 0, limbs[0]);
    put_be(&mut full, 8, limbs[1]);
    put_be(&mut full, 16, limbs[2]);
    let mut bytes = [0u8; 20];
    let mut i: usize = 0;
    while i < 20
        invariant
            i <= 20,
            full@.subrange(0, 8) == be_bytes(limbs@[0]),
            full@.subrange(8, 16) == be_bytes(limbs@[1]),
            full@.subrange(16, 24) == be_bytes(limbs@[2]),
            full@.len() == 24,
            forall|j: int| 0 <= j < i ==> bytes@[j] == full@[j],
        decreases 20 - i,
    {
        bytes[i] = full[i];
        i = i + 1;
    }
    assert forall|j: int| 0 <= j < 20 implies bytes@[j] == address_of_limbs(limbs@)[j] by {
        if j < 8 {
            assert(full@.subrange(0, 8)[j] == full@[j]);
        } else if j < 16 {
            assert(full@.subrange(8, 16)[j - 8] == full@[j]);
        } else {
            assert(full@.subrange(16, 24)[j - 16] == full@[j]);
        }
    }
    assert(bytes@ =~= address_of_limbs(limbs@));
    Address::new(bytes)
}

/// Rebuilds a digest from the registers the keccak256 syscall fills.
pub fn digest_from_limbs(limbs: [u64; 4]) -> (r: [u8; 32])
    ensures
        r@ == digest_of_limbs(limbs@),
{
    let mut out = [0u8; 32];
    put_be(&mut out, 0, limbs[0]);
    put_be(&mut out, 8, limbs[1]);
    put_be(&mut out, 16, limbs[2]);
    put_be(&mut out, 24, limbs[3]);
    assert forall|j: int| 0 <= j < 32 implies out@[j] == digest_of_limbs(limbs@)[j] by {
        if j < 8 {
            assert(out@.subrange(0, 8)[j] == out@[j]);
        } else if j < 16 {
            assert(out@.subrange(8, 16)[j - 8] == out@[j]);
        } else if j < 24 {
            assert(out@.subrange(16, 24)[j - 16] == out@[j]);
        } else {
            assert(out@.subrange(24, 32)[j - 24] == out@[j]);
        }
    }
    assert(out@ =~= digest_of_limbs(limbs@));
    out
}

} // verus!

verus! {

proof fn lemma_be_round_trip(b: Seq<u8>)
    requires
        b.len() == 8,
    ensures
        be_bytes(u64_from_be(b)) == b,
{
    let (b0, b1, b2, b3, b4, b5, b6, b7) = (b[0], b[1], b[2], b[3], b[4], b[5], b[6], b[7]);
    let v = u64_from_be(b);
    assert(v == (b7 as u64) | (b6 as u64) << 8 | (b5 as u64) << 16 | (b4 as u64) << 24 | (b3 as u64) << 32
        | (b2 as u64) << 40 | (b1 as u64) << 48 | (b0 as u64) << 56);
    assert(((v >> 56u64) & 0xff) as u8 == b0 && ((v >> 48u64) & 0xff) as u8 == b1 && ((v >> 40u64) & 0xff) as u8
        == b2 && ((v >> 32u64) & 0xff) as u8 == b3 && ((v >> 24u64) & 0xff) as u8 == b4 && ((v >> 16u64) & 0xff)
        as u8 == b5 && ((v >> 8u64) & 0xff) as u8 == b6 && ((v >> 0u64) & 0xff) as u8 == b7) by (bit_vector)
        requires
            v == (b7 as u64) | (b6 as u64) << 8 | (b5 as u64) << 16 | (b4 as u64) << 24 | (b3 as u64) << 32
                | (b2 as u64) << 40 | (b1 as u64) << 48 | (b0 as u64) << 56,
    ;
    assert(be_bytes(v) =~= b);
}

/// The caller's address survives the trip through registers: what the host
/// packs, the guest unpacks unchanged.
pub proof fn lemma_caller_round_trip(a: Seq<u8>)
    requires
        a.len() == 20,
    ensures
        address_of_limbs(address_limbs(a)) == a,
{
    let l = address_limbs(a);
    lemma_be_round_trip(a.subrange(0, 8));
    lemma_be_round_trip(a.subrange(8, 16));
    lemma_be_round_trip(a.subrange(16, 20) + seq![0u8, 0u8, 0u8, 0u8]);
    assert(be_bytes(l[2]).subrange(0, 4) =~= a.subrange(16, 20));
    assert(address_of_limbs(l) =~= a);
}

/// A digest survives the trip through registers: what the host packs, the
/// guest unpacks unchanged.
pub proof fn lemma_digest_round_trip(d: Seq<u8>)
    requires
        d.len() == 32,
    ensures
        digest_of_limbs(digest_limbs(d)) == d,
{
    let l = digest_limbs(d);
    lemma_be_round_trip(d.subrange(0, 8));
    lemma_be_round_trip(d.subrange(8, 16));
    lemma_be_round_trip(d.subrange(16, 24));
    lemma_be_round_trip(d.subrange(24, 32));
    assert(l[0] == u64_from_be(d.subrange(0, 8)));
    assert(l[1] == u64_from_be(d.subrange(8, 16)));
    assert(l[2] == u64_from_be(d.subrange(16, 24)));
    assert(l[3] == u64_from_be(d.subrange(24, 32)));
    assert(digest_of_limbs(l) =~= d);
}

} // verus!
