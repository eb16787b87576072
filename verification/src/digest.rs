//! The 64-bit FNV-1a digest of a byte string.

use vstd::prelude::*;

verus! {

/// The state of the digest before any byte is folded in.
pub const OFFSET_BASIS: u64 = 0xcbf2_9ce4_8422_2325;

/// The multiplier of each step.
pub const PRIME: u64 = 0x0000_0100_0000_01b3;

/// The state after `byte` is folded into `state`: exclusive or with the
/// byte, then multiplication by [`PRIME`] modulo 2^64.
pub open spec fn absorb(state: u64, byte: u8) -> u64 {
    (((state ^ (byte as u64)) as nat * PRIME as nat) % 0x1_0000_0000_0000_0000) as u64
}

/// The digest of `bytes`: every byte folded in, first to last, starting from
/// [`OFFSET_BASIS`].
pub open spec fn digest(bytes: Seq<u8>) -> u64
    decreases bytes.len(),
{
    if bytes.len() == 0 {
        OFFSET_BASIS
    } else {
        absorb(digest(bytes.drop_last()), bytes.last())
    }
}

/// The number that undoes a multiplication by [`PRIME`] modulo 2^64.
const INVERSE: u64 = 0xce96_5057_aff6_957b;

/// Computes the digest of `bytes`.
pub fn digest_of(bytes: &[u8]) -> (d: u64)
    ensures
        d == digest(bytes@),
{
    let mut state: u64 = OFFSET_BASIS;
    let mut i: usize = 0;
    while i < bytes.len()
        invariant
            i <= bytes.len(),
            state == digest(bytes@.take(i as int)),
        decreases bytes.len() - i,
    {
        proof {
            assert(bytes@.take(i + 1).drop_last() =~= bytes@.take(i as int));
        }
        state = (state ^ (bytes[i] as u64)).wrapping_mul(PRIME);
        i += 1;
    }
    proof {
        assert(bytes@.take(i as int) =~= bytes@);
    }
    state
}

/// Multiplying by [`PRIME`] and then by [`INVERSE`], both modulo 2^64,
/// gives back what one began with.
proof fn lemma_inverse(x: u64)
    ensures
        (((x * PRIME) % 0x1_0000_0000_0000_0000) * INVERSE) % 0x1_0000_0000_0000_0000 == x,
{
    assert((((x * PRIME) % 0x1_0000_0000_0000_0000) * INVERSE) % 0x1_0000_0000_0000_0000 == x)
        by (bit_vector);
}

/// A step loses nothing: where two steps end in one state, the states they
/// began with were equal if the bytes were, and the bytes if the states.
pub proof fn lemma_absorb_is_one_to_one(
    first_state: u64,
    first_byte: u8,
    second_state: u64,
    second_byte: u8,
)
    requires
        absorb(first_state, first_byte) == absorb(second_state, second_byte),
    ensures
        first_byte == second_byte ==> first_state == second_state,
        first_state == second_state ==> first_byte == second_byte,
{
    let first = first_state ^ (first_byte as u64);
    let second = second_state ^ (second_byte as u64);
    lemma_inverse(first);
    lemma_inverse(second);
    assert(first == second);
    assert(first_byte == second_byte ==> first_state == second_state) by (bit_vector)
        requires
            first_state ^ (first_byte as u64) == second_state ^ (second_byte as u64),
    ;
    assert(first_state == second_state ==> first_byte == second_byte) by (bit_vector)
        requires
            first_state ^ (first_byte as u64) == second_state ^ (second_byte as u64),
    ;
}

/// Two byte strings of one length that differ in one place, and in no
/// other, have different digests.
pub proof fn lemma_one_change_changes_digest(first: Seq<u8>, second: Seq<u8>, at: int)
    requires
        first.len() == second.len(),
        0 <= at < first.len(),
        first[at] != second[at],
        forall|i: int| 0 <= i < first.len() && i != at ==> first[i] == second[i],
    ensures
        digest(first) != digest(second),
    decreases first.len(),
{
    if at == first.len() - 1 {
        assert(first.drop_last() =~= second.drop_last());
    } else {
        lemma_one_change_changes_digest(first.drop_last(), second.drop_last(), at);
    }
    if digest(first) == digest(second) {
        lemma_absorb_is_one_to_one(
            digest(first.drop_last()),
            first.last(),
            digest(second.drop_last()),
            second.last(),
        );
    }
}

} // verus!
