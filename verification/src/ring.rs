//! The identifier ring: its size, the hash that places names on it and the
//! arithmetic of finger starts.

use crate::text::parse_decimal;
use crate::text::parse_decimal_text;
use std::collections::hash_map::DefaultHasher;
use std::hash::Hash;
use std::hash::Hasher;
use vstd::arithmetic::power2::lemma2_to64;
use vstd::arithmetic::power2::lemma_pow2_adds;
use vstd::arithmetic::power2::pow2;
use vstd::prelude::*;
use vstd::std_specs::hash::DefaultHasherAdditionalSpecFns;

verus! {

/// Number of points on the ring. Identifiers are the integers below `M`.
pub const M: u64 = 64;

/// Number of finger-table entries, the binary logarithm of `M`.
pub const FINGERS: usize = 6;

/// Seconds between two rounds of stabilization.
pub const STABILIZE_INTERVAL: u64 = 2;

/// Seconds a peer has to answer a liveness probe.
pub const LIVENESS_TIMEOUT: u64 = 1;

/// Seconds after which an outbound request counts as failed.
pub const REQ_TIMEOUT: u64 = 3;

/// Port every node listens on.
pub const PORT: u16 = 8000;

/// The ring has exactly `2^FINGERS` points.
pub proof fn lemma_ring_size()
    ensures
        M as nat == pow2(FINGERS as nat),
{
    lemma2_to64();
}

/// Number of steps from `from` forward around the ring to `to`.
pub open spec fn ring_distance(from: int, to: int) -> int {
    (to - from) % (M as int)
}

/// What hashing the text `key` feeds into a hasher, as the sequence of
/// writes the hasher sees.
pub uninterp spec fn hashed_writes(key: Seq<char>) -> Seq<Seq<u8>>;

/// The 64-bit hash of a text under the standard library's default hasher.
pub open spec fn key_hash(key: Seq<char>) -> u64 {
    DefaultHasher::spec_finish(hashed_writes(key))
}

/// The ring identifier of a text: its hash reduced modulo `M`.
pub open spec fn identifier(key: Seq<char>) -> u64 {
    (key_hash(key) % M) as u64
}

/// Feeds `key` into `state` through `std::hash::Hash::hash`.
///
/// Trusted: the writes that reach the hasher depend on the text alone, so
/// they are the same for equal texts on every call.
#[verifier::external_body]
fn feed_key(key: &String, state: &mut DefaultHasher)
    ensures
        final(state)@ == old(state)@ + hashed_writes(key@),
{
    key.hash(state);
}

/// Reduces a 64-bit hash to a ring identifier.
pub fn identifier_of_hash(hash: u64) -> (id: u64)
    ensures
        id == hash % M,
        id < M,
{
    hash % M
}

/// Hashes `key` and returns `hash(key) mod M`.
pub fn get_identifier(key: &String) -> (id: u64)
    ensures
        id == identifier(key@),
        id < M,
{
    let mut state = DefaultHasher::new();
    feed_key(key, &mut state);
    assert(state@ =~= hashed_writes(key@));
    let hash = state.finish();
    identifier_of_hash(hash)
}

/// Why a text is not accepted as a ring identifier.
#[derive(Clone, Copy, Debug, PartialEq, Eq, Structural)]
pub enum InputError {
    /// The text is not an unsigned decimal number.
    Malformed,
    /// The number is `M` or more.
    OutOfRing,
}

/// The identifier that a text denotes, or the reason it denotes none.
pub open spec fn identifier_text(text: Seq<char>) -> Result<u64, InputError> {
    match parse_decimal(text) {
        None => Err(InputError::Malformed),
        Some(id) => if id < M {
            Ok(id)
        } else {
            Err(InputError::OutOfRing)
        },
    }
}

/// Reads a ring identifier written in decimal.
pub fn parse_identifier(text: &str) -> (id: Result<u64, InputError>)
    ensures
        id == identifier_text(text@),
        id matches Ok(v) ==> v < M,
{
    match parse_decimal_text(text) {
        None => Err(InputError::Malformed),
        Some(id) => if id < M {
            Ok(id)
        } else {
            Err(InputError::OutOfRing)
        },
    }
}

/// The start of finger `k` of a node with identifier `n`: `(n + 2^k) mod M`.
pub open spec fn finger_start(n: int, k: nat) -> int {
    (n + pow2(k)) % (M as int)
}

/// Every power of two from `2^FINGERS` on is a multiple of `M`.
proof fn lemma_high_powers_vanish(k: nat)
    requires
        k >= FINGERS,
    ensures
        pow2(k) % (M as nat) == 0,
    decreases k,
{
    lemma2_to64();
    if k > FINGERS {
        lemma_high_powers_vanish((k - 1) as nat);
        lemma_pow2_adds((k - 1) as nat, 1);
        assert(pow2(k) == pow2((k - 1) as nat) * 2);
    }
}

/// From `2^FINGERS` on, every finger start is the node's own identifier.
pub proof fn lemma_starts_coincide(n: int, j: nat, k: nat)
    requires
        j >= FINGERS,
        k >= FINGERS,
    ensures
        finger_start(n, j) == finger_start(n, k),
        finger_start(n, j) == n % (M as int),
{
    lemma_high_powers_vanish(j);
    lemma_high_powers_vanish(k);
}

/// `start` of the Chord paper: `n.finger[k].start = (n + 2^k) mod M`.
pub fn get_start(n: u64, k: u32) -> (start: u64)
    ensures
        start == finger_start(n as int, k as nat),
        start < M,
{
    let base: u64 = n % M;
    proof {
        lemma2_to64();
        if k >= FINGERS {
            lemma_high_powers_vanish(k as nat);
        }
    }
    if k as usize >= FINGERS {
        base
    } else {
        let step: u64 = 1u64 << k;
        assert(step == pow2(k as nat)) by {
            assert(1u64 << 0u32 == 1) by (bit_vector);
            assert(1u64 << 1u32 == 2) by (bit_vector);
            assert(1u64 << 2u32 == 4) by (bit_vector);
            assert(1u64 << 3u32 == 8) by (bit_vector);
            assert(1u64 << 4u32 == 16) by (bit_vector);
            assert(1u64 << 5u32 == 32) by (bit_vector);
        }
        (base + step) % M
    }
}

} // verus!
