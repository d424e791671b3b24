//! The entropy collector and the per-thread fingerprint cache.
//!
//! A thread's seed is two random 128-bit values, the process identifier and a
//! hash of the thread's identity, each written as 16 big-endian bytes. The
//! seed is hashed to `BIG_LENGTH` characters once per cache, and every later
//! request on that cache hands back the same string.
use vstd::prelude::*;

use crate::digest::{
    all_in_alphabet, block_views, concat, digest_digits, hash, hash_result,
    lemma_encoded_prefix_shape, result_view, sha3_512_of,
};
use crate::error::CuidError;
use crate::BIG_LENGTH;

verus! {

/// The 16 bytes of `x`, most significant first.
pub open spec fn be_bytes_u128(x: u128) -> Seq<u8> {
    Seq::new(16, |i: int| ((x >> ((8 * (15 - i)) as u128)) & 0xff) as u8)
}

/// Writes `x` as 16 bytes, most significant first.
fn u128_to_be_bytes(x: u128) -> (r: Vec<u8>)
    ensures
        r@ == be_bytes_u128(x),
{
    let mut bytes: Vec<u8> = Vec::new();
    let mut i: usize = 0;
    while i < 16
        invariant
            i <= 16,
            bytes@.len() == i,
            forall|j: int| 0 <= j < i ==> bytes@[j] == be_bytes_u128(x)[j],
        decreases 16 - i,
    {
        let shift: u128 = (8 * (15 - i)) as u128;
        bytes.push(((x >> shift) & 0xff) as u8);
        i += 1;
    }
    assert(bytes@ =~= be_bytes_u128(x));
    bytes
}

/// The seed blocks: two random values, the process identifier and the
/// thread's identity hash, each widened to 128 bits.
pub open spec fn seed_blocks(random1: u128, random2: u128, process_id: u32, thread_key: u64) -> Seq<
    Seq<u8>,
> {
    seq![
        be_bytes_u128(random1),
        be_bytes_u128(random2),
        be_bytes_u128(process_id as u128),
        be_bytes_u128(thread_key as u128),
    ]
}

/// The fingerprint that a seed gives.
pub open spec fn fingerprint_of(random1: u128, random2: u128, process_id: u32, thread_key: u64) -> Result<
    Seq<char>,
    CuidError,
> {
    hash_result(seed_blocks(random1, random2, process_id, thread_key), BIG_LENGTH as nat)
}

/// Hashes the seed made of these values to a fingerprint of `BIG_LENGTH`
/// characters.
pub fn fingerprint_from_seed(random1: u128, random2: u128, process_id: u32, thread_key: u64) -> (r:
    Result<String, CuidError>)
    ensures
        result_view(r) == fingerprint_of(random1, random2, process_id, thread_key),
        r matches Ok(s) ==> s@.len() == BIG_LENGTH && all_in_alphabet(s@),
{
    let mut blocks: Vec<Vec<u8>> = Vec::new();
    blocks.push(u128_to_be_bytes(random1));
    blocks.push(u128_to_be_bytes(random2));
    blocks.push(u128_to_be_bytes(process_id as u128));
    blocks.push(u128_to_be_bytes(thread_key as u128));
    assert(block_views(blocks@) =~= seed_blocks(random1, random2, process_id, thread_key));
    hash(blocks.as_slice(), BIG_LENGTH as u16)
}

/// A successful fingerprint has exactly `BIG_LENGTH` characters, each a
/// symbol of the alphabet.
pub proof fn lemma_fingerprint_shape(random1: u128, random2: u128, process_id: u32, thread_key: u64)
    ensures
        fingerprint_of(random1, random2, process_id, thread_key) matches Ok(s) ==> s.len()
            == BIG_LENGTH && all_in_alphabet(s),
{
    let blocks = seed_blocks(random1, random2, process_id, thread_key);
    let digest = sha3_512_of(concat(blocks));
    if BIG_LENGTH as nat <= digest_digits(digest).len() {
        lemma_encoded_prefix_shape(digest, BIG_LENGTH as nat);
    }
}

/// What one request does to a cache slot, given the fingerprint that a fresh
/// seed would give: the new slot and the result.
pub open spec fn fingerprint_step(
    cached: Option<Seq<char>>,
    fresh: Result<Seq<char>, CuidError>,
) -> (Option<Seq<char>>, Result<Seq<char>, CuidError>) {
    match cached {
        Some(s) => (cached, Ok(s)),
        None => match fresh {
            Ok(s) => (Some(s), Ok(s)),
            Err(e) => (None, Err(e)),
        },
    }
}

/// Once a request has succeeded, the next request on the same cache returns
/// the same string and leaves the cache as it was, whatever its own seed
/// would have given.
pub proof fn lemma_fingerprint_stable(
    cached: Option<Seq<char>>,
    fresh1: Result<Seq<char>, CuidError>,
    fresh2: Result<Seq<char>, CuidError>,
)
    requires
        fingerprint_step(cached, fresh1).1 is Ok,
    ensures
        fingerprint_step(fingerprint_step(cached, fresh1).0, fresh2) == fingerprint_step(
            cached,
            fresh1,
        ),
{
}

/// Relies on `rand::random`: a value drawn from the thread's random number
/// generator, of which nothing is known.
pub assume_specification<T>[ rand::random::<T> ]() -> (r: T)
    where
        rand::distributions::Standard: rand::distributions::Distribution<T>,
;

/// One thread's fingerprint slot, with the identity that its seed is made of.
pub struct FingerprintCache {
    process_id: u32,
    thread_key: u64,
    slot: Option<String>,
}

impl FingerprintCache {
    #[verifier::type_invariant]
    spec fn inv(self) -> bool {
        self.slot matches Some(s) ==> exists|a: u128, b: u128|
            fingerprint_of(a, b, self.process_id, self.thread_key) == Ok::<Seq<char>, CuidError>(
                s@,
            )
    }

    /// The process identifier in the seed.
    pub closed spec fn process_id(&self) -> u32 {
        self.process_id
    }

    /// The hash of the thread's identity in the seed.
    pub closed spec fn thread_key(&self) -> u64 {
        self.thread_key
    }

    /// The fingerprint held, once one has been computed.
    pub closed spec fn cached(&self) -> Option<Seq<char>> {
        match self.slot {
            Some(s) => Some(s@),
            None => None,
        }
    }

    /// An empty slot for the thread with this process identifier and identity
    /// hash.
    pub fn new(process_id: u32, thread_key: u64) -> (r: Self)
        ensures
            r.process_id() == process_id,
            r.thread_key() == thread_key,
            r.cached() is None,
    {
        FingerprintCache { process_id, thread_key, slot: None }
    }
}

/// The thread's fingerprint. The first successful request draws two random
/// values, hashes the seed and keeps the result; every later request returns
/// the kept string.
pub fn fingerprint(cache: &mut FingerprintCache) -> (r: Result<String, CuidError>)
    ensures
        final(cache).process_id() == old(cache).process_id(),
        final(cache).thread_key() == old(cache).thread_key(),
        exists|random1: u128, random2: u128|
            (final(cache).cached(), result_view(r)) == fingerprint_step(
                old(cache).cached(),
                fingerprint_of(random1, random2, old(cache).process_id(), old(cache).thread_key()),
            ),
        r matches Ok(s) ==> s@.len() == BIG_LENGTH && all_in_alphabet(s@),
{
    proof {
        use_type_invariant(&*cache);
    }
    if let Some(s) = &cache.slot {
        let kept = s.clone();
        proof {
            let (a, b) = choose|a: u128, b: u128|
                fingerprint_of(a, b, cache.process_id, cache.thread_key) == Ok::<
                    Seq<char>,
                    CuidError,
                >(kept@);
            lemma_fingerprint_shape(a, b, cache.process_id, cache.thread_key);
            assert((cache.cached(), result_view(Ok(kept))) == fingerprint_step(
                old(cache).cached(),
                fingerprint_of(a, b, old(cache).process_id(), old(cache).thread_key()),
            ));
        }
        return Ok(kept);
    }
    let random1: u128 = rand::random::<u128>();
    let random2: u128 = rand::random::<u128>();
    let r = fingerprint_from_seed(random1, random2, cache.process_id, cache.thread_key);
    if let Ok(s) = &r {
        cache.slot = Some(s.clone());
    }
    assert((cache.cached(), result_view(r)) == fingerprint_step(
        old(cache).cached(),
        fingerprint_of(random1, random2, old(cache).process_id(), old(cache).thread_key()),
    ));
    r
}

} // verus!
