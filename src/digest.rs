//! The digest-encoder: byte blocks to a fixed-length string over the base-36
//! alphabet, through SHA3-512.
use vstd::prelude::*;
use vstd::string::StrSliceExecFns;

use crate::error::CuidError;
use crate::radix::{
    alphabet, be_value, big_endian_to_radix, lemma_be_value_at_most_all_ones,
    lemma_radix_digits_in_alphabet, lemma_radix_digits_len_monotonic, radix_digits,
};
use crate::BASE;

verus! {

/// The bytes of the blocks, one after the other.
pub open spec fn concat(blocks: Seq<Seq<u8>>) -> Seq<u8>
    decreases blocks.len(),
{
    if blocks.len() == 0 {
        Seq::empty()
    } else {
        concat(blocks.drop_last()) + blocks.last()
    }
}

/// The contents of each block.
pub open spec fn block_views(blocks: Seq<Vec<u8>>) -> Seq<Seq<u8>> {
    blocks.map_values(|b: Vec<u8>| b@)
}

/// A string result seen as its characters.
pub open spec fn result_view(r: Result<String, CuidError>) -> Result<Seq<char>, CuidError> {
    match r {
        Ok(s) => Ok(s@),
        Err(e) => Err(e),
    }
}

/// The SHA3-512 digest of some bytes.
pub uninterp spec fn sha3_512_of(data: Seq<u8>) -> Seq<u8>;

/// Relies on sha3's `Sha3_512` through `Digest::digest`: a 64-byte digest
/// that depends on the input bytes alone.
#[verifier::external_body]
fn sha3_512(data: &[u8]) -> (r: Vec<u8>)
    ensures
        r@ == sha3_512_of(data@),
        r@.len() == 64,
{
    <sha3::Sha3_512 as sha3::Digest>::digest(data).to_vec()
}

/// The base-36 digits of a digest read as a big-endian unsigned integer.
pub open spec fn digest_digits(digest: Seq<u8>) -> Seq<char> {
    radix_digits(be_value(digest), BASE as nat)
}

/// The first `length` digits of the digest, or an error where it has fewer.
pub open spec fn encoded_prefix(digest: Seq<u8>, length: nat) -> Result<Seq<char>, CuidError> {
    let d = digest_digits(digest);
    if length <= d.len() {
        Ok(d.take(length as int))
    } else {
        Err(CuidError::EncodingLengthError)
    }
}

/// What `hash` gives for these blocks and this length.
pub open spec fn hash_result(blocks: Seq<Seq<u8>>, length: nat) -> Result<Seq<char>, CuidError> {
    encoded_prefix(sha3_512_of(concat(blocks)), length)
}

/// Every character of `s` is a symbol of the alphabet.
pub open spec fn all_in_alphabet(s: Seq<char>) -> bool {
    forall|i: int| 0 <= i < s.len() ==> alphabet().contains(#[trigger] s[i])
}

/// The most digits that a 64-byte digest can have: those of the largest one.
pub open spec fn max_digest_digits() -> nat {
    digest_digits(Seq::new(64, |i: int| 255u8)).len()
}

/// A length that the digest's digits can supply gives a string of exactly
/// that many characters, each a symbol of the alphabet.
pub proof fn lemma_encoded_prefix_shape(digest: Seq<u8>, length: nat)
    requires
        length <= digest_digits(digest).len(),
    ensures
        encoded_prefix(digest, length) is Ok,
        encoded_prefix(digest, length)->Ok_0.len() == length,
        all_in_alphabet(encoded_prefix(digest, length)->Ok_0),
{
    let d = digest_digits(digest);
    lemma_radix_digits_in_alphabet(be_value(digest), BASE as nat);
    let s = d.take(length as int);
    assert forall|i: int| 0 <= i < s.len() implies alphabet().contains(#[trigger] s[i]) by {
        assert(s[i] == d[i]);
    }
}

/// No 64-byte digest has more than `max_digest_digits()` digits, so a longer
/// request is refused with `EncodingLengthError`, never shortened or padded.
pub proof fn lemma_length_beyond_digest(digest: Seq<u8>, length: nat)
    requires
        digest.len() == 64,
        length > max_digest_digits(),
    ensures
        encoded_prefix(digest, length) == Err::<Seq<char>, CuidError>(
            CuidError::EncodingLengthError,
        ),
{
    lemma_be_value_at_most_all_ones(digest);
    lemma_radix_digits_len_monotonic(
        be_value(digest),
        be_value(Seq::new(64, |i: int| 255u8)),
        BASE as nat,
    );
}

/// Hashing is deterministic: the same blocks and the same length give the
/// same result.
pub proof fn lemma_hash_deterministic(
    blocks1: Seq<Seq<u8>>,
    blocks2: Seq<Seq<u8>>,
    length1: nat,
    length2: nat,
)
    requires
        blocks1 == blocks2,
        length1 == length2,
    ensures
        hash_result(blocks1, length1) == hash_result(blocks2, length2),
{
}

/// Encodes a digest in base 36 and keeps its first `length` characters.
pub fn encode_digest(digest: &[u8], length: u16) -> (r: Result<String, CuidError>)
    ensures
        result_view(r) == encoded_prefix(digest@, length as nat),
        r matches Ok(s) ==> s@.len() == length && all_in_alphabet(s@),
{
    let digits = big_endian_to_radix(digest, BASE as u32);
    let available = digits.as_str().unicode_len();
    if length as usize > available {
        Err(CuidError::EncodingLengthError)
    } else {
        let prefix = digits.as_str().substring_char(0, length as usize);
        assert(prefix@ =~= digits@.take(length as int));
        proof {
            lemma_encoded_prefix_shape(digest@, length as nat);
        }
        Ok(prefix.to_owned())
    }
}

/// Joins the blocks into one run of bytes, in order.
fn concat_blocks(blocks: &[Vec<u8>]) -> (r: Vec<u8>)
    ensures
        r@ == concat(block_views(blocks@)),
{
    let mut data: Vec<u8> = Vec::new();
    let mut i: usize = 0;
    while i < blocks.len()
        invariant
            i <= blocks@.len(),
            data@ == concat(block_views(blocks@).take(i as int)),
        decreases blocks@.len() - i,
    {
        let ghost before = data@;
        data.extend_from_slice(blocks[i].as_slice());
        proof {
            let views = block_views(blocks@);
            assert(views.take(i + 1).drop_last() =~= views.take(i as int));
            assert(data@ =~= before + blocks@[i as int]@);
        }
        i += 1;
    }
    assert(block_views(blocks@).take(i as int) =~= block_views(blocks@));
    data
}

/// Digests the blocks, in order, with SHA3-512, writes the digest in base 36
/// and keeps its first `length` characters.
pub fn hash(blocks: &[Vec<u8>], length: u16) -> (r: Result<String, CuidError>)
    ensures
        result_view(r) == hash_result(block_views(blocks@), length as nat),
        sha3_512_of(concat(block_views(blocks@))).len() == 64,
        r matches Ok(s) ==> s@.len() == length && all_in_alphabet(s@),
        length > max_digest_digits() ==> r == Err::<String, CuidError>(
            CuidError::EncodingLengthError,
        ),
{
    let data = concat_blocks(blocks);
    let digest = sha3_512(data.as_slice());
    let r = encode_digest(digest.as_slice(), length);
    proof {
        if length > max_digest_digits() {
            lemma_length_beyond_digest(digest@, length as nat);
        }
    }
    r
}

} // verus!
