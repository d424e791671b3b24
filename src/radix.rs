//! Big-endian integers and their digits in a radix up to 36.
use vstd::prelude::*;

verus! {

/// The symbols of a digit, by value: `0`-`9`, then `a`-`z`.
pub open spec fn alphabet() -> Seq<char> {
    seq![
        '0', '1', '2', '3', '4', '5', '6', '7', '8', '9', 'a', 'b', 'c', 'd', 'e', 'f', 'g', 'h',
        'i', 'j', 'k', 'l', 'm', 'n', 'o', 'p', 'q', 'r', 's', 't', 'u', 'v', 'w', 'x', 'y', 'z',
    ]
}

/// The unsigned integer that bytes spell, most significant byte first.
pub open spec fn be_value(b: Seq<u8>) -> nat
    decreases b.len(),
{
    if b.len() == 0 {
        0
    } else {
        be_value(b.drop_last()) * 256 + b.last() as nat
    }
}

/// The digits of `n` in radix `r`, most significant first, without leading
/// zeros (zero itself is the single digit `0`).
pub open spec fn radix_digits(n: nat, r: nat) -> Seq<char>
    recommends
        2 <= r <= 36,
    decreases n,
    via radix_digits_decreases
{
    if r < 2 || n < r {
        seq![alphabet()[n as int]]
    } else {
        radix_digits(n / r, r).push(alphabet()[(n % r) as int])
    }
}

#[via_fn]
proof fn radix_digits_decreases(n: nat, r: nat) {
    if !(r < 2 || n < r) {
        vstd::arithmetic::div_mod::lemma_div_decreases(n as int, r as int);
    }
}

/// Every digit of `n` in a radix up to 36 is a symbol of the alphabet.
pub proof fn lemma_radix_digits_in_alphabet(n: nat, r: nat)
    requires
        2 <= r <= 36,
    ensures
        forall|i: int|
            0 <= i < radix_digits(n, r).len() ==> alphabet().contains(
                #[trigger] radix_digits(n, r)[i],
            ),
    decreases n,
{
    let d = radix_digits(n, r);
    assert(alphabet().len() == 36);
    if n < r {
        assert(alphabet().contains(alphabet()[n as int]));
    } else {
        vstd::arithmetic::div_mod::lemma_div_decreases(n as int, r as int);
        lemma_radix_digits_in_alphabet(n / r, r);
        let k = (n % r) as int;
        assert(alphabet().contains(alphabet()[k]));
        assert forall|i: int| 0 <= i < d.len() implies alphabet().contains(#[trigger] d[i]) by {
            if i < d.len() - 1 {
                assert(d[i] == radix_digits(n / r, r)[i]);
            }
        }
    }
}

/// A larger number has at least as many digits.
pub proof fn lemma_radix_digits_len_monotonic(a: nat, b: nat, r: nat)
    requires
        2 <= r,
        a <= b,
    ensures
        radix_digits(a, r).len() <= radix_digits(b, r).len(),
    decreases b,
{
    if a >= r {
        vstd::arithmetic::div_mod::lemma_div_is_ordered(a as int, b as int, r as int);
        vstd::arithmetic::div_mod::lemma_div_decreases(b as int, r as int);
        lemma_radix_digits_len_monotonic(a / r, b / r, r);
    }
}

/// Of two byte strings of one length, the one of all `0xff` bytes has the
/// larger big-endian value.
pub proof fn lemma_be_value_at_most_all_ones(b: Seq<u8>)
    ensures
        be_value(b) <= be_value(Seq::new(b.len(), |i: int| 255u8)),
    decreases b.len(),
{
    let ones = Seq::new(b.len(), |i: int| 255u8);
    if b.len() > 0 {
        let shorter = Seq::new((b.len() - 1) as nat, |i: int| 255u8);
        assert(ones.drop_last() =~= shorter);
        lemma_be_value_at_most_all_ones(b.drop_last());
        let x = be_value(b.drop_last());
        let y = be_value(shorter);
        assert(x * 256 <= y * 256) by (nonlinear_arith)
            requires
                x <= y,
        ;
    }
}

/// Writes the big-endian value of `bytes` in radix `radix`.
///
/// Relies on num's `BigUint::from_bytes_be` to read the bytes as one unsigned
/// integer, and on `BigUint::to_str_radix` to write that integer with the
/// symbols of `alphabet`, most significant digit first and without leading
/// zeros; it panics outside radixes 2 to 36.
#[verifier::external_body]
pub(crate) fn big_endian_to_radix(bytes: &[u8], radix: u32) -> (r: String)
    requires
        2 <= radix <= 36,
    ensures
        r@ == radix_digits(be_value(bytes@), radix as nat),
{
    num::bigint::BigUint::from_bytes_be(bytes).to_str_radix(radix)
}

} // verus!
