//! Fixed-width big integers and the range check on a delegated modular
//! exponentiation.
use vstd::prelude::*;
use vstd::arithmetic::power::pow;
use vstd::arithmetic::div_mod::lemma_small_mod;

use crate::violation::ContractViolation;

verus! {

/// Bytes in a machine word.
pub const WORD_SIZE: usize = 4;

/// Words in a 4096-bit integer.
pub const RSA_4096_WIDTH_WORDS: usize = 4096 / (WORD_SIZE * 8);

/// A 4096-bit unsigned integer, least significant word first.
pub type RsaArray = [u32; RSA_4096_WIDTH_WORDS];

/// The fixed public exponent of the delegated exponentiation.
pub open spec fn public_exponent() -> nat {
    65537
}

/// `2^(32 * k)`: the weight of the word at index `k`.
pub open spec fn word_weight(k: nat) -> nat
    decreases k,
{
    if k == 0 {
        1
    } else {
        0x1_0000_0000 * word_weight((k - 1) as nat)
    }
}

/// The number that a little-endian word sequence stands for.
pub open spec fn words_value(s: Seq<u32>) -> nat
    decreases s.len(),
{
    if s.len() == 0 {
        0
    } else {
        words_value(s.drop_last()) + (s.last() as nat) * word_weight((s.len() - 1) as nat)
    }
}

/// The number that a big integer stands for.
pub open spec fn big_value(a: &RsaArray) -> nat {
    words_value(a@)
}

/// The correct answer of the delegated operation: `base^65537 mod modulus`.
pub open spec fn modpow_65537_value(base: nat, modulus: nat) -> nat
    recommends
        modulus > 0,
{
    (pow(base as int, public_exponent()) % (modulus as int)) as nat
}

/// What the range check makes of a result that the accelerator returned.
pub open spec fn checked_result(modulus: &RsaArray, candidate: &RsaArray) -> Result<
    RsaArray,
    ContractViolation,
> {
    if big_value(candidate) < big_value(modulus) {
        Ok(*candidate)
    } else {
        Err(ContractViolation::ResultOutOfRange)
    }
}

/// A sequence of `n` words stands for a number below `2^(32 * n)`.
proof fn lemma_words_value_bound(s: Seq<u32>)
    ensures
        words_value(s) < word_weight(s.len()),
    decreases s.len(),
{
    if s.len() > 0 {
        let n = (s.len() - 1) as nat;
        lemma_words_value_bound(s.drop_last());
        let p = word_weight(n);
        let lo = words_value(s.drop_last());
        let w = s.last() as nat;
        assert(lo + w * p < 0x1_0000_0000 * p) by (nonlinear_arith)
            requires
                lo < p,
                w < 0x1_0000_0000,
        ;
    }
}

/// Of two equal-length sequences that agree above index `j`, the one with the
/// smaller word at `j` stands for the smaller number.
proof fn lemma_top_difference_decides(s: Seq<u32>, t: Seq<u32>, j: int)
    requires
        s.len() == t.len(),
        0 <= j < s.len(),
        s.subrange(j + 1, s.len() as int) == t.subrange(j + 1, t.len() as int),
        s[j] < t[j],
    ensures
        words_value(s) < words_value(t),
    decreases s.len(),
{
    let n = (s.len() - 1) as nat;
    let p = word_weight(n);
    if j == n {
        lemma_words_value_bound(s.drop_last());
        let lo_s = words_value(s.drop_last());
        let lo_t = words_value(t.drop_last());
        let ws = s.last() as nat;
        let wt = t.last() as nat;
        assert(lo_s + ws * p < lo_t + wt * p) by (nonlinear_arith)
            requires
                lo_s < p,
                ws < wt,
        ;
    } else {
        assert(s.last() == s.subrange(j + 1, s.len() as int)[n - j - 1]);
        assert(t.last() == t.subrange(j + 1, t.len() as int)[n - j - 1]);
        assert(s.drop_last().subrange(j + 1, n as int) =~= s.subrange(j + 1, s.len() as int).drop_last());
        assert(t.drop_last().subrange(j + 1, n as int) =~= t.subrange(j + 1, t.len() as int).drop_last());
        lemma_top_difference_decides(s.drop_last(), t.drop_last(), j);
    }
}

/// Compares two big integers as unsigned numbers: `a < b`.
pub fn is_less(a: &RsaArray, b: &RsaArray) -> (r: bool)
    ensures
        r == (big_value(a) < big_value(b)),
{
    let mut i: usize = a.len();
    assert(a@.subrange(i as int, a@.len() as int) =~= b@.subrange(i as int, b@.len() as int));
    while i > 0
        invariant
            i <= a@.len(),
            a@.len() == b@.len(),
            a@.subrange(i as int, a@.len() as int) == b@.subrange(i as int, b@.len() as int),
        decreases i,
    {
        let j: usize = i - 1;
        if a[j] != b[j] {
            proof {
                if a[j as int] < b[j as int] {
                    lemma_top_difference_decides(a@, b@, j as int);
                } else {
                    lemma_top_difference_decides(b@, a@, j as int);
                }
            }
            return a[j] < b[j];
        }
        assert(a@.subrange(j as int, a@.len() as int) =~= b@.subrange(j as int, b@.len() as int)) by {
            assert forall|k: int| 0 <= k < a@.len() - j implies a@.subrange(j as int, a@.len() as int)[k]
                == b@.subrange(j as int, b@.len() as int)[k] by {
                if k > 0 {
                    assert(a@.subrange(i as int, a@.len() as int)[k - 1] == b@.subrange(
                        i as int,
                        b@.len() as int,
                    )[k - 1]);
                }
            }
        }
        i = j;
    }
    assert(a@ =~= b@) by {
        assert(a@ == a@.subrange(0, a@.len() as int));
        assert(b@ == b@.subrange(0, b@.len() as int));
    }
    false
}

/// Validates the result that the host's accelerator returned for
/// `base^65537 mod modulus`.
///
/// The accelerator's own relation only pins the result up to a multiple of
/// `modulus`; requiring `candidate < modulus` removes that slack. `base` is
/// the operand that was handed to the accelerator with `modulus`; the check
/// itself reads only `modulus` and `candidate`.
pub fn modpow_65537(base: &RsaArray, modulus: &RsaArray, candidate: &RsaArray) -> (r: Result<
    RsaArray,
    ContractViolation,
>)
    ensures
        r == checked_result(modulus, candidate),
{
    if is_less(candidate, modulus) {
        Ok(*candidate)
    } else {
        Err(ContractViolation::ResultOutOfRange)
    }
}

/// A result at or above the modulus is always rejected.
pub proof fn modpow_rejects_out_of_range(base: RsaArray, modulus: RsaArray, candidate: RsaArray)
    requires
        big_value(&modulus) > 1,
        big_value(&candidate) >= big_value(&modulus),
    ensures
        checked_result(&modulus, &candidate) == Err::<RsaArray, ContractViolation>(
            ContractViolation::ResultOutOfRange,
        ),
{
}

/// The true answer `base^65537 mod modulus` is always accepted, unchanged.
pub proof fn modpow_accepts_true_result(base: RsaArray, modulus: RsaArray, candidate: RsaArray)
    requires
        big_value(&modulus) > 1,
        big_value(&candidate) == modpow_65537_value(big_value(&base), big_value(&modulus)),
    ensures
        checked_result(&modulus, &candidate) == Ok::<RsaArray, ContractViolation>(candidate),
{
}

/// A host that shifts the true answer by a positive multiple of the modulus is
/// caught.
pub proof fn modpow_rejects_shifted_result(
    base: RsaArray,
    modulus: RsaArray,
    candidate: RsaArray,
    k: nat,
)
    requires
        big_value(&modulus) > 1,
        k >= 1,
        big_value(&candidate) == modpow_65537_value(big_value(&base), big_value(&modulus)) + k
            * big_value(&modulus),
    ensures
        checked_result(&modulus, &candidate) is Err,
{
    let m = big_value(&modulus);
    assert(k * m >= m) by (nonlinear_arith)
        requires
            k >= 1,
            m > 1,
    ;
}

/// A result that meets the accelerator's relation up to a multiple of the
/// modulus and passes the range check is exactly `base^65537 mod modulus`.
pub proof fn modpow_check_pins_result(base: RsaArray, modulus: RsaArray, candidate: RsaArray)
    requires
        big_value(&modulus) > 0,
        (big_value(&candidate) as int) % (big_value(&modulus) as int) == pow(
            big_value(&base) as int,
            public_exponent(),
        ) % (big_value(&modulus) as int),
        checked_result(&modulus, &candidate) is Ok,
    ensures
        checked_result(&modulus, &candidate) == Ok::<RsaArray, ContractViolation>(candidate),
        big_value(&candidate) == modpow_65537_value(big_value(&base), big_value(&modulus)),
{
    lemma_small_mod(big_value(&candidate), big_value(&modulus));
}

} // verus!
