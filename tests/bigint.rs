use zkvm_protocol::bigint::{is_less, modpow_65537, RsaArray, RSA_4096_WIDTH_WORDS};
use zkvm_protocol::violation::ContractViolation;

fn small(v: u32) -> RsaArray {
    let mut a = [0u32; RSA_4096_WIDTH_WORDS];
    a[0] = v;
    a
}

#[test]
fn width_is_4096_bits() {
    assert_eq!(RSA_4096_WIDTH_WORDS, 128);
}

#[test]
fn is_less_on_small_values() {
    assert!(is_less(&small(3), &small(7)));
    assert!(!is_less(&small(7), &small(3)));
    assert!(!is_less(&small(7), &small(7)));
}

#[test]
fn is_less_looks_at_the_top_word_first() {
    let mut high = small(0);
    high[RSA_4096_WIDTH_WORDS - 1] = 1;
    let low = small(u32::MAX);
    assert!(is_less(&low, &high));
    assert!(!is_less(&high, &low));
    let mut high_plus_one = high;
    high_plus_one[0] = 1;
    assert!(is_less(&high, &high_plus_one));
}

#[test]
fn true_result_is_accepted() {
    // 2^65537 mod 7 == 4, since 2^3 == 1 (mod 7) and 65537 == 2 (mod 3).
    let r = modpow_65537(&small(2), &small(7), &small(4));
    assert_eq!(r, Ok(small(4)));
}

#[test]
fn result_equal_to_modulus_is_rejected() {
    let r = modpow_65537(&small(2), &small(7), &small(7));
    assert_eq!(r, Err(ContractViolation::ResultOutOfRange));
}

#[test]
fn shifted_result_is_rejected() {
    // A cheating accelerator answers 1^65537 mod 3 with 4 == 1 + 3.
    assert_eq!(modpow_65537(&small(1), &small(3), &small(1)), Ok(small(1)));
    assert_eq!(
        modpow_65537(&small(1), &small(3), &small(4)),
        Err(ContractViolation::ResultOutOfRange)
    );
}

#[test]
fn shifted_result_is_rejected_across_words() {
    let mut modulus = small(5);
    modulus[RSA_4096_WIDTH_WORDS - 1] = 0x8000_0000;
    let honest = small(9);
    assert_eq!(modpow_65537(&small(9), &modulus, &honest), Ok(honest));
    let mut shifted = modulus;
    shifted[0] = 5 + 9;
    assert_eq!(
        modpow_65537(&small(9), &modulus, &shifted),
        Err(ContractViolation::ResultOutOfRange)
    );
}
