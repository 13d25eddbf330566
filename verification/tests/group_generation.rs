use chaum_pedersen::{
    find_generator, generate_params, generate_prime, generate_random_element,
    generate_safe_prime_pair, generate_secrets, is_probably_prime, PublicParameters,
};
use num_bigint::BigUint;

#[test]
fn generated_params_form_a_safe_prime_group() {
    let (p, q, g) = generate_params(256).expect("generation should succeed");
    // p = 2q + 1
    assert_eq!(p, BigUint::from(2u32) * &q + BigUint::from(1u32));
    // both prime per the tester
    assert!(is_probably_prime(&p, 40));
    assert!(is_probably_prime(&q, 40));
    // g generates the order-q subgroup
    assert!(g != BigUint::from(1u32));
    assert!(g > BigUint::from(1u32));
    assert!(g < &p - BigUint::from(1u32));
    assert_eq!(g.modpow(&q, &p), BigUint::from(1u32));
    // at most 256 bits
    assert!(p.bits() <= 256);
}

#[test]
fn safe_prime_pair_is_sophie_germain() {
    let (p, q) = generate_safe_prime_pair(256).expect("generation should succeed");
    assert_eq!(p, BigUint::from(2u32) * &q + BigUint::from(1u32));
    assert!(is_probably_prime(&q, 40));
    assert!(is_probably_prime(&p, 40));
    assert!(q.bits() <= 255);
}

#[test]
fn find_generator_in_small_group() {
    // p = 23 is a safe prime with q = 11.
    let p = BigUint::from(23u32);
    let q = BigUint::from(11u32);
    let g = find_generator(&p, &q).expect("a generator exists");
    assert!(g > BigUint::from(1u32));
    assert!(g < &p - BigUint::from(1u32));
    assert_eq!(g.modpow(&q, &p), BigUint::from(1u32));
}

#[test]
fn random_elements_stay_in_range() {
    let q = BigUint::from(11u32);
    for _ in 0..200 {
        let r = generate_random_element(&q);
        assert!(r >= BigUint::from(1u32));
        assert!(r < q);
    }
    let (a, b) = generate_secrets(&q);
    assert!(a >= BigUint::from(1u32) && a < q);
    assert!(b >= BigUint::from(1u32) && b < q);
}

#[test]
fn generated_prime_passes_the_tester() {
    let c = generate_prime(64).expect("generation should succeed");
    assert!(is_probably_prime(&c, 40));
    assert!(c.bits() <= 64);
}

#[test]
fn public_parameters_new_builds_a_group() {
    let params = PublicParameters::new(256).expect("generation should succeed");
    assert_eq!(
        params.p,
        BigUint::from(2u32) * &params.q + BigUint::from(1u32)
    );
    assert_eq!(params.g.modpow(&params.q, &params.p), BigUint::from(1u32));
}
