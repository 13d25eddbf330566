use chaum_pedersen::is_probably_prime;
use num_bigint::BigUint;

fn ipp(n: u64) -> bool {
    is_probably_prime(&BigUint::from(n), 40)
}

#[test]
fn small_primes_accepted() {
    let primes: [u64; 168] = [
        2, 3, 5, 7, 11, 13, 17, 19, 23, 29, 31, 37, 41, 43, 47, 53, 59, 61, 67, 71, 73, 79, 83,
        89, 97, 101, 103, 107, 109, 113, 127, 131, 137, 139, 149, 151, 157, 163, 167, 173, 179,
        181, 191, 193, 197, 199, 211, 223, 227, 229, 233, 239, 241, 251, 257, 263, 269, 271, 277,
        281, 283, 293, 307, 311, 313, 317, 331, 337, 347, 349, 353, 359, 367, 373, 379, 383, 389,
        397, 401, 409, 419, 421, 431, 433, 439, 443, 449, 457, 461, 463, 467, 479, 487, 491, 499,
        503, 509, 521, 523, 541, 547, 557, 563, 569, 571, 577, 587, 593, 599, 601, 607, 613, 617,
        619, 631, 641, 643, 647, 653, 659, 661, 673, 677, 683, 691, 701, 709, 719, 727, 733, 739,
        743, 751, 757, 761, 769, 773, 787, 797, 809, 811, 821, 823, 827, 829, 839, 853, 857, 859,
        863, 877, 881, 883, 887, 907, 911, 919, 929, 937, 941, 947, 953, 967, 971, 977, 983, 991,
        997,
    ];
    for &p in primes.iter() {
        assert!(ipp(p), "{} should be probably prime", p);
    }
}

#[test]
fn small_composites_rejected() {
    let composites: [u64; 14] = [4, 6, 8, 9, 10, 15, 21, 25, 27, 33, 35, 49, 91, 561];
    for &c in composites.iter() {
        assert!(!ipp(c), "{} should be composite", c);
    }
}

#[test]
fn below_two_rejected() {
    assert!(!ipp(0));
    assert!(!ipp(1));
}

#[test]
fn two_and_three_accepted() {
    assert!(ipp(2));
    assert!(ipp(3));
}

#[test]
fn large_even_rejected() {
    assert!(!is_probably_prime(&BigUint::from(1_000_000_000_000u64), 40));
}

#[test]
fn zero_rounds_pass_odd_candidates() {
    // With no witness rounds the test can reject nothing beyond the cheap
    // screens, so an odd composite above 3 passes vacuously.
    assert!(is_probably_prime(&BigUint::from(9u32), 0));
}

#[test]
fn mersenne_prime_accepted() {
    // 2^127 - 1 is prime.
    let m127 = (BigUint::from(1u32) << 127u32) - BigUint::from(1u32);
    assert!(is_probably_prime(&m127, 40));
    // 2^127 + 1 is divisible by 3.
    let m127p2 = (BigUint::from(1u32) << 127u32) + BigUint::from(1u32);
    assert!(!is_probably_prime(&m127p2, 40));
}
