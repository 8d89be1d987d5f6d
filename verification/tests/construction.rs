use optimus::{ConstructionError, Optimus, MAX_INT, MIN_RANDOM, MODULUS};

#[test]
fn explicit_parameters_are_stored_as_given() {
    let o = Optimus::new(1580030173, Some(59260789), Some(1163945558)).unwrap();
    assert_eq!(o.prime(), 1580030173);
    assert_eq!(o.mod_inverse(), 59260789);
    assert_eq!(o.random(), 1163945558);
}

#[test]
fn explicit_inverse_is_not_checked_against_the_prime() {
    let o = Optimus::new(1580030173, Some(12345), Some(1)).unwrap();
    assert_eq!(o.mod_inverse(), 12345);
    let o = Optimus::new(3, Some(u64::MAX), Some(1)).unwrap();
    assert_eq!(o.mod_inverse(), u64::MAX);
}

#[test]
fn missing_inverse_is_computed() {
    let o = Optimus::new(1580030173, None, Some(1163945558)).unwrap();
    assert_eq!(o.mod_inverse(), 59260789);
    assert_eq!((o.prime() * o.mod_inverse()) % MODULUS, 1);
    let o = Optimus::new(3, None, Some(0)).unwrap();
    assert_eq!(o.mod_inverse(), 715827883);
    let o = Optimus::new(2147483645, None, Some(0)).unwrap();
    assert_eq!(o.mod_inverse(), 1431655765);
}

#[test]
fn missing_mask_is_drawn_from_its_range() {
    let mut distinct = std::collections::HashSet::new();
    for _ in 0..200 {
        let o = Optimus::new(1580030173, Some(59260789), None).unwrap();
        assert!(o.random() >= MIN_RANDOM);
        assert!(o.random() >= 1 << 20);
        assert!(o.random() < MODULUS);
        distinct.insert(o.random());
    }
    assert!(distinct.len() > 1);
    assert!(distinct.iter().any(|m| *m != MIN_RANDOM && *m != MODULUS));
}

#[test]
fn small_explicit_mask_is_accepted() {
    let o = Optimus::new(3, Some(715827883), Some(0)).unwrap();
    assert_eq!(o.random(), 0);
    assert_eq!(o.encode(5), 15);
    assert_eq!(o.decode(15), 5);
}

#[test]
fn largest_mask_is_accepted() {
    let o = Optimus::new(3, Some(715827883), Some(MODULUS - 1)).unwrap();
    assert_eq!(o.random(), 2147483647);
    assert_eq!(o.decode(o.encode(77)), 77);
}

#[test]
fn prime_two_with_explicit_inverse_is_accepted() {
    let o = Optimus::new(2, Some(1), Some(5)).unwrap();
    assert_eq!(o.prime(), 2);
    assert_eq!(o.encode(3), 6 ^ 5);
}

#[test]
fn prime_two_without_inverse_has_none() {
    assert_eq!(Optimus::new(2, None, Some(5)).err(), Some(ConstructionError::NoModularInverse));
    assert_eq!(Optimus::new(2, None, None).err(), Some(ConstructionError::NoModularInverse));
}

#[test]
fn primes_below_two_are_invalid() {
    assert_eq!(Optimus::new(0, None, None).err(), Some(ConstructionError::InvalidPrime));
    assert_eq!(Optimus::new(1, None, None).err(), Some(ConstructionError::InvalidPrime));
    assert_eq!(Optimus::new(0, Some(1), Some(1)).err(), Some(ConstructionError::InvalidPrime));
    assert_eq!(Optimus::new(1, Some(1), Some(1)).err(), Some(ConstructionError::InvalidPrime));
}

#[test]
fn even_primes_other_than_two_are_invalid() {
    for prime in [4u64, 6, 100, 1580030174, 2147483646] {
        assert_eq!(Optimus::new(prime, None, None).err(), Some(ConstructionError::InvalidPrime));
        assert_eq!(
            Optimus::new(prime, Some(1), Some(1)).err(),
            Some(ConstructionError::InvalidPrime)
        );
    }
}

#[test]
fn primes_from_the_largest_identifier_on_are_invalid() {
    for prime in [MAX_INT, MODULUS, MODULUS + 1, MODULUS + 2, u64::MAX] {
        assert_eq!(Optimus::new(prime, None, None).err(), Some(ConstructionError::InvalidPrime));
        assert_eq!(
            Optimus::new(prime, Some(1), Some(1)).err(),
            Some(ConstructionError::InvalidPrime)
        );
    }
}

#[test]
fn largest_valid_prime_is_accepted() {
    let o = Optimus::new(MAX_INT - 2, None, Some(1)).unwrap();
    assert_eq!(o.prime(), 2147483645);
}

#[test]
fn masks_from_the_modulus_on_are_invalid() {
    for mask in [MODULUS, MODULUS + 1, u64::MAX] {
        assert_eq!(
            Optimus::new(1580030173, None, Some(mask)).err(),
            Some(ConstructionError::InvalidRandom)
        );
        assert_eq!(
            Optimus::new(1580030173, Some(59260789), Some(mask)).err(),
            Some(ConstructionError::InvalidRandom)
        );
    }
}

#[test]
fn prime_is_checked_before_mask_and_mask_before_inverse() {
    assert_eq!(
        Optimus::new(4, None, Some(MODULUS)).err(),
        Some(ConstructionError::InvalidPrime)
    );
    assert_eq!(
        Optimus::new(2, None, Some(MODULUS)).err(),
        Some(ConstructionError::InvalidRandom)
    );
}
