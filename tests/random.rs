use awfy::som::random::Random;

#[test]
fn random_tests() {
    let mut random = Random::default();
    assert_eq!(random.next(), 22896);
    assert_eq!(random.next(), 34761);
    assert_eq!(random.next(), 34014);
    assert_eq!(random.next(), 39231);
    assert_eq!(random.next(), 52540);
    assert_eq!(random.next(), 41445);
    assert_eq!(random.next(), 1546);
    assert_eq!(random.next(), 5947);
    assert_eq!(random.next(), 65224);
}

#[test]
fn random_starts_from_fixed_seed() {
    let random = Random::default();
    assert_eq!(random.seed, 74755);
}

#[test]
fn random_next_stores_the_seed() {
    let mut random = Random { seed: 0 };
    assert_eq!(random.next(), 13849);
    assert_eq!(random.seed, 13849);
}

#[test]
fn random_negative_seed_wraps_into_range() {
    let mut random = Random { seed: -11 };
    // -11 * 1309 + 13849 = -550, and -550 mod 65536 = 64986
    assert_eq!(random.next(), 64986);
}
