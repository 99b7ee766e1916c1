use build_keyboard_sounds::rng::{hash_name, Lcg};

#[test]
fn hash_name_is_fnv1a() {
    assert_eq!(hash_name(""), 2_166_136_261);
    assert_eq!(hash_name("0.wav"), 1_066_238_867);
    assert_eq!(hash_name("enter.wav"), 4_180_895_525);
    assert_ne!(hash_name("1.wav"), hash_name("0.wav"));
}

#[test]
fn zero_seed_becomes_one() {
    assert_eq!(Lcg::new(0).state, 1);
    assert_eq!(Lcg::new(1).state, 1);
    assert_eq!(Lcg::new(99).state, 99);
}

#[test]
fn generator_steps_are_linear_congruential() {
    let mut rng = Lcg::new(7);
    let bits = rng.next_bits();
    assert_eq!(rng.state, 1_025_555_898);
    assert_eq!(bits, 4_006_077);
    let mut a = Lcg::new(12345);
    let mut b = Lcg::new(12345);
    for _ in 0..100 {
        let x = a.next_bits();
        assert_eq!(x, b.next_bits());
        assert!(x < 1 << 24);
    }
}
