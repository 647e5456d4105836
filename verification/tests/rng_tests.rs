use fire::rng::Rng;

#[test]
fn xorshift_first_value_from_seed_one() {
    let mut r = Rng::with_seed(1);
    // 1 -> ^<<13 = 8193 -> ^>>17 = 8193 -> ^<<5 = 270369
    assert_eq!(r.next(), 270_369);
    assert_eq!(r.0, 270_369);
}

#[test]
fn equal_seeds_give_equal_sequences() {
    let mut a = Rng::with_seed(0xDEAD_BEEF);
    let mut b = Rng::with_seed(0xDEAD_BEEF);
    for _ in 0..100 {
        assert_eq!(a.next(), b.next());
    }
}

#[test]
fn clock_seeded_state_is_odd_and_nonzero() {
    let r = Rng::new();
    assert_eq!(r.0 & 1, 1);
    assert_ne!(r.0, 0);
}
