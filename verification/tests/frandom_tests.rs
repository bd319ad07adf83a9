use rt::frandom::{frandom_ticks, random, LCG_SEED, RES};

#[test]
fn random_first_step_from_seed() {
    let mut state: u64 = LCG_SEED;
    let r = random(&mut state);
    assert_eq!(r, 0x64bfc69d4ff2465d);
    assert_eq!(state, 0x64bfc69d4ff2465d);
}

#[test]
fn random_known_sequence() {
    let mut state: u64 = LCG_SEED;
    let expected: [u64; 5] = [
        0x64bfc69d4ff2465d,
        0xd8a217a8b2c46d16,
        0xb3dbcef60543e1eb,
        0xa5ad4ab2d2fcc86c,
        0x5dd5984bc0e145e9,
    ];
    for want in expected {
        assert_eq!(random(&mut state), want);
    }
}

#[test]
fn random_same_seed_same_stream() {
    let mut a: u64 = LCG_SEED;
    let mut b: u64 = LCG_SEED;
    for _ in 0..100 {
        assert_eq!(random(&mut a), random(&mut b));
    }
    assert_eq!(a, b);
}

#[test]
fn frandom_ticks_known_values() {
    let mut state: u64 = LCG_SEED;
    let expected: [u64; 5] = [13189, 24495, 7924, 11692, 62500];
    for want in expected {
        assert_eq!(frandom_ticks(&mut state), want);
    }
}

#[test]
fn frandom_ticks_stay_in_range() {
    let mut state: u64 = 7;
    for _ in 0..1000 {
        let t = frandom_ticks(&mut state);
        assert!(t <= RES);
    }
}
