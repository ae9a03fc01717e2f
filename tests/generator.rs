use canister_rng::rng::{mix_seed, RandomNumberGenerator};
use canister_rng::true_rng::seed_from_entropy;

#[test]
fn end_to_end_u8_sequence() {
    let mut g = RandomNumberGenerator::<u8>::new_custom(1, 13, 7, 31);
    // 13 * 1 + 7 = 20.
    assert_eq!(g.next(), 20);
    // 13 * 20 + 7 = 267 wraps to 11 in eight bits.
    assert_eq!(g.next(), 11);
    // 13 * 11 + 7 = 150, and 150 % 31 = 26.
    assert_eq!(g.next(), 26);
    assert_eq!(g.seed(), 26);
}

#[test]
fn same_parameters_give_same_sequence() {
    let mut g1 = RandomNumberGenerator::<u32>::new_custom(12345, 1664525, 1013904223, 0xffff_ffff);
    let mut g2 = RandomNumberGenerator::<u32>::new_custom(12345, 1664525, 1013904223, 0xffff_ffff);
    for _ in 0..1000 {
        assert_eq!(g1.next(), g2.next());
    }
}

#[test]
fn next_follows_the_recurrence() {
    let (a, c, m): (u64, u64, u64) = (1664525, 1013904223, 0xffff_ffff);
    let mut g = RandomNumberGenerator::<u32>::new_custom(987654321, a as u32, c as u32, m as u32);
    let mut s: u64 = 987654321;
    for _ in 0..500 {
        s = ((a * s + c) % (1u64 << 32)) % m;
        let v = g.next();
        assert_eq!(v as u64, s);
        assert_eq!(g.seed() as u64, s);
    }
    assert_eq!(g.multiplier(), a as u32);
    assert_eq!(g.increment(), c as u32);
    assert_eq!(g.modulus(), m as u32);
}

#[test]
fn range_stays_below_max() {
    let mut g = RandomNumberGenerator::<u16>::new_custom(7, 25173, 13849, 0xffff);
    for max in 1u16..200 {
        assert!(g.range(max) < max);
    }
    let mut h = RandomNumberGenerator::<u8>::new_custom(1, 13, 7, 31);
    assert_eq!(h.range(7), 20 % 7);
    assert_eq!(h.seed(), 20);
}

#[test]
fn range_of_one_is_zero() {
    let mut g = RandomNumberGenerator::<u64>::new(42);
    for _ in 0..100 {
        assert_eq!(g.range(1), 0);
    }
}

#[test]
fn product_wraps_at_max_values() {
    let mut g = RandomNumberGenerator::<u8>::new_custom(u8::MAX, u8::MAX, 0, u8::MAX);
    // 255 * 255 = 65025, which is 1 modulo 256.
    assert_eq!(g.next(), 1);
    let mut h = RandomNumberGenerator::<u64>::new_custom(u64::MAX, u64::MAX, 0, u64::MAX);
    assert_eq!(h.next(), 1);
    let mut k = RandomNumberGenerator::<u64>::new_custom(u64::MAX, u64::MAX, u64::MAX, u64::MAX);
    assert_eq!(k.next(), 0);
    let mut w = RandomNumberGenerator::<usize>::new_custom(usize::MAX, usize::MAX, 3, usize::MAX);
    assert_eq!(w.next(), 4);
}

#[test]
fn default_parameters_by_width() {
    let g8 = RandomNumberGenerator::<u8>::new(5);
    assert_eq!((g8.multiplier(), g8.increment(), g8.modulus()), (13, 7, 31));
    let g16 = RandomNumberGenerator::<u16>::new(5);
    assert_eq!((g16.multiplier(), g16.increment(), g16.modulus()), (25173, 13849, 65535));
    let g32 = RandomNumberGenerator::<u32>::new(5);
    assert_eq!(
        (g32.multiplier(), g32.increment(), g32.modulus()),
        (1664525, 1013904223, 4294967295)
    );
    let g64 = RandomNumberGenerator::<u64>::new(5);
    assert_eq!(
        (g64.multiplier(), g64.increment(), g64.modulus()),
        (1664525, 1013904223, 4294967296)
    );
}

#[test]
fn new_narrows_the_seed_word() {
    assert_eq!(RandomNumberGenerator::<u8>::new(200).seed(), 200);
    assert_eq!(RandomNumberGenerator::<u8>::new(300).seed(), 0);
    assert_eq!(RandomNumberGenerator::<u16>::new(65535).seed(), 65535);
    assert_eq!(RandomNumberGenerator::<u16>::new(65536).seed(), 0);
    assert_eq!(RandomNumberGenerator::<u64>::new(usize::MAX).seed(), usize::MAX as u64);
}

#[test]
fn short_entropy_is_padded_on_the_left() {
    assert_eq!(seed_from_entropy(&vec![0x01, 0x02]), 0x0102);
    assert_eq!(seed_from_entropy(&vec![]), 0);
    assert_eq!(seed_from_entropy(&vec![0xff]), 0xff);
}

#[test]
fn long_entropy_keeps_the_leading_bytes() {
    let bytes: Vec<u8> = (1u8..=32).collect();
    let w = std::mem::size_of::<usize>();
    let mut word = [0u8; std::mem::size_of::<usize>()];
    word.copy_from_slice(&bytes[0..w]);
    assert_eq!(seed_from_entropy(&bytes), usize::from_be_bytes(word));
    if w == 8 {
        assert_eq!(seed_from_entropy(&bytes) as u64, 0x0102_0304_0506_0708);
    }
}

#[test]
fn mixing_gives_the_finalized_value() {
    if usize::BITS == 64 {
        assert_eq!(mix_seed(0, 0) as u64, 0x7f48_37dd_e50f_f27c);
        assert_eq!(
            mix_seed(0x7ffd_1234_5678u64 as usize, 0xdead_beef_cafe_f00du64 as usize) as u64,
            0xaf5c_b55d_e9c3_4ca4
        );
    } else {
        assert_eq!(mix_seed(0, 0) as u64, 0xf261_fb09);
    }
    assert_ne!(mix_seed(0x1000, 1), mix_seed(0x1000, 2));
}
