use dicemaiden_rs::dice::rng::{
    create_enhanced_rng, create_fast_rng, enhanced_seed, fallback_seed, get_dice_rng,
    hash_thread_id, DiceRng,
};
use std::collections::HashSet;
use std::time::{SystemTime, UNIX_EPOCH};

fn thread_entropy() -> u64 {
    hash_thread_id(&b"ThreadId(1)".to_vec())
}

#[test]
fn test_rng_creation() {
    let _rng = create_enhanced_rng(thread_entropy(), 4242, 0x7ffd_1234_5678);
}

#[test]
fn test_rng_produces_different_values() {
    let mut rng1 = create_enhanced_rng(thread_entropy(), 4242, 0x7ffd_1234_5678);
    let mut rng2 = create_enhanced_rng(thread_entropy(), 4242, 0x7ffd_1234_5678);

    let val1 = rng1.next_u64();
    let val2 = rng2.next_u64();

    println!("RNG1: {}, RNG2: {}", val1, val2);
}

#[test]
fn test_dice_distribution() {
    let mut rng = get_dice_rng();
    let mut counts = [0u32; 6];
    let trials = 10000u32;

    for _ in 0..trials {
        let roll = rng.roll(6);
        counts[(roll - 1) as usize] += 1;
    }

    let expected = trials / 6;
    let tolerance = expected / 4;

    for (face, &count) in counts.iter().enumerate() {
        assert!(
            count > expected - tolerance && count < expected + tolerance,
            "Face {} appeared {} times, expected around {} (±{})",
            face + 1,
            count,
            expected,
            tolerance
        );
    }
}

#[test]
fn test_rng_uniqueness() {
    let mut rngs: Vec<DiceRng> = (0..10)
        .map(|_| create_enhanced_rng(thread_entropy(), 4242, 0x7ffd_1234_5678))
        .collect();
    let mut first_values = HashSet::new();

    for rng in &mut rngs {
        let value: u64 = rng.next_u64();
        first_values.insert(value);
    }

    assert!(
        first_values.len() >= 8,
        "Expected at least 8 unique values, got {}",
        first_values.len()
    );
}

#[test]
fn test_fallback_seeding() {
    let time_nanos = SystemTime::now()
        .duration_since(UNIX_EPOCH)
        .unwrap_or_default()
        .as_nanos() as u64;
    let seed = fallback_seed(time_nanos, 4242);

    assert!(
        seed.iter().any(|&b| b != 0),
        "Fallback seed should not be all zeros"
    );
}

#[test]
fn fallback_seed_repeats_the_product_bytes() {
    let seed = fallback_seed(3, 5);
    let mut expected = [0u8; 16];
    expected[0] = 15;
    expected[8] = 15;
    assert_eq!(seed, expected);
}

#[test]
fn fallback_seed_wraps_the_product() {
    let seed = fallback_seed(u64::MAX, 2);
    let bytes = u64::MAX.wrapping_mul(2).to_le_bytes();
    assert_eq!(&seed[0..8], &bytes[..]);
    assert_eq!(&seed[8..16], &bytes[..]);
}

#[test]
fn thread_hash_of_known_text() {
    // "ab": 97, then 97 ^ 97 = 0; then 0 * 31 + 98 = 98, then 98 ^ (98 << 1).
    assert_eq!(hash_thread_id(&b"ab".to_vec()), 98 ^ 196);
    assert_eq!(hash_thread_id(&Vec::new()), 0);
}

#[test]
fn enhanced_seed_is_deterministic_in_its_sources() {
    let os = Some([7u8; 16]);
    let a = enhanced_seed(os, 11, 12, 13, 14, 15);
    let b = enhanced_seed(os, 11, 12, 13, 14, 15);
    assert_eq!(a, b);
    let c = enhanced_seed(os, 11, 12, 13, 14, 16);
    assert_ne!(a, c);
}

#[test]
fn enhanced_seed_with_no_sources_keeps_os_bytes() {
    let os = Some([9u8; 16]);
    let seed = enhanced_seed(os, 0, 0, 0, 0, 0);
    assert_eq!(&seed[0..16], &[9u8; 16][..]);
    assert_eq!(&seed[16..32], &[0u8; 16][..]);
}

#[test]
fn seeded_generator_is_reproducible_and_in_range() {
    let mut a = DiceRng::seed_from_u64(99);
    let mut b = DiceRng::seed_from_u64(99);
    for _ in 0..100 {
        let x = a.roll(20);
        assert_eq!(x, b.roll(20));
        assert!((1..=20).contains(&x));
    }
}

#[test]
fn fast_generator_rolls_in_range() {
    let mut rng = create_fast_rng(thread_entropy(), 1, 2);
    for _ in 0..200 {
        let x = rng.roll(8);
        assert!((1..=8).contains(&x));
    }
}
