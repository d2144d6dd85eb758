use phase::binary32::{less_than, unit_fraction_bits, HALF_BITS, ONE_BITS};
use phase::gpu_random::philox::{Philox4x32, DEFAULT_ROUNDS, EXHAUSTED};
use phase::gpu_random::widening_mul::widening_mul_u32;
use phase::gpu_random::GPURng;

fn unit(bits: u32) -> f32 {
    f32::from_bits(bits)
}

fn box_muller(u1: u32, u2: u32) -> [u32; 2] {
    let u1 = f32::from_bits(u1);
    let u2 = f32::from_bits(u2);
    let radius = (-2.0 * u1.ln()).sqrt();
    let angle = 2.0 * std::f32::consts::PI * u2;
    [(radius * angle.cos()).to_bits(), (radius * angle.sin()).to_bits()]
}

fn next_normal(phi: &mut Philox4x32, key: [u32; 2], mu: f32, sigma: f32) -> f32 {
    mu + sigma * f32::from_bits(phi.next_standard_normal(key, box_muller))
}

#[test]
fn test_widening() {
    let mut phi = Philox4x32::new(0, 0);
    for _ in 0..100000 {
        let a = phi.next_u32([0, 0]);
        let b = phi.next_u32([0, 0]);
        let m = a as u64 * b as u64;
        let (lo, hi) = widening_mul_u32(a, b);
        assert!(m as u32 == lo);
        assert!((m >> 32) as u32 == hi);
    }
}

#[test]
fn test_philox_normal() {
    let mut phi = Philox4x32::new(0, 0);
    let mut m1 = 0.0;
    let mut m2 = 0.0;
    let mu = 17.3;
    let sigma = 12.1;
    let count = 10000;
    for _ in 0..count {
        let n = next_normal(&mut phi, [0, 0], mu, sigma);
        m1 += n;
        m2 += n * n;
    }
    let inv_count = (count as f32).recip();
    m1 *= inv_count;
    m2 *= inv_count;

    let r_mu = m1;
    let r_sigma = (m2 - m1 * m1).sqrt();
    let rel =
        |a: f32, b: f32| (a - b).abs() / (a.abs().max(b.abs()) + f32::EPSILON) < inv_count.sqrt();
    assert!(rel(mu, r_mu));
    assert!(rel(sigma, r_sigma));
}

#[test]
fn widening_mul_on_the_extremes() {
    assert_eq!(widening_mul_u32(0, 0), (0, 0));
    assert_eq!(widening_mul_u32(1, 1), (1, 0));
    assert_eq!(widening_mul_u32(0xFFFF_FFFF, 1), (0xFFFF_FFFF, 0));
    assert_eq!(widening_mul_u32(0xFFFF_FFFF, 0xFFFF_FFFF), (1, 0xFFFF_FFFE));
    assert_eq!(widening_mul_u32(0x1_0000, 0x1_0000), (0, 1));
    assert_eq!(widening_mul_u32(0xD251_1F53, 0xCD9E_8D57), (0xF40C_5C35, 0xA8ED_3844));
}

#[test]
fn widening_mul_agrees_with_u64_on_a_grid() {
    let samples: [u32; 9] = [
        0,
        1,
        0xFFFF,
        0x1_0000,
        0x1_0001,
        0x7FFF_FFFF,
        0x8000_0000,
        0xFFFF_0000,
        0xFFFF_FFFF,
    ];
    for a in samples {
        for b in samples {
            let m = a as u64 * b as u64;
            assert_eq!(widening_mul_u32(a, b), (m as u32, (m >> 32) as u32));
        }
    }
}

#[test]
fn a_new_stream_holds_no_block_and_no_normal() {
    let phi = Philox4x32::new_u32([1, 2, 3, 4], [5, 6]);
    assert_eq!(phi.counter, [1, 2, 3, 4]);
    assert_eq!(phi.key, [5, 6]);
    assert_eq!(phi.normal, [0, 0]);
    assert_eq!(phi.current_u32, EXHAUSTED);
    assert_eq!(phi.current_normal, EXHAUSTED);
    assert_eq!(phi.rounds, DEFAULT_ROUNDS);
    assert_eq!(phi.rounds, 7);
}

#[test]
fn seed_and_key_are_split_least_significant_word_first() {
    let phi = Philox4x32::new(0x0123_4567_89AB_CDEF_FEDC_BA98_7654_3210, 0x1111_2222_3333_4444);
    assert_eq!(phi.counter, [0x7654_3210, 0xFEDC_BA98, 0x89AB_CDEF, 0x0123_4567]);
    assert_eq!(phi.key, [0x3333_4444, 0x1111_2222]);
    assert_eq!(phi, Philox4x32::new_u32(phi.counter, phi.key));
}

#[test]
fn with_rounds_and_set_key_change_one_field() {
    let phi = Philox4x32::new(9, 8);
    let other = phi.with_rounds(10);
    assert_eq!(other.rounds, 10);
    assert_eq!(other.with_rounds(7), phi);
    let mut keyed = phi;
    keyed.set_key([3, 4]);
    assert_eq!(keyed.key, [3, 4]);
    keyed.set_key(phi.key);
    assert_eq!(keyed, phi);
}

#[test]
fn first_words_of_the_zero_stream() {
    let mut phi = Philox4x32::new(0, 0);
    let expected: [u32; 8] = [
        0x5F6F_B709,
        0x0D89_3F64,
        0x4F12_1F81,
        0x4F73_0A48,
        0x4811_13FA,
        0x582F_C68A,
        0xC48C_94D0,
        0x056C_33B3,
    ];
    for word in expected {
        assert_eq!(phi.next_u32([0, 0]), word);
    }
}

#[test]
fn first_words_of_a_seeded_stream() {
    let seed = 0x0123_4567_89AB_CDEF_FEDC_BA98_7654_3210;
    let mut phi = Philox4x32::new(seed, 42);
    let expected: [u32; 8] = [
        0x9AD0_2957,
        0x4FBE_66C8,
        0x605B_95AF,
        0x377A_60F4,
        0x45A5_501D,
        0x60E9_1C03,
        0xF0E9_023C,
        0x0E5F_96C7,
    ];
    for word in expected {
        assert_eq!(phi.next_u32([42, 0]), word);
    }
    let mut ten = Philox4x32::new(seed, 42).with_rounds(10);
    let expected_ten: [u32; 4] = [0x263B_867A, 0xB461_C218, 0x095A_D263, 0xABDD_0895];
    for word in expected_ten {
        assert_eq!(ten.next_u32([42, 0]), word);
    }
}

#[test]
fn a_stream_without_rounds_hands_out_its_counter() {
    let mut phi = Philox4x32::new_u32([10, 20, 30, 40], [0, 0]).with_rounds(0);
    assert_eq!(phi.next_u32([1, 2]), 10);
    assert_eq!(phi.current_u32, 1);
    assert_eq!(phi.next_u32([1, 2]), 20);
    assert_eq!(phi.next_u32([1, 2]), 30);
    assert_eq!(phi.next_u32([1, 2]), 40);
    assert_eq!(phi.current_u32, 4);
    assert_eq!(phi.next_u32([1, 2]), 10);
    assert_eq!(phi.current_u32, 1);
}

#[test]
fn a_block_is_generated_once_for_four_words() {
    let mut phi = Philox4x32::new(5, 6);
    let first = phi.next_u32([6, 0]);
    let block = phi.counter;
    assert_eq!(first, block[0]);
    assert_eq!(phi.next_u32([6, 0]), block[1]);
    assert_eq!(phi.next_u32([6, 0]), block[2]);
    assert_eq!(phi.next_u32([6, 0]), block[3]);
    assert_eq!(phi.counter, block);
    let fifth = phi.next_u32([6, 0]);
    assert_ne!(phi.counter, block);
    assert_eq!(fifth, phi.counter[0]);
}

#[test]
fn the_key_of_the_call_is_the_key_that_is_used() {
    let mut with_own = Philox4x32::new(77, 1);
    let mut with_other = Philox4x32::new(77, 2);
    let a: Vec<u32> = (0..8).map(|_| with_own.next_u32([9, 9])).collect();
    let b: Vec<u32> = (0..8).map(|_| with_other.next_u32([9, 9])).collect();
    assert_eq!(a, b);
    let mut again = Philox4x32::new(77, 1);
    let c: Vec<u32> = (0..8).map(|_| again.next_u32([1, 0])).collect();
    assert_ne!(a, c);
    assert_eq!(again.key, [1, 0]);
}

#[test]
fn uniform_samples_are_the_low_bits_over_two_to_the_23() {
    let mut words = Philox4x32::new(7, 3);
    let mut samples = Philox4x32::new(7, 3);
    let expected: [u32; 6] =
        [0x3EFB_8B4C, 0x3E32_58B8, 0x3E24_EA20, 0x3ED5_1640, 0x3F64_A678, 0x3EA9_FB74];
    for bits in expected {
        let word = words.next_u32([3, 0]);
        let sample = samples.next_f32([3, 0]);
        assert_eq!(sample, bits);
        assert_eq!(unit(sample), (word & 0x7F_FFFF) as f32 / 8388608.0);
        assert_eq!(unit(sample), f32::from_bits((word & 0x7F_FFFF) | 0x3F80_0000) - 1.0);
        assert_eq!(words, samples);
    }
}

#[test]
fn unit_fraction_bits_is_exact_subtraction_of_one() {
    let mut m: u32 = 0;
    while m < 0x80_0000 {
        let expected = f32::from_bits(m | ONE_BITS) - 1.0;
        assert_eq!(unit_fraction_bits(m), expected.to_bits());
        m += 997;
    }
    for m in [0u32, 1, 2, 3, 0x3F_FFFF, 0x40_0000, 0x40_0001, 0x7F_FFFE, 0x7F_FFFF] {
        let expected = f32::from_bits(m | ONE_BITS) - 1.0;
        assert_eq!(unit_fraction_bits(m), expected.to_bits());
    }
    assert_eq!(unit_fraction_bits(0), 0);
    assert_eq!(unit_fraction_bits(0x40_0000), HALF_BITS);
    assert_eq!(unit_fraction_bits(1), 0x3400_0000);
    assert_eq!(unit_fraction_bits(0x7F_FFFF), 0x3F7F_FFFE);
}

#[test]
fn less_than_is_the_comparison_of_the_numbers() {
    let patterns: [u32; 22] = [
        0x0000_0000,
        0x8000_0000,
        0x0000_0001,
        0x8000_0001,
        0x007F_FFFF,
        0x0080_0000,
        0x8080_0000,
        0x3400_0000,
        0x3F00_0000,
        0x3F7F_FFFF,
        0x3F80_0000,
        0xBF80_0000,
        0x3F80_0001,
        0x4011_3A55,
        0xC000_0000,
        0x7F7F_FFFF,
        0xFF7F_FFFF,
        0x7F80_0000,
        0xFF80_0000,
        0x7FC0_0000,
        0xFFC0_0000,
        0x7F80_0001,
    ];
    for a in patterns {
        for b in patterns {
            assert_eq!(less_than(a, b), f32::from_bits(a) < f32::from_bits(b));
        }
    }
}

#[test]
fn cached_normals_come_in_pairs() {
    let mut phi = Philox4x32::new(1, 2);
    let mut twin = phi;
    assert_eq!(phi.take_normal(), None);
    let u1 = twin.next_f32([2, 0]);
    let u2 = twin.next_f32([2, 0]);
    let pair = box_muller(u1, u2);

    let first = phi.next_standard_normal([2, 0], box_muller);
    assert_eq!(first, pair[0]);
    assert_eq!(phi.normal, pair);
    assert_eq!(phi.current_normal, 1);
    assert_eq!(phi.counter, twin.counter);
    assert_eq!(phi.current_u32, 2);

    let second = phi.next_standard_normal([2, 0], box_muller);
    assert_eq!(second, pair[1]);
    assert_eq!(phi.current_normal, 2);
    assert_eq!(phi.current_u32, 2);

    let third = phi.next_standard_normal([2, 0], box_muller);
    assert_eq!(phi.current_u32, 4);
    assert_eq!(phi.current_normal, 1);
    assert_eq!(third, phi.normal[0]);
}

#[test]
fn take_and_refill_walk_the_cache() {
    let mut phi = Philox4x32::new(0, 0);
    phi.refill_normal([11, 22]);
    assert_eq!(phi.current_normal, 0);
    assert_eq!(phi.take_normal(), Some(11));
    assert_eq!(phi.take_normal(), Some(22));
    assert_eq!(phi.take_normal(), None);
    assert_eq!(phi.current_normal, 2);
    assert_eq!(phi.current_u32, EXHAUSTED);
}

#[test]
fn uniform_samples_have_the_moments_of_the_uniform_law() {
    let mut phi = Philox4x32::new(12345, 6);
    let count = 200_000;
    let mut sum = 0.0f64;
    let mut squares = 0.0f64;
    for _ in 0..count {
        let bits = phi.next_f32([6, 0]);
        assert!(bits < ONE_BITS);
        let u = unit(bits) as f64;
        assert!((0.0..1.0).contains(&u));
        sum += u;
        squares += u * u;
    }
    let mean = sum / count as f64;
    let variance = squares / count as f64 - mean * mean;
    let tolerance = 4.0 / (count as f64).sqrt();
    assert!((mean - 0.5).abs() < tolerance);
    assert!((variance - 1.0 / 12.0).abs() < tolerance);
}

#[test]
fn streams_of_two_cells_are_uncorrelated() {
    let seed = 0xDEAD_BEEF_0000_0000_0000_0000_0000_0001;
    let mut a = Philox4x32::new(seed, 10);
    let mut b = Philox4x32::new(seed, 11);
    let count = 100_000;
    let (mut sa, mut sb, mut saa, mut sbb, mut sab) = (0.0f64, 0.0f64, 0.0f64, 0.0f64, 0.0f64);
    for _ in 0..count {
        let x = unit(a.next_f32([10, 0])) as f64;
        let y = unit(b.next_f32([11, 0])) as f64;
        sa += x;
        sb += y;
        saa += x * x;
        sbb += y * y;
        sab += x * y;
    }
    let n = count as f64;
    let covariance = sab / n - (sa / n) * (sb / n);
    let deviation_a = (saa / n - (sa / n) * (sa / n)).sqrt();
    let deviation_b = (sbb / n - (sb / n) * (sb / n)).sqrt();
    let correlation = covariance / (deviation_a * deviation_b);
    assert!(correlation.abs() < 4.0 / n.sqrt());
}
