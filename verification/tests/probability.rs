use divans::probability::BlendCDF16;
use divans::probability::CDF2;
use divans::probability::ExternalProbCDF16;
use divans::probability::FrequentistCDF16;
use divans::probability::Speed;
use divans::probability::mul_blend;
use divans::probability::to_blend;
use divans::probability::to_blend_lut;

#[test]
fn test_blend_lut() {
    for i in 0..16 {
        let a = to_blend(i as u8);
        let b = to_blend_lut(i as u8);
        for j in 0..16 {
            assert_eq!(a[j], b[j]);
        }
    }
}

const RAND_MAX: u32 = 32767;

fn simple_rand(state: &mut u64) -> u32 {
    *state = (*state).wrapping_mul(1103515245).wrapping_add(12345);
    ((*state / 65536) as u32 % (RAND_MAX + 1)) as u32
}

fn make_cutoffs(rand_table: [(u32, u32); 16]) -> [u32; 16] {
    let mut cutoffs: [u32; 16] = [0; 16];
    let mut sum_prob: f32 = 0.0f32;
    for i in 0..16 {
        sum_prob += (rand_table[i].0 as f32) / (rand_table[i].1 as f32);
        cutoffs[i] = (((RAND_MAX + 1) as f32) * sum_prob).round() as u32;
    }
    assert_eq!(cutoffs[15], RAND_MAX + 1);
    cutoffs
}

fn check_stationary(
    rand_table: [(u32, u32); 16],
    pdf: impl Fn(u8) -> i16,
    max: i16,
) {
    for i in 0..16 {
        let actual = (pdf(i as u8) as f32) / (max as f32);
        let expected = (rand_table[i].0 as f32) / (rand_table[i].1 as f32);
        let abs_delta = (expected - actual).abs();
        let rel_delta = abs_delta / expected; // may be nan
        assert!(rel_delta < 0.15f32 || abs_delta < 0.014f32);
    }
}

const STATIONARY_TABLE: [(u32, u32); 16] = [
    (0, 1),
    (0, 1),
    (1, 16),
    (0, 1),
    (1, 32),
    (1, 32),
    (0, 1),
    (0, 1),
    (1, 8),
    (0, 1),
    (0, 1),
    (0, 1),
    (1, 5),
    (1, 5),
    (1, 5),
    (3, 20),
];

#[test]
fn test_stationary_probability_blend_cdf() {
    let cutoffs = make_cutoffs(STATIONARY_TABLE);
    let mut prob_state = BlendCDF16::default();
    let mut seed = 1u64;
    for _ in 0..1000000 {
        let rand_num = simple_rand(&mut seed);
        for j in 0..16 {
            if rand_num < cutoffs[j] {
                prob_state.blend(j as u8, Speed::MED);
                assert!(prob_state.valid());
                break;
            }
            assert!(j != 15); // should have broken
        }
    }
    check_stationary(STATIONARY_TABLE, |s| prob_state.pdf(s), prob_state.max());
}

#[test]
fn test_stationary_probability_frequentist_cdf() {
    let cutoffs = make_cutoffs(STATIONARY_TABLE);
    let mut prob_state = FrequentistCDF16::default();
    let mut seed = 1u64;
    for _ in 0..1000000 {
        let rand_num = simple_rand(&mut seed);
        for j in 0..16 {
            if rand_num < cutoffs[j] {
                prob_state.blend(j as u8, Speed::MED);
                assert!(prob_state.valid());
                break;
            }
            assert!(j != 15); // should have broken
        }
    }
    check_stationary(STATIONARY_TABLE, |s| prob_state.pdf(s), prob_state.max());
}

#[test]
fn test_blend_cdf_nonzero_pdf() {
    // This is a regression test
    let mut prob_state = BlendCDF16::default();
    for _ in 0..1000000 {
        prob_state.blend(15, Speed::MED);
    }
    for i in 0..14 {
        assert!(prob_state.pdf(i) > 0);
    }
}

#[test]
fn test_frequentist_converges_on_single_symbol() {
    let mut prob_state = FrequentistCDF16::default();
    for _ in 0..1000000 {
        prob_state.blend(7, Speed::MED);
    }
    let ratio = (prob_state.pdf(7) as f64) / (prob_state.max() as f64);
    assert!(ratio >= 0.9);
}

#[test]
fn test_cdf2_default_and_simple_blend() {
    let mut c = CDF2::default();
    assert_eq!(c.prob, 128);
    assert_eq!(c.max(), 256);
    assert_eq!(c.cdf(0), 128);
    assert_eq!(c.cdf(1), 128);
    // One observation of symbol 0: counts become [2, 1], prob = 2*256/3.
    c.blend(false, Speed::MED);
    assert_eq!(c.prob, (2u16 * 256 / 3) as u8);
    // One observation of symbol 1: counts become [2, 2]; the divisor is the
    // prior total plus one, so prob = 2*256/4.
    c.blend(true, Speed::MED);
    assert_eq!(c.prob, (2u16 * 256 / 4) as u8);
    assert!(c.used());
}

#[test]
fn test_cdf2_saturates_when_opposite_never_seen() {
    let mut c = CDF2::default();
    for _ in 0..254 {
        c.blend(true, Speed::MED);
    }
    // counts are now [1, 255]: the next observation overflows with the
    // opposite symbol never seen, pinning the probability at zero.
    c.blend(true, Speed::MED);
    assert_eq!(c.prob, 0);
    assert_eq!(c.cdf(0), 0);
    assert_eq!(c.cdf(1), 256);
}

#[test]
fn test_cdf2_halves_counts_on_overflow() {
    let mut c = CDF2::default();
    c.blend(false, Speed::MED); // counts [2, 1]
    for _ in 0..254 {
        c.blend(true, Speed::MED);
    }
    // counts reached [2, 255]; this blend overflows symbol 1 with symbol 0
    // seen, so counts halve (rounding up) and the observed count reseeds to
    // 129: [1, 129], prob = 1*256/130.
    c.blend(true, Speed::MED);
    assert_eq!(c.prob, (256u16 / 130) as u8);
    c.blend(true, Speed::MED);
    assert_eq!(c.prob, (256u16 / 131) as u8); // counts [1, 130]
}

#[test]
fn test_frequentist_default_is_arithmetic_seed() {
    let c = FrequentistCDF16::default();
    for i in 0..16 {
        assert_eq!(c.cdf(i as u8), 4 * (i + 1) as i16);
    }
    assert_eq!(c.max(), 64);
    assert!(c.valid());
}

#[test]
fn test_frequentist_speed_steps() {
    let expected: [(i16, fn() -> Speed); 8] = [
        (1, || Speed::GEOLOGIC),
        (4, || Speed::GLACIAL),
        (16, || Speed::MUD),
        (32, || Speed::SLOW),
        (48, || Speed::MED),
        (96, || Speed::FAST),
        (128, || Speed::PLANE),
        (384, || Speed::ROCKET),
    ];
    for (step, mk) in expected.iter() {
        let mut c = FrequentistCDF16::default();
        c.blend(0, mk());
        assert_eq!(c.max(), 64 + step);
        assert_eq!(c.cdf(0), 4 + step);
    }
}

#[test]
fn test_frequentist_monotone_after_training() {
    let mut c = FrequentistCDF16::default();
    for i in 0..100000u32 {
        c.blend((i % 16) as u8, Speed::FAST);
        let mut prev = 0i16;
        for s in 0..16 {
            let v = c.cdf(s as u8);
            assert!(v > prev);
            prev = v;
        }
        assert!(c.max() == c.cdf(15));
    }
}

#[test]
fn test_blend_cdf_monotone_and_positive_after_training() {
    let mut c = BlendCDF16::default();
    for i in 0..100000u32 {
        c.blend((i % 7) as u8, Speed::MED);
    }
    let mut prev = 0i16;
    for s in 0..16 {
        let v = c.cdf(s as u8);
        assert!(v >= prev);
        assert!(c.pdf(s as u8) > 0);
        prev = v;
    }
    assert_eq!(c.cdf(15), c.max());
    assert_eq!(c.max(), 32767);
}

#[test]
fn test_mul_blend_exact_values() {
    // Full weight on the target reproduces the target exactly when the bias
    // is zero.
    let baseline = FrequentistCDF16::default().cdf;
    let full = mul_blend(baseline, 4, 32768, 0);
    for i in 0..16 {
        if i >= 4 {
            assert_eq!(full[i], 32767 - 16);
        } else {
            assert_eq!(full[i], 0);
        }
    }
    // Zero weight keeps the baseline.
    let none = mul_blend(baseline, 4, 0, 0);
    for i in 0..16 {
        assert_eq!(none[i], baseline[i]);
    }
    // A half-and-half mix lands on the rounded-down midpoint.
    let half = mul_blend(baseline, 0, 16384, 0);
    for i in 0..16 {
        let expected = ((32751i64 * 16384 + baseline[i] as i64 * 16384) >> 15) as i16;
        assert_eq!(half[i], expected);
    }
}

#[test]
fn test_to_blend_shape() {
    for sym in 0..16 {
        let t = to_blend(sym as u8);
        for i in 0..16 {
            if i >= sym {
                assert_eq!(t[i], 32767 - 16);
            } else {
                assert_eq!(t[i], 0);
            }
        }
    }
}

#[test]
fn test_external_prob_seed_and_blend_is_noop() {
    let mut c = ExternalProbCDF16::default();
    assert_eq!(c.max(), 32767);
    c.init(5, 30000);
    assert_eq!(c.cdf(5), 30000);
    assert_eq!(c.nibble, 5);
    for i in 0..16 {
        if i != 5 {
            assert_eq!(c.cdf[i], (32767 - 30000) / 15);
        }
    }
    let before = c.cdf;
    c.blend(5, Speed::ROCKET);
    assert_eq!(before, c.cdf);
    assert!(c.valid());
}

#[test]
fn test_blend_cdf_first_step_exact() {
    // One blend from the all-zero start: the one-hot target contributes
    // (32751 * 1536 + 2048) >> 15 = 1535 to every bucket from the symbol on,
    // and the warm-up kick adds half again.
    let mut c = BlendCDF16::default();
    c.blend(5, Speed::MED);
    for i in 0..16 {
        if i < 5 {
            assert_eq!(c.cdf[i], 0);
        } else {
            assert_eq!(c.cdf[i], 1535 + 767);
        }
    }
    assert_eq!(c.count, 1);
    assert_eq!(c.mix_rate, 1536 - 12);
    // A read distributes the remaining bias of 32767 - 2302 over the buckets.
    assert_eq!(c.cdf(0), (32767 - 2302) / 16);
    assert_eq!(c.cdf(15), 32767);
}
