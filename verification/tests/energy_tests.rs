use whisper_client::energy::{calculate_energy, isqrt, FULL_SCALE};
use whisper_client::sample::{sample_is_nan, sample_magnitude};

fn bits(values: &[f32]) -> Vec<u32> {
    values.iter().map(|v| v.to_bits()).collect()
}

fn steps(values: &[i32]) -> Vec<u32> {
    values.iter().map(|v| (*v as f32 / 32768.0).to_bits()).collect()
}

fn in_floats(samples: &[f32]) -> f32 {
    if samples.is_empty() {
        return 0.0;
    }
    let sum_sq: f32 = samples.iter().map(|&s| s * s).sum();
    (sum_sq / samples.len() as f32).sqrt()
}

#[test]
fn energy_of_empty_frame_is_zero() {
    let empty: Vec<u32> = Vec::new();
    assert_eq!(calculate_energy(&empty), 0);
}

#[test]
fn energy_of_silence_is_zero() {
    assert_eq!(calculate_energy(&bits(&[0.0; 480])), 0);
    assert_eq!(calculate_energy(&bits(&[-0.0, 0.0])), 0);
}

#[test]
fn energy_of_full_scale_is_a_million() {
    assert_eq!(FULL_SCALE, 1_000_000);
    assert_eq!(calculate_energy(&bits(&[1.0, -1.0])), 1_000_000);
    assert_eq!(calculate_energy(&bits(&[1.0])), 1_000_000);
    assert_eq!(calculate_energy(&bits(&[-1.0])), 1_000_000);
    assert_eq!(calculate_energy(&bits(&[-1.0; 480])), 1_000_000);
    assert_eq!(calculate_energy(&bits(&[1.0; 480])), 1_000_000);
}

#[test]
fn energy_is_limited_to_full_scale() {
    assert_eq!(calculate_energy(&bits(&[2.0, -3.5])), 1_000_000);
    assert_eq!(calculate_energy(&bits(&[f32::INFINITY, f32::NEG_INFINITY])), 1_000_000);
    assert_eq!(calculate_energy(&bits(&[f32::MAX])), 1_000_000);
}

#[test]
fn energy_of_half_scale_is_half_a_million() {
    assert_eq!(calculate_energy(&bits(&[0.5; 100])), 500_000);
    assert_eq!(calculate_energy(&bits(&[-0.5, 0.5])), 500_000);
}

#[test]
fn energy_is_rounded_down() {
    // mean square 12.5 of 2^30: 11641 millionths of a millionth, root 107.8
    assert_eq!(calculate_energy(&steps(&[3, 4])), 107);
    // one step of 1/32768: 931 millionths of a millionth, root 30.5
    assert_eq!(calculate_energy(&steps(&[1])), 30);
    assert_eq!(calculate_energy(&steps(&[32767])), 999_969);
    assert_eq!(calculate_energy(&steps(&[-32767])), 999_969);
    assert_eq!(calculate_energy(&bits(&[0.01; 480])), 9_979);
    assert_eq!(calculate_energy(&steps(&[328; 480])), 10_009);
}

#[test]
fn energy_ignores_the_sign_and_the_order() {
    let a = calculate_energy(&steps(&[100, -200, 300, -400]));
    let b = calculate_energy(&steps(&[-400, 300, 200, -100]));
    let c = calculate_energy(&steps(&[100, 200, 300, 400]));
    assert_eq!(a, b);
    assert_eq!(a, c);
    assert_eq!(a, 8_357);
    for value in [0.001f32, 0.01, 0.25, 0.999, 1.0, 1.5] {
        assert_eq!(calculate_energy(&bits(&[value])), calculate_energy(&bits(&[-value])));
    }
}

#[test]
fn energy_of_a_frame_with_a_sample_that_is_not_a_number_is_zero() {
    assert_eq!(calculate_energy(&bits(&[f32::NAN])), 0);
    assert_eq!(calculate_energy(&bits(&[1.0, f32::NAN, 1.0])), 0);
    assert_eq!(calculate_energy(&[1.0f32.to_bits(), 0xffc0_0001]), 0);
    assert_eq!(calculate_energy(&[0x7f80_0001, 0.5f32.to_bits()]), 0);
}

#[test]
fn energy_is_close_to_the_root_mean_square_in_floats() {
    let samples: Vec<f32> = (0..480).map(|i| ((i as f32) * 0.13).sin() * 0.3).collect();
    let energy = calculate_energy(&bits(&samples)) as f32 / 1_000_000.0;
    let rms = in_floats(&samples);
    assert!((energy - rms).abs() < 1e-4, "{} against {}", energy, rms);
    for frame in [vec![1.0f32, -1.0], vec![0.5, -0.5, 0.5], vec![0.25, 0.75], vec![0.0, 1.0]] {
        let energy = calculate_energy(&bits(&frame)) as f32 / 1_000_000.0;
        let rms = in_floats(&frame);
        assert!((energy - rms).abs() < 1e-4, "{} against {}", energy, rms);
    }
}

#[test]
fn energy_of_a_long_loud_frame_does_not_overflow() {
    let frame = vec![(-1.0f32).to_bits(); 200_000];
    assert_eq!(calculate_energy(&frame), 1_000_000);
}

#[test]
fn magnitude_counts_both_signs_alike() {
    assert_eq!(sample_magnitude(1.0f32.to_bits()), 32768);
    assert_eq!(sample_magnitude((-1.0f32).to_bits()), 32768);
    assert_eq!(sample_magnitude(0.5f32.to_bits()), 16384);
    assert_eq!(sample_magnitude((-0.5f32).to_bits()), 16384);
    assert_eq!(sample_magnitude(0.0f32.to_bits()), 0);
    assert_eq!(sample_magnitude((-0.0f32).to_bits()), 0);
    assert_eq!(sample_magnitude(7.0f32.to_bits()), 32768);
    assert_eq!(sample_magnitude(f32::NEG_INFINITY.to_bits()), 32768);
    assert_eq!(sample_magnitude(1e-10f32.to_bits()), 0);
    assert_eq!(sample_magnitude((1.9f32 / 32768.0).to_bits()), 1);
}

#[test]
fn magnitude_agrees_with_floating_point_on_a_sweep_of_bit_patterns() {
    let mut pattern: u32 = 0;
    loop {
        let value = f32::from_bits(pattern);
        if !value.is_nan() {
            let expected = (value.abs() * 32768.0).min(32768.0) as u32;
            assert_eq!(sample_magnitude(pattern), expected, "bits {:#010x}", pattern);
        }
        assert_eq!(sample_is_nan(pattern), value.is_nan(), "bits {:#010x}", pattern);
        match pattern.checked_add(8191) {
            Some(next) => pattern = next,
            None => break,
        }
    }
}

#[test]
fn isqrt_rounds_down() {
    assert_eq!(isqrt(0), 0);
    assert_eq!(isqrt(1), 1);
    assert_eq!(isqrt(2), 1);
    assert_eq!(isqrt(3), 1);
    assert_eq!(isqrt(4), 2);
    assert_eq!(isqrt(8), 2);
    assert_eq!(isqrt(9), 3);
    assert_eq!(isqrt(99_999_999), 9_999);
    assert_eq!(isqrt(100_000_000), 10_000);
    assert_eq!(isqrt(999_999_999_999), 999_999);
    assert_eq!(isqrt(1_000_000_000_000), 1_000_000);
    assert_eq!(isqrt(u64::MAX), u32::MAX);
    assert_eq!(isqrt(0xffff_fffe_0000_0001), u32::MAX);
    assert_eq!(isqrt(0xffff_fffe_0000_0000), u32::MAX - 1);
}

#[test]
fn isqrt_is_the_root_on_a_sweep() {
    let mut x: u64 = 0;
    while x <= 1_000_000_000_000 {
        let r = isqrt(x) as u128;
        assert!(r * r <= x as u128 && (x as u128) < (r + 1) * (r + 1), "x {}", x);
        x += 999_983;
    }
    let mut x: u64 = u64::MAX;
    while x > 1_000_000 {
        let r = isqrt(x) as u128;
        assert!(r * r <= x as u128 && (x as u128) < (r + 1) * (r + 1), "x {}", x);
        x = x / 3 * 2 + 1;
    }
}
