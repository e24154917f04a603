use whisper_client::resample::{resample, source_tap, Tap, SILENCE};

fn bits(values: &[f32]) -> Vec<u32> {
    values.iter().map(|v| v.to_bits()).collect()
}

fn floats(values: &[u32]) -> Vec<f32> {
    values.iter().map(|v| f32::from_bits(*v)).collect()
}

fn blend(a: u32, b: u32, num: u32, den: u32) -> u32 {
    let frac = (num as f64 / den as f64) as f32;
    (f32::from_bits(a) * (1.0 - frac) + f32::from_bits(b) * frac).to_bits()
}

/// Linear interpolation with the source position computed in floating point.
fn interpolate_in_floats(samples: &[f32], from_rate: u32, to_rate: u32) -> Vec<f32> {
    if from_rate == to_rate {
        return samples.to_vec();
    }
    let ratio = to_rate as f64 / from_rate as f64;
    let output_len = (samples.len() as f64 * ratio) as usize;
    (0..output_len)
        .map(|i| {
            let src_idx = i as f64 / ratio;
            let idx = src_idx.floor() as usize;
            let frac = src_idx.fract() as f32;
            if idx + 1 < samples.len() {
                samples[idx] * (1.0 - frac) + samples[idx + 1] * frac
            } else if idx < samples.len() {
                samples[idx]
            } else {
                0.0
            }
        })
        .collect()
}

#[test]
fn resample_same_rate_is_a_copy() {
    let input = bits(&[0.25, -0.5, 1.0, 0.0, -1.0]);
    assert_eq!(resample(&input, 16000, 16000, &blend), input);
    assert_eq!(resample(&input, 44100, 44100, &blend), input);
    assert_eq!(resample(&input, 0, 0, &blend), input);
}

#[test]
fn resample_same_rate_keeps_every_bit_pattern() {
    let input = vec![0u32, 0x8000_0000, 0x7fc0_0001, 0xffff_ffff, 0x7f80_0000, 1];
    assert_eq!(resample(&input, 8000, 8000, &blend), input);
}

#[test]
fn resample_empty_input_is_empty() {
    let empty: Vec<u32> = Vec::new();
    assert!(resample(&empty, 48000, 16000, &blend).is_empty());
    assert!(resample(&empty, 16000, 48000, &blend).is_empty());
    assert!(resample(&empty, 16000, 16000, &blend).is_empty());
}

#[test]
fn resample_empty_input_is_empty_at_source_rate_zero() {
    let empty: Vec<u32> = Vec::new();
    assert!(resample(&empty, 0, 16000, &blend).is_empty());
    assert!(resample(&empty, 0, 1, &blend).is_empty());
    assert!(resample(&empty, 0, u32::MAX, &blend).is_empty());
    assert!(resample(&empty, 0, 0, &blend).is_empty());
}

#[test]
fn resample_length_is_floor_of_scaled_length() {
    let cases: [(usize, u32, u32); 8] = [
        (1440, 48000, 16000),
        (1323, 44100, 16000),
        (480, 16000, 48000),
        (7, 3, 2),
        (7, 2, 3),
        (1, 48000, 16000),
        (2, 48000, 16000),
        (100, 16000, 16000),
    ];
    for (len, from, to) in cases {
        let input = vec![0.5f32.to_bits(); len];
        let out = resample(&input, from, to, &blend);
        let expected = (len as u128 * to as u128 / from as u128) as usize;
        assert_eq!(out.len(), expected, "len {} from {} to {}", len, from, to);
    }
    assert_eq!(resample(&vec![0u32; 1440], 48000, 16000, &blend).len(), 480);
    assert_eq!(resample(&vec![0u32; 1323], 44100, 16000, &blend).len(), 480);
    assert_eq!(resample(&vec![0u32; 7], 3, 2, &blend).len(), 4);
    assert_eq!(resample(&vec![0u32; 7], 2, 3, &blend).len(), 10);
}

#[test]
fn resample_to_rate_zero_gives_nothing() {
    let input = bits(&[0.1, 0.2, 0.3]);
    assert!(resample(&input, 16000, 0, &blend).is_empty());
}

#[test]
fn resample_doubling_interpolates_between_neighbours() {
    let input = bits(&[0.0, 1.0]);
    let out = floats(&resample(&input, 1, 2, &blend));
    assert_eq!(out, vec![0.0, 0.5, 1.0, 1.0]);
}

#[test]
fn resample_by_three_halves_uses_exact_fractions() {
    let input = bits(&[0.0, 3.0, 6.0, 9.0]);
    let out = floats(&resample(&input, 2, 3, &blend));
    // positions 0, 2/3, 4/3, 2, 8/3, 10/3
    assert_eq!(out.len(), 6);
    assert_eq!(out[0], 0.0);
    assert!((out[1] - 2.0).abs() < 1e-5);
    assert!((out[2] - 4.0).abs() < 1e-5);
    assert_eq!(out[3], 6.0);
    assert!((out[4] - 8.0).abs() < 1e-5);
    assert_eq!(out[5], 9.0);
}

#[test]
fn resample_decimation_picks_every_third() {
    let input = bits(&[0.0, 1.0, 2.0, 3.0, 4.0, 5.0]);
    let out = floats(&resample(&input, 48000, 16000, &blend));
    assert_eq!(out, vec![0.0, 3.0]);
}

#[test]
fn resample_last_sample_is_held() {
    let input = bits(&[0.25]);
    let out = floats(&resample(&input, 1, 4, &blend));
    assert_eq!(out, vec![0.25, 0.25, 0.25, 0.25]);
}

#[test]
fn resample_calls_blend_with_weight_below_one() {
    let input = bits(&[0.0, 1.0, 2.0, 3.0, 4.0, 5.0, 6.0]);
    let checked = |a: u32, b: u32, num: u32, den: u32| -> u32 {
        assert!(num < den);
        assert_eq!(den, 16000);
        blend(a, b, num, den)
    };
    let out = resample(&input, 44100, 16000, &checked);
    assert_eq!(out.len(), 2);
}

#[test]
fn resample_agrees_with_floating_point_positions() {
    let input: Vec<f32> = (0..1323).map(|i| ((i * 37 % 200) as f32 - 100.0) / 100.0).collect();
    for (from, to) in [(44100u32, 16000u32), (48000, 16000), (8000, 16000), (22050, 16000)] {
        let expected = interpolate_in_floats(&input, from, to);
        let out = floats(&resample(&bits(&input), from, to, &blend));
        assert_eq!(out.len(), expected.len(), "from {} to {}", from, to);
        for i in 0..out.len() {
            assert!(
                (out[i] - expected[i]).abs() < 1e-4,
                "sample {} from {} to {}: {} against {}",
                i,
                from,
                to,
                out[i],
                expected[i]
            );
        }
    }
}

#[test]
fn source_tap_blends_inside_the_input() {
    assert_eq!(source_tap(4, 2, 3, 1), Tap::Blend { index: 0, num: 2, den: 3 });
    assert_eq!(source_tap(4, 2, 3, 2), Tap::Blend { index: 1, num: 1, den: 3 });
    assert_eq!(source_tap(4, 2, 3, 3), Tap::Blend { index: 2, num: 0, den: 3 });
    assert_eq!(source_tap(1440, 48000, 16000, 479), Tap::Blend { index: 1437, num: 0, den: 16000 });
}

#[test]
fn source_tap_holds_the_last_sample() {
    assert_eq!(source_tap(4, 2, 3, 5), Tap::Hold { index: 3 });
    assert_eq!(source_tap(2, 1, 2, 2), Tap::Hold { index: 1 });
    assert_eq!(source_tap(2, 1, 2, 3), Tap::Hold { index: 1 });
}

#[test]
fn source_tap_past_the_input_is_silence() {
    assert_eq!(source_tap(2, 1, 2, 4), Tap::Silence);
    assert_eq!(source_tap(0, 16000, 48000, 0), Tap::Silence);
    assert_eq!(SILENCE, 0.0f32.to_bits());
}

#[test]
fn source_tap_handles_the_largest_positions() {
    let tap = source_tap(usize::MAX, u32::MAX, 1, usize::MAX);
    assert_eq!(tap, Tap::Silence);
    let tap = source_tap(usize::MAX, 1, u32::MAX, usize::MAX);
    let position = usize::MAX as u128;
    assert_eq!(
        tap,
        Tap::Blend {
            index: (position / u32::MAX as u128) as usize,
            num: (position % u32::MAX as u128) as u32,
            den: u32::MAX,
        }
    );
}
