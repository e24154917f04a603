//! Samples as bit patterns, their magnitude, and their conversion to 16-bit
//! PCM.
//!
//! A sample is the bit pattern of an IEEE 754 binary32 value: one sign bit,
//! eight exponent bits, twenty-three fraction bits. A finite sample is worth
//! `significand * 2^(e - 150)`, negated when the sign bit is set, where `e`
//! is the exponent field, or 1 where that field is zero.
use vstd::prelude::*;
use vstd::arithmetic::power2::{lemma2_to64, lemma_pow2_pos, lemma_pow2_strictly_increases, pow2};

verus! {

/// The exponent field of the bit pattern.
pub open spec fn exponent_field(bits: u32) -> nat {
    ((bits / 0x80_0000) % 256) as nat
}

/// The fraction field of the bit pattern.
pub open spec fn fraction_field(bits: u32) -> nat {
    (bits % 0x80_0000) as nat
}

/// The sign bit is set.
pub open spec fn is_negative(bits: u32) -> bool {
    bits >= 0x8000_0000
}

/// The bit pattern is not a number.
pub open spec fn is_nan(bits: u32) -> bool {
    exponent_field(bits) == 255 && fraction_field(bits) != 0
}

/// The significand: the fraction, with the hidden bit unless the exponent
/// field is zero.
pub open spec fn significand(bits: u32) -> nat {
    if exponent_field(bits) == 0 {
        fraction_field(bits)
    } else {
        0x80_0000 + fraction_field(bits)
    }
}

/// The exponent that the significand is scaled by, before the bias is taken
/// off.
pub open spec fn scale_exponent(bits: u32) -> nat {
    if exponent_field(bits) == 0 {
        1
    } else {
        exponent_field(bits)
    }
}

/// The magnitude of the sample times 32768, rounded down:
/// `significand * 2^(e - 135)`.
pub open spec fn scaled_magnitude(bits: u32) -> nat {
    let e = scale_exponent(bits);
    if e >= 135 {
        significand(bits) * pow2((e - 135) as nat)
    } else {
        significand(bits) / pow2((135 - e) as nat)
    }
}

/// The 16-bit PCM value of a sample: the sample times 32768, limited to the
/// range from -32768 to 32767 and rounded towards zero; zero where the sample
/// is not a number.
pub open spec fn pcm_of(bits: u32) -> int {
    if is_nan(bits) {
        0
    } else if is_negative(bits) {
        if scaled_magnitude(bits) >= 32768 {
            -32768
        } else {
            -(scaled_magnitude(bits) as int)
        }
    } else {
        if scaled_magnitude(bits) >= 32767 {
            32767
        } else {
            scaled_magnitude(bits) as int
        }
    }
}

/// The PCM values of a frame.
pub open spec fn pcm_frame(samples: Seq<u32>) -> Seq<i16> {
    Seq::new(samples.len(), |i: int| pcm_of(samples[i]) as i16)
}

/// The magnitude of the sample in steps of 1/32768, rounded down and limited
/// to 32768, which is the magnitude of 1.0: the sign plays no part.
pub open spec fn limited_magnitude(bits: u32) -> nat {
    if scaled_magnitude(bits) >= 32768 {
        32768
    } else {
        scaled_magnitude(bits)
    }
}

/// Tells whether the sample is not a number.
pub fn sample_is_nan(bits: u32) -> (nan: bool)
    ensures
        nan == is_nan(bits),
{
    (bits / 0x80_0000) % 256 == 255 && bits % 0x80_0000 != 0
}

/// Measures the magnitude of a sample in steps of 1/32768, up to 32768.
pub fn sample_magnitude(bits: u32) -> (magnitude: u32)
    ensures
        magnitude == limited_magnitude(bits),
        magnitude <= 32768,
{
    let exponent: u32 = (bits / 0x80_0000) % 256;
    let fraction: u32 = bits % 0x80_0000;
    if exponent >= 135 {
        proof {
            let p = pow2((exponent - 135) as nat);
            lemma_pow2_pos((exponent - 135) as nat);
            assert(significand(bits) * p >= 0x80_0000) by (nonlinear_arith)
                requires
                    significand(bits) >= 0x80_0000,
                    p >= 1,
            ;
        }
        32768
    } else if exponent == 0 || 135 - exponent >= 24 {
        proof {
            let shift = (135 - scale_exponent(bits)) as nat;
            lemma2_to64();
            if shift > 24 {
                lemma_pow2_strictly_increases(24, shift);
            }
            vstd::arithmetic::div_mod::lemma_basic_div(
                significand(bits) as int,
                pow2(shift) as int,
            );
        }
        0
    } else {
        let shift: u32 = 135 - exponent;
        let whole: u32 = 0x80_0000 + fraction;
        proof {
            vstd::bits::lemma_u32_shr_is_div(whole, shift);
        }
        let steps: u32 = whole >> shift;
        if steps >= 32768 {
            32768
        } else {
            steps
        }
    }
}

/// Converts one sample to 16-bit PCM.
pub fn sample_to_pcm(bits: u32) -> (pcm: i16)
    ensures
        pcm == pcm_of(bits),
{
    if sample_is_nan(bits) {
        return 0;
    }
    let magnitude = sample_magnitude(bits);
    if bits >= 0x8000_0000 {
        if magnitude >= 32768 {
            -32768
        } else {
            -(magnitude as i16)
        }
    } else {
        if magnitude >= 32767 {
            32767
        } else {
            magnitude as i16
        }
    }
}

/// Converts a frame to 16-bit PCM, sample by sample.
pub fn f32_to_i16(samples: &[u32]) -> (pcm: Vec<i16>)
    ensures
        pcm@ == pcm_frame(samples@),
{
    let n = samples.len();
    let mut pcm: Vec<i16> = Vec::new();
    let mut i: usize = 0;
    while i < n
        invariant
            n == samples@.len(),
            i <= n,
            pcm@.len() == i,
            forall|k: int| 0 <= k < i ==> #[trigger] pcm@[k] == pcm_of(samples@[k]),
        decreases n - i,
    {
        pcm.push(sample_to_pcm(samples[i]));
        i += 1;
    }
    assert(pcm@ =~= pcm_frame(samples@));
    pcm
}

} // verus!
