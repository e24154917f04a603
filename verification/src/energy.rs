//! The loudness of a frame: the root mean square of the magnitudes of its
//! samples, in millionths of full scale.
//!
//! A magnitude is measured in steps of 1/32768 and limited to full scale, so
//! that a sample and its negation weigh the same.
use vstd::prelude::*;
use crate::sample::{is_nan, limited_magnitude, sample_is_nan, sample_magnitude};

verus! {

/// The energy of a frame in which every sample is 1.0 or -1.0, or beyond.
pub const FULL_SCALE: u32 = 1_000_000;

/// Sum of the squares of the magnitudes of the samples.
pub open spec fn sum_squares(samples: Seq<u32>) -> nat
    decreases samples.len(),
{
    if samples.len() == 0 {
        0
    } else {
        sum_squares(samples.drop_last()) + limited_magnitude(samples.last()) * limited_magnitude(
            samples.last(),
        )
    }
}

/// Some sample of the frame is not a number.
pub open spec fn has_nan(samples: Seq<u32>) -> bool
    decreases samples.len(),
{
    if samples.len() == 0 {
        false
    } else {
        has_nan(samples.drop_last()) || is_nan(samples.last())
    }
}

/// Mean of the squares of the magnitudes, in millionths of a millionth of the
/// square of full scale, rounded down. Full scale is 32768. The mean of an
/// empty frame is zero, and so is that of a frame with a sample that is not
/// a number: such a frame has no loudness to speak of.
pub open spec fn mean_square(samples: Seq<u32>) -> nat {
    if samples.len() == 0 || has_nan(samples) {
        0
    } else {
        ((sum_squares(samples) * 1_000_000_000_000) / (samples.len() * 0x4000_0000)) as nat
    }
}

/// `r` is the square root of `x`, rounded down.
pub open spec fn is_int_sqrt(r: nat, x: nat) -> bool {
    r * r <= x < (r + 1) * (r + 1)
}

/// The square root of `x`, rounded down.
pub open spec fn int_sqrt(x: nat) -> nat {
    choose|r: nat| is_int_sqrt(r, x)
}

/// The energy of a frame: the square root of the mean square, rounded down.
/// An empty frame has energy zero.
pub open spec fn energy_of(samples: Seq<u32>) -> nat {
    int_sqrt(mean_square(samples))
}

/// A number has one rounded-down square root only.
pub proof fn lemma_int_sqrt_unique(r: nat, x: nat)
    requires
        is_int_sqrt(r, x),
    ensures
        int_sqrt(x) == r,
{
    let c = int_sqrt(x);
    assert(is_int_sqrt(c, x));
    if c < r {
        assert((c + 1) * (c + 1) <= r * r) by (nonlinear_arith)
            requires
                c + 1 <= r,
        ;
    }
    if r < c {
        assert((r + 1) * (r + 1) <= c * c) by (nonlinear_arith)
            requires
                r + 1 <= c,
        ;
    }
}

/// The sum of squares of `n` samples is at most `n` times the square of
/// full scale.
pub proof fn lemma_sum_squares_bound(samples: Seq<u32>)
    ensures
        sum_squares(samples) <= samples.len() * 0x4000_0000,
    decreases samples.len(),
{
    if samples.len() > 0 {
        lemma_sum_squares_bound(samples.drop_last());
        let m = limited_magnitude(samples.last()) as int;
        assert(0 <= m * m <= 0x4000_0000) by (nonlinear_arith)
            requires
                0 <= m <= 32768,
        ;
    }
}

/// The mean square is at most the square of full scale, so the energy is at
/// most full scale.
pub proof fn lemma_energy_bound(samples: Seq<u32>)
    ensures
        mean_square(samples) <= 1_000_000_000_000,
        energy_of(samples) <= FULL_SCALE,
{
    if samples.len() > 0 {
        lemma_sum_squares_bound(samples);
        let s = sum_squares(samples) as int;
        let d = (samples.len() * 0x4000_0000) as int;
        assert((s * 1_000_000_000_000) / d <= 1_000_000_000_000) by (nonlinear_arith)
            requires
                0 <= s <= d,
                d > 0,
        ;
    }
    let x = mean_square(samples);
    let e = energy_of(samples);
    lemma_int_sqrt_exists(x);
    if e > 1_000_000 {
        assert(e * e > 1_000_000_000_000) by (nonlinear_arith)
            requires
                e >= 1_000_001,
        ;
    }
}

/// Zero is its own square root.
proof fn lemma_zero_root()
    ensures
        is_int_sqrt(0, 0),
{
    assert(0nat * 0nat <= 0 < (0nat + 1) * (0nat + 1)) by (nonlinear_arith);
}

/// Every number has a rounded-down square root.
pub proof fn lemma_int_sqrt_exists(x: nat)
    ensures
        is_int_sqrt(int_sqrt(x), x),
    decreases x,
{
    if x == 0 {
        lemma_zero_root();
    } else {
        lemma_int_sqrt_exists((x - 1) as nat);
        let r = int_sqrt((x - 1) as nat);
        if (r + 1) * (r + 1) <= x {
            assert((r + 1) * (r + 1) == x);
            assert(x < (r + 2) * (r + 2)) by (nonlinear_arith)
                requires
                    (r + 1) * (r + 1) == x,
            ;
            assert(is_int_sqrt(r + 1, x));
        } else {
            assert(is_int_sqrt(r, x));
        }
    }
}

/// The square root of `x`, rounded down.
pub fn isqrt(x: u64) -> (r: u32)
    ensures
        r == int_sqrt(x as nat),
{
    let mut low: u64 = 0;
    let mut high: u64 = 0x1_0000_0000;
    while high - low > 1
        invariant
            low < high <= 0x1_0000_0000,
            low * low <= x,
            x < high * high,
        decreases high - low,
    {
        let mid: u64 = low + (high - low) / 2;
        assert(mid * mid <= 0xffff_ffff * 0xffff_ffff) by (nonlinear_arith)
            requires
                mid <= 0xffff_ffff,
        ;
        if mid * mid <= x {
            low = mid;
        } else {
            high = mid;
        }
    }
    proof {
        lemma_int_sqrt_unique(low as nat, x as nat);
    }
    low as u32
}

/// A frame in which every sample has magnitude one or more, and none is not
/// a number, has the energy of full scale: 1.0 and -1.0 count alike.
pub proof fn lemma_full_scale_energy(samples: Seq<u32>)
    requires
        samples.len() > 0,
        !has_nan(samples),
        forall|i: int| 0 <= i < samples.len() ==> limited_magnitude(#[trigger] samples[i]) == 32768,
    ensures
        energy_of(samples) == FULL_SCALE,
{
    lemma_all_full_scale(samples);
    let d = (samples.len() * 0x4000_0000) as int;
    assert((d * 1_000_000_000_000) / d == 1_000_000_000_000) by (nonlinear_arith)
        requires
            d > 0,
    ;
    assert(is_int_sqrt(1_000_000, 1_000_000_000_000)) by (nonlinear_arith);
    lemma_int_sqrt_unique(1_000_000, 1_000_000_000_000);
}

/// The sum of squares of `n` samples of magnitude 32768.
proof fn lemma_all_full_scale(samples: Seq<u32>)
    requires
        forall|i: int| 0 <= i < samples.len() ==> limited_magnitude(#[trigger] samples[i]) == 32768,
    ensures
        sum_squares(samples) == samples.len() * 0x4000_0000,
    decreases samples.len(),
{
    if samples.len() > 0 {
        let earlier = samples.drop_last();
        assert forall|i: int| 0 <= i < earlier.len() implies limited_magnitude(
            #[trigger] earlier[i],
        ) == 32768 by {
            assert(earlier[i] == samples[i]);
        }
        lemma_all_full_scale(earlier);
        assert(limited_magnitude(samples.last()) == 32768) by {
            assert(samples.last() == samples[samples.len() - 1]);
        }
        assert(32768nat * 32768nat == 0x4000_0000) by (nonlinear_arith);
    }
}

/// Measures the energy of a frame of samples.
pub fn calculate_energy(samples: &[u32]) -> (energy: u32)
    ensures
        energy == energy_of(samples@),
        samples@.len() == 0 ==> energy == 0,
        energy <= FULL_SCALE,
{
    let n = samples.len();
    let mut sum: u128 = 0;
    let mut nan = false;
    let mut i: usize = 0;
    while i < n
        invariant
            n == samples@.len(),
            i <= n,
            sum == sum_squares(samples@.take(i as int)),
            nan == has_nan(samples@.take(i as int)),
            sum <= i * 0x4000_0000,
        decreases n - i,
    {
        let magnitude: u64 = sample_magnitude(samples[i]) as u64;
        assert(0 <= magnitude * magnitude <= 0x4000_0000) by (nonlinear_arith)
            requires
                0 <= magnitude <= 32768,
        ;
        proof {
            assert(samples@.take(i + 1).drop_last() == samples@.take(i as int));
            assert(samples@.take(i + 1).last() == samples@[i as int]);
        }
        if sample_is_nan(samples[i]) {
            nan = true;
        }
        sum = sum + (magnitude * magnitude) as u128;
        i += 1;
    }
    proof {
        assert(samples@.take(n as int) == samples@);
    }
    if n == 0 || nan {
        proof {
            lemma_zero_root();
            lemma_int_sqrt_unique(0, 0);
        }
        return 0;
    }
    proof {
        lemma_energy_bound(samples@);
        let total = sum as int;
        let count = n as int;
        vstd::arithmetic::div_mod::lemma_div_multiples_vanish_quotient(
            4096,
            total * 244_140_625,
            count * 262_144,
        );
        assert(4096 * (total * 244_140_625) == total * 1_000_000_000_000) by (nonlinear_arith);
        assert(4096 * (count * 262_144) == count * 0x4000_0000) by (nonlinear_arith);
        assert(total * 244_140_625 <= 0xffff_ffff_ffff_ffff * 0x4000_0000 * 244_140_625)
            by (nonlinear_arith)
            requires
                total <= count * 0x4000_0000,
                count <= 0xffff_ffff_ffff_ffff,
        ;
    }
    let scaled: u128 = (sum * 244_140_625) / ((n as u128) * 262_144);
    isqrt(scaled as u64)
}

} // verus!
