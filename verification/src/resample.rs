//! Sample-rate conversion by linear interpolation.
//!
//! A sample is carried as the bit pattern of an IEEE 754 binary32 value. This
//! module decides, for every output position, which input samples contribute
//! and with which weight; the arithmetic on the sample values themselves is
//! supplied by the caller as a blending function.
use vstd::prelude::*;

verus! {

/// Where one output sample comes from.
#[derive(Clone, Copy, Debug, PartialEq, Eq, Structural)]
pub enum Tap {
    /// Blend `samples[index]` and `samples[index + 1]`; the weight of the
    /// second one is `num / den`, that of the first one is `1 - num / den`.
    Blend { index: usize, num: u32, den: u32 },
    /// Take `samples[index]` alone: it is the last input sample.
    Hold { index: usize },
    /// The source position lies past the input: the output is silence.
    Silence,
}

/// The bit pattern of the sample `0.0`.
pub const SILENCE: u32 = 0;

/// Length of the output for an input of `len` samples: `len` itself where
/// the rates are equal or the input is empty, and else
/// `floor(len * to_rate / from_rate)`.
pub open spec fn resampled_len(len: nat, from_rate: u32, to_rate: u32) -> nat {
    if from_rate == to_rate || len == 0 {
        len
    } else {
        ((len * to_rate) / (from_rate as int)) as nat
    }
}

/// Whole part of the source position of output sample `i`.
pub open spec fn source_index(i: nat, from_rate: u32, to_rate: u32) -> nat {
    ((i * from_rate) / (to_rate as int)) as nat
}

/// Numerator of the fractional part of the source position of output sample
/// `i`; the denominator is `to_rate`.
pub open spec fn source_fraction(i: nat, from_rate: u32, to_rate: u32) -> nat {
    ((i * from_rate) % (to_rate as int)) as nat
}

/// The tap of output sample `i` for an input of `len` samples.
pub open spec fn tap_spec(len: nat, from_rate: u32, to_rate: u32, i: nat) -> Tap {
    let index = source_index(i, from_rate, to_rate);
    if index + 1 < len {
        Tap::Blend {
            index: index as usize,
            num: source_fraction(i, from_rate, to_rate) as u32,
            den: to_rate,
        }
    } else if index < len {
        Tap::Hold { index: index as usize }
    } else {
        Tap::Silence
    }
}

/// Whether `value` is an output that `tap` allows for the input `samples`,
/// given the blending function `blend`.
pub open spec fn tap_yields<F: Fn(u32, u32, u32, u32) -> u32>(
    samples: Seq<u32>,
    tap: Tap,
    blend: F,
    value: u32,
) -> bool {
    match tap {
        Tap::Blend { index, num, den } => blend.ensures(
            (samples[index as int], samples[index + 1], num, den),
            value,
        ),
        Tap::Hold { index } => value == samples[index as int],
        Tap::Silence => value == SILENCE,
    }
}

/// The blending function accepts every pair of samples with every weight
/// below one.
pub open spec fn blends_all<F: Fn(u32, u32, u32, u32) -> u32>(blend: F) -> bool {
    forall|a: u32, b: u32, num: u32, den: u32|
        num < den ==> #[trigger] blend.requires((a, b, num, den))
}

/// `out` is what resampling `samples` from `from_rate` to `to_rate` with the
/// blending function `blend` can give: a copy where the rates are equal, and
/// else a sequence of the resampled length in which every sample is one that
/// its tap yields.
pub open spec fn is_resampled<F: Fn(u32, u32, u32, u32) -> u32>(
    samples: Seq<u32>,
    from_rate: u32,
    to_rate: u32,
    blend: F,
    out: Seq<u32>,
) -> bool {
    &&& out.len() == resampled_len(samples.len(), from_rate, to_rate)
    &&& from_rate == to_rate ==> out == samples
    &&& from_rate != to_rate ==> forall|i: int|
        0 <= i < out.len() ==> tap_yields(
            samples,
            tap_spec(samples.len(), from_rate, to_rate, i as nat),
            blend,
            #[trigger] out[i],
        )
}

/// With equal, positive rates the length formula gives the input length.
pub proof fn lemma_resampled_len_same_rate(len: nat, rate: u32)
    requires
        rate > 0,
    ensures
        (len * rate) / (rate as int) == len,
{
    vstd::arithmetic::div_mod::lemma_div_multiples_vanish(len as int, rate as int);
    vstd::arithmetic::mul::lemma_mul_is_commutative(len as int, rate as int);
}

/// Every output position below the output length reads inside the input:
/// no tap of a resampled sequence is `Silence`.
pub proof fn lemma_tap_reads_input(len: nat, from_rate: u32, to_rate: u32, i: nat)
    requires
        from_rate > 0,
        to_rate > 0,
        i < (len * to_rate) / (from_rate as int),
    ensures
        source_index(i, from_rate, to_rate) < len,
        tap_spec(len, from_rate, to_rate, i) != Tap::Silence,
        source_fraction(i, from_rate, to_rate) < to_rate,
{
    let f = from_rate as int;
    let t = to_rate as int;
    let n = len as int;
    let k = i as int;
    let q = (n * t) / f;
    assert(q * f <= n * t) by {
        vstd::arithmetic::div_mod::lemma_fundamental_div_mod(n * t, f);
        vstd::arithmetic::div_mod::lemma_mod_bound(n * t, f);
        vstd::arithmetic::mul::lemma_mul_is_commutative(q, f);
    }
    assert((k + 1) * f <= q * f) by (nonlinear_arith)
        requires
            k + 1 <= q,
            f > 0,
    ;
    assert(k * f < (k + 1) * f) by (nonlinear_arith)
        requires
            f > 0,
    ;
    assert(k * f < n * t);
    assert((k * f) / t < n) by (nonlinear_arith)
        requires
            k * f < n * t,
            t > 0,
            k * f >= 0,
    ;
    vstd::arithmetic::div_mod::lemma_mod_bound(k * f, t);
}

/// Computes the tap of output sample `i`.
pub fn source_tap(len: usize, from_rate: u32, to_rate: u32, i: usize) -> (tap: Tap)
    requires
        to_rate > 0,
    ensures
        tap == tap_spec(len as nat, from_rate, to_rate, i as nat),
{
    assert(i * from_rate <= 0xffff_ffff_ffff_ffff * 0xffff_ffff) by (nonlinear_arith)
        requires
            i <= 0xffff_ffff_ffff_ffff,
            from_rate <= 0xffff_ffff,
    ;
    let position: u128 = (i as u128) * (from_rate as u128);
    let index: u128 = position / (to_rate as u128);
    let num: u128 = position % (to_rate as u128);
    if index + 1 < len as u128 {
        Tap::Blend { index: index as usize, num: num as u32, den: to_rate }
    } else if index < len as u128 {
        Tap::Hold { index: index as usize }
    } else {
        Tap::Silence
    }
}

/// Converts `samples` from `from_rate` to `to_rate`.
///
/// With equal rates the result is a copy of the input, and an empty input
/// gives an empty output at any rates. Otherwise the output has
/// `floor(len * to_rate / from_rate)` samples, and sample `i` is produced
/// from its tap: a blend of two neighbouring input samples computed by
/// `blend(first, second, num, den)`, the last input sample alone, or silence.
/// A source rate of zero has no such length for an input that is not empty.
pub fn resample<F: Fn(u32, u32, u32, u32) -> u32>(
    samples: &[u32],
    from_rate: u32,
    to_rate: u32,
    blend: &F,
) -> (out: Vec<u32>)
    requires
        from_rate == to_rate || from_rate > 0 || samples@.len() == 0,
        resampled_len(samples@.len(), from_rate, to_rate) <= usize::MAX,
        blends_all(*blend),
    ensures
        is_resampled(samples@, from_rate, to_rate, *blend, out@),
        out@.len() == resampled_len(samples@.len(), from_rate, to_rate),
        from_rate > 0 ==> out@.len() == (samples@.len() * to_rate) / (from_rate as int),
        from_rate == to_rate ==> out@ == samples@,
        samples@.len() == 0 ==> out@.len() == 0,
{
    let len = samples.len();
    let mut out: Vec<u32> = Vec::new();
    if len == 0 {
        proof {
            assert(out@ =~= samples@);
            if from_rate > 0 {
                assert((0 * to_rate) / (from_rate as int) == 0) by (nonlinear_arith)
                    requires
                        from_rate > 0,
                ;
            }
        }
        return out;
    }
    if from_rate == to_rate {
        let mut k: usize = 0;
        while k < len
            invariant
                len == samples@.len(),
                k <= len,
                out@ == samples@.subrange(0, k as int),
            decreases len - k,
        {
            out.push(samples[k]);
            k += 1;
        }
        proof {
            assert(out@ =~= samples@);
            if from_rate > 0 {
                lemma_resampled_len_same_rate(len as nat, from_rate);
            }
        }
        return out;
    }
    assert(len * to_rate <= 0xffff_ffff_ffff_ffff * 0xffff_ffff) by (nonlinear_arith)
        requires
            len <= 0xffff_ffff_ffff_ffff,
            to_rate <= 0xffff_ffff,
    ;
    let out_len: usize = (((len as u128) * (to_rate as u128)) / (from_rate as u128)) as usize;
    let mut i: usize = 0;
    while i < out_len
        invariant
            len == samples@.len(),
            from_rate > 0,
            out_len == (len * to_rate) / (from_rate as int),
            i <= out_len,
            out@.len() == i,
            blends_all(*blend),
            forall|j: int|
                0 <= j < i ==> tap_yields(
                    samples@,
                    tap_spec(len as nat, from_rate, to_rate, j as nat),
                    *blend,
                    #[trigger] out@[j],
                ),
        decreases out_len - i,
    {
        proof {
            if to_rate == 0 {
                assert(len * to_rate == 0) by (nonlinear_arith)
                    requires
                        to_rate == 0,
                ;
            }
            lemma_tap_reads_input(len as nat, from_rate, to_rate, i as nat);
        }
        let value = match source_tap(len, from_rate, to_rate, i) {
            Tap::Blend { index, num, den } => blend(samples[index], samples[index + 1], num, den),
            Tap::Hold { index } => samples[index],
            Tap::Silence => SILENCE,
        };
        out.push(value);
        i += 1;
    }
    out
}

} // verus!
