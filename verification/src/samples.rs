//! Transformations of 16-bit sample buffers: order reversal, peak
//! measurement, and gain application with round-to-nearest and saturation.
//!
//! The mathematical model speaks of a target level as a rational
//! `num / den` in (0, 1] and of a peak as a raw magnitude in `1 ..= 32768`.
//! The gain applied to a sample is `(num * 32767) / (den * peak)`, the
//! rational that brings the peak magnitude to the target level.

use vstd::prelude::*;
use vstd::arithmetic::mul::lemma_mul_inequality;
use crate::arith::{
    abs_int, rounded_div, lemma_rounded_div_cancel, lemma_rounded_div_error,
    lemma_rounded_div_exact, lemma_rounded_div_le_factor, lemma_rounded_div_neg,
    lemma_rounded_div_ordered,
};

verus! {

/// Saturation of a mathematical integer into the representable range of a
/// signed 16-bit sample.
pub open spec fn clamp16(v: int) -> int {
    if v < -32768 {
        -32768
    } else if v > 32767 {
        32767
    } else {
        v
    }
}

/// The magnitude of one sample.
pub open spec fn sample_abs(s: i16) -> int {
    abs_int(s as int)
}

/// The peak magnitude of a buffer: the largest sample magnitude, in
/// `0 ..= 32768`, and `0` exactly for silence (or an empty buffer).
pub open spec fn peak_of(s: Seq<i16>) -> int
    decreases s.len(),
{
    if s.len() == 0 {
        0
    } else {
        let rest = peak_of(s.drop_last());
        if sample_abs(s.last()) > rest {
            sample_abs(s.last())
        } else {
            rest
        }
    }
}

/// The value of a sample after the gain `(num * 32767) / (den * peak)` is
/// applied: scaled, rounded to the nearest integer (ties away from zero),
/// and saturated into the 16-bit range.
pub open spec fn scaled_val(s: int, num: int, den: int, peak: int) -> int
    recommends
        den > 0,
        peak > 0,
{
    clamp16(rounded_div(s * num * 32767, den * peak))
}

/// `scaled_val`, landed back in a 16-bit sample.
pub open spec fn scaled_sample(s: i16, num: int, den: int, peak: int) -> i16 {
    scaled_val(s as int, num, den, peak) as i16
}

/// A whole buffer after gain application.
pub open spec fn gain_seq(s: Seq<i16>, num: int, den: int, peak: int) -> Seq<i16> {
    Seq::new(s.len(), |i: int| scaled_sample(s[i], num, den, peak))
}

/// A buffer with its sample order reversed.
pub open spec fn reversed(s: Seq<i16>) -> Seq<i16> {
    Seq::new(s.len(), |i: int| s[s.len() - 1 - i])
}

/// Reversing a buffer twice reproduces the original sample sequence.
pub proof fn lemma_reverse_involution(s: Seq<i16>)
    ensures
        reversed(reversed(s)) == s,
{
    assert(reversed(reversed(s)) =~= s);
}

/// No sample magnitude exceeds the peak.
pub proof fn lemma_peak_ge_all(s: Seq<i16>)
    ensures
        forall|i: int| 0 <= i < s.len() ==> sample_abs(#[trigger] s[i]) <= peak_of(s),
    decreases s.len(),
{
    if s.len() > 0 {
        lemma_peak_ge_all(s.drop_last());
        assert forall|i: int| 0 <= i < s.len() implies sample_abs(#[trigger] s[i]) <= peak_of(
            s,
        ) by {
            if i < s.len() - 1 {
                assert(s.drop_last()[i] == s[i]);
            }
        }
    }
}

/// The peak lies in `0 ..= 32768`.
pub proof fn lemma_peak_bounds(s: Seq<i16>)
    ensures
        0 <= peak_of(s) <= 32768,
    decreases s.len(),
{
    if s.len() > 0 {
        lemma_peak_bounds(s.drop_last());
    }
}

/// A nonempty buffer attains its peak at some position.
pub proof fn lemma_peak_witness(s: Seq<i16>)
    requires
        s.len() > 0,
    ensures
        exists|i: int| 0 <= i < s.len() && sample_abs(#[trigger] s[i]) == peak_of(s),
    decreases s.len(),
{
    if s.len() == 1 {
        assert(s.drop_last() =~= Seq::<i16>::empty());
        assert(peak_of(Seq::<i16>::empty()) == 0);
        assert(sample_abs(s[0]) == peak_of(s));
    } else if sample_abs(s.last()) >= peak_of(s.drop_last()) {
        assert(sample_abs(s[s.len() - 1]) == peak_of(s));
    } else {
        lemma_peak_witness(s.drop_last());
        let j = choose|j: int|
            0 <= j < s.drop_last().len() && sample_abs(#[trigger] s.drop_last()[j]) == peak_of(
                s.drop_last(),
            );
        assert(s.drop_last()[j] == s[j]);
        assert(sample_abs(s[j]) == peak_of(s));
    }
}

/// If every magnitude is at most `b`, the peak is at most `b`.
pub proof fn lemma_peak_le_bound(s: Seq<i16>, b: int)
    requires
        b >= 0,
        forall|i: int| 0 <= i < s.len() ==> sample_abs(#[trigger] s[i]) <= b,
    ensures
        peak_of(s) <= b,
    decreases s.len(),
{
    if s.len() > 0 {
        assert forall|i: int| 0 <= i < s.drop_last().len() implies sample_abs(
            #[trigger] s.drop_last()[i],
        ) <= b by {
            assert(s.drop_last()[i] == s[i]);
        }
        lemma_peak_le_bound(s.drop_last(), b);
        assert(sample_abs(s[s.len() - 1]) <= b);
    }
}

/// Extending a buffer by one sample extends its peak by a maximum.
pub proof fn lemma_peak_take_step(s: Seq<i16>, i: int)
    requires
        0 <= i < s.len(),
    ensures
        peak_of(s.take(i + 1)) == if sample_abs(s[i]) > peak_of(s.take(i)) {
            sample_abs(s[i])
        } else {
            peak_of(s.take(i))
        },
{
    assert(s.take(i + 1).drop_last() =~= s.take(i));
    assert(s.take(i + 1).last() == s[i]);
}

/// Copies the window of `len` samples beginning at `start` out of a buffer.
pub fn extract_clip(samples: &Vec<i16>, start: usize, len: usize) -> (r: Vec<i16>)
    requires
        start + len <= samples@.len(),
    ensures
        r@ == samples@.subrange(start as int, start as int + len as int),
{
    let n = samples.len();
    let mut clip: Vec<i16> = Vec::new();
    let mut i: usize = 0;
    while i < len
        invariant
            i <= len,
            n == samples@.len(),
            start + len <= n,
            clip@ =~= samples@.subrange(start as int, start as int + i as int),
        decreases len - i,
    {
        clip.push(samples[start + i]);
        i = i + 1;
    }
    clip
}

/// The scaled magnitude of one sample: gain application commutes with the
/// magnitude, and a sample no louder than the peak stays inside the
/// saturation bounds.
proof fn lemma_scaled_abs(x: i16, num: int, den: int, peak: int)
    requires
        1 <= num <= den,
        peak >= 1,
        sample_abs(x) <= peak,
    ensures
        abs_int(scaled_val(x as int, num, den, peak)) == rounded_div(
            sample_abs(x) * (num * 32767),
            den * peak,
        ),
        scaled_val(x as int, num, den, peak) == scaled_sample(x, num, den, peak) as int,
        rounded_div(sample_abs(x) * (num * 32767), den * peak) <= rounded_div(num * 32767, den),
        sample_abs(x) == peak ==> abs_int(scaled_val(x as int, num, den, peak)) == rounded_div(
            num * 32767,
            den,
        ),
{
    let k = num * 32767;
    let q = den * peak;
    let m = sample_abs(x);
    assert(q >= 1) by (nonlinear_arith)
        requires
            den >= 1,
            peak >= 1,
            q == den * peak,
    ;
    assert(k >= 32767) by (nonlinear_arith)
        requires
            num >= 1,
            k == num * 32767,
    ;
    // The cap: the gain never lifts a sample at or below the peak past
    // the rounded target magnitude, which itself is at most 32767.
    assert(m * k <= peak * k) by {
        lemma_mul_inequality(m, peak, k);
    }
    lemma_rounded_div_ordered(m * k, peak * k, q);
    assert(peak * k == k * peak) by (nonlinear_arith);
    assert(den * peak == den * peak);
    lemma_rounded_div_cancel(k, den, peak);
    assert(rounded_div(k * peak, q) == rounded_div(k, den));
    assert(k <= 32767 * den) by (nonlinear_arith)
        requires
            num <= den,
            k == num * 32767,
    ;
    lemma_rounded_div_le_factor(k, den, 32767);
    assert(rounded_div(m * k, q) <= 32767);
    lemma_rounded_div_ordered(0, m * k, q);
    // Oddness carries the bound to negative samples.
    if x >= 0 {
        assert((x as int) * num * 32767 == m * k) by (nonlinear_arith)
            requires
                m == x as int,
                k == num * 32767,
        ;
        assert(clamp16(rounded_div(m * k, q)) == rounded_div(m * k, q));
    } else {
        assert((x as int) * num * 32767 == -(m * k)) by (nonlinear_arith)
            requires
                m == -(x as int),
                k == num * 32767,
        ;
        lemma_rounded_div_neg(m * k, q);
        assert(rounded_div(-(m * k), q) == -rounded_div(m * k, q));
        assert(clamp16(-rounded_div(m * k, q)) == -rounded_div(m * k, q));
    }
}

/// Applying the gain for target `num / den` to a buffer with peak
/// magnitude `peak` yields a buffer whose new peak magnitude is exactly
/// the rounding of `num * 32767 / den`, the target level at full scale.
pub proof fn lemma_gain_hits_target(s: Seq<i16>, num: int, den: int)
    requires
        1 <= num <= den,
        peak_of(s) >= 1,
    ensures
        peak_of(gain_seq(s, num, den, peak_of(s))) == rounded_div(num * 32767, den),
        0 <= rounded_div(num * 32767, den) <= 32767,
        2 * abs_int(rounded_div(num * 32767, den) * den - num * 32767) <= den,
{
    let peak = peak_of(s);
    let target = rounded_div(num * 32767, den);
    let t = gain_seq(s, num, den, peak);
    lemma_peak_ge_all(s);
    assert forall|i: int| 0 <= i < t.len() implies sample_abs(#[trigger] t[i]) <= target by {
        lemma_scaled_abs(s[i], num, den, peak);
    }
    assert(target >= 0) by {
        lemma_rounded_div_ordered(0, num * 32767, den);
        assert(num * 32767 >= 0) by (nonlinear_arith)
            requires
                num >= 1,
        ;
    }
    lemma_peak_le_bound(t, target);
    lemma_peak_witness(s);
    let i0 = choose|i: int| 0 <= i < s.len() && sample_abs(#[trigger] s[i]) == peak;
    lemma_scaled_abs(s[i0], num, den, peak);
    assert(sample_abs(t[i0]) == target);
    lemma_peak_ge_all(t);
    assert(peak_of(t) >= target);
    assert(num * 32767 <= 32767 * den) by (nonlinear_arith)
        requires
            num <= den,
    ;
    lemma_rounded_div_le_factor(num * 32767, den, 32767);
    lemma_rounded_div_error(num * 32767, den);
}

/// A buffer whose peak already sits exactly at the target level is left
/// unchanged by normalization: the gain is one.
pub proof fn lemma_normalize_idempotent(s: Seq<i16>, num: int, den: int)
    requires
        1 <= num <= den,
        peak_of(s) >= 1,
        peak_of(s) * den == num * 32767,
    ensures
        gain_seq(s, num, den, peak_of(s)) == s,
{
    let peak = peak_of(s);
    assert forall|i: int| 0 <= i < s.len() implies gain_seq(s, num, den, peak)[i] == s[i] by {
        let x = s[i] as int;
        assert(x * num * 32767 == x * (den * peak)) by (nonlinear_arith)
            requires
                peak * den == num * 32767,
        ;
        lemma_rounded_div_exact(x, den * peak);
        assert(den * peak >= 1) by (nonlinear_arith)
            requires
                den >= 1,
                peak >= 1,
        ;
        assert(x * (den * peak) == x * (den * peak));
        assert(rounded_div(x * (den * peak), den * peak) == x) by {
            lemma_rounded_div_exact(x, den * peak);
        }
        assert(clamp16(x) == x);
    }
    assert(gain_seq(s, num, den, peak) =~= s);
}

} // verus!
