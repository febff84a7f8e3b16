//! Per-record scores computed from read counts: the mean base quality of a
//! set of reads, and the rescoring of a record's confidence from a noise rate.
use vstd::prelude::*;

use vstd::arithmetic::div_mod::lemma_div_is_ordered;

verus! {

/// The mean of `total` over `count` reads, in hundredths, rounded half up;
/// zero when there is no read.
pub open spec fn mean_hundredths_of(total: nat, count: nat) -> nat {
    if count == 0 {
        0
    } else {
        (total * 100 + count / 2) / count
    }
}

/// The mean quality of `count` reads whose qualities sum to `total`, in
/// hundredths (a sum of 90 over 4 reads gives 2250).
pub fn mean_hundredths(total: u32, count: u32) -> (r: u64)
    ensures
        r as nat == mean_hundredths_of(total as nat, count as nat),
{
    if count == 0 {
        return 0;
    }
    let scaled: u64 = total as u64 * 100 + count as u64 / 2;
    scaled / count as u64
}

/// The confidence of a record given a background noise rate (in parts per
/// million): the share of alternate-supporting reads, in parts per million
/// of the depth, that the noise rate does not account for; zero when the
/// noise explains all of it or there is no read.
///
/// This is one model among possible ones: callers needing another score can
/// replace it, keeping the law that a lower noise rate never lowers it.
pub open spec fn rescored_quality(depth: nat, alt_count: nat, noise_ppm: nat) -> nat {
    let support = alt_count * 1_000_000;
    let noise = depth * noise_ppm;
    if depth == 0 || support <= noise {
        0
    } else {
        ((support - noise) / (depth as int)) as nat
    }
}

/// Rescores a record's confidence from its depth, its alternate-supporting
/// read count and the noise rate in parts per million.
pub fn rescore_quality(depth: u32, alt_count: u32, noise_ppm: u32) -> (r: u64)
    ensures
        r as nat == rescored_quality(depth as nat, alt_count as nat, noise_ppm as nat),
{
    let support: u64 = alt_count as u64 * 1_000_000;
    assert(depth as u64 * noise_ppm as u64 <= u32::MAX as u64 * u32::MAX as u64) by (nonlinear_arith)
        requires
            depth <= u32::MAX,
            noise_ppm <= u32::MAX,
    ;
    let noise: u64 = depth as u64 * noise_ppm as u64;
    if depth == 0 || support <= noise {
        return 0;
    }
    (support - noise) / depth as u64
}

/// A lower noise rate never gives a lower score, for the same evidence.
pub proof fn lemma_rescore_monotone(depth: nat, alt_count: nat, lower: nat, higher: nat)
    requires
        lower <= higher,
    ensures
        rescored_quality(depth, alt_count, lower) >= rescored_quality(depth, alt_count, higher),
{
    if depth > 0 {
        let support = alt_count * 1_000_000;
        assert(depth * lower <= depth * higher) by (nonlinear_arith)
            requires
                lower <= higher,
        ;
        if support > depth * higher {
            lemma_div_is_ordered(
                (support - depth * higher) as int,
                (support - depth * lower) as int,
                depth as int,
            );
        }
    }
}

} // verus!
