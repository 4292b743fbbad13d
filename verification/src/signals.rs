//! The four concrete signals: price difference, minimum, maximum and
//! windowed simple moving average.
//!
//! Each signal is a pure function of a closing-price series (a sequence
//! of binary64 bit patterns) and returns either its result or `None`,
//! the marker for "not computable for this input".

use vstd::prelude::*;

use crate::fp::bits_add;
use crate::fp::bits_div;
use crate::fp::bits_of_usize;
use crate::fp::bits_sub;
use crate::fp::diff_bits;
use crate::fp::is_finite_bits;
use crate::fp::is_nan_bits;
use crate::fp::is_zero_bits;
use crate::fp::le_bits_spec;
use crate::fp::lt_bits;
use crate::fp::lt_bits_spec;
use crate::fp::quot_bits;
use crate::fp::sum_bits;
use crate::fp::usize_bits;
use crate::fp::zero_bits;
use crate::fp::GREATEST_FINITE_BITS;
use crate::fp::LEAST_FINITE_BITS;
use crate::fp::ONE_BITS;
use crate::fp::POS_ZERO_BITS;

verus! {

/// The identity-safe maximum fold: seeded with the least finite value,
/// each step keeps the larger of the accumulator and the next element,
/// and keeps the accumulator when the element is a NaN.
pub open spec fn fold_max_bits(s: Seq<u64>) -> u64
    decreases s.len(),
{
    if s.len() == 0 {
        LEAST_FINITE_BITS
    } else {
        let prev = fold_max_bits(s.drop_last());
        if lt_bits_spec(prev, s.last()) {
            s.last()
        } else {
            prev
        }
    }
}

/// The identity-safe minimum fold: seeded with the greatest finite
/// value, each step keeps the smaller of the accumulator and the next
/// element, and keeps the accumulator when the element is a NaN.
pub open spec fn fold_min_bits(s: Seq<u64>) -> u64
    decreases s.len(),
{
    if s.len() == 0 {
        GREATEST_FINITE_BITS
    } else {
        let prev = fold_min_bits(s.drop_last());
        if lt_bits_spec(s.last(), prev) {
            s.last()
        } else {
            prev
        }
    }
}

/// The left-to-right sum of a window, seeded with positive zero.
pub open spec fn window_sum_bits(s: Seq<u64>) -> u64
    decreases s.len(),
{
    if s.len() == 0 {
        POS_ZERO_BITS
    } else {
        sum_bits(window_sum_bits(s.drop_last()), s.last())
    }
}

/// How many windows of width `n` fit in a series of length `len`.
pub open spec fn sma_count(n: int, len: int) -> int {
    if len >= n {
        len - n + 1
    } else {
        0
    }
}

/// The windowed simple moving average: absent for a degenerate window
/// (width at most one) or an empty series; otherwise the sequence of
/// the means of the contiguous windows of width `n`, which is empty —
/// not absent — when the series is shorter than the window.
pub open spec fn sma_spec(n: usize, s: Seq<u64>) -> Option<Seq<u64>> {
    if s.len() == 0 || n <= 1 {
        None
    } else {
        Some(
            Seq::new(
                sma_count(n as int, s.len() as int) as nat,
                |i: int| quot_bits(window_sum_bits(s.subrange(i, i + n)), usize_bits(n)),
            ),
        )
    }
}

/// The price difference: absent on an empty series; otherwise the pair
/// of the absolute difference between the last and the first price and
/// the difference relative to the first price, where a first price of
/// zero is replaced by one as the denominator.
pub open spec fn price_diff_spec(s: Seq<u64>) -> Option<(u64, u64)> {
    if s.len() == 0 {
        None
    } else {
        let abs = diff_bits(s.last(), s.first());
        let denom = if is_zero_bits(s.first()) {
            ONE_BITS
        } else {
            s.first()
        };
        Some((abs, quot_bits(abs, denom)))
    }
}

/// Calculates the absolute and relative difference between the
/// beginning and the end of a series. The relative difference is
/// relative to the beginning.
pub fn price_diff(a: &Vec<u64>) -> (r: Option<(u64, u64)>)
    ensures
        r == price_diff_spec(a@),
        (r is None <==> a@.len() == 0),
        (a@.len() == 1 && is_finite_bits(a@[0]) ==> (r matches Some(p) && is_zero_bits(p.0)
            && is_zero_bits(p.1))),
{
    if a.len() == 0 {
        None
    } else {
        let first = a[0];
        let last = a[a.len() - 1];
        let abs = bits_sub(last, first);
        let denom = if zero_bits(first) {
            ONE_BITS
        } else {
            first
        };
        let rel = bits_div(abs, denom);
        Some((abs, rel))
    }
}

/// Window function to create a simple moving average.
pub fn n_window_sma(n: usize, series: &Vec<u64>) -> (r: Option<Vec<u64>>)
    ensures
        (r is None <==> (series@.len() == 0 || n <= 1)),
        (r matches Some(v) ==> Some(v@) == sma_spec(n, series@)),
{
    if series.len() == 0 || n <= 1 {
        return None;
    }
    let len = series.len();
    let n_f = bits_of_usize(n);
    let count: usize = if len >= n {
        len - n + 1
    } else {
        0
    };
    let mut out: Vec<u64> = Vec::new();
    let mut i: usize = 0;
    while i < count
        invariant
            n > 1,
            len == series@.len(),
            n_f == usize_bits(n),
            count == sma_count(n as int, len as int),
            count > 0 ==> n <= len,
            0 <= i <= count,
            out@.len() == i,
            forall|k: int|
                0 <= k < i ==> out@[k] == quot_bits(
                    window_sum_bits(series@.subrange(k, k + n)),
                    usize_bits(n),
                ),
        decreases count - i,
    {
        let mut acc: u64 = POS_ZERO_BITS;
        let mut j: usize = 0;
        while j < n
            invariant
                len == series@.len(),
                i + n <= len,
                0 <= j <= n,
                acc == window_sum_bits(series@.subrange(i as int, i as int + j)),
            decreases n - j,
        {
            proof {
                let w = series@.subrange(i as int, i as int + j + 1);
                assert(w.drop_last() =~= series@.subrange(i as int, i as int + j));
                assert(w.last() == series@[i as int + j]);
            }
            acc = bits_add(acc, series[i + j]);
            j += 1;
        }
        out.push(bits_div(acc, n_f));
        i += 1;
    }
    proof {
        let target = sma_spec(n, series@).unwrap();
        assert(out@ =~= target);
    }
    Some(out)
}

/// Find the maximum in a series, as the identity-safe fold computes it.
pub fn max(series: &Vec<u64>) -> (r: Option<u64>)
    ensures
        (r is None <==> series@.len() == 0),
        series@.len() > 0 ==> r == Some(fold_max_bits(series@)),
{
    if series.len() == 0 {
        return None;
    }
    let mut acc: u64 = LEAST_FINITE_BITS;
    let mut i: usize = 0;
    while i < series.len()
        invariant
            0 <= i <= series@.len(),
            acc == fold_max_bits(series@.take(i as int)),
        decreases series@.len() - i,
    {
        proof {
            let w = series@.take(i as int + 1);
            assert(w.drop_last() =~= series@.take(i as int));
            assert(w.last() == series@[i as int]);
        }
        let q = series[i];
        if lt_bits(acc, q) {
            acc = q;
        }
        i += 1;
    }
    proof {
        assert(series@.take(series@.len() as int) =~= series@);
    }
    Some(acc)
}

/// Find the minimum in a series, as the identity-safe fold computes it.
pub fn min(series: &Vec<u64>) -> (r: Option<u64>)
    ensures
        (r is None <==> series@.len() == 0),
        series@.len() > 0 ==> r == Some(fold_min_bits(series@)),
{
    if series.len() == 0 {
        return None;
    }
    let mut acc: u64 = GREATEST_FINITE_BITS;
    let mut i: usize = 0;
    while i < series.len()
        invariant
            0 <= i <= series@.len(),
            acc == fold_min_bits(series@.take(i as int)),
        decreases series@.len() - i,
    {
        proof {
            let w = series@.take(i as int + 1);
            assert(w.drop_last() =~= series@.take(i as int));
            assert(w.last() == series@[i as int]);
        }
        let q = series[i];
        if lt_bits(q, acc) {
            acc = q;
        }
        i += 1;
    }
    proof {
        assert(series@.take(series@.len() as int) =~= series@);
    }
    Some(acc)
}

proof fn lemma_fold_max_bounds(s: Seq<u64>)
    requires
        forall|i: int| 0 <= i < s.len() ==> !is_nan_bits(s[i]),
    ensures
        !is_nan_bits(fold_max_bits(s)),
        forall|i: int| 0 <= i < s.len() ==> le_bits_spec(s[i], fold_max_bits(s)),
    decreases s.len(),
{
    if s.len() == 0 {
    } else {
        let pre = s.drop_last();
        assert forall|i: int| 0 <= i < pre.len() implies !is_nan_bits(pre[i]) by {
            assert(pre[i] == s[i]);
        }
        lemma_fold_max_bounds(pre);
        let m = fold_max_bits(s);
        assert(!is_nan_bits(s.last()));
        assert forall|i: int| 0 <= i < s.len() implies le_bits_spec(s[i], m) by {
            if i < s.len() - 1 {
                assert(pre[i] == s[i]);
                assert(le_bits_spec(s[i], fold_max_bits(pre)));
            } else {
                assert(s[i] == s.last());
            }
        }
    }
}

proof fn lemma_fold_min_bounds(s: Seq<u64>)
    requires
        forall|i: int| 0 <= i < s.len() ==> !is_nan_bits(s[i]),
    ensures
        !is_nan_bits(fold_min_bits(s)),
        forall|i: int| 0 <= i < s.len() ==> le_bits_spec(fold_min_bits(s), s[i]),
    decreases s.len(),
{
    if s.len() == 0 {
    } else {
        let pre = s.drop_last();
        assert forall|i: int| 0 <= i < pre.len() implies !is_nan_bits(pre[i]) by {
            assert(pre[i] == s[i]);
        }
        lemma_fold_min_bounds(pre);
        let m = fold_min_bits(s);
        assert(!is_nan_bits(s.last()));
        assert forall|i: int| 0 <= i < s.len() implies le_bits_spec(m, s[i]) by {
            if i < s.len() - 1 {
                assert(pre[i] == s[i]);
                assert(le_bits_spec(fold_min_bits(pre), s[i]));
            } else {
                assert(s[i] == s.last());
            }
        }
    }
}

/// For a non-empty series free of NaN patterns, every element lies, in
/// the binary64 order, between the minimum and the maximum that the
/// signal folds compute.
pub proof fn lemma_min_max_bounds(s: Seq<u64>)
    requires
        s.len() > 0,
        forall|i: int| 0 <= i < s.len() ==> !is_nan_bits(s[i]),
    ensures
        forall|i: int| 0 <= i < s.len() ==> le_bits_spec(fold_min_bits(s), s[i]),
        forall|i: int| 0 <= i < s.len() ==> le_bits_spec(s[i], fold_max_bits(s)),
{
    lemma_fold_min_bounds(s);
    lemma_fold_max_bounds(s);
}

/// The price-difference signal: the pair of the absolute and the
/// relative change between the first and the last price.
pub struct PriceDifference;

impl PriceDifference {
    /// Calculate the signal on the provided series, or the absence
    /// marker on an empty series.
    pub fn calculate(&self, series: &Vec<u64>) -> (r: Option<(u64, u64)>)
        ensures
            r == price_diff_spec(series@),
            (r is None <==> series@.len() == 0),
    {
        price_diff(series)
    }
}

/// The minimum-price signal.
pub struct MinPrice;

impl MinPrice {
    /// Calculate the signal on the provided series, or the absence
    /// marker on an empty series.
    pub fn calculate(&self, series: &Vec<u64>) -> (r: Option<u64>)
        ensures
            (r is None <==> series@.len() == 0),
            series@.len() > 0 ==> r == Some(fold_min_bits(series@)),
    {
        min(series)
    }
}

/// The maximum-price signal.
pub struct MaxPrice;

impl MaxPrice {
    /// Calculate the signal on the provided series, or the absence
    /// marker on an empty series.
    pub fn calculate(&self, series: &Vec<u64>) -> (r: Option<u64>)
        ensures
            (r is None <==> series@.len() == 0),
            series@.len() > 0 ==> r == Some(fold_max_bits(series@)),
    {
        max(series)
    }
}

/// The windowed simple-moving-average signal.
pub struct WindowedSMA {
    pub window_size: usize,
}

impl WindowedSMA {
    /// Calculate the signal on the provided series: absent for a window
    /// of width at most one or an empty series, the windowed means
    /// otherwise.
    pub fn calculate(&self, series: &Vec<u64>) -> (r: Option<Vec<u64>>)
        ensures
            (r is None <==> (series@.len() == 0 || self.window_size <= 1)),
            (r matches Some(v) ==> Some(v@) == sma_spec(self.window_size, series@)),
    {
        n_window_sma(self.window_size, series)
    }
}

} // verus!
