use vstd::prelude::*;

verus! {

/// Sum of a sequence of durations.
pub open spec fn sum_of(s: Seq<u64>) -> int
    decreases s.len(),
{
    if s.len() == 0 {
        0
    } else {
        sum_of(s.drop_last()) + s.last()
    }
}

/// Smallest duration of a non-empty sequence.
pub open spec fn min_of(s: Seq<u64>) -> int
    decreases s.len(),
{
    if s.len() <= 1 {
        s[0] as int
    } else {
        let m = min_of(s.drop_last());
        if s.last() < m {
            s.last() as int
        } else {
            m
        }
    }
}

/// Largest duration of a non-empty sequence.
pub open spec fn max_of(s: Seq<u64>) -> int
    decreases s.len(),
{
    if s.len() <= 1 {
        s[0] as int
    } else {
        let m = max_of(s.drop_last());
        if s.last() > m {
            s.last() as int
        } else {
            m
        }
    }
}

/// Arithmetic mean of a non-empty sequence, rounded down to a whole nanosecond.
pub open spec fn mean_of(s: Seq<u64>) -> int {
    sum_of(s) / (s.len() as int)
}

/// Sum of the squared deviations of the durations from `m`.
pub open spec fn sq_dev_sum(s: Seq<u64>, m: int) -> int
    decreases s.len(),
{
    if s.len() == 0 {
        0
    } else {
        sq_dev_sum(s.drop_last(), m) + (s.last() - m) * (s.last() - m)
    }
}

/// Sample variance with Bessel's correction, taken as 0 for a single sample.
pub open spec fn sample_variance(s: Seq<u64>) -> int {
    if s.len() <= 1 {
        0
    } else {
        sq_dev_sum(s, mean_of(s)) / (s.len() - 1)
    }
}

/// `r` is the integer square root of `v`.
pub open spec fn is_isqrt(r: int, v: int) -> bool {
    0 <= r && r * r <= v < (r + 1) * (r + 1)
}

/// Summary of a non-empty sample set; every duration is in nanoseconds.
#[derive(Debug, Clone, Copy, PartialEq, Eq, Structural)]
pub struct Statistics {
    pub mean: u64,
    pub sample_stddev: u64,
    pub min: u64,
    pub max: u64,
    pub count: usize,
}

impl Statistics {
    /// What `new` computes from a non-empty sample set. The standard deviation is
    /// the integer square root of the sample variance when the sum of squared
    /// deviations fits in 128 bits, and saturates to `u64::MAX` otherwise.
    pub open spec fn describes(self, s: Seq<u64>) -> bool {
        &&& self.count == s.len()
        &&& self.mean == mean_of(s)
        &&& self.min == min_of(s)
        &&& self.max == max_of(s)
        &&& if sq_dev_sum(s, mean_of(s)) <= u128::MAX {
            is_isqrt(self.sample_stddev as int, sample_variance(s))
        } else {
            self.sample_stddev == u64::MAX
        }
    }

    /// The statistics of a non-empty sample set.
    pub fn new(data: &Vec<u64>) -> (r: Statistics)
        requires
            data@.len() > 0,
        ensures
            r.describes(data@),
    {
        let count = data.len();
        let mut lo: u64 = data[0];
        let mut hi: u64 = data[0];
        let mut i: usize = 1;
        while i < count
            invariant
                count == data@.len(),
                1 <= i <= count,
                lo == min_of(data@.take(i as int)),
                hi == max_of(data@.take(i as int)),
            decreases count - i,
        {
            let x = data[i];
            proof {
                assert(data@.take(i + 1).drop_last() == data@.take(i as int));
            }
            if x < lo {
                lo = x;
            }
            if x > hi {
                hi = x;
            }
            i = i + 1;
        }
        proof {
            assert(data@.take(count as int) == data@);
        }
        let mean = mean_of_prefix(data, count);
        let sample_stddev = Self::stddev(data, mean);
        Statistics { mean, sample_stddev, min: lo, max: hi, count }
    }

    fn stddev(data: &Vec<u64>, mean: u64) -> (r: u64)
        requires
            data@.len() > 0,
            mean == mean_of(data@),
        ensures
            sq_dev_sum(data@, mean as int) <= u128::MAX ==> is_isqrt(r as int, sample_variance(data@)),
            sq_dev_sum(data@, mean as int) > u128::MAX ==> r == u64::MAX,
    {
        let count = data.len();
        if count == 1 {
            proof {
                assert(is_isqrt(0, 0));
                let s = data@;
                assert(s.drop_last().len() == 0);
                assert(sum_of(s.drop_last()) == 0);
                assert(sum_of(s) == s[0] as int);
                assert(sq_dev_sum(s.drop_last(), mean as int) == 0);
                assert(s.len() == 1);
                let t = sum_of(s);
                assert(t / 1 == t) by (nonlinear_arith);
                assert(mean == s[0]);
                assert(sq_dev_sum(s, mean as int) == sq_dev_sum(s.drop_last(), mean as int) + 0);
            }
            return 0;
        }
        let mut acc: u128 = 0;
        let mut i: usize = 0;
        while i < count
            invariant
                count == data@.len(),
                0 <= i <= count,
                acc == sq_dev_sum(data@.take(i as int), mean as int),
            decreases count - i,
        {
            let x = data[i];
            let d: u64 = if x >= mean { x - mean } else { mean - x };
            assert(d * d <= u128::MAX) by (nonlinear_arith)
                requires d <= u64::MAX;
            let sq: u128 = (d as u128) * (d as u128);
            proof {
                assert(data@.take(i + 1).drop_last() == data@.take(i as int));
                assert((x - mean) * (x - mean) == d * d) by (nonlinear_arith)
                    requires d == x - mean || d == mean - x;
                lemma_sq_dev_sum_nonneg(data@.take(i + 1), mean as int);
            }
            match acc.checked_add(sq) {
                Some(a) => {
                    acc = a;
                },
                None => {
                    proof {
                        lemma_sq_dev_sum_monotone(data@, mean as int, i + 1);
                    }
                    return u64::MAX;
                },
            }
            i = i + 1;
        }
        assert(data@.take(count as int) == data@);
        let var: u128 = acc / ((count - 1) as u128);
        isqrt(var)
    }
}

proof fn lemma_sq_dev_sum_nonneg(s: Seq<u64>, m: int)
    ensures
        sq_dev_sum(s, m) >= 0,
    decreases s.len(),
{
    if s.len() > 0 {
        lemma_sq_dev_sum_nonneg(s.drop_last(), m);
        assert((s.last() - m) * (s.last() - m) >= 0) by (nonlinear_arith);
    }
}

proof fn lemma_sq_dev_sum_monotone(s: Seq<u64>, m: int, k: int)
    requires
        0 <= k <= s.len(),
    ensures
        sq_dev_sum(s.take(k), m) <= sq_dev_sum(s, m),
    decreases s.len() - k,
{
    if k < s.len() {
        lemma_sq_dev_sum_monotone(s, m, k + 1);
        assert(s.take(k + 1).drop_last() == s.take(k));
        assert((s[k] - m) * (s[k] - m) >= 0) by (nonlinear_arith);
    } else {
        assert(s.take(k) == s);
    }
}

proof fn lemma_sum_bounds(s: Seq<u64>)
    requires
        s.len() > 0,
    ensures
        s.len() * min_of(s) <= sum_of(s) <= s.len() * max_of(s),
    decreases s.len(),
{
    if s.len() == 1 {
        assert(s.drop_last().len() == 0);
        assert(sum_of(s.drop_last()) == 0);
    } else {
        let p = s.drop_last();
        lemma_sum_bounds(p);
        let n = p.len() as int;
        let x = s.last() as int;
        let lo = min_of(s);
        let hi = max_of(s);
        assert(lo <= min_of(p) && lo <= x);
        assert(hi >= max_of(p) && hi >= x);
        assert(n * lo <= n * min_of(p)) by (nonlinear_arith)
            requires lo <= min_of(p), n >= 0;
        assert(n * max_of(p) <= n * hi) by (nonlinear_arith)
            requires hi >= max_of(p), n >= 0;
        assert((n + 1) * lo == n * lo + lo) by (nonlinear_arith);
        assert((n + 1) * hi == n * hi + hi) by (nonlinear_arith);
    }
}

/// The mean of a non-empty sample set lies between its minimum and its maximum.
pub proof fn lemma_mean_between_min_and_max(s: Seq<u64>)
    requires
        s.len() > 0,
    ensures
        min_of(s) <= mean_of(s) <= max_of(s),
{
    lemma_sum_bounds(s);
    let n = s.len() as int;
    let t = sum_of(s);
    let lo = min_of(s);
    let hi = max_of(s);
    assert(lo <= t / n) by (nonlinear_arith)
        requires n * lo <= t, n > 0;
    assert(t / n <= hi) by (nonlinear_arith)
        requires t <= n * hi, n > 0;
}

/// The statistics of a non-empty sample set satisfy `min <= mean <= max`.
pub proof fn lemma_statistics_ordered(st: Statistics, s: Seq<u64>)
    requires
        s.len() > 0,
        st.describes(s),
    ensures
        st.min <= st.mean <= st.max,
{
    lemma_mean_between_min_and_max(s);
}

/// The mean of the first `k` durations, rounded down.
pub fn mean_of_prefix(data: &Vec<u64>, k: usize) -> (r: u64)
    requires
        0 < k <= data@.len(),
    ensures
        r == mean_of(data@.take(k as int)),
{
    let mut sum: u128 = 0;
    let mut i: usize = 0;
    while i < k
        invariant
            0 < k <= data@.len(),
            0 <= i <= k,
            sum == sum_of(data@.take(i as int)),
            sum <= i * (u64::MAX as int),
        decreases k - i,
    {
        proof {
            assert(data@.take(i + 1).drop_last() == data@.take(i as int));
            assert((i + 1) * (u64::MAX as int) == i * (u64::MAX as int) + u64::MAX) by (nonlinear_arith);
            assert((i + 1) * (u64::MAX as int) <= u128::MAX) by (nonlinear_arith)
                requires i + 1 <= usize::MAX;
        }
        sum = sum + data[i] as u128;
        i = i + 1;
    }
    proof {
        assert(sum / (k as u128) <= u64::MAX) by (nonlinear_arith)
            requires sum <= k * (u64::MAX as int), k > 0;
    }
    (sum / (k as u128)) as u64
}

/// Integer square root by bisection.
pub fn isqrt(v: u128) -> (r: u64)
    ensures
        is_isqrt(r as int, v as int),
{
    let mut lo: u128 = 0;
    let mut hi: u128 = 0x1_0000_0000_0000_0000;
    proof {
        assert(hi * hi > u128::MAX) by (nonlinear_arith)
            requires hi == 0x1_0000_0000_0000_0000u128;
    }
    while hi - lo > 1
        invariant
            lo < hi <= 0x1_0000_0000_0000_0000,
            lo * lo <= v,
            v < hi * hi,
        decreases hi - lo,
    {
        let mid: u128 = lo + (hi - lo) / 2;
        assert(mid < 0x1_0000_0000_0000_0000);
        assert(mid * mid <= u128::MAX) by (nonlinear_arith)
            requires mid < 0x1_0000_0000_0000_0000;
        if mid * mid <= v {
            lo = mid;
        } else {
            hi = mid;
        }
    }
    assert(hi == lo + 1);
    lo as u64
}

} // verus!
