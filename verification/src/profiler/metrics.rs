//! Duration statistics for one profiled operation, and value statistics for
//! one counter.
use vstd::prelude::*;
use vstd::arithmetic::power2::{pow2, lemma_pow2_unfold, lemma2_to64};
use crate::duration::{Duration, MAX_NANOS};
use super::summary::{ProfileEntry, describes};

verus! {

/// Number of histogram buckets: bucket `b` holds the samples of at most
/// `2^b` microseconds that do not fit an earlier bucket; the last bucket
/// also holds everything longer.
pub const HISTOGRAM_BUCKETS: usize = 48;

/// `a + b`, held at `u64::MAX`.
pub open spec fn sat(a: int) -> int {
    if a > u64::MAX {
        u64::MAX as int
    } else {
        a
    }
}

/// `d - c`, or zero when `c` is longer.
pub open spec fn sub_floor(d: int, c: int) -> int {
    if d >= c {
        d - c
    } else {
        0
    }
}

pub open spec fn min_int(a: int, b: int) -> int {
    if a <= b {
        a
    } else {
        b
    }
}

pub open spec fn max_int(a: int, b: int) -> int {
    if a >= b {
        a
    } else {
        b
    }
}

/// The first bucket, from `b` on, whose bound `2^b` microseconds holds
/// `micros`; the last bucket when none does.
pub open spec fn bucket_from(micros: int, b: nat) -> nat
    decreases 47 - b,
{
    if b >= 47 || micros <= pow2(b) {
        b
    } else {
        bucket_from(micros, b + 1)
    }
}

/// The histogram bucket of a duration of `micros` whole microseconds.
pub open spec fn bucket_of(micros: int) -> nat {
    bucket_from(micros, 0)
}

/// The upper bound of bucket `b`, in nanoseconds: `2^b` microseconds, or the
/// largest duration from bucket 63 on.
pub open spec fn bucket_bound_nanos(b: int) -> int {
    if b >= 63 {
        MAX_NANOS as int
    } else {
        (pow2(b as nat) * 1000) as int
    }
}

/// The average of `count` samples that sum to `total` nanoseconds, held at
/// `u64::MAX` nanoseconds; zero when there is no sample.
pub open spec fn average_nanos(total: int, count: int) -> int {
    if count == 0 {
        0
    } else {
        min_int(total / count, u64::MAX as int)
    }
}

/// What a `Metrics` holds, in nanoseconds and counts.
pub struct MetricsView {
    pub count: int,
    pub total: int,
    pub self_total: int,
    pub child_total: int,
    pub min: int,
    pub max: int,
    pub self_min: int,
    pub self_max: int,
    pub histogram: Seq<int>,
    pub over_1ms: int,
    pub over_10ms: int,
    pub over_100ms: int,
}

impl MetricsView {
    /// The statistics of no sample at all.
    pub open spec fn fresh() -> MetricsView {
        MetricsView {
            count: 0,
            total: 0,
            self_total: 0,
            child_total: 0,
            min: MAX_NANOS as int,
            max: 0,
            self_min: MAX_NANOS as int,
            self_max: 0,
            histogram: Seq::new(48, |i: int| 0int),
            over_1ms: 0,
            over_10ms: 0,
            over_100ms: 0,
        }
    }

    /// The statistics after one more sample of `d` nanoseconds, `c` of which
    /// were spent in nested operations.
    pub open spec fn record(self, d: int, c: int) -> MetricsView {
        let s = sub_floor(d, c);
        let b = bucket_of(d / 1000) as int;
        MetricsView {
            count: sat(self.count + 1),
            total: self.total + d,
            self_total: self.self_total + s,
            child_total: self.child_total + c,
            min: min_int(self.min, d),
            max: max_int(self.max, d),
            self_min: min_int(self.self_min, s),
            self_max: max_int(self.self_max, s),
            histogram: self.histogram.update(b, sat(self.histogram[b] + 1)),
            over_1ms: if d >= 1_000_000 {
                sat(self.over_1ms + 1)
            } else {
                self.over_1ms
            },
            over_10ms: if d >= 10_000_000 {
                sat(self.over_10ms + 1)
            } else {
                self.over_10ms
            },
            over_100ms: if d >= 100_000_000 {
                sat(self.over_100ms + 1)
            } else {
                self.over_100ms
            },
        }
    }

    /// One more sample of `d` nanoseconds with `c` nested keeps the sums in
    /// the range of a duration.
    pub open spec fn fits(self, d: int, c: int) -> bool {
        &&& self.total + d <= MAX_NANOS
        &&& self.self_total + sub_floor(d, c) <= MAX_NANOS
        &&& self.child_total + c <= MAX_NANOS
    }

    /// `histogram[0] + ... + histogram[i - 1]`, each addition held at
    /// `u64::MAX`.
    pub open spec fn seen(self, i: int) -> int
        decreases i,
    {
        if i <= 0 {
            0
        } else {
            sat(self.seen(i - 1) + self.histogram[i - 1])
        }
    }

    /// The first bucket, from `i` on, by which `target` samples have been seen.
    pub open spec fn rank_bucket_from(self, target: int, i: nat) -> int
        decreases 48 - i,
    {
        if i >= 48 {
            47
        } else if self.seen(i + 1 as int) >= target {
            i as int
        } else {
            self.rank_bucket_from(target, i + 1)
        }
    }

    /// The upper bound of the bucket that holds the sample of rank `target`
    /// (at least 1), in nanoseconds; zero when there is no sample.
    pub open spec fn rank_bound(self, target: int) -> int {
        if self.count == 0 {
            0
        } else {
            bucket_bound_nanos(self.rank_bucket_from(if target < 1 { 1 } else { target }, 0))
        }
    }

    /// The values stay within their types.
    pub open spec fn bounded(self) -> bool {
        &&& 0 <= self.count <= u64::MAX
        &&& 0 <= self.total <= MAX_NANOS
        &&& 0 <= self.self_total <= MAX_NANOS
        &&& 0 <= self.child_total <= MAX_NANOS
        &&& 0 <= self.min <= MAX_NANOS
        &&& 0 <= self.max <= MAX_NANOS
        &&& 0 <= self.self_min <= MAX_NANOS
        &&& 0 <= self.self_max <= MAX_NANOS
        &&& self.histogram.len() == 48
        &&& forall|i: int| 0 <= i < 48 ==> 0 <= #[trigger] self.histogram[i] <= u64::MAX
        &&& 0 <= self.over_1ms <= u64::MAX
        &&& 0 <= self.over_10ms <= u64::MAX
        &&& 0 <= self.over_100ms <= u64::MAX
    }
}

/// Timing statistics of one operation.
#[derive(Clone, Copy, Debug)]
pub struct Metrics {
    pub count: u64,
    pub total_duration: Duration,
    pub self_duration: Duration,
    pub child_duration: Duration,
    pub min_duration: Duration,
    pub max_duration: Duration,
    pub min_self_duration: Duration,
    pub max_self_duration: Duration,
    pub(crate) histogram: [u64; 48],
    pub(crate) samples_over_1ms: u64,
    pub(crate) samples_over_10ms: u64,
    pub(crate) samples_over_100ms: u64,
}

impl View for Metrics {
    type V = MetricsView;

    closed spec fn view(&self) -> MetricsView {
        MetricsView {
            count: self.count as int,
            total: self.total_duration@,
            self_total: self.self_duration@,
            child_total: self.child_duration@,
            min: self.min_duration@,
            max: self.max_duration@,
            self_min: self.min_self_duration@,
            self_max: self.max_self_duration@,
            histogram: self.histogram@.map_values(|x: u64| x as int),
            over_1ms: self.samples_over_1ms as int,
            over_10ms: self.samples_over_10ms as int,
            over_100ms: self.samples_over_100ms as int,
        }
    }
}

/// The histogram bucket of `duration`: the first `b` with
/// `duration <= 2^b` microseconds (whole microseconds), or the last bucket.
pub fn duration_bucket(duration: Duration) -> (r: usize)
    ensures
        r == bucket_of(duration@ / 1000),
        r < 48,
        r < 47 ==> duration@ / 1000 <= pow2(r as nat),
        r > 0 ==> duration@ / 1000 > pow2((r - 1) as nat),
{
    let micros = duration.as_micros();
    let mut upper_micros: u128 = 1;
    let mut bucket: usize = 0;
    proof {
        lemma2_to64();
    }
    while bucket + 1 < HISTOGRAM_BUCKETS && micros > upper_micros
        invariant
            bucket <= 47,
            upper_micros == pow2(bucket as nat),
            micros == duration@ / 1000,
            bucket_of(micros as int) == bucket_from(micros as int, bucket as nat),
            bucket > 0 ==> micros > pow2((bucket - 1) as nat),
        decreases 47 - bucket,
    {
        proof {
            lemma_pow2_unfold((bucket + 1) as nat);
            vstd::bits::lemma_u64_pow2_no_overflow(bucket as nat);
        }
        upper_micros = upper_micros * 2;
        bucket = bucket + 1;
    }
    proof {
        lemma_bucket_found(micros as int, bucket as nat);
    }
    bucket
}

proof fn lemma_bucket_found(micros: int, b: nat)
    requires
        b <= 47,
        b + 1 >= 48 || micros <= pow2(b),
    ensures
        bucket_from(micros, b) == b,
{
}

/// The upper bound of histogram bucket `bucket`: `2^bucket` microseconds, or
/// the largest duration from bucket 63 on.
pub fn bucket_upper_bound(bucket: usize) -> (r: Duration)
    ensures
        r@ == bucket_bound_nanos(bucket as int),
{
    if bucket >= 63 {
        return Duration::max_value();
    }
    let b = bucket as u64;
    proof {
        vstd::bits::lemma_u64_pow2_no_overflow(b as nat);
        vstd::bits::lemma_u64_shl_is_mul(1, b);
    }
    Duration::from_micros(1u64 << b)
}

/// The average of `count` samples that sum to `duration`, held at
/// `u64::MAX` nanoseconds; zero when `count` is zero.
pub fn average_duration(duration: Duration, count: u64) -> (r: Duration)
    ensures
        r@ == average_nanos(duration@, count as int),
{
    if count == 0 {
        return Duration::zero();
    }
    let nanos = duration.as_nanos() / (count as u128);
    let limit = u64::MAX as u128;
    if nanos <= limit {
        Duration::from_nanos(nanos as u64)
    } else {
        Duration::from_nanos(u64::MAX)
    }
}

/// `a + 1`, held at `u64::MAX`.
fn bump(a: u64) -> (r: u64)
    ensures
        r == sat(a + 1),
{
    a.saturating_add(1)
}

impl Metrics {
    /// No sample yet: zero sums, the largest duration as minimum.
    pub fn new() -> (r: Metrics)
        ensures
            r@ == MetricsView::fresh(),
    {
        let r = Metrics {
            count: 0,
            total_duration: Duration::zero(),
            self_duration: Duration::zero(),
            child_duration: Duration::zero(),
            min_duration: Duration::max_value(),
            max_duration: Duration::zero(),
            min_self_duration: Duration::max_value(),
            max_self_duration: Duration::zero(),
            histogram: [0u64; 48],
            samples_over_1ms: 0,
            samples_over_10ms: 0,
            samples_over_100ms: 0,
        };
        assert(r@.histogram =~= MetricsView::fresh().histogram);
        r
    }

    /// Whether one more sample of `duration`, `child_duration` of it nested,
    /// keeps the sums in the range of a duration.
    pub fn fits(&self, duration: Duration, child_duration: Duration) -> (r: bool)
        ensures
            r == self@.fits(duration@, child_duration@),
    {
        let limit = MAX_NANOS;
        let total = self.total_duration.as_nanos();
        let self_total = self.self_duration.as_nanos();
        let child_total = self.child_duration.as_nanos();
        let s = duration.saturating_sub(child_duration).as_nanos();
        duration.as_nanos() <= limit - total && s <= limit - self_total
            && child_duration.as_nanos() <= limit - child_total
    }

    /// Records one sample of `duration` with no nested time.
    pub fn record(&mut self, duration: Duration)
        requires
            old(self)@.fits(duration@, 0),
        ensures
            final(self)@ == old(self)@.record(duration@, 0),
    {
        self.record_with_child(duration, Duration::zero());
    }

    /// Records one sample of `duration`, `child_duration` of which was spent
    /// in nested operations; the sums must stay in range (they overflow
    /// otherwise).
    pub fn record_with_child(&mut self, duration: Duration, child_duration: Duration)
        requires
            old(self)@.fits(duration@, child_duration@),
        ensures
            final(self)@ == old(self)@.record(duration@, child_duration@),
    {
        let ghost before = self@;
        let self_duration = duration.saturating_sub(child_duration);
        self.count = bump(self.count);
        self.total_duration = self.total_duration.add(duration);
        self.self_duration = self.self_duration.add(self_duration);
        self.child_duration = self.child_duration.add(child_duration);
        self.min_duration = self.min_duration.min(duration);
        self.max_duration = self.max_duration.max(duration);
        self.min_self_duration = self.min_self_duration.min(self_duration);
        self.max_self_duration = self.max_self_duration.max(self_duration);
        let b = duration_bucket(duration);
        let n = bump(self.histogram[b]);
        self.histogram.set(b, n);
        let one_ms = Duration::from_millis(1);
        let ten_ms = Duration::from_millis(10);
        let hundred_ms = Duration::from_millis(100);
        if !one_ms.gt(&duration) {
            self.samples_over_1ms = bump(self.samples_over_1ms);
        }
        if !ten_ms.gt(&duration) {
            self.samples_over_10ms = bump(self.samples_over_10ms);
        }
        if !hundred_ms.gt(&duration) {
            self.samples_over_100ms = bump(self.samples_over_100ms);
        }
        assert(self@.histogram =~= before.record(duration@, child_duration@).histogram);
    }

    /// The number of samples.
    pub fn samples(&self) -> (r: u64)
        ensures
            r == self@.count,
    {
        self.count
    }

    /// Average sample duration.
    pub fn average(&self) -> (r: Duration)
        ensures
            r@ == average_nanos(self@.total, self@.count),
    {
        average_duration(self.total_duration, self.count)
    }

    /// Average time spent outside nested operations.
    pub fn self_average(&self) -> (r: Duration)
        ensures
            r@ == average_nanos(self@.self_total, self@.count),
    {
        average_duration(self.self_duration, self.count)
    }

    /// The upper bound of the histogram bucket that holds the sample of rank
    /// `target` (counted from 1, in ascending order); zero with no sample.
    pub fn percentile_at_rank(&self, target: u64) -> (r: Duration)
        ensures
            r@ == self@.rank_bound(target as int),
    {
        if self.count == 0 {
            return Duration::zero();
        }
        let t: u64 = if target < 1 {
            1
        } else {
            target
        };
        let mut seen: u64 = 0;
        let mut index: usize = 0;
        while index < HISTOGRAM_BUCKETS
            invariant
                index <= 48,
                self.count > 0,
                t == (if target < 1 { 1 } else { target }),
                seen == self@.seen(index as int),
                self@.histogram.len() == 48,
                self@.histogram == self.histogram@.map_values(|x: u64| x as int),
                self@.rank_bucket_from(t as int, 0) == self@.rank_bucket_from(t as int, index as nat),
            decreases 48 - index,
        {
            assert(self@.histogram[index as int] == self.histogram[index as int]);
            seen = seen.saturating_add(self.histogram[index]);
            assert(seen == self@.seen(index + 1));
            if seen >= t {
                return bucket_upper_bound(index);
            }
            index = index + 1;
        }
        bucket_upper_bound(HISTOGRAM_BUCKETS - 1)
    }

    pub fn samples_over_1ms(&self) -> (r: u64)
        ensures
            r == self@.over_1ms,
    {
        self.samples_over_1ms
    }

    pub fn samples_over_10ms(&self) -> (r: u64)
        ensures
            r == self@.over_10ms,
    {
        self.samples_over_10ms
    }

    pub fn samples_over_100ms(&self) -> (r: u64)
        ensures
            r == self@.over_100ms,
    {
        self.samples_over_100ms
    }
}

impl ProfileEntry {
    /// The report of `metrics` under `name`, with percentiles at the sample
    /// ranks `ranks`.
    pub fn from_metrics(name: &'static str, metrics: &Metrics, ranks: (u64, u64, u64)) -> (r:
        ProfileEntry)
        ensures
            describes(r, name@, metrics@, ranks),
    {
        let m = metrics;
        ProfileEntry {
            name,
            count: m.count,
            total: m.total_duration,
            self_total: m.self_duration,
            child_total: m.child_duration,
            average: m.average(),
            self_average: m.self_average(),
            min: m.min_duration,
            max: m.max_duration,
            self_min: m.min_self_duration,
            self_max: m.max_self_duration,
            p50: m.percentile_at_rank(ranks.0),
            p95: m.percentile_at_rank(ranks.1),
            p99: m.percentile_at_rank(ranks.2),
            samples_over_1ms: m.samples_over_1ms(),
            samples_over_10ms: m.samples_over_10ms(),
            samples_over_100ms: m.samples_over_100ms(),
        }
    }
}

/// Statistics of the values recorded for one counter.
#[derive(Clone, Copy, Debug, PartialEq, Eq, Structural)]
pub struct CounterMetrics {
    pub samples: u64,
    pub total: u64,
    pub min: u64,
    pub max: u64,
}

impl CounterMetrics {
    /// The minimum as a summary shows it: zero when no value was recorded.
    pub fn shown_min(&self) -> (r: u64)
        ensures
            r == if self.samples == 0 { 0 } else { self.min },
    {
        if self.samples == 0 { 0 } else { self.min }
    }

    /// No value yet: the largest `u64` as minimum.
    pub open spec fn fresh() -> CounterMetrics {
        CounterMetrics { samples: 0, total: 0, min: u64::MAX, max: 0 }
    }

    /// The statistics after one more value; counts and sums hold at
    /// `u64::MAX`.
    pub open spec fn recorded(self, value: u64) -> CounterMetrics {
        CounterMetrics {
            samples: sat(self.samples + 1) as u64,
            total: sat(self.total + value) as u64,
            min: min_int(self.min as int, value as int) as u64,
            max: max_int(self.max as int, value as int) as u64,
        }
    }

    pub fn new() -> (r: CounterMetrics)
        ensures
            r == CounterMetrics::fresh(),
    {
        CounterMetrics { samples: 0, total: 0, min: u64::MAX, max: 0 }
    }

    pub fn record(&mut self, value: u64)
        ensures
            *final(self) == old(self).recorded(value),
    {
        self.samples = self.samples.saturating_add(1);
        self.total = self.total.saturating_add(value);
        if value < self.min {
            self.min = value;
        }
        if value > self.max {
            self.max = value;
        }
    }
}

} // verus!
