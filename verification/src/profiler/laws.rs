//! What recording keeps true of timing statistics: the histogram counts
//! every sample, nested time splits the total, extremes bracket each
//! sample, and bucket and percentile bounds grow with what they measure.
use vstd::prelude::*;
use vstd::arithmetic::power2::{pow2, lemma_pow2_strictly_increases};
use super::metrics::{MetricsView, bucket_of, bucket_from, bucket_bound_nanos, sat, sub_floor};
use crate::duration::MAX_NANOS;

verus! {

/// `h[0] + ... + h[k - 1]`.
pub open spec fn hist_sum(h: Seq<int>, k: int) -> int
    decreases k,
{
    if k <= 0 {
        0
    } else {
        hist_sum(h, k - 1) + h[k - 1]
    }
}

proof fn lemma_hist_sum_update(h: Seq<int>, b: int, k: int)
    requires
        0 <= b < h.len(),
        0 <= k <= h.len(),
    ensures
        hist_sum(h.update(b, h[b] + 1), k) == hist_sum(h, k) + if b < k { 1int } else { 0int },
    decreases k,
{
    if k > 0 {
        lemma_hist_sum_update(h, b, k - 1);
    }
}

proof fn lemma_hist_entry_below_sum(h: Seq<int>, b: int, k: int)
    requires
        0 <= b < k <= h.len(),
        forall|i: int| 0 <= i < h.len() ==> 0 <= #[trigger] h[i],
    ensures
        h[b] <= hist_sum(h, k),
        0 <= hist_sum(h, k),
    decreases k,
{
    if b < k - 1 {
        lemma_hist_entry_below_sum(h, b, k - 1);
    } else {
        lemma_hist_sum_nonneg(h, k - 1);
    }
}

proof fn lemma_hist_sum_nonneg(h: Seq<int>, k: int)
    requires
        0 <= k <= h.len(),
        forall|i: int| 0 <= i < h.len() ==> 0 <= #[trigger] h[i],
    ensures
        0 <= hist_sum(h, k),
    decreases k,
{
    if k > 0 {
        lemma_hist_sum_nonneg(h, k - 1);
    }
}

/// Until the sample count saturates, the histogram holds one entry per
/// sample: a fresh record has none, and each recorded sample adds one.
pub proof fn law_histogram_counts_every_sample(m: MetricsView, d: int, c: int)
    requires
        m.bounded(),
        hist_sum(m.histogram, 48) == m.count,
        m.count < u64::MAX,
        0 <= d,
    ensures
        hist_sum(MetricsView::fresh().histogram, 48) == MetricsView::fresh().count,
        hist_sum(m.record(d, c).histogram, 48) == m.record(d, c).count,
{
    let fresh = MetricsView::fresh().histogram;
    assert forall|k: int| 0 <= k <= 48 implies #[trigger] hist_sum(fresh, k) == 0 by {
        lemma_fresh_sum(k);
    }
    let b = bucket_of(d / 1000) as int;
    lemma_bucket_range(d / 1000, 0);
    lemma_hist_entry_below_sum(m.histogram, b, 48);
    assert(sat(m.histogram[b] + 1) == m.histogram[b] + 1);
    lemma_hist_sum_update(m.histogram, b, 48);
}

proof fn lemma_fresh_sum(k: int)
    requires
        0 <= k <= 48,
    ensures
        hist_sum(MetricsView::fresh().histogram, k) == 0,
    decreases k,
{
    if k > 0 {
        lemma_fresh_sum(k - 1);
    }
}

proof fn lemma_bucket_range(micros: int, b: nat)
    requires
        b <= 47,
    ensures
        b <= bucket_from(micros, b) <= 47,
    decreases 47 - b,
{
    if !(b >= 47 || micros <= pow2(b)) {
        lemma_bucket_range(micros, b + 1);
    }
}

/// When no sample has more nested time than it lasts, the total is the time
/// spent in the operation itself plus the nested time.
pub proof fn law_nested_time_splits_the_total(m: MetricsView, d: int, c: int)
    requires
        m.total == m.self_total + m.child_total,
        0 <= c <= d,
    ensures
        m.record(d, c).total == m.record(d, c).self_total + m.record(d, c).child_total,
{
}

/// After a sample, the minimum is at most it and the maximum at least it,
/// for the whole duration and for the time outside nested operations.
pub proof fn law_extremes_bracket_each_sample(m: MetricsView, d: int, c: int)
    ensures
        m.record(d, c).min <= d <= m.record(d, c).max,
        m.record(d, c).self_min <= sub_floor(d, c) <= m.record(d, c).self_max,
{
}

proof fn lemma_bucket_from_mono(m1: int, m2: int, b: nat)
    requires
        m1 <= m2,
        b <= 47,
    ensures
        bucket_from(m1, b) <= bucket_from(m2, b),
    decreases 47 - b,
{
    if b >= 47 || m1 <= pow2(b) {
        lemma_bucket_range(m2, b);
    } else {
        lemma_bucket_from_mono(m1, m2, b + 1);
    }
}

/// A longer duration never falls in an earlier histogram bucket.
pub proof fn law_buckets_grow_with_duration(micros1: int, micros2: int)
    requires
        micros1 <= micros2,
    ensures
        bucket_of(micros1) <= bucket_of(micros2),
{
    lemma_bucket_from_mono(micros1, micros2, 0);
}

proof fn lemma_seen_mono(m: MetricsView, i: int, j: int)
    requires
        0 <= i <= j <= 48,
        m.bounded(),
    ensures
        m.seen(i) <= m.seen(j),
    decreases j - i,
{
    if i < j {
        lemma_seen_mono(m, i, j - 1);
        assert(m.histogram[j - 1] >= 0);
    }
}

proof fn lemma_rank_range(m: MetricsView, t: int, i: nat)
    requires
        i <= 48,
    ensures
        (if i <= 47 { i as int } else { 47int }) <= m.rank_bucket_from(t, i) <= 47,
    decreases 48 - i,
{
    if i < 48 && !(m.seen(i + 1 as int) >= t) {
        lemma_rank_range(m, t, i + 1);
    }
}

proof fn lemma_rank_mono(m: MetricsView, t1: int, t2: int, i: nat)
    requires
        t1 <= t2,
        i <= 48,
        m.bounded(),
    ensures
        m.rank_bucket_from(t1, i) <= m.rank_bucket_from(t2, i),
    decreases 48 - i,
{
    if i < 48 {
        if m.seen(i + 1 as int) >= t2 {
        } else if m.seen(i + 1 as int) >= t1 {
            lemma_rank_range(m, t2, i + 1);
        } else {
            lemma_rank_mono(m, t1, t2, i + 1);
        }
    }
}

/// A later bucket has a larger (or equal) upper bound.
pub proof fn law_bucket_bounds_grow(b1: int, b2: int)
    requires
        0 <= b1 <= b2,
    ensures
        bucket_bound_nanos(b1) <= bucket_bound_nanos(b2),
{
    if b2 < 63 && b1 < b2 {
        lemma_pow2_strictly_increases(b1 as nat, b2 as nat);
    }
    if b1 < 63 && b2 >= 63 {
        vstd::bits::lemma_u64_pow2_no_overflow(b1 as nat);
    }
}

/// A higher sample rank never gives a smaller percentile bound: p50 is at
/// most p95, which is at most p99, when their ranks are in that order.
pub proof fn law_percentiles_grow_with_rank(m: MetricsView, t1: int, t2: int)
    requires
        m.bounded(),
        t1 <= t2,
    ensures
        m.rank_bound(t1) <= m.rank_bound(t2),
{
    if m.count != 0 {
        let a = if t1 < 1 { 1 } else { t1 };
        let b = if t2 < 1 { 1 } else { t2 };
        lemma_rank_mono(m, a, b, 0);
        lemma_rank_range(m, a, 0);
        law_bucket_bounds_grow(m.rank_bucket_from(a, 0), m.rank_bucket_from(b, 0));
    }
}

/// The statistics after recording `samples` in order, each a duration and
/// the nested time within it, starting from `m`.
pub open spec fn record_all(m: MetricsView, samples: Seq<(int, int)>) -> MetricsView
    decreases samples.len(),
{
    if samples.len() == 0 {
        m
    } else {
        record_all(m, samples.drop_last()).record(samples.last().0, samples.last().1)
    }
}

/// Each sample is a duration in range, with nested time at least zero.
pub open spec fn samples_in_range(samples: Seq<(int, int)>) -> bool {
    forall|i: int| 0 <= i < samples.len() ==> 0 <= (#[trigger] samples[i]).0 <= MAX_NANOS && 0 <= samples[i].1
}

/// Each sample's nested time is within its duration.
pub open spec fn nested_within(samples: Seq<(int, int)>) -> bool {
    forall|i: int| 0 <= i < samples.len() ==> (#[trigger] samples[i]).1 <= samples[i].0
}

/// After `n` samples recorded into fresh statistics (fewer than the count can
/// hold): the count is `n`, the smallest duration is at most the largest
/// (and likewise for self time), and the counts of samples over 100 ms,
/// 10 ms and 1 ms grow in that order up to the count; when each sample's
/// nested time is within it, self time plus nested time is the total.
pub proof fn law_sample_history(samples: Seq<(int, int)>)
    requires
        samples_in_range(samples),
        samples.len() < u64::MAX,
    ensures
        ({
            let m = record_all(MetricsView::fresh(), samples);
            &&& m.count == samples.len()
            &&& samples.len() >= 1 ==> m.min <= m.max && m.self_min <= m.self_max
            &&& 0 <= m.over_100ms <= m.over_10ms <= m.over_1ms <= m.count
            &&& nested_within(samples) ==> m.self_total + m.child_total == m.total
        }),
    decreases samples.len(),
{
    let m = record_all(MetricsView::fresh(), samples);
    if samples.len() > 0 {
        let rest = samples.drop_last();
        assert forall|i: int| 0 <= i < rest.len() implies 0 <= (#[trigger] rest[i]).0 <= MAX_NANOS && 0 <= rest[i].1 by {
            assert(rest[i] == samples[i]);
        }
        law_sample_history(rest);
        let p = record_all(MetricsView::fresh(), rest);
        let d = samples.last().0;
        let c = samples.last().1;
        assert(0 <= d <= MAX_NANOS && 0 <= c) by {
            assert(samples.last() == samples[samples.len() - 1]);
        }
        assert(m == p.record(d, c));
        if rest.len() == 0 {
            assert(p == MetricsView::fresh());
        }
        if nested_within(samples) {
            assert(nested_within(rest)) by {
                assert forall|i: int| 0 <= i < rest.len() implies (#[trigger] rest[i]).1 <= rest[i].0 by {
                    assert(rest[i] == samples[i]);
                }
            }
            assert(c <= d) by {
                assert(samples.last() == samples[samples.len() - 1]);
            }
        }
    }
}

/// A call on a profiler as far as its on/off flag goes: `enable`,
/// `disable`, or any other method, which keeps the flag.
pub enum FlagCall {
    Enable,
    Disable,
    Keep,
}

/// The flag after `calls`, from `on`: what each call leaves it as.
pub open spec fn flag_after(on: bool, calls: Seq<FlagCall>) -> bool
    decreases calls.len(),
{
    if calls.len() == 0 {
        on
    } else {
        match calls.last() {
            FlagCall::Enable => true,
            FlagCall::Disable => false,
            FlagCall::Keep => flag_after(on, calls.drop_last()),
        }
    }
}

/// Whether a call sets the flag.
pub open spec fn sets_flag(c: FlagCall) -> bool {
    !(c matches FlagCall::Keep)
}

/// Whatever the calls, the flag is what the last `enable` or `disable`
/// left it as, and what it was before when there is none: it is on exactly
/// when the last of them is `enable`.
pub proof fn law_flag_follows_last_toggle(on: bool, calls: Seq<FlagCall>)
    ensures
        (forall|i: int| 0 <= i < calls.len() ==> !sets_flag(#[trigger] calls[i])) ==> flag_after(on, calls) == on,
        forall|i: int|
            0 <= i < calls.len() && sets_flag(#[trigger] calls[i]) && (forall|j: int| i < j < calls.len() ==> !sets_flag(#[trigger] calls[j]))
                ==> flag_after(on, calls) == (calls[i] matches FlagCall::Enable),
    decreases calls.len(),
{
    if calls.len() > 0 {
        let rest = calls.drop_last();
        law_flag_follows_last_toggle(on, rest);
        assert forall|i: int| 0 <= i < rest.len() implies rest[i] == calls[i] by {}
        let n = calls.len() - 1;
        assert forall|i: int|
            0 <= i < calls.len() && sets_flag(#[trigger] calls[i]) && (forall|j: int| i < j < calls.len() ==> !sets_flag(#[trigger] calls[j]))
            implies flag_after(on, calls) == (calls[i] matches FlagCall::Enable) by {
            if i < n {
                assert(!sets_flag(calls[n]));
                assert(rest[i] == calls[i]);
                assert forall|j: int| i < j < rest.len() implies !sets_flag(#[trigger] rest[j]) by {
                    assert(rest[j] == calls[j]);
                }
            }
        }
        if forall|i: int| 0 <= i < calls.len() ==> !sets_flag(#[trigger] calls[i]) {
            assert(!sets_flag(calls[n]));
            assert forall|i: int| 0 <= i < rest.len() implies !sets_flag(#[trigger] rest[i]) by {
                assert(rest[i] == calls[i]);
            }
        }
    }
}

/// A call on a profiler as far as the names it holds statistics for go: a
/// sample recorded for a name, `clear`, or any other method, which keeps
/// them.
pub enum NameCall {
    Sample(Seq<char>),
    Clear,
    Keep,
}

/// The names held after `calls`, from `names`.
pub open spec fn names_after(names: Set<Seq<char>>, calls: Seq<NameCall>) -> Set<Seq<char>>
    decreases calls.len(),
{
    if calls.len() == 0 {
        names
    } else {
        let before = names_after(names, calls.drop_last());
        match calls.last() {
            NameCall::Sample(n) => before.insert(n),
            NameCall::Clear => Set::empty(),
            NameCall::Keep => before,
        }
    }
}

/// The names sampled in `calls` from index `from` on.
pub open spec fn sampled_from(calls: Seq<NameCall>, from: int) -> Set<Seq<char>> {
    Set::new(|n: Seq<char>| exists|i: int| from <= i < calls.len() && calls[i] == NameCall::Sample(n))
}

/// After a `clear` at index `c` followed by no other, the names held are
/// exactly those sampled since.
pub proof fn law_names_since_last_clear(names: Set<Seq<char>>, calls: Seq<NameCall>, c: int)
    requires
        0 <= c < calls.len(),
        calls[c] == NameCall::Clear,
        forall|j: int| c < j < calls.len() ==> calls[j] != NameCall::Clear,
    ensures
        names_after(names, calls) == sampled_from(calls, c + 1),
    decreases calls.len(),
{
    let n = calls.len() - 1;
    let rest = calls.drop_last();
    if c == n {
        assert(sampled_from(calls, c + 1) =~= Set::empty());
    } else {
        assert forall|j: int| c < j < rest.len() implies rest[j] != NameCall::Clear by {
            assert(rest[j] == calls[j]);
        }
        law_names_since_last_clear(names, rest, c);
        assert forall|x: Seq<char>| #[trigger] sampled_from(calls, c + 1).contains(x) <==> names_after(names, calls).contains(x) by {
            if sampled_from(calls, c + 1).contains(x) {
                let i = choose|i: int| c + 1 <= i < calls.len() && calls[i] == NameCall::Sample(x);
                if i < n {
                    assert(rest[i] == calls[i]);
                    assert(sampled_from(rest, c + 1).contains(x));
                }
            }
            if names_after(names, calls).contains(x) {
                if calls[n] == NameCall::Sample(x) {
                } else {
                    assert(sampled_from(rest, c + 1).contains(x));
                    let i = choose|i: int| c + 1 <= i < rest.len() && rest[i] == NameCall::Sample(x);
                    assert(calls[i] == rest[i]);
                }
            }
        }
        assert(sampled_from(calls, c + 1) =~= names_after(names, calls));
    }
}

/// A listing of distinct names that holds exactly the names of a finite map
/// has one entry per name: `all` lists as many entries as names are held.
pub proof fn law_listing_counts_names(keys: Set<Seq<char>>, listed: Seq<Seq<char>>)
    requires
        keys.finite(),
        listed.no_duplicates(),
        forall|i: int| 0 <= i < listed.len() ==> keys.contains(#[trigger] listed[i]),
        forall|k: Seq<char>| #[trigger] keys.contains(k) ==> listed.contains(k),
    ensures
        listed.len() == keys.len(),
{
    listed.unique_seq_to_set();
    assert(listed.to_set() =~= keys);
}

} // verus!
