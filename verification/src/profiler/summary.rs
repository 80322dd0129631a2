//! A report of the recorded statistics, longest total first.
use vstd::prelude::*;
use crate::duration::Duration;
use super::metrics::{MetricsView, average_nanos};
use super::registry::Profiler;
use super::metrics::CounterMetrics;
use crate::text::{chars_of, slice_eq, ends_with, ends_with_chars, str_eq};
use crate::eslint_json::sort::{text_order, compare_text};

verus! {

/// The statistics of one operation name, as reported.
#[derive(Clone, Copy, Debug)]
pub struct ProfileEntry {
    pub name: &'static str,
    pub count: u64,
    pub total: Duration,
    pub self_total: Duration,
    pub child_total: Duration,
    pub average: Duration,
    pub self_average: Duration,
    pub min: Duration,
    pub max: Duration,
    pub self_min: Duration,
    pub self_max: Duration,
    pub p50: Duration,
    pub p95: Duration,
    pub p99: Duration,
    pub samples_over_1ms: u64,
    pub samples_over_10ms: u64,
    pub samples_over_100ms: u64,
}

/// `e` reports `m` under `key`, with its three percentiles taken at the
/// sample ranks `ranks`.
pub open spec fn describes(e: ProfileEntry, key: Seq<char>, m: MetricsView, ranks: (u64, u64, u64)) -> bool {
    &&& e.name@ == key
    &&& e.count == m.count
    &&& e.total@ == m.total
    &&& e.self_total@ == m.self_total
    &&& e.child_total@ == m.child_total
    &&& e.average@ == average_nanos(m.total, m.count)
    &&& e.self_average@ == average_nanos(m.self_total, m.count)
    &&& e.min@ == m.min
    &&& e.max@ == m.max
    &&& e.self_min@ == m.self_min
    &&& e.self_max@ == m.self_max
    &&& e.p50@ == m.rank_bound(ranks.0 as int)
    &&& e.p95@ == m.rank_bound(ranks.1 as int)
    &&& e.p99@ == m.rank_bound(ranks.2 as int)
    &&& e.samples_over_1ms == m.over_1ms
    &&& e.samples_over_10ms == m.over_10ms
    &&& e.samples_over_100ms == m.over_100ms
}

/// The reported statistics, longest total first.
#[derive(Debug)]
pub struct ProfileSummary {
    pub entries: Vec<ProfileEntry>,
}

impl ProfileSummary {
    /// Whether some operation took longer than `threshold` on average.
    pub fn has_slow_operations(&self, threshold: Duration) -> (r: bool)
        ensures
            r == exists|i: int| 0 <= i < self.entries@.len() && (#[trigger] self.entries@[i]).average@ > threshold@,
    {
        let mut i: usize = 0;
        while i < self.entries.len()
            invariant
                i <= self.entries@.len(),
                forall|j: int| 0 <= j < i ==> !((#[trigger] self.entries@[j]).average@ > threshold@),
            decreases self.entries@.len() - i,
        {
            if self.entries[i].average.gt(&threshold) {
                return true;
            }
            i = i + 1;
        }
        false
    }

    /// The operations that took longer than `threshold` on average, in
    /// report order.
    pub fn slow_operations(&self, threshold: Duration) -> (r: Vec<&ProfileEntry>)
        ensures
            r@.len() == self.entries@.filter(|e: ProfileEntry| e.average@ > threshold@).len(),
            forall|i: int| 0 <= i < r@.len() ==> *(#[trigger] r@[i]) == self.entries@.filter(
                |e: ProfileEntry| e.average@ > threshold@,
            )[i],
    {
        let ghost keep = |e: ProfileEntry| e.average@ > threshold@;
        let mut r: Vec<&ProfileEntry> = Vec::new();
        let mut i: usize = 0;
        while i < self.entries.len()
            invariant
                i <= self.entries@.len(),
                keep == (|e: ProfileEntry| e.average@ > threshold@),
                r@.len() == self.entries@.take(i as int).filter(keep).len(),
                forall|j: int| 0 <= j < r@.len() ==> *(#[trigger] r@[j]) == self.entries@.take(i as int).filter(keep)[j],
            decreases self.entries@.len() - i,
        {
            proof {
                let s = self.entries@;
                assert(s.take(i + 1).drop_last() =~= s.take(i as int));
                s.take(i + 1).filter_lemma(keep);
                assert(s.take(i + 1).filter(keep) == if keep(s[i as int]) {
                    s.take(i as int).filter(keep).push(s[i as int])
                } else {
                    s.take(i as int).filter(keep)
                }) by {
                    reveal(Seq::filter);
                }
            }
            if self.entries[i].average.gt(&threshold) {
                r.push(&self.entries[i]);
            }
            i = i + 1;
        }
        proof {
            assert(self.entries@.take(self.entries@.len() as int) =~= self.entries@);
        }
        r
    }
}

/// `e` reports the statistics of its name in `p`, with percentiles at the
/// ranks `ranks` gives for its number of samples.
pub open spec fn reports<F: Fn(u64) -> (u64, u64, u64)>(p: Profiler, ranks: F, e: ProfileEntry) -> bool {
    &&& p.metrics_map().contains_key(e.name@)
    &&& exists|rk: (u64, u64, u64)|
        ranks.ensures((e.count,), rk) && describes(e, e.name@, p.metrics_map()[e.name@], rk)
}

spec fn names_distinct(s: Seq<ProfileEntry>) -> bool {
    forall|i: int, j: int| 0 <= i < j < s.len() ==> (#[trigger] s[i]).name@ != (#[trigger] s[j]).name@
}

spec fn by_total_desc(s: Seq<ProfileEntry>) -> bool {
    forall|i: int, j: int| 0 <= i < j < s.len() ==> (#[trigger] s[i]).total@ >= (#[trigger] s[j]).total@
}

/// Every entry is named by one of the first `t` names, and each of them
/// names an entry.
spec fn names_match(s: Seq<ProfileEntry>, names: Seq<Seq<char>>, t: int) -> bool {
    &&& forall|i: int| 0 <= i < s.len() ==> exists|k: int| 0 <= k < t && (#[trigger] s[i]).name@ == #[trigger] names[k]
    &&& forall|k: int| 0 <= k < t ==> exists|i: int| 0 <= i < s.len() && (#[trigger] s[i]).name@ == #[trigger] names[k]
}

proof fn lemma_insert_named(before: Seq<ProfileEntry>, p: int, e: ProfileEntry, names: Seq<Seq<char>>, t: int)
    requires
        0 <= p <= before.len(),
        0 <= t < names.len(),
        e.name@ == names[t],
        names_match(before, names, t),
    ensures
        names_match(before.insert(p, e), names, t + 1),
{
    before.insert_ensures(p, e);
    let after = before.insert(p, e);
    assert forall|i: int| 0 <= i < after.len() implies exists|k: int| 0 <= k < t + 1 && (#[trigger] after[i]).name@ == #[trigger] names[k] by {
        if i < p {
            let k = choose|k: int| 0 <= k < t && (#[trigger] before[i]).name@ == #[trigger] names[k];
            assert(after[i].name@ == names[k]);
        } else if i == p {
            assert(after[i].name@ == names[t]);
        } else {
            assert(after[i] == before[i - 1]);
            let k = choose|k: int| 0 <= k < t && (#[trigger] before[i - 1]).name@ == #[trigger] names[k];
            assert(after[i].name@ == names[k]);
        }
    }
    assert forall|k: int| 0 <= k < t + 1 implies exists|i: int| 0 <= i < after.len() && (#[trigger] after[i]).name@ == #[trigger] names[k] by {
        if k == t {
            assert(after[p].name@ == names[k]);
        } else {
            let i = choose|i: int| 0 <= i < before.len() && (#[trigger] before[i]).name@ == #[trigger] names[k];
            if i < p {
                assert(after[i] == before[i]);
            } else {
                assert(after[i + 1] == before[i]);
            }
        }
    }
}

proof fn lemma_insert_distinct(before: Seq<ProfileEntry>, p: int, e: ProfileEntry, names: Seq<Seq<char>>, t: int)
    requires
        0 <= p <= before.len(),
        0 <= t < names.len(),
        forall|a: int, b: int| 0 <= a < b < names.len() ==> #[trigger] names[a] != #[trigger] names[b],
        e.name@ == names[t],
        names_distinct(before),
        names_match(before, names, t),
    ensures
        names_distinct(before.insert(p, e)),
{
    before.insert_ensures(p, e);
    let after = before.insert(p, e);
    assert forall|i: int, j: int| 0 <= i < j < after.len() implies (#[trigger] after[i]).name@ != (#[trigger] after[j]).name@ by {
        if i == p || j == p {
            let o = if i == p { j } else { i };
            let bo = if o < p { o } else { o - 1 };
            assert(after[o] == before[bo]);
            let k = choose|k: int| 0 <= k < t && (#[trigger] before[bo]).name@ == #[trigger] names[k];
            assert(names[k] != names[t]);
        } else {
            let bi = if i < p { i } else { i - 1 };
            let bj = if j < p { j } else { j - 1 };
            assert(after[i] == before[bi]);
            assert(after[j] == before[bj]);
        }
    }
}

proof fn lemma_insert_sorted(before: Seq<ProfileEntry>, p: int, e: ProfileEntry)
    requires
        0 <= p <= before.len(),
        by_total_desc(before),
        forall|i: int| 0 <= i < p ==> (#[trigger] before[i]).total@ >= e.total@,
        p < before.len() ==> before[p].total@ < e.total@,
    ensures
        by_total_desc(before.insert(p, e)),
{
    before.insert_ensures(p, e);
    let after = before.insert(p, e);
    assert forall|i: int, j: int| 0 <= i < j < after.len() implies (#[trigger] after[i]).total@ >= (#[trigger] after[j]).total@ by {
        let bi = if i < p { i } else { i - 1 };
        let bj = if j < p { j } else { j - 1 };
        if i == p {
            assert(after[j] == before[bj]);
            if p < bj {
                assert(before[p].total@ >= before[bj].total@);
            }
        } else if j == p {
            assert(after[i] == before[bi]);
        } else {
            assert(after[i] == before[bi]);
            assert(after[j] == before[bj]);
        }
    }
}

impl Profiler {
    /// The statistics of every name, longest total first (the order of equal
    /// totals is left open). `ranks` gives, for a number of samples, the
    /// sample ranks of the 50th, 95th and 99th percentiles.
    #[verifier::spinoff_prover]
    #[verifier::rlimit(30)]
    pub fn summary<F: Fn(u64) -> (u64, u64, u64)>(&self, ranks: F) -> (r: ProfileSummary)
        requires
            self.wf(),
            forall|c: u64| ranks.requires((c,)),
        ensures
            forall|i: int| 0 <= i < r.entries@.len() ==> reports(*self, ranks, #[trigger] r.entries@[i]),
            forall|i: int, j: int|
                0 <= i < j < r.entries@.len() ==> (#[trigger] r.entries@[i]).name@ != (#[trigger] r.entries@[j]).name@,
            forall|key: Seq<char>|
                #[trigger] self.metrics_map().contains_key(key) ==> exists|i: int|
                    0 <= i < r.entries@.len() && (#[trigger] r.entries@[i]).name@ == key,
            forall|i: int, j: int|
                0 <= i < j < r.entries@.len() ==> (#[trigger] r.entries@[i]).total@ >= (#[trigger] r.entries@[j]).total@,
    {
        let all = self.all();
        let ghost names = all@.map_values(|x: (&'static str, super::metrics::Metrics)| x.0@);
        let mut entries: Vec<ProfileEntry> = Vec::new();
        let mut t: usize = 0;
        while t < all.len()
            invariant
                t <= all@.len(),
                names == all@.map_values(|x: (&'static str, super::metrics::Metrics)| x.0@),
                forall|i: int|
                    0 <= i < all@.len() ==> self.metrics_map().contains_key((#[trigger] all@[i]).0@)
                        && self.metrics_map()[all@[i].0@] == all@[i].1@,
                forall|a: int, b: int| 0 <= a < b < names.len() ==> #[trigger] names[a] != #[trigger] names[b],
                forall|key: Seq<char>|
                    #[trigger] self.metrics_map().contains_key(key) ==> exists|i: int|
                        0 <= i < all@.len() && (#[trigger] all@[i]).0@ == key,
                forall|i: int| 0 <= i < entries@.len() ==> reports(*self, ranks, #[trigger] entries@[i]),
                names_distinct(entries@),
                names_match(entries@, names, t as int),
                by_total_desc(entries@),
                forall|c: u64| ranks.requires((c,)),
            decreases all@.len() - t,
        {
            let name = all[t].0;
            let metrics = all[t].1;
            let rk = ranks(metrics.samples());
            let e = ProfileEntry::from_metrics(name, &metrics, rk);
            let mut p: usize = 0;
            while p < entries.len() && !e.total.gt(&entries[p].total)
                invariant
                    p <= entries@.len(),
                    forall|i: int| 0 <= i < p ==> (#[trigger] entries@[i]).total@ >= e.total@,
                decreases entries@.len() - p,
            {
                p = p + 1;
            }
            let ghost before = entries@;
            entries.insert(p, e);
            proof {
                before.insert_ensures(p as int, e);
                assert(reports(*self, ranks, e));
                assert forall|i: int| 0 <= i < entries@.len() implies reports(*self, ranks, #[trigger] entries@[i]) by {
                    if i < p {
                        assert(entries@[i] == before[i]);
                    } else if i > p {
                        assert(entries@[i] == before[i - 1]);
                    }
                }
                lemma_insert_named(before, p as int, e, names, t as int);
                lemma_insert_distinct(before, p as int, e, names, t as int);
                lemma_insert_sorted(before, p as int, e);
            }
            t = t + 1;
        }
        proof {
            assert forall|key: Seq<char>| #[trigger] self.metrics_map().contains_key(key) implies exists|i: int|
                0 <= i < entries@.len() && (#[trigger] entries@[i]).name@ == key by {
                let k = choose|k: int| 0 <= k < all@.len() && (#[trigger] all@[k]).0@ == key;
                assert(names[k] == key);
                assert(names_match(entries@, names, t as int));
                assert(exists|i: int| 0 <= i < entries@.len() && (#[trigger] entries@[i]).name@ == #[trigger] names[k]);
                let i = choose|i: int| 0 <= i < entries@.len() && (#[trigger] entries@[i]).name@ == #[trigger] names[k];
                assert(entries@[i].name@ == key);
            }
        }
        let ghost ev = entries@;
        let r = ProfileSummary { entries };
        assert(r.entries@ == ev);
        r
    }
}

/// The total of the first counter named `name`, zero when there is none.
pub open spec fn named_total(entries: Seq<(&'static str, CounterMetrics)>, name: Seq<char>) -> int
    decreases entries.len(),
{
    if entries.len() == 0 {
        0
    } else if entries[0].0@ == name {
        entries[0].1.total as int
    } else {
        named_total(entries.drop_first(), name)
    }
}

/// The total of the first counter named `name`, zero when there is none.
pub fn counter_total(entries: &Vec<(&'static str, CounterMetrics)>, name: &str) -> (r: u64)
    ensures
        r == named_total(entries@, name@),
{
    let mut i: usize = 0;
    assert(entries@.skip(0) =~= entries@);
    while i < entries.len()
        invariant
            i <= entries@.len(),
            named_total(entries@, name@) == named_total(entries@.skip(i as int), name@),
        decreases entries@.len() - i,
    {
        assert(entries@.skip(i as int).drop_first() =~= entries@.skip(i + 1));
        assert(entries@.skip(i as int)[0] == entries@[i as int]);
        if str_eq(entries[i].0, name) {
            return entries[i].1.total;
        }
        i = i + 1;
    }
    0
}

/// Whether `s` starts with `prefix`.
pub open spec fn starts_with(s: Seq<char>, prefix: Seq<char>) -> bool {
    prefix.len() <= s.len() && s.subrange(0, prefix.len() as int) == prefix
}

/// The sum of the totals of the counters whose names start with `prefix`
/// and end with `suffix`.
pub open spec fn matching_total(entries: Seq<(&'static str, CounterMetrics)>, prefix: Seq<char>, suffix: Seq<char>) -> int
    decreases entries.len(),
{
    if entries.len() == 0 {
        0
    } else {
        matching_total(entries.drop_last(), prefix, suffix) + if starts_with(entries.last().0@, prefix) && ends_with(entries.last().0@, suffix) {
            entries.last().1.total as int
        } else {
            0
        }
    }
}

/// The sum of the totals of the counters whose names start with `prefix`
/// and end with `suffix`; none when the sum exceeds `u64`.
pub fn counter_total_matching(entries: &Vec<(&'static str, CounterMetrics)>, prefix: &str, suffix: &str) -> (r: Option<u64>)
    ensures
        r == (if matching_total(entries@, prefix@, suffix@) <= u64::MAX {
            Some(matching_total(entries@, prefix@, suffix@) as u64)
        } else {
            None
        }),
{
    let p = chars_of(prefix);
    let q = chars_of(suffix);
    let mut sum: u64 = 0;
    let mut i: usize = 0;
    while i < entries.len()
        invariant
            i <= entries@.len(),
            p@ == prefix@,
            q@ == suffix@,
            sum == matching_total(entries@.take(i as int), prefix@, suffix@),
        decreases entries@.len() - i,
    {
        assert(entries@.take(i + 1).drop_last() =~= entries@.take(i as int));
        let name = chars_of(entries[i].0);
        let starts = p.len() <= name.len() && slice_eq(name.as_slice(), 0, p.len(), p.as_slice());
        let ends = ends_with_chars(name.as_slice(), 0, name.len(), q.as_slice());
        assert(name@.subrange(0, name@.len() as int) =~= name@);
        if starts && ends {
            let add = entries[i].1.total;
            if add > u64::MAX - sum {
                proof {
                    lemma_matching_total_grows(entries@, prefix@, suffix@, i + 1);
                }
                return None;
            }
            sum = sum + add;
        }
        i = i + 1;
    }
    assert(entries@.take(entries@.len() as int) =~= entries@);
    Some(sum)
}

proof fn lemma_matching_total_grows(entries: Seq<(&'static str, CounterMetrics)>, prefix: Seq<char>, suffix: Seq<char>, k: int)
    requires
        0 <= k <= entries.len(),
    ensures
        matching_total(entries.take(k), prefix, suffix) <= matching_total(entries, prefix, suffix),
    decreases entries.len() - k,
{
    if k < entries.len() {
        lemma_matching_total_grows(entries, prefix, suffix, k + 1);
        assert(entries.take(k + 1).drop_last() =~= entries.take(k));
    } else {
        assert(entries.take(k) =~= entries);
    }
}

/// The first index of `r` from `i` whose name comes after `x`'s.
pub open spec fn name_insertion_point(r: Seq<(&'static str, CounterMetrics)>, x: (&'static str, CounterMetrics), i: int) -> int
    decreases r.len() - i,
{
    if i >= r.len() || text_order(r[i].0@, x.0@) > 0 {
        i
    } else {
        name_insertion_point(r, x, i + 1)
    }
}

/// Counter entries ordered by name as `str` orders names; equal names
/// keep their order.
pub open spec fn by_name(es: Seq<(&'static str, CounterMetrics)>) -> Seq<(&'static str, CounterMetrics)>
    decreases es.len(),
{
    if es.len() == 0 {
        Seq::empty()
    } else {
        let r = by_name(es.drop_last());
        r.insert(name_insertion_point(r, es.last(), 0), es.last())
    }
}

/// Orders counter entries by name, stably.
pub fn sort_counters_by_name(entries: Vec<(&'static str, CounterMetrics)>) -> (r: Vec<(&'static str, CounterMetrics)>)
    ensures
        r@ == by_name(entries@),
{
    let ghost all = entries@;
    let mut r: Vec<(&'static str, CounterMetrics)> = Vec::new();
    let mut rest = entries;
    let mut i: usize = 0;
    let n0 = rest.len();
    while rest.len() > 0
        invariant
            i + rest@.len() == all.len(),
            all.len() == n0,
            forall|k: int| 0 <= k < rest@.len() ==> #[trigger] rest@[k] == all[i + k],
            r@ == by_name(all.take(i as int)),
        decreases rest@.len(),
    {
        let e = rest.remove(0);
        assert(e == all[i as int]);
        assert(all.take(i + 1).drop_last() =~= all.take(i as int));
        let ghost rv = r@;
        let mut p: usize = 0;
        while p < r.len() && compare_text(r[p].0, e.0) <= 0
            invariant
                p <= r@.len(),
                rv == r@,
                name_insertion_point(rv, e, 0) == name_insertion_point(rv, e, p as int),
            decreases r@.len() - p,
        {
            p = p + 1;
        }
        r.insert(p, e);
        i = i + 1;
    }
    assert(all.take(all.len() as int) =~= all);
    r
}

} // verus!
