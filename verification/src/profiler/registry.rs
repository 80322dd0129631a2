//! The profiler: timing statistics per operation name and value statistics
//! per counter name, spread over shards by a hash of the name, and a stack
//! of open spans.
use vstd::prelude::*;
use std::time::Instant;
use crate::duration::Duration;
use crate::text::str_eq;
use super::metrics::{Metrics, MetricsView, CounterMetrics};
use super::timer::{Timer, instant_now, elapsed_since};

verus! {

/// Number of shards the names are spread over.
pub const PROFILER_SHARDS: usize = 32;

pub const FNV_OFFSET: u64 = 0xcbf2_9ce4_8422_2325u64;

pub const FNV_PRIME: u64 = 0x0000_0100_0000_01b3u64;

/// The 64-bit FNV-1a hash of `bytes`.
pub open spec fn fnv1a(bytes: Seq<u8>) -> u64
    decreases bytes.len(),
{
    if bytes.len() == 0 {
        FNV_OFFSET
    } else {
        (fnv1a(bytes.drop_last()) ^ (bytes.last() as u64)).wrapping_mul(FNV_PRIME)
    }
}

/// The shard of a name: the low five bits of the FNV-1a hash of its UTF-8
/// bytes.
pub open spec fn shard_of(name: Seq<char>) -> int {
    (fnv1a(vstd::utf8::encode_utf8(name)) % 32) as int
}

/// The shard of `name`.
fn shard_index(name: &str) -> (r: usize)
    ensures
        r == shard_of(name@),
        r < PROFILER_SHARDS,
{
    let bytes = name.as_bytes();
    let mut hash: u64 = FNV_OFFSET;
    let mut i: usize = 0;
    while i < bytes.len()
        invariant
            i <= bytes@.len(),
            hash == fnv1a(bytes@.take(i as int)),
        decreases bytes@.len() - i,
    {
        assert(bytes@.take(i + 1).drop_last() =~= bytes@.take(i as int));
        hash = hash ^ (bytes[i] as u64);
        hash = hash.wrapping_mul(FNV_PRIME);
        i = i + 1;
    }
    assert(bytes@.take(bytes@.len() as int) =~= bytes@);
    let low = hash & 31u64;
    assert(hash & 31u64 == hash % 32) by (bit_vector);
    low as usize
}

/// `value` as `u64`, held at `u64::MAX`.
pub open spec fn clamp_u64(value: int) -> u64 {
    if value <= u64::MAX {
        value as u64
    } else {
        u64::MAX
    }
}

/// `value` as `u64`, held at `u64::MAX`.
pub fn usize_to_u64(value: usize) -> (r: u64)
    ensures
        r == clamp_u64(value as int),
{
    let wide = value as u128;
    if wide <= u64::MAX as u128 {
        value as u64
    } else {
        u64::MAX
    }
}

struct NamedMetrics {
    name: &'static str,
    metrics: Metrics,
}

struct NamedCounter {
    name: &'static str,
    counter: CounterMetrics,
}

struct ProfileFrame {
    name: &'static str,
    start: Instant,
    child_duration: Duration,
}

spec fn metrics_has(s: Seq<NamedMetrics>, key: Seq<char>) -> bool {
    exists|j: int| 0 <= j < s.len() && #[trigger] s[j].name@ == key
}

spec fn metrics_at(s: Seq<NamedMetrics>, key: Seq<char>) -> MetricsView {
    s[choose|j: int| 0 <= j < s.len() && #[trigger] s[j].name@ == key].metrics@
}

spec fn metrics_distinct(s: Seq<NamedMetrics>) -> bool {
    forall|i: int, j: int| 0 <= i < j < s.len() ==> #[trigger] s[i].name@ != #[trigger] s[j].name@
}

spec fn metrics_placed(s: Seq<NamedMetrics>, k: int) -> bool {
    forall|j: int| 0 <= j < s.len() ==> shard_of(#[trigger] s[j].name@) == k
}

spec fn counters_has(s: Seq<NamedCounter>, key: Seq<char>) -> bool {
    exists|j: int| 0 <= j < s.len() && #[trigger] s[j].name@ == key
}

spec fn counters_at(s: Seq<NamedCounter>, key: Seq<char>) -> CounterMetrics {
    s[choose|j: int| 0 <= j < s.len() && #[trigger] s[j].name@ == key].counter
}

spec fn counters_distinct(s: Seq<NamedCounter>) -> bool {
    forall|i: int, j: int| 0 <= i < j < s.len() ==> #[trigger] s[i].name@ != #[trigger] s[j].name@
}

spec fn counters_placed(s: Seq<NamedCounter>, k: int) -> bool {
    forall|j: int| 0 <= j < s.len() ==> shard_of(#[trigger] s[j].name@) == k
}

proof fn lemma_metrics_at(s: Seq<NamedMetrics>, key: Seq<char>, j: int)
    requires
        metrics_distinct(s),
        0 <= j < s.len(),
        s[j].name@ == key,
    ensures
        metrics_has(s, key),
        metrics_at(s, key) == s[j].metrics@,
{
    let c = choose|i: int| 0 <= i < s.len() && #[trigger] s[i].name@ == key;
    assert(0 <= c < s.len() && s[c].name@ == key);
    if c < j {
        assert(s[c].name@ != s[j].name@);
    } else if j < c {
        assert(s[j].name@ != s[c].name@);
    }
}

proof fn lemma_counters_at(s: Seq<NamedCounter>, key: Seq<char>, j: int)
    requires
        counters_distinct(s),
        0 <= j < s.len(),
        s[j].name@ == key,
    ensures
        counters_has(s, key),
        counters_at(s, key) == s[j].counter,
{
    let c = choose|i: int| 0 <= i < s.len() && #[trigger] s[i].name@ == key;
    assert(0 <= c < s.len() && s[c].name@ == key);
    if c < j {
        assert(s[c].name@ != s[j].name@);
    } else if j < c {
        assert(s[j].name@ != s[c].name@);
    }
}

proof fn lemma_metrics_same_elsewhere(a: Seq<NamedMetrics>, b: Seq<NamedMetrics>, key: Seq<char>)
    requires
        metrics_distinct(a),
        metrics_distinct(b),
        forall|i: int| 0 <= i < a.len() && #[trigger] a[i].name@ == key ==> i < b.len() && b[i] == a[i],
        forall|i: int| 0 <= i < b.len() && #[trigger] b[i].name@ == key ==> i < a.len() && b[i] == a[i],
    ensures
        metrics_has(a, key) == metrics_has(b, key),
        metrics_has(a, key) ==> metrics_at(a, key) == metrics_at(b, key),
{
    if metrics_has(a, key) {
        let j = choose|i: int| 0 <= i < a.len() && #[trigger] a[i].name@ == key;
        lemma_metrics_at(a, key, j);
        lemma_metrics_at(b, key, j);
    }
    if metrics_has(b, key) {
        let j = choose|i: int| 0 <= i < b.len() && #[trigger] b[i].name@ == key;
        assert(a[j].name@ == key);
    }
}

proof fn lemma_counters_same_elsewhere(a: Seq<NamedCounter>, b: Seq<NamedCounter>, key: Seq<char>)
    requires
        counters_distinct(a),
        counters_distinct(b),
        forall|i: int| 0 <= i < a.len() && #[trigger] a[i].name@ == key ==> i < b.len() && b[i] == a[i],
        forall|i: int| 0 <= i < b.len() && #[trigger] b[i].name@ == key ==> i < a.len() && b[i] == a[i],
    ensures
        counters_has(a, key) == counters_has(b, key),
        counters_has(a, key) ==> counters_at(a, key) == counters_at(b, key),
{
    if counters_has(a, key) {
        let j = choose|i: int| 0 <= i < a.len() && #[trigger] a[i].name@ == key;
        lemma_counters_at(a, key, j);
        lemma_counters_at(b, key, j);
    }
    if counters_has(b, key) {
        let j = choose|i: int| 0 <= i < b.len() && #[trigger] b[i].name@ == key;
        assert(a[j].name@ == key);
    }
}

/// The index of the entry named `name`, if there is one.
fn find_metrics(s: &Vec<NamedMetrics>, name: &str) -> (r: Option<usize>)
    ensures
        match r {
            Some(j) => j < s@.len() && s@[j as int].name@ == name@,
            None => !metrics_has(s@, name@),
        },
{
    let mut j: usize = 0;
    while j < s.len()
        invariant
            j <= s@.len(),
            forall|i: int| 0 <= i < j ==> #[trigger] s@[i].name@ != name@,
        decreases s@.len() - j,
    {
        if str_eq(s[j].name, name) {
            return Some(j);
        }
        j = j + 1;
    }
    None
}

/// The index of the counter named `name`, if there is one.
fn find_counter(s: &Vec<NamedCounter>, name: &str) -> (r: Option<usize>)
    ensures
        match r {
            Some(j) => j < s@.len() && s@[j as int].name@ == name@,
            None => !counters_has(s@, name@),
        },
{
    let mut j: usize = 0;
    while j < s.len()
        invariant
            j <= s@.len(),
            forall|i: int| 0 <= i < j ==> #[trigger] s@[i].name@ != name@,
        decreases s@.len() - j,
    {
        if str_eq(s[j].name, name) {
            return Some(j);
        }
        j = j + 1;
    }
    None
}

/// Collects timing and counter statistics by name. It records only while
/// enabled, except through the `*_enabled` methods.
pub struct Profiler {
    metrics: Vec<Vec<NamedMetrics>>,
    counters: Vec<Vec<NamedCounter>>,
    enabled: bool,
    frames: Vec<ProfileFrame>,
}

/// The token of an open span; `finish` closes the innermost open span and
/// records it.
#[derive(Debug)]
pub struct ProfileGuard {
    name: &'static str,
}

impl ProfileGuard {
    /// The name of the span it was opened for.
    pub closed spec fn spec_name(&self) -> &'static str {
        self.name
    }
}

impl Profiler {
    /// Every name sits in its own shard, once.
    pub closed spec fn wf(self) -> bool {
        &&& self.metrics@.len() == PROFILER_SHARDS
        &&& self.counters@.len() == PROFILER_SHARDS
        &&& forall|k: int|
            0 <= k < PROFILER_SHARDS ==> metrics_distinct(#[trigger] self.metrics@[k]@)
                && metrics_placed(self.metrics@[k]@, k)
        &&& forall|k: int|
            0 <= k < PROFILER_SHARDS ==> counters_distinct(#[trigger] self.counters@[k]@)
                && counters_placed(self.counters@[k]@, k)
    }

    /// The timing statistics by operation name.
    pub closed spec fn metrics_map(self) -> Map<Seq<char>, MetricsView> {
        Map::new(
            |key: Seq<char>| metrics_has(self.metrics@[shard_of(key)]@, key),
            |key: Seq<char>| metrics_at(self.metrics@[shard_of(key)]@, key),
        )
    }

    /// The counter statistics by counter name.
    pub closed spec fn counters_map(self) -> Map<Seq<char>, CounterMetrics> {
        Map::new(
            |key: Seq<char>| counters_has(self.counters@[shard_of(key)]@, key),
            |key: Seq<char>| counters_at(self.counters@[shard_of(key)]@, key),
        )
    }

    /// Whether recording is on.
    pub closed spec fn is_on(self) -> bool {
        self.enabled
    }

    /// The open spans, outermost first: each name with the time so far spent
    /// in spans nested in it, in nanoseconds.
    pub closed spec fn spans(self) -> Seq<(Seq<char>, int)> {
        self.frames@.map_values(|f: ProfileFrame| (f.name@, f.child_duration@))
    }

    /// The statistics of `key` so far, or those of no sample.
    pub open spec fn entry(self, key: Seq<char>) -> MetricsView {
        if self.metrics_map().contains_key(key) {
            self.metrics_map()[key]
        } else {
            MetricsView::fresh()
        }
    }

    /// The counter statistics of `key` so far, or those of no value.
    pub open spec fn counter_entry(self, key: Seq<char>) -> CounterMetrics {
        if self.counters_map().contains_key(key) {
            self.counters_map()[key]
        } else {
            CounterMetrics::fresh()
        }
    }

    /// The counters after one more `value` for `key`.
    pub open spec fn counted(m: Map<Seq<char>, CounterMetrics>, key: Seq<char>, value: u64) -> Map<
        Seq<char>,
        CounterMetrics,
    > {
        let before = if m.contains_key(key) {
            m[key]
        } else {
            CounterMetrics::fresh()
        };
        m.insert(key, before.recorded(value))
    }

    fn empty_shards_metrics() -> (r: Vec<Vec<NamedMetrics>>)
        ensures
            r@.len() == PROFILER_SHARDS,
            forall|k: int| 0 <= k < PROFILER_SHARDS ==> (#[trigger] r@[k])@.len() == 0,
    {
        let mut r: Vec<Vec<NamedMetrics>> = Vec::new();
        while r.len() < PROFILER_SHARDS
            invariant
                r@.len() <= PROFILER_SHARDS,
                forall|k: int| 0 <= k < r@.len() ==> (#[trigger] r@[k])@.len() == 0,
            decreases PROFILER_SHARDS - r@.len(),
        {
            r.push(Vec::new());
        }
        r
    }

    fn empty_shards_counters() -> (r: Vec<Vec<NamedCounter>>)
        ensures
            r@.len() == PROFILER_SHARDS,
            forall|k: int| 0 <= k < PROFILER_SHARDS ==> (#[trigger] r@[k])@.len() == 0,
    {
        let mut r: Vec<Vec<NamedCounter>> = Vec::new();
        while r.len() < PROFILER_SHARDS
            invariant
                r@.len() <= PROFILER_SHARDS,
                forall|k: int| 0 <= k < r@.len() ==> (#[trigger] r@[k])@.len() == 0,
            decreases PROFILER_SHARDS - r@.len(),
        {
            r.push(Vec::new());
        }
        r
    }

    /// A disabled profiler with nothing recorded.
    pub fn new() -> (r: Profiler)
        ensures
            r.wf(),
            !r.is_on(),
            r.metrics_map() == Map::<Seq<char>, MetricsView>::empty(),
            r.counters_map() == Map::<Seq<char>, CounterMetrics>::empty(),
            r.spans().len() == 0,
    {
        let r = Profiler {
            metrics: Self::empty_shards_metrics(),
            counters: Self::empty_shards_counters(),
            enabled: false,
            frames: Vec::new(),
        };
        assert(r.metrics_map() =~= Map::<Seq<char>, MetricsView>::empty());
        assert(r.counters_map() =~= Map::<Seq<char>, CounterMetrics>::empty());
        assert(r.spans() =~= Seq::<(Seq<char>, int)>::empty());
        r
    }

    /// An enabled profiler with nothing recorded.
    pub fn enabled() -> (r: Profiler)
        ensures
            r.wf(),
            r.is_on(),
            r.metrics_map() == Map::<Seq<char>, MetricsView>::empty(),
            r.counters_map() == Map::<Seq<char>, CounterMetrics>::empty(),
            r.spans().len() == 0,
    {
        let mut r = Self::new();
        r.enable();
        r
    }

    /// Turns recording on.
    pub fn enable(&mut self)
        ensures
            final(self).is_on(),
            final(self).wf() == old(self).wf(),
            final(self).metrics_map() == old(self).metrics_map(),
            final(self).counters_map() == old(self).counters_map(),
            final(self).spans() == old(self).spans(),
    {
        self.enabled = true;
    }

    /// Turns recording off.
    pub fn disable(&mut self)
        ensures
            !final(self).is_on(),
            final(self).wf() == old(self).wf(),
            final(self).metrics_map() == old(self).metrics_map(),
            final(self).counters_map() == old(self).counters_map(),
            final(self).spans() == old(self).spans(),
    {
        self.enabled = false;
    }

    pub fn is_enabled(&self) -> (r: bool)
        ensures
            r == self.is_on(),
    {
        self.enabled
    }

    /// A timer for `name` when recording is on.
    pub fn timer(&self, name: &'static str) -> (r: Option<Timer>)
        ensures
            r is Some <==> self.is_on(),
            r matches Some(t) ==> t.spec_name() == name,
    {
        if self.is_enabled() {
            Some(Timer::start(name))
        } else {
            None
        }
    }

    /// Whether one more sample of `duration`, `child_duration` of it nested,
    /// keeps the sums of `name` in the range of a duration.
    pub fn can_record(&self, name: &str, duration: Duration, child_duration: Duration) -> (r:
        bool)
        requires
            self.wf(),
        ensures
            r == self.entry(name@).fits(duration@, child_duration@),
    {
        let k = shard_index(name);
        let shard = &self.metrics[k];
        match find_metrics(shard, name) {
            Some(j) => {
                proof {
                    lemma_metrics_at(shard@, name@, j as int);
                }
                shard[j].metrics.fits(duration, child_duration)
            },
            None => Metrics::new().fits(duration, child_duration),
        }
    }

    /// Records one sample of `duration` for `name`, `child_duration` of it
    /// spent in nested spans, whether or not recording is on; the sums of
    /// `name` must stay in range (they overflow otherwise).
    pub fn record_sample_enabled(
        &mut self,
        name: &'static str,
        duration: Duration,
        child_duration: Duration,
    )
        requires
            old(self).wf(),
            old(self).entry(name@).fits(duration@, child_duration@),
        ensures
            final(self).wf(),
            final(self).metrics_map() == old(self).metrics_map().insert(
                name@,
                old(self).entry(name@).record(duration@, child_duration@),
            ),
            final(self).counters_map() == old(self).counters_map(),
            final(self).is_on() == old(self).is_on(),
            final(self).spans() == old(self).spans(),
    {
        let ghost before = *self;
        let k = shard_index(name);
        let found = find_metrics(&self.metrics[k], name);
        match found {
            Some(j) => {
                proof {
                    lemma_metrics_at(self.metrics@[k as int]@, name@, j as int);
                }
                self.metrics[k][j].metrics.record_with_child(duration, child_duration);
            },
            None => {
                let mut m = Metrics::new();
                m.record_with_child(duration, child_duration);
                self.metrics[k].push(NamedMetrics { name, metrics: m });
            },
        }
        proof {
            let a = before.metrics@[k as int]@;
            let b = self.metrics@[k as int]@;
            assert(metrics_distinct(b));
            assert(metrics_placed(b, k as int));
            assert forall|key: Seq<char>|
                #![trigger self.metrics_map().contains_key(key)]
                #![trigger before.metrics_map().contains_key(key)]
                key != name@ implies (self.metrics_map().contains_key(key)
                    == before.metrics_map().contains_key(key) && (before.metrics_map().contains_key(
                    key,
                ) ==> self.metrics_map()[key] == before.metrics_map()[key])) by {
                if shard_of(key) == k {
                    lemma_metrics_same_elsewhere(a, b, key);
                }
            }
            match found {
                Some(j) => lemma_metrics_at(b, name@, j as int),
                None => lemma_metrics_at(b, name@, a.len() as int),
            }
            assert(self.metrics_map() =~= before.metrics_map().insert(
                name@,
                before.entry(name@).record(duration@, child_duration@),
            ));
            assert(self.counters_map() =~= before.counters_map());
        }
    }

    /// Records one sample of `duration` for `name` when recording is on;
    /// then the sums of `name` must stay in range (they overflow otherwise).
    pub fn record(&mut self, name: &'static str, duration: Duration)
        requires
            old(self).wf(),
            old(self).is_on() ==> old(self).entry(name@).fits(duration@, 0),
        ensures
            final(self).wf(),
            final(self).metrics_map() == if old(self).is_on() {
                old(self).metrics_map().insert(name@, old(self).entry(name@).record(duration@, 0))
            } else {
                old(self).metrics_map()
            },
            final(self).counters_map() == old(self).counters_map(),
            final(self).is_on() == old(self).is_on(),
            final(self).spans() == old(self).spans(),
    {
        if self.is_enabled() {
            self.record_enabled(name, duration);
        }
    }

    /// Records one sample of `duration` for `name`, whether or not recording
    /// is on.
    pub fn record_enabled(&mut self, name: &'static str, duration: Duration)
        requires
            old(self).wf(),
            old(self).entry(name@).fits(duration@, 0),
        ensures
            final(self).wf(),
            final(self).metrics_map() == old(self).metrics_map().insert(
                name@,
                old(self).entry(name@).record(duration@, 0),
            ),
            final(self).counters_map() == old(self).counters_map(),
            final(self).is_on() == old(self).is_on(),
            final(self).spans() == old(self).spans(),
    {
        self.record_sample_enabled(name, duration, Duration::zero());
    }

    /// Records `value` for the counter `name` when recording is on.
    pub fn record_counter(&mut self, name: &'static str, value: u64)
        requires
            old(self).wf(),
        ensures
            final(self).wf(),
            final(self).counters_map() == if old(self).is_on() {
                Self::counted(old(self).counters_map(), name@, value)
            } else {
                old(self).counters_map()
            },
            final(self).metrics_map() == old(self).metrics_map(),
            final(self).is_on() == old(self).is_on(),
            final(self).spans() == old(self).spans(),
    {
        if self.is_enabled() {
            self.record_counter_enabled(name, value);
        }
    }

    /// Records `value` for the counter `name`, whether or not recording is on.
    pub fn record_counter_enabled(&mut self, name: &'static str, value: u64)
        requires
            old(self).wf(),
        ensures
            final(self).wf(),
            final(self).counters_map() == Self::counted(old(self).counters_map(), name@, value),
            final(self).metrics_map() == old(self).metrics_map(),
            final(self).is_on() == old(self).is_on(),
            final(self).spans() == old(self).spans(),
    {
        let ghost before = *self;
        let k = shard_index(name);
        let found = find_counter(&self.counters[k], name);
        match found {
            Some(j) => {
                proof {
                    lemma_counters_at(self.counters@[k as int]@, name@, j as int);
                }
                self.counters[k][j].counter.record(value);
            },
            None => {
                let mut c = CounterMetrics::new();
                c.record(value);
                self.counters[k].push(NamedCounter { name, counter: c });
            },
        }
        proof {
            let a = before.counters@[k as int]@;
            let b = self.counters@[k as int]@;
            assert(counters_distinct(b));
            assert(counters_placed(b, k as int));
            assert forall|key: Seq<char>|
                #![trigger self.counters_map().contains_key(key)]
                #![trigger before.counters_map().contains_key(key)]
                key != name@ implies (self.counters_map().contains_key(key)
                    == before.counters_map().contains_key(key) && (before.counters_map().contains_key(
                    key,
                ) ==> self.counters_map()[key] == before.counters_map()[key])) by {
                if shard_of(key) == k {
                    lemma_counters_same_elsewhere(a, b, key);
                }
            }
            match found {
                Some(j) => lemma_counters_at(b, name@, j as int),
                None => lemma_counters_at(b, name@, a.len() as int),
            }
            assert(self.counters_map() =~= Self::counted(before.counters_map(), name@, value));
            assert(self.metrics_map() =~= before.metrics_map());
        }
    }

    /// Counts one file read of `bytes` bytes when recording is on.
    pub fn record_fs_read(&mut self, bytes: usize)
        requires
            old(self).wf(),
        ensures
            final(self).wf(),
            final(self).counters_map() == if old(self).is_on() {
                Self::counted(
                    Self::counted(
                        Self::counted(old(self).counters_map(), "io.read.calls"@, 1),
                        "io.read.bytes"@,
                        clamp_u64(bytes as int),
                    ),
                    "syscall.fs.read.calls"@,
                    1,
                )
            } else {
                old(self).counters_map()
            },
            final(self).metrics_map() == old(self).metrics_map(),
            final(self).is_on() == old(self).is_on(),
            final(self).spans() == old(self).spans(),
    {
        if !self.is_enabled() {
            return;
        }
        self.record_counter_enabled("io.read.calls", 1);
        self.record_counter_enabled("io.read.bytes", usize_to_u64(bytes));
        self.record_counter_enabled("syscall.fs.read.calls", 1);
    }

    /// Counts one failed file read when recording is on.
    pub fn record_fs_read_failure(&mut self)
        requires
            old(self).wf(),
        ensures
            final(self).wf(),
            final(self).counters_map() == if old(self).is_on() {
                Self::counted(
                    Self::counted(
                        Self::counted(
                            Self::counted(old(self).counters_map(), "io.read.calls"@, 1),
                            "io.read.failures"@,
                            1,
                        ),
                        "syscall.fs.read.calls"@,
                        1,
                    ),
                    "syscall.fs.read.failures"@,
                    1,
                )
            } else {
                old(self).counters_map()
            },
            final(self).metrics_map() == old(self).metrics_map(),
            final(self).is_on() == old(self).is_on(),
            final(self).spans() == old(self).spans(),
    {
        if !self.is_enabled() {
            return;
        }
        self.record_counter_enabled("io.read.calls", 1);
        self.record_counter_enabled("io.read.failures", 1);
        self.record_counter_enabled("syscall.fs.read.calls", 1);
        self.record_counter_enabled("syscall.fs.read.failures", 1);
    }

    /// Counts one file write of `bytes` bytes when recording is on.
    pub fn record_fs_write(&mut self, bytes: usize)
        requires
            old(self).wf(),
        ensures
            final(self).wf(),
            final(self).counters_map() == if old(self).is_on() {
                Self::counted(
                    Self::counted(
                        Self::counted(
                            Self::counted(old(self).counters_map(), "io.write.calls"@, 1),
                            "io.write.attempted_bytes"@,
                            clamp_u64(bytes as int),
                        ),
                        "io.write.bytes"@,
                        clamp_u64(bytes as int),
                    ),
                    "syscall.fs.write.calls"@,
                    1,
                )
            } else {
                old(self).counters_map()
            },
            final(self).metrics_map() == old(self).metrics_map(),
            final(self).is_on() == old(self).is_on(),
            final(self).spans() == old(self).spans(),
    {
        if !self.is_enabled() {
            return;
        }
        self.record_counter_enabled("io.write.calls", 1);
        self.record_counter_enabled("io.write.attempted_bytes", usize_to_u64(bytes));
        self.record_counter_enabled("io.write.bytes", usize_to_u64(bytes));
        self.record_counter_enabled("syscall.fs.write.calls", 1);
    }

    /// Counts one failed file write of `bytes` bytes when recording is on.
    pub fn record_fs_write_failure(&mut self, bytes: usize)
        requires
            old(self).wf(),
        ensures
            final(self).wf(),
            final(self).counters_map() == if old(self).is_on() {
                Self::counted(
                    Self::counted(
                        Self::counted(
                            Self::counted(
                                Self::counted(old(self).counters_map(), "io.write.calls"@, 1),
                                "io.write.attempted_bytes"@,
                                clamp_u64(bytes as int),
                            ),
                            "io.write.failures"@,
                            1,
                        ),
                        "syscall.fs.write.calls"@,
                        1,
                    ),
                    "syscall.fs.write.failures"@,
                    1,
                )
            } else {
                old(self).counters_map()
            },
            final(self).metrics_map() == old(self).metrics_map(),
            final(self).is_on() == old(self).is_on(),
            final(self).spans() == old(self).spans(),
    {
        if !self.is_enabled() {
            return;
        }
        self.record_counter_enabled("io.write.calls", 1);
        self.record_counter_enabled("io.write.attempted_bytes", usize_to_u64(bytes));
        self.record_counter_enabled("io.write.failures", 1);
        self.record_counter_enabled("syscall.fs.write.calls", 1);
        self.record_counter_enabled("syscall.fs.write.failures", 1);
    }

    /// The statistics recorded for `name`, if any.
    pub fn get(&self, name: &str) -> (r: Option<Metrics>)
        requires
            self.wf(),
        ensures
            r is Some <==> self.metrics_map().contains_key(name@),
            r matches Some(m) ==> m@ == self.metrics_map()[name@],
    {
        let k = shard_index(name);
        let shard = &self.metrics[k];
        match find_metrics(shard, name) {
            Some(j) => {
                proof {
                    lemma_metrics_at(shard@, name@, j as int);
                }
                Some(shard[j].metrics)
            },
            None => None,
        }
    }

    /// The value statistics recorded for the counter `name`, if any.
    pub fn counter(&self, name: &str) -> (r: Option<CounterMetrics>)
        requires
            self.wf(),
        ensures
            r is Some <==> self.counters_map().contains_key(name@),
            r matches Some(c) ==> c == self.counters_map()[name@],
    {
        let k = shard_index(name);
        let shard = &self.counters[k];
        match find_counter(shard, name) {
            Some(j) => {
                proof {
                    lemma_counters_at(shard@, name@, j as int);
                }
                Some(shard[j].counter)
            },
            None => None,
        }
    }

    /// Every counter name with its statistics, each name once.
    pub fn counter_entries(&self) -> (r: Vec<(&'static str, CounterMetrics)>)
        requires
            self.wf(),
        ensures
            forall|i: int|
                0 <= i < r@.len() ==> self.counters_map().contains_key((#[trigger] r@[i]).0@)
                    && self.counters_map()[r@[i].0@] == r@[i].1,
            forall|i: int, j: int|
                0 <= i < j < r@.len() ==> (#[trigger] r@[i]).0@ != (#[trigger] r@[j]).0@,
            forall|key: Seq<char>|
                #[trigger] self.counters_map().contains_key(key) ==> exists|i: int|
                    0 <= i < r@.len() && (#[trigger] r@[i]).0@ == key,
    {
        let mut r: Vec<(&'static str, CounterMetrics)> = Vec::new();
        let mut k: usize = 0;
        while k < PROFILER_SHARDS
            invariant
                self.wf(),
                k <= PROFILER_SHARDS,
                forall|i: int|
                    0 <= i < r@.len() ==> shard_of((#[trigger] r@[i]).0@) < k
                        && self.counters_map().contains_key(r@[i].0@)
                        && self.counters_map()[r@[i].0@] == r@[i].1,
                forall|i: int, j: int|
                    0 <= i < j < r@.len() ==> (#[trigger] r@[i]).0@ != (#[trigger] r@[j]).0@,
                forall|key: Seq<char>|
                    #[trigger] self.counters_map().contains_key(key) && shard_of(key) < k
                        ==> exists|i: int| 0 <= i < r@.len() && (#[trigger] r@[i]).0@ == key,
            decreases PROFILER_SHARDS - k,
        {
            let shard = &self.counters[k];
            let ghost start = r@.len();
            let ghost r0 = r@;
            let mut j: usize = 0;
            while j < shard.len()
                invariant
                    self.wf(),
                    k < PROFILER_SHARDS,
                    shard@ == self.counters@[k as int]@,
                    j <= shard@.len(),
                    start <= r@.len(),
                    r@.len() == start + j,
                    r0.len() == start,
                    forall|i: int| 0 <= i < start ==> #[trigger] r@[i] == r0[i],
                    forall|i: int|
                        0 <= i < start ==> shard_of((#[trigger] r0[i]).0@) < k
                            && self.counters_map().contains_key(r0[i].0@)
                            && self.counters_map()[r0[i].0@] == r0[i].1,
                    forall|i: int|
                        start <= i < r@.len() ==> (#[trigger] r@[i]).0@ == shard@[i - start].name@
                            && r@[i].1 == shard@[i - start].counter,
                    forall|i: int, j2: int|
                        0 <= i < j2 < start ==> (#[trigger] r0[i]).0@ != (#[trigger] r0[j2]).0@,
                    forall|key: Seq<char>|
                        #[trigger] self.counters_map().contains_key(key) && shard_of(key) < k
                            ==> exists|i: int| 0 <= i < start && (#[trigger] r0[i]).0@ == key,
                decreases shard@.len() - j,
            {
                r.push((shard[j].name, shard[j].counter));
                j = j + 1;
            }
            proof {
                let s = shard@;
                assert forall|i: int| 0 <= i < start implies shard_of((#[trigger] r@[i]).0@) < k
                    && self.counters_map().contains_key(r@[i].0@) && self.counters_map()[r@[i].0@]
                    == r@[i].1 by {
                    assert(r@[i] == r0[i]);
                }
                assert forall|i: int| start <= i < r@.len() implies shard_of((#[trigger] r@[i]).0@)
                    == k && self.counters_map().contains_key(r@[i].0@) && self.counters_map()[r@[i].0@]
                    == r@[i].1 by {
                    assert(s[i - start].name@ == r@[i].0@);
                    lemma_counters_at(s, r@[i].0@, i - start);
                }
                assert forall|i: int, j2: int| 0 <= i < j2 < r@.len() implies (#[trigger] r@[i]).0@
                    != (#[trigger] r@[j2]).0@ by {
                    if start <= i {
                        assert(s[i - start].name@ != s[j2 - start].name@);
                    } else if j2 < start {
                        assert(r@[i] == r0[i] && r@[j2] == r0[j2]);
                    } else {
                        assert(r@[i] == r0[i]);
                        assert(shard_of(r@[i].0@) < k);
                        assert(shard_of(r@[j2].0@) == k);
                    }
                }
                assert forall|key: Seq<char>|
                    #[trigger] self.counters_map().contains_key(key) && shard_of(key) < k + 1 implies exists|
                        i: int,
                    | 0 <= i < r@.len() && (#[trigger] r@[i]).0@ == key by {
                    if shard_of(key) == k {
                        let w = choose|i: int| 0 <= i < s.len() && #[trigger] s[i].name@ == key;
                        assert(r@[start + w].0@ == key);
                    } else {
                        let w = choose|i: int| 0 <= i < start && (#[trigger] r0[i]).0@ == key;
                        assert(r@[w] == r0[w]);
                    }
                }
            }
            k = k + 1;
        }
        proof {
            assert forall|key: Seq<char>| #[trigger]
                self.counters_map().contains_key(key) implies exists|i: int|
                0 <= i < r@.len() && (#[trigger] r@[i]).0@ == key by {
                assert(shard_of(key) < 32);
            }
        }
        r
    }

    /// Every name with its statistics, each name once.
    pub fn all(&self) -> (r: Vec<(&'static str, Metrics)>)
        requires
            self.wf(),
        ensures
            forall|i: int|
                0 <= i < r@.len() ==> self.metrics_map().contains_key((#[trigger] r@[i]).0@)
                    && self.metrics_map()[r@[i].0@] == r@[i].1@,
            forall|i: int, j: int|
                0 <= i < j < r@.len() ==> (#[trigger] r@[i]).0@ != (#[trigger] r@[j]).0@,
            forall|key: Seq<char>|
                #[trigger] self.metrics_map().contains_key(key) ==> exists|i: int|
                    0 <= i < r@.len() && (#[trigger] r@[i]).0@ == key,
    {
        let mut r: Vec<(&'static str, Metrics)> = Vec::new();
        let mut k: usize = 0;
        while k < PROFILER_SHARDS
            invariant
                self.wf(),
                k <= PROFILER_SHARDS,
                forall|i: int|
                    0 <= i < r@.len() ==> shard_of((#[trigger] r@[i]).0@) < k
                        && self.metrics_map().contains_key(r@[i].0@)
                        && self.metrics_map()[r@[i].0@] == r@[i].1@,
                forall|i: int, j: int|
                    0 <= i < j < r@.len() ==> (#[trigger] r@[i]).0@ != (#[trigger] r@[j]).0@,
                forall|key: Seq<char>|
                    #[trigger] self.metrics_map().contains_key(key) && shard_of(key) < k
                        ==> exists|i: int| 0 <= i < r@.len() && (#[trigger] r@[i]).0@ == key,
            decreases PROFILER_SHARDS - k,
        {
            let shard = &self.metrics[k];
            let ghost start = r@.len();
            let ghost r0 = r@;
            let mut j: usize = 0;
            while j < shard.len()
                invariant
                    self.wf(),
                    k < PROFILER_SHARDS,
                    shard@ == self.metrics@[k as int]@,
                    j <= shard@.len(),
                    start <= r@.len(),
                    r@.len() == start + j,
                    r0.len() == start,
                    forall|i: int| 0 <= i < start ==> #[trigger] r@[i] == r0[i],
                    forall|i: int|
                        0 <= i < start ==> shard_of((#[trigger] r0[i]).0@) < k
                            && self.metrics_map().contains_key(r0[i].0@)
                            && self.metrics_map()[r0[i].0@] == r0[i].1@,
                    forall|i: int|
                        start <= i < r@.len() ==> (#[trigger] r@[i]).0@ == shard@[i - start].name@
                            && r@[i].1@ == shard@[i - start].metrics@,
                    forall|i: int, j2: int|
                        0 <= i < j2 < start ==> (#[trigger] r0[i]).0@ != (#[trigger] r0[j2]).0@,
                    forall|key: Seq<char>|
                        #[trigger] self.metrics_map().contains_key(key) && shard_of(key) < k
                            ==> exists|i: int| 0 <= i < start && (#[trigger] r0[i]).0@ == key,
                decreases shard@.len() - j,
            {
                r.push((shard[j].name, shard[j].metrics));
                j = j + 1;
            }
            proof {
                let s = shard@;
                assert forall|i: int| 0 <= i < start implies shard_of((#[trigger] r@[i]).0@) < k
                    && self.metrics_map().contains_key(r@[i].0@) && self.metrics_map()[r@[i].0@]
                    == r@[i].1@ by {
                    assert(r@[i] == r0[i]);
                }
                assert forall|i: int| start <= i < r@.len() implies shard_of((#[trigger] r@[i]).0@)
                    == k && self.metrics_map().contains_key(r@[i].0@) && self.metrics_map()[r@[i].0@]
                    == r@[i].1@ by {
                    assert(s[i - start].name@ == r@[i].0@);
                    lemma_metrics_at(s, r@[i].0@, i - start);
                }
                assert forall|i: int, j2: int| 0 <= i < j2 < r@.len() implies (#[trigger] r@[i]).0@
                    != (#[trigger] r@[j2]).0@ by {
                    if start <= i {
                        assert(s[i - start].name@ != s[j2 - start].name@);
                    } else if j2 < start {
                        assert(r@[i] == r0[i] && r@[j2] == r0[j2]);
                    } else {
                        assert(r@[i] == r0[i]);
                        assert(shard_of(r@[i].0@) < k);
                        assert(shard_of(r@[j2].0@) == k);
                    }
                }
                assert forall|key: Seq<char>|
                    #[trigger] self.metrics_map().contains_key(key) && shard_of(key) < k + 1 implies exists|
                        i: int,
                    | 0 <= i < r@.len() && (#[trigger] r@[i]).0@ == key by {
                    if shard_of(key) == k {
                        let w = choose|i: int| 0 <= i < s.len() && #[trigger] s[i].name@ == key;
                        assert(r@[start + w].0@ == key);
                    } else {
                        let w = choose|i: int| 0 <= i < start && (#[trigger] r0[i]).0@ == key;
                        assert(r@[w] == r0[w]);
                    }
                }
            }
            k = k + 1;
        }
        proof {
            assert forall|key: Seq<char>| #[trigger]
                self.metrics_map().contains_key(key) implies exists|i: int|
                0 <= i < r@.len() && (#[trigger] r@[i]).0@ == key by {
                assert(shard_of(key) < 32);
            }
        }
        r
    }

    /// Forgets every statistic and counter; whether recording is on and the
    /// open spans stay.
    pub fn clear(&mut self)
        ensures
            final(self).wf(),
            final(self).metrics_map() == Map::<Seq<char>, MetricsView>::empty(),
            final(self).counters_map() == Map::<Seq<char>, CounterMetrics>::empty(),
            final(self).is_on() == old(self).is_on(),
            final(self).spans() == old(self).spans(),
    {
        self.metrics = Self::empty_shards_metrics();
        self.counters = Self::empty_shards_counters();
        assert(self.metrics_map() =~= Map::<Seq<char>, MetricsView>::empty());
        assert(self.counters_map() =~= Map::<Seq<char>, CounterMetrics>::empty());
    }

    /// Opens a span named `name` when recording is on.
    pub fn global_span(&mut self, name: &'static str) -> (r: Option<ProfileGuard>)
        requires
            old(self).wf(),
        ensures
            final(self).wf(),
            r is Some <==> old(self).is_on(),
            r matches Some(g) ==> g.spec_name() == name,
            final(self).spans() == if old(self).is_on() {
                old(self).spans().push((name@, 0))
            } else {
                old(self).spans()
            },
            final(self).metrics_map() == old(self).metrics_map(),
            final(self).counters_map() == old(self).counters_map(),
            final(self).is_on() == old(self).is_on(),
    {
        if !self.is_enabled() {
            return None;
        }
        let ghost before = *self;
        self.frames.push(ProfileFrame { name, start: instant_now(), child_duration: Duration::zero() });
        assert(self.spans() =~= before.spans().push((name@, 0)));
        Some(ProfileGuard { name })
    }

    /// Closing the innermost span after `d` nanoseconds keeps every sum in
    /// range.
    pub open spec fn span_fits(self, d: int) -> bool {
        let n = self.spans().len();
        n > 0 ==> {
            &&& self.entry(self.spans()[n - 1].0).fits(d, self.spans()[n - 1].1)
            &&& n > 1 ==> self.spans()[n - 2].1 + d <= crate::duration::MAX_NANOS
        }
    }

    /// `after` is `before` with its innermost span dropped unrecorded.
    pub open spec fn dropped_span(before: Profiler, after: Profiler) -> bool {
        &&& after.spans() == before.spans().drop_last()
        &&& after.metrics_map() == before.metrics_map()
        &&& after.counters_map() == before.counters_map()
        &&& after.is_on() == before.is_on()
    }

    /// A span named `name` opened now and closed after `d` nanoseconds
    /// keeps every sum in range.
    pub open spec fn opened_span_fits(self, name: Seq<char>, d: int) -> bool {
        let n = self.spans().len();
        &&& self.entry(name).fits(d, 0)
        &&& n > 0 ==> self.spans()[n - 1].1 + d <= crate::duration::MAX_NANOS
    }

    /// `after` is `before` with its innermost span closed after `d`
    /// nanoseconds: the span leaves the stack, its time counts as nested
    /// time of the span around it, and it is recorded under its name.
    pub open spec fn closed_span(before: Profiler, after: Profiler, d: int) -> bool {
        let n = before.spans().len();
        let top = before.spans()[n - 1];
        &&& n > 0
        &&& after.spans() == if n > 1 {
            before.spans().take(n - 1).update(n - 2, (before.spans()[n - 2].0, before.spans()[n - 2].1 + d))
        } else {
            before.spans().take(n - 1)
        }
        &&& after.metrics_map() == before.metrics_map().insert(top.0, before.entry(top.0).record(d, top.1))
        &&& after.counters_map() == before.counters_map()
        &&& after.is_on() == before.is_on()
    }

    /// Whether the innermost span may close after `duration` with every sum
    /// in range.
    pub fn can_close_span(&self, duration: Duration) -> (r: bool)
        requires
            self.wf(),
        ensures
            r == self.span_fits(duration@),
    {
        let n = self.frames.len();
        if n == 0 {
            return true;
        }
        let top = &self.frames[n - 1];
        let fits = self.can_record(top.name, duration, top.child_duration);
        if n == 1 {
            return fits;
        }
        let parent = self.frames[n - 2].child_duration.as_nanos();
        let d = duration.as_nanos();
        fits && d <= crate::duration::MAX_NANOS - parent
    }

    /// Closes the innermost open span after `duration`, if there is one: its
    /// time counts as nested time of the span around it, and it is recorded
    /// under its name whether or not recording is on.
    pub fn close_span_with(&mut self, duration: Duration)
        requires
            old(self).wf(),
            old(self).span_fits(duration@),
        ensures
            final(self).wf(),
            old(self).spans().len() == 0 ==> *final(self) == *old(self),
            old(self).spans().len() > 0 ==> Self::closed_span(*old(self), *final(self), duration@),
    {
        let ghost before = *self;
        let n = self.frames.len();
        if n == 0 {
            return;
        }
        let frame = self.frames.pop().unwrap();
        if n > 1 {
            let child = self.frames[n - 2].child_duration.add(duration);
            self.frames[n - 2].child_duration = child;
        }
        assert(self.spans() =~= if n > 1 {
            before.spans().take(n - 1).update(n - 2, (before.spans()[n - 2].0, before.spans()[n - 2].1 + duration@))
        } else {
            before.spans().take(n - 1)
        });
        self.record_sample_enabled(frame.name, duration, frame.child_duration);
    }
}

impl ProfileGuard {
    /// Closes the innermost open span, as the end of its scope does: its
    /// duration is read from the clock. Where recording it would take a sum
    /// past the largest duration the span is dropped unrecorded.
    pub fn finish(self, profiler: &mut Profiler)
        requires
            old(profiler).wf(),
        ensures
            final(profiler).wf(),
            old(profiler).spans().len() == 0 ==> *final(profiler) == *old(profiler),
            old(profiler).spans().len() > 0 ==> exists|d: int|
                #![trigger old(profiler).span_fits(d)]
                0 <= d <= crate::duration::MAX_NANOS && if old(profiler).span_fits(d) {
                    Profiler::closed_span(*old(profiler), *final(profiler), d)
                } else {
                    Profiler::dropped_span(*old(profiler), *final(profiler))
                },
    {
        let n = profiler.frames.len();
        if n == 0 {
            return;
        }
        let duration = elapsed_since(&profiler.frames[n - 1].start);
        let ghost before = *profiler;
        if profiler.can_close_span(duration) {
            profiler.close_span_with(duration);
        } else {
            profiler.frames.pop();
            assert(profiler.spans() =~= before.spans().drop_last());
        }
        assert(before.span_fits(duration@) ==> Profiler::closed_span(before, *profiler, duration@));
    }
}

impl Timer {
    /// Records the time since the timer started under its name, when
    /// recording is on. Where that would take a sum past the largest
    /// duration nothing is recorded.
    pub fn record(self, profiler: &mut Profiler)
        requires
            old(profiler).wf(),
        ensures
            final(profiler).wf(),
            exists|d: int|
                #![trigger old(profiler).entry(self.spec_name()@).fits(d, 0)]
                0 <= d <= crate::duration::MAX_NANOS && final(profiler).metrics_map() == if old(profiler).is_on() && old(profiler).entry(self.spec_name()@).fits(d, 0) {
                    old(profiler).metrics_map().insert(self.spec_name()@, old(profiler).entry(self.spec_name()@).record(d, 0))
                } else {
                    old(profiler).metrics_map()
                },
            final(profiler).counters_map() == old(profiler).counters_map(),
            final(profiler).is_on() == old(profiler).is_on(),
            final(profiler).spans() == old(profiler).spans(),
    {
        let name = self.name();
        let duration = self.elapsed();
        let fits = profiler.can_record(name, duration, Duration::zero());
        if fits {
            profiler.record(name, duration);
        }
        assert(old(profiler).entry(self.spec_name()@).fits(duration@, 0) == fits);
    }
}

/// Closing, after `d` nanoseconds, a span just opened as `name` over
/// `before` records one sample of `d` for `name` and keeps the span stack's
/// names.
proof fn lemma_close_opened(before: Profiler, opened: Profiler, after: Profiler, name: &'static str, d: int)
    requires
        opened.spans() == before.spans().push((name@, 0)),
        opened.metrics_map() == before.metrics_map(),
        opened.counters_map() == before.counters_map(),
        opened.is_on() == before.is_on(),
        Profiler::closed_span(opened, after, d),
    ensures
        after.metrics_map() == before.metrics_map().insert(name@, before.entry(name@).record(d, 0)),
        after.spans().len() == before.spans().len(),
        forall|i: int| 0 <= i < before.spans().len() ==> (#[trigger] after.spans()[i]).0 == before.spans()[i].0,
        before.spans().len() == 0 ==> after.spans() == before.spans(),
        after.counters_map() == before.counters_map(),
        after.is_on() == before.is_on(),
{
    let n = opened.spans().len();
    assert(opened.spans()[n - 1] == (name@, 0int));
    assert(opened.spans().take(n - 1) =~= before.spans());
    assert(opened.entry(name@) == before.entry(name@));
    if n > 1 {
        assert forall|i: int| 0 <= i < before.spans().len() implies (#[trigger] after.spans()[i]).0 == before.spans()[i].0 by {
            if i == n - 2 {
            } else {
            }
        }
    }
}

/// Runs `block` inside a span named `name` when recording is on, and gives
/// its value. Its time counts as nested time of the span around it, if any.
pub fn profile<T, F: FnOnce() -> T>(profiler: &mut Profiler, name: &'static str, block: F) -> (r: T)
    requires
        old(profiler).wf(),
        block.requires(()),
    ensures
        block.ensures((), r),
        final(profiler).wf(),
        final(profiler).spans().len() == old(profiler).spans().len(),
        forall|i: int| 0 <= i < old(profiler).spans().len() ==> (#[trigger] final(profiler).spans()[i]).0 == old(profiler).spans()[i].0,
        old(profiler).spans().len() == 0 ==> final(profiler).spans() == old(profiler).spans(),
        final(profiler).counters_map() == old(profiler).counters_map(),
        final(profiler).is_on() == old(profiler).is_on(),
        !old(profiler).is_on() ==> final(profiler).metrics_map() == old(profiler).metrics_map(),
        old(profiler).is_on() ==> exists|d: int|
            #![trigger old(profiler).opened_span_fits(name@, d)]
            0 <= d <= crate::duration::MAX_NANOS && final(profiler).metrics_map() == if old(profiler).opened_span_fits(name@, d) {
                old(profiler).metrics_map().insert(name@, old(profiler).entry(name@).record(d, 0))
            } else {
                old(profiler).metrics_map()
            },
{
    let ghost before = *profiler;
    match profiler.global_span(name) {
        Some(guard) => {
            let value = block();
            let ghost opened = *profiler;
            guard.finish(profiler);
            proof {
                let d = choose|d: int|
                    #![trigger opened.span_fits(d)]
                    0 <= d <= crate::duration::MAX_NANOS && if opened.span_fits(d) {
                        Profiler::closed_span(opened, *profiler, d)
                    } else {
                        Profiler::dropped_span(opened, *profiler)
                    };
                let n = opened.spans().len();
                assert(opened.spans()[n - 1] == (name@, 0int));
                assert(opened.entry(name@) == before.entry(name@));
                if n > 1 {
                    assert(opened.spans()[n - 2] == before.spans()[n - 2]);
                }
                assert(opened.span_fits(d) == before.opened_span_fits(name@, d));
                if opened.span_fits(d) {
                    lemma_close_opened(before, opened, *profiler, name, d);
                } else {
                    assert(opened.spans().drop_last() =~= before.spans());
                }
            }
            value
        },
        None => block(),
    }
}

} // verus!
