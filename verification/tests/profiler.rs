use oxlint_plugins::duration::Duration;
use oxlint_plugins::profiler::allocation::{AllocationSnapshot, CacheStats};
use oxlint_plugins::profiler::metrics::{average_duration, bucket_upper_bound, duration_bucket, CounterMetrics, Metrics};
use oxlint_plugins::profiler::registry::{profile, usize_to_u64, Profiler};
use oxlint_plugins::profiler::summary::ProfileEntry;

#[test]
fn disabled_profiler_does_not_record() {
    let mut profiler = Profiler::new();

    profiler.record("scan", Duration::from_micros(10));

    assert!(profiler.get("scan").is_none());
}

#[test]
fn global_profile_macro_records_spans() {
    let mut profiler = Profiler::new();
    profiler.clear();
    profiler.enable();

    let value = profile(&mut profiler, "macro.scan", || 42);

    profiler.disable();
    assert_eq!(value, 42);
    assert_eq!(profiler.get("macro.scan").map(|entry| entry.count), Some(1));
    profiler.clear();
}

#[test]
fn records_samples_with_nested_time() {
    let mut profiler = Profiler::enabled();
    profiler.record("scan", Duration::from_micros(5));
    profiler.record_sample_enabled("scan", Duration::from_micros(20), Duration::from_micros(7));
    profiler.disable();

    let metrics = profiler.get("scan").expect("profile entry should exist");
    assert_eq!(metrics.count, 2);
    assert_eq!(metrics.total_duration, Duration::from_micros(25));
    assert_eq!(metrics.self_duration, Duration::from_micros(18));
    assert_eq!(metrics.child_duration, Duration::from_micros(7));
    assert_eq!(metrics.min_duration, Duration::from_micros(5));
    assert_eq!(metrics.max_duration, Duration::from_micros(20));
    assert_eq!(metrics.min_self_duration, Duration::from_micros(5));
    assert_eq!(metrics.max_self_duration, Duration::from_micros(13));

    let summary = profiler.summary(|count| (count, count, count));
    assert_eq!(summary.entries.len(), 1);
    assert_eq!(summary.entries[0].name, "scan");
}

#[test]
fn records_counters_and_file_io() {
    let mut profiler = Profiler::enabled();
    profiler.record_counter("files", 2);
    profiler.record_counter("files", 4);
    profiler.record_fs_read(10);
    profiler.record_fs_write_failure(3);
    let files = profiler.counter("files").expect("counter");
    assert_eq!(files.samples, 2);
    assert_eq!(files.total, 6);
    assert_eq!(files.min, 2);
    assert_eq!(files.max, 4);
    assert_eq!(profiler.counter("io.read.bytes").map(|c| c.total), Some(10));
    assert_eq!(profiler.counter("io.write.failures").map(|c| c.samples), Some(1));
    assert!(profiler.counter("io.write.bytes").is_none());
    profiler.disable();
    profiler.record_counter("files", 100);
    assert_eq!(profiler.counter("files").map(|c| c.total), Some(6));
}

#[test]
fn clear_forgets_everything_but_the_switch() {
    let mut profiler = Profiler::enabled();
    profiler.record("a", Duration::from_millis(1));
    profiler.record_counter("c", 1);
    profiler.clear();
    assert!(profiler.get("a").is_none());
    assert!(profiler.counter("c").is_none());
    assert!(profiler.all().is_empty());
    assert!(profiler.is_enabled());
}

#[test]
fn every_name_is_listed_once() {
    let mut profiler = Profiler::enabled();
    for name in ["a", "b", "c", "a", "b", "a"] {
        profiler.record(name, Duration::from_micros(1));
    }
    let mut all: Vec<(&str, u64)> = profiler.all().into_iter().map(|(n, m)| (n, m.count)).collect();
    all.sort();
    assert_eq!(all, vec![("a", 3), ("b", 2), ("c", 1)]);
}

#[test]
fn summary_puts_the_longest_total_first() {
    let mut profiler = Profiler::enabled();
    profiler.record("short", Duration::from_micros(3));
    profiler.record("long", Duration::from_millis(3));
    profiler.record("middle", Duration::from_micros(300));
    let summary = profiler.summary(|count| (count, count, count));
    let names: Vec<&str> = summary.entries.iter().map(|e| e.name).collect();
    assert_eq!(names, vec!["long", "middle", "short"]);
    assert!(summary.has_slow_operations(Duration::from_millis(1)));
    assert!(!summary.has_slow_operations(Duration::from_millis(5)));
    let slow: Vec<&str> = summary.slow_operations(Duration::from_micros(100)).iter().map(|e| e.name).collect();
    assert_eq!(slow, vec!["long", "middle"]);
}

#[test]
fn histogram_buckets_are_powers_of_two_microseconds() {
    assert_eq!(duration_bucket(Duration::from_nanos(0)), 0);
    assert_eq!(duration_bucket(Duration::from_micros(1)), 0);
    assert_eq!(duration_bucket(Duration::from_micros(2)), 1);
    assert_eq!(duration_bucket(Duration::from_micros(3)), 2);
    assert_eq!(duration_bucket(Duration::from_micros(1024)), 10);
    assert_eq!(duration_bucket(Duration::from_micros(1025)), 11);
    assert_eq!(duration_bucket(Duration::max_value()), 47);
    assert_eq!(bucket_upper_bound(0), Duration::from_micros(1));
    assert_eq!(bucket_upper_bound(10), Duration::from_micros(1024));
    assert_eq!(bucket_upper_bound(63), Duration::max_value());
}

#[test]
fn averages_divide_and_saturate() {
    assert_eq!(average_duration(Duration::from_nanos(10), 0), Duration::zero());
    assert_eq!(average_duration(Duration::from_nanos(10), 3), Duration::from_nanos(3));
    assert_eq!(average_duration(Duration::max_value(), 1), Duration::from_nanos(u64::MAX));
}

#[test]
fn percentile_rank_walks_the_histogram() {
    let mut m = Metrics::new();
    assert_eq!(m.percentile_at_rank(1), Duration::zero());
    m.record(Duration::from_micros(1));
    m.record(Duration::from_micros(3));
    m.record(Duration::from_micros(100));
    assert_eq!(m.percentile_at_rank(0), Duration::from_micros(1));
    assert_eq!(m.percentile_at_rank(2), Duration::from_micros(4));
    assert_eq!(m.percentile_at_rank(3), Duration::from_micros(128));
    assert_eq!(m.percentile_at_rank(4), bucket_upper_bound(47));
    assert_eq!(m.samples_over_1ms(), 0);
    m.record(Duration::from_millis(150));
    assert_eq!(m.samples_over_1ms(), 1);
    assert_eq!(m.samples_over_10ms(), 1);
    assert_eq!(m.samples_over_100ms(), 1);
    assert_eq!(m.average(), Duration::from_nanos(150_104_000 / 4));
}

#[test]
fn counter_metrics_saturate() {
    let mut c = CounterMetrics::new();
    c.record(u64::MAX);
    c.record(5);
    assert_eq!(c.samples, 2);
    assert_eq!(c.total, u64::MAX);
    assert_eq!(c.min, 5);
    assert_eq!(c.max, u64::MAX);
}

#[test]
fn entry_reports_its_metrics() {
    let mut m = Metrics::new();
    m.record_with_child(Duration::from_micros(10), Duration::from_micros(4));
    let e = ProfileEntry::from_metrics("x", &m, (1, 1, 1));
    assert_eq!(e.count, 1);
    assert_eq!(e.self_total, Duration::from_micros(6));
    assert_eq!(e.p50, Duration::from_micros(16));
}

#[test]
fn allocation_sums_saturate_and_net_is_signed() {
    let s = AllocationSnapshot {
        alloc_calls: u64::MAX,
        alloc_zeroed_calls: 1,
        alloc_bytes: 10,
        realloc_new_bytes: 5,
        dealloc_bytes: 20,
        realloc_old_bytes: 2,
        ..AllocationSnapshot::default()
    };
    assert_eq!(s.allocation_calls(), u64::MAX);
    assert_eq!(s.requested_bytes(), 15);
    assert_eq!(s.released_bytes(), 22);
    assert_eq!(s.net_bytes(), -7);
    assert_eq!(s.allocation_failures(), 0);
}

#[test]
fn cache_counts_wrap() {
    let mut stats = CacheStats::new();
    stats.hit();
    stats.miss();
    stats.set_entries(3);
    assert_eq!((stats.hits, stats.misses, stats.entries), (1, 1, 3));
    stats.hits = u64::MAX;
    stats.hit();
    assert_eq!(stats.hits, 0);
    stats.reset();
    assert_eq!((stats.hits, stats.misses, stats.entries), (0, 0, 0));
}

#[test]
fn sizes_convert_to_u64() {
    assert_eq!(usize_to_u64(7), 7);
}

#[test]
fn timers_exist_only_while_enabled() {
    let mut profiler = Profiler::new();
    assert!(profiler.timer("t").is_none());
    profiler.enable();
    let timer = profiler.timer("t").expect("timer");
    assert_eq!(timer.name(), "t");
    timer.record(&mut profiler);
    assert_eq!(profiler.get("t").map(|m| m.count), Some(1));
}

#[test]
fn spans_nest_and_close_innermost_first() {
    let mut profiler = Profiler::enabled();
    let outer = profiler.global_span("outer").expect("span");
    let inner = profiler.global_span("inner").expect("span");
    profiler.close_span_with(Duration::from_micros(30));
    inner_done(inner);
    profiler.close_span_with(Duration::from_micros(100));
    outer_done(outer);
    let outer = profiler.get("outer").expect("outer");
    assert_eq!(outer.child_duration, Duration::from_micros(30));
    assert_eq!(outer.self_duration, Duration::from_micros(70));
    assert_eq!(profiler.get("inner").map(|m| m.count), Some(1));
}

fn inner_done(_guard: oxlint_plugins::profiler::registry::ProfileGuard) {}

fn outer_done(_guard: oxlint_plugins::profiler::registry::ProfileGuard) {}

#[test]
fn sample_history_keeps_counts_ordered_and_time_split() {
    let mut m = Metrics::new();
    let samples = [(250u64, 50u64), (5, 0), (120, 120), (15, 3)];
    for (d, c) in samples {
        m.record_with_child(Duration::from_millis(d), Duration::from_millis(c));
    }
    assert_eq!(m.count, 4);
    assert!(m.min_duration.as_nanos() <= m.max_duration.as_nanos());
    assert!(m.min_self_duration.as_nanos() <= m.max_self_duration.as_nanos());
    assert_eq!(m.samples_over_100ms(), 2);
    assert_eq!(m.samples_over_10ms(), 3);
    assert_eq!(m.samples_over_1ms(), 4);
    assert_eq!(m.self_duration.as_nanos() + m.child_duration.as_nanos(), m.total_duration.as_nanos());
}

#[test]
fn counter_minimum_is_zero_before_any_value() {
    let mut c = CounterMetrics::new();
    assert_eq!(c.shown_min(), 0);
    c.record(7);
    c.record(3);
    assert_eq!(c.shown_min(), 3);
}

#[test]
fn flag_follows_the_last_toggle() {
    let mut p = Profiler::new();
    assert!(!p.is_enabled());
    p.enable();
    p.record_counter("hits", 1);
    p.disable();
    p.enable();
    p.clear();
    assert!(p.is_enabled());
    p.disable();
    p.record_counter("hits", 2);
    assert!(!p.is_enabled());
    assert!(Profiler::enabled().is_enabled());
}

#[test]
fn all_lists_the_names_sampled_since_the_last_clear() {
    let mut profiler = Profiler::enabled();
    profiler.record("old", Duration::from_micros(1));
    profiler.clear();
    profiler.record("a", Duration::from_micros(2));
    profiler.record("b", Duration::from_micros(3));
    profiler.record("a", Duration::from_micros(4));
    let all = profiler.all();
    assert_eq!(all.len(), 2);
    assert!(all.iter().any(|(name, m)| *name == "a" && m.count == 2));
    assert!(all.iter().any(|(name, m)| *name == "b" && m.count == 1));
    assert!(!all.iter().any(|(name, _)| *name == "old"));
}
