use phenotype_event_bus::envelope::EventEnvelope;
use phenotype_event_bus::observability::{
    metrics, queue_metrics, retry_metrics, snapshot, sqlite_busy_retries, trace_envelope,
    worker_errors, Counter, Gauge, MetricsRegistry, MetricsSnapshot,
};

#[test]
fn trace_span_uses_event_name() {
    let envelope = EventEnvelope::builder("user.created", "tests", "{}")
        .build()
        .expect("event");
    let span = trace_envelope(&envelope);

    assert_eq!(span.name, "event");
}

#[test]
fn counters_increment() {
    let mut registry = MetricsRegistry::new();
    let (published, processed, failed) = metrics(&mut registry);
    published.reset();
    processed.reset();
    failed.reset();

    published.increment();
    processed.increment();
    processed.increment();
    failed.increment();

    assert_eq!(published.get(), 1);
    assert_eq!(processed.get(), 2);
    assert_eq!(failed.get(), 1);
}

#[test]
fn queue_gauges_track_latest_snapshot() {
    let mut registry = MetricsRegistry::new();
    let (queue_depth, dlq_depth) = queue_metrics(&mut registry);
    queue_depth.set(12);
    dlq_depth.set(3);
    assert_eq!(queue_depth.get(), 12);
    assert_eq!(dlq_depth.get(), 3);
}

#[test]
fn snapshot_contains_exportable_signal_values() {
    let mut registry = MetricsRegistry::new();
    let (retried, oldest_age) = retry_metrics(&mut registry);
    retried.reset();
    retried.increment();
    oldest_age.set(42);
    let current = snapshot(&registry);
    assert_eq!(current.retried, 1);
    assert_eq!(current.oldest_event_age_ms, 42);
}

#[test]
fn worker_errors_are_counted_separately() {
    let mut registry = MetricsRegistry::new();
    let errors = worker_errors(&mut registry);
    errors.reset();
    errors.increment();
    errors.increment();
    assert_eq!(errors.get(), 2);
}

#[test]
fn sqlite_busy_retries_are_counted_separately() {
    let mut registry = MetricsRegistry::new();
    let worker_error_count = worker_errors(&mut registry).get();
    let retries = sqlite_busy_retries(&mut registry);
    retries.reset();
    retries.increment();
    assert_eq!(retries.get(), 1);
    assert_eq!(worker_errors(&mut registry).get(), worker_error_count);
}

#[test]
fn snapshot_emits_all_stable_series() {
    let snapshot = MetricsSnapshot {
        published: 1,
        processed: 2,
        failed: 3,
        retried: 4,
        queue_depth: 5,
        dlq_depth: 6,
        oldest_event_age_ms: 7,
    };
    let mut emitted = Vec::new();
    snapshot.emit(|name, value| emitted.push((name, value)));
    assert_eq!(emitted.len(), 7);
    assert_eq!(emitted[0], ("phenotype_event_published_total", 1));
    assert_eq!(emitted[6], ("phenotype_event_oldest_age_ms", 7));
}

#[test]
fn snapshot_emits_series_in_stable_order() {
    let snapshot = MetricsSnapshot {
        published: 10,
        processed: 20,
        failed: 30,
        retried: 40,
        queue_depth: 50,
        dlq_depth: 60,
        oldest_event_age_ms: 70,
    };
    let mut emitted = Vec::new();
    snapshot.emit(|name, value| emitted.push((name, value)));
    assert_eq!(
        emitted,
        vec![
            ("phenotype_event_published_total", 10),
            ("phenotype_event_processed_total", 20),
            ("phenotype_event_failed_total", 30),
            ("phenotype_event_retried_total", 40),
            ("phenotype_event_queue_depth", 50),
            ("phenotype_event_dlq_depth", 60),
            ("phenotype_event_oldest_age_ms", 70),
        ]
    );
}

#[test]
fn counter_counts_from_zero_and_resets() {
    let mut counter = Counter::new();
    assert_eq!(counter.get(), 0);
    counter.increment();
    assert_eq!(counter.get(), 1);
    counter.reset();
    assert_eq!(counter.get(), 0);
}

#[test]
fn gauge_decrement_saturates_at_zero() {
    let mut gauge = Gauge::new();
    gauge.set(3);
    gauge.decrement_by(2);
    assert_eq!(gauge.get(), 1);
    gauge.decrement_by(5);
    assert_eq!(gauge.get(), 0);
    gauge.increment();
    assert_eq!(gauge.get(), 1);
    gauge.set(u64::MAX);
    gauge.increment();
    assert_eq!(gauge.get(), 0);
}

#[test]
fn registry_series_are_independent() {
    let mut registry = MetricsRegistry::new();
    metrics(&mut registry).0.increment();
    queue_metrics(&mut registry).1.set(9);
    let s = snapshot(&registry);
    assert_eq!(s.published, 1);
    assert_eq!(s.processed, 0);
    assert_eq!(s.queue_depth, 0);
    assert_eq!(s.dlq_depth, 9);
    assert_eq!(registry.worker_errors.get(), 0);
}

#[test]
fn trace_carries_ids_type_source_and_correlation() {
    let envelope = EventEnvelope::builder("user.created", "tests", "{}")
        .correlation_id(1)
        .build_with_id(0x0123_4567_89ab_cdef_0123_4567_89ab_cdef)
        .expect("event");
    let trace = trace_envelope(&envelope);
    assert_eq!(trace.event_id, "01234567-89ab-cdef-0123-456789abcdef");
    assert_eq!(trace.event_type, "user.created");
    assert_eq!(trace.source, "tests");
    assert_eq!(trace.correlation_id, "00000000-0000-0000-0000-000000000001");

    let plain = EventEnvelope::builder("a", "b", "{}").build_with_id(5).expect("event");
    assert_eq!(trace_envelope(&plain).correlation_id, "");
}
