use chrono::Duration;
use phenotype_event_bus::bus::{
    after_poll, claimed_action, completion, oldest_event_age_ms, record_completion, ClaimedAction,
    Completion, PollOutcome, WorkerAction,
};
use phenotype_event_bus::delivery::{
    failure_update, instant_nanos, instant_parts, is_duplicate_column_error, is_sqlite_busy,
    lease_cutoff, retry_delay, BusConfig, BusyAction, BusyRetry, HandlerError,
};
use phenotype_event_bus::observability::MetricsRegistry;
use phenotype_event_bus::outbox::OutboxStatus;
use uuid::Uuid;

#[test]
fn retry_delay_is_bounded_exponential_and_event_stable() {
    let event_id = Uuid::from_u128(7).as_u128();
    assert!(retry_delay(event_id, 2) > retry_delay(event_id, 1));
    assert_eq!(
        Duration::milliseconds(retry_delay(event_id, 100)),
        chrono::Duration::seconds(30)
    );
    assert_eq!(retry_delay(event_id, 3), retry_delay(event_id, 3));
}

#[test]
fn retry_delay_exact_values() {
    assert_eq!(retry_delay(7, 1), 11);
    assert_eq!(retry_delay(7, 2), 22);
    assert_eq!(retry_delay(7, 3), 47);
    assert_eq!(retry_delay(7, 12), 20_487);
    assert_eq!(retry_delay(7, 13), 30_000);
    assert_eq!(retry_delay(0, 1), 10);
    assert_eq!(retry_delay(u128::MAX, 4), 80 + (u128::MAX % 20) as i64);
}

#[test]
fn retry_delay_never_decreases() {
    for id in [0u128, 1, 7, 12345, u128::MAX] {
        let mut previous = 0;
        for attempt in 1..40 {
            let d = retry_delay(id, attempt);
            assert!(d >= previous);
            assert!((10..=30_000).contains(&d));
            previous = d;
        }
    }
}

#[test]
fn failure_moves_to_dlq_when_budget_spent() {
    let retry = failure_update(7, 0, 1_000_000_000, 3);
    assert_eq!(retry.status, OutboxStatus::Retrying);
    assert_eq!(retry.attempts, 1);
    assert_eq!(retry.next_attempt_at, 1_011_000_000);
    let dead = failure_update(7, 2, 1_000_000_000, 3);
    assert_eq!(dead.status, OutboxStatus::Dlq);
    assert_eq!(dead.attempts, 3);
}

#[test]
fn config_defaults_and_builders() {
    let config = BusConfig::new();
    assert_eq!(config.max_retries, 3);
    assert_eq!(config.poll_interval_ms, 25);
    assert_eq!(config.lease_timeout_ns, 60_000_000_000);
    assert_eq!(config.with_max_retries(5).max_retries, 5);
    assert_eq!(config.with_lease_timeout(0).lease_timeout_ns, 1_000_000);
    assert_eq!(config.with_lease_timeout(1_500_000).lease_timeout_ns, 1_500_000);
}

#[test]
fn lease_cutoff_subtracts_the_lease() {
    assert_eq!(lease_cutoff(1_000, 100), 900);
    assert_eq!(lease_cutoff(1_000, u128::MAX), 1_000 - 60_000_000_000);
    assert_eq!(
        lease_cutoff(0, 9_223_372_036_854_775_807_000_000),
        -9_223_372_036_854_775_807_000_000
    );
    assert_eq!(
        lease_cutoff(0, 9_223_372_036_854_775_807_000_001),
        -60_000_000_000
    );
}

#[test]
fn sqlite_busy_detection() {
    assert!(is_sqlite_busy(Some("5"), "whatever"));
    assert!(is_sqlite_busy(Some("6"), "error: database is locked (code 5)"));
    assert!(is_sqlite_busy(None, "database is locked"));
    assert!(!is_sqlite_busy(Some("55"), "disk I/O error"));
    assert!(!is_sqlite_busy(None, "database is lock"));
}

#[test]
fn busy_retries_back_off_and_give_up() {
    let mut registry = MetricsRegistry::new();
    let mut retry = BusyRetry::new();
    let mut sleeps = Vec::new();
    loop {
        match retry.on_error(&mut registry, true) {
            BusyAction::Sleep(ms) => sleeps.push(ms),
            BusyAction::GiveUp => break,
        }
    }
    assert_eq!(sleeps, vec![2, 4, 8, 16, 32, 64, 128, 250]);
    assert_eq!(registry.sqlite_busy_retries.get(), 8);
    let mut other = BusyRetry::new();
    assert_eq!(other.on_error(&mut registry, false), BusyAction::GiveUp);
    assert_eq!(registry.sqlite_busy_retries.get(), 8);
}

#[test]
fn handler_error_message_is_prefixed() {
    assert_eq!(
        HandlerError("always fails".into()).message(),
        "handler nack: always fails"
    );
}

#[test]
fn worker_backs_off_after_idle_or_error() {
    let mut registry = MetricsRegistry::new();
    let config = BusConfig::new();
    assert_eq!(after_poll(&mut registry, &config, PollOutcome::Processed), WorkerAction::PollAgain);
    assert_eq!(after_poll(&mut registry, &config, PollOutcome::Idle), WorkerAction::Sleep(25));
    assert_eq!(registry.worker_errors.get(), 0);
    assert_eq!(after_poll(&mut registry, &config, PollOutcome::Failed), WorkerAction::Sleep(25));
    assert_eq!(registry.worker_errors.get(), 1);
}

#[test]
fn oldest_age_reads_rfc3339() {
    const MS: i128 = 1_000_000;
    assert_eq!(oldest_event_age_ms(Some("1970-01-01T00:00:01+00:00"), 3_000 * MS), 2_000);
    assert_eq!(oldest_event_age_ms(Some("1970-01-01T00:00:05Z"), 3_000 * MS), 0);
    assert_eq!(oldest_event_age_ms(Some("not a time"), 3_000 * MS), 0);
    assert_eq!(oldest_event_age_ms(None, 3_000 * MS), 0);
    // The difference is taken at full precision, then truncated.
    assert_eq!(
        oldest_event_age_ms(Some("1970-01-01T00:00:00.000900Z"), 2 * MS + 100_000),
        1
    );
    assert_eq!(
        oldest_event_age_ms(Some("1970-01-01T01:00:00+01:00"), 5 * MS),
        5
    );
}

#[test]
fn instants_convert_between_parts_and_nanoseconds() {
    assert_eq!(instant_nanos(1, 5), 1_000_000_005);
    assert_eq!(instant_nanos(-1, 999_999_999), -1);
    assert_eq!(instant_parts(1_000_000_005), Some((1, 5)));
    assert_eq!(instant_parts(-1), Some((-1, 999_999_999)));
    assert_eq!(instant_parts(i128::MAX), None);
}

#[test]
fn duplicate_column_errors_are_recognised() {
    assert!(is_duplicate_column_error(
        "error returned from database: (code: 1) duplicate column name: claim_token"
    ));
    assert!(!is_duplicate_column_error("no such table: outbox"));
}

#[test]
fn worker_completion_decisions() {
    assert_eq!(claimed_action(true), ClaimedAction::Acknowledge);
    assert_eq!(claimed_action(false), ClaimedAction::Deliver);
    assert!(matches!(completion(Ok(())), Completion::Acknowledge));
    match completion(Err(HandlerError("boom".into()))) {
        Completion::Fail(message) => assert_eq!(message, "handler nack: boom"),
        Completion::Acknowledge => panic!("expected a failure"),
    }
    let mut registry = MetricsRegistry::new();
    registry.queue_depth.set(2);
    record_completion(&mut registry, None);
    assert_eq!(registry.queue_depth.get(), 2);
    record_completion(&mut registry, Some(OutboxStatus::Acked));
    assert_eq!(registry.events_processed.get(), 1);
    assert_eq!(registry.queue_depth.get(), 1);
    record_completion(&mut registry, Some(OutboxStatus::Retrying));
    assert_eq!(registry.events_retried.get(), 1);
    assert_eq!(registry.events_failed.get(), 1);
    record_completion(&mut registry, Some(OutboxStatus::Dlq));
    assert_eq!(registry.queue_depth.get(), 0);
    assert_eq!(registry.dlq_depth.get(), 1);
    assert_eq!(registry.events_failed.get(), 2);
}
