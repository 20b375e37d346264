use phenotype_event_bus::bus::{Delivery, OutboxBus};
use phenotype_event_bus::delivery::{BusConfig, HandlerError};
use phenotype_event_bus::envelope::{EnvelopeError, EventEnvelope};
use phenotype_event_bus::outbox::OutboxStatus;

const MS: i128 = 1_000_000;
const T0: i128 = 1_700_000_000_000 * MS;

fn event(id: u128) -> EventEnvelope {
    EventEnvelope::builder("user.created", "tests", "{\"id\":1}")
        .build_with_id(id)
        .expect("event")
}

fn publish(bus: &mut OutboxBus, envelope: &EventEnvelope, now: i128) -> bool {
    bus.publish(envelope, envelope.payload.clone(), now)
        .expect("publish")
        .duplicate
}

fn deliver(bus: &mut OutboxBus, now: i128, token: u128) -> (u128, Option<u128>) {
    match bus.poll(now, token) {
        Delivery::Deliver { event, last_seen } => {
            assert_eq!(event.claim_token, token);
            (event.event_id, last_seen)
        }
        other => panic!("expected a delivery, got {other:?}"),
    }
}

#[test]
fn publish_persists_event() {
    let mut bus = OutboxBus::new(BusConfig::new());
    let envelope = event(1);
    let ack = bus
        .publish(&envelope, envelope.payload.clone(), T0)
        .expect("publish");

    assert_eq!(ack.event_id, envelope.id);
    assert!(!ack.duplicate);
    assert_eq!(bus.outbox().status(envelope.id), Some(OutboxStatus::Pending));
    assert_eq!(bus.outbox().status(envelope.id).map(|s| s.as_str()), Some("pending"));
    assert_eq!(bus.outbox().pending_count(), 1);
    assert_eq!(bus.outbox().dlq_count(), 0);
    assert_eq!(bus.metrics().events_published.get(), 1);
    assert_eq!(bus.metrics().queue_depth.get(), 1);
}

#[test]
fn duplicate_publish_is_acknowledged_once() {
    let mut bus = OutboxBus::new(BusConfig::new());
    let envelope = event(1);
    assert!(!publish(&mut bus, &envelope, T0));
    assert!(publish(&mut bus, &envelope, T0 + 5 * MS));
    assert_eq!(bus.outbox().pending_count(), 1);
    assert_eq!(bus.metrics().events_published.get(), 2);
    assert_eq!(bus.metrics().queue_depth.get(), 1);
}

#[test]
fn invalid_envelope_is_refused() {
    let mut bus = OutboxBus::new(BusConfig::new());
    let mut envelope = event(1);
    envelope.source = String::new();
    assert_eq!(
        bus.publish(&envelope, String::from("{}"), T0).err(),
        Some(EnvelopeError::EmptySource)
    );
    assert_eq!(bus.outbox().pending_count(), 0);
    assert_eq!(bus.metrics().events_published.get(), 0);
}

#[test]
fn subscribe_handles_and_acks_event() {
    let mut bus = OutboxBus::new(BusConfig::new());
    let envelope = event(1);
    publish(&mut bus, &envelope, T0);
    let (id, _) = deliver(&mut bus, T0, 10);
    assert_eq!(id, envelope.id);
    assert_eq!(bus.outbox().status(id), Some(OutboxStatus::InProgress));
    assert!(bus.complete(id, 10, Ok(()), T0 + 1 * MS));
    assert_eq!(bus.outbox().status(id), Some(OutboxStatus::Acked));
    assert_eq!(bus.outbox().pending_count(), 0);
    assert!(bus.outbox().already_handled(id));
    assert_eq!(bus.metrics().events_processed.get(), 1);
    assert_eq!(bus.metrics().queue_depth.get(), 0);
    assert!(matches!(bus.poll(T0 + 2 * MS, 11), Delivery::Idle));
}

#[test]
fn nack_retries_until_success() {
    let mut bus = OutboxBus::new(BusConfig::new().with_max_retries(3));
    let envelope = event(7);
    publish(&mut bus, &envelope, T0);
    let (id, _) = deliver(&mut bus, T0, 1);
    assert!(bus.complete(id, 1, Err(HandlerError("try again".into())), T0));
    assert_eq!(bus.outbox().status(id), Some(OutboxStatus::Retrying));
    // Not due before the back-off (11 ms for this event) has passed.
    assert!(matches!(bus.poll(T0 + 10 * MS, 2), Delivery::Idle));
    let (again, _) = deliver(&mut bus, T0 + 11 * MS, 2);
    assert_eq!(again, id);
    assert!(bus.complete(id, 2, Ok(()), T0 + 12 * MS));
    assert_eq!(bus.outbox().status(id), Some(OutboxStatus::Acked));
    assert_eq!(bus.outbox().attempts(id), Some(1));
    assert_eq!(bus.metrics().events_retried.get(), 1);
    assert_eq!(bus.metrics().events_failed.get(), 1);
    assert_eq!(bus.metrics().events_processed.get(), 1);
}

#[test]
fn nack_moves_to_dlq_after_retry_budget() {
    let mut bus = OutboxBus::new(BusConfig::new().with_max_retries(2));
    let envelope = event(7);
    publish(&mut bus, &envelope, T0);
    let (id, _) = deliver(&mut bus, T0, 1);
    assert!(bus.complete(id, 1, Err(HandlerError("always fails".into())), T0));
    let (id, _) = deliver(&mut bus, T0 + 1_000 * MS, 2);
    assert!(bus.complete(id, 2, Err(HandlerError("always fails".into())), T0 + 1_000 * MS));

    assert_eq!(bus.outbox().status(id), Some(OutboxStatus::Dlq));
    assert_eq!(bus.outbox().attempts(id), Some(2));
    assert_eq!(
        bus.outbox().last_error(id),
        Some("handler nack: always fails".into())
    );
    assert_eq!(bus.outbox().pending_count(), 0);
    assert_eq!(bus.outbox().dlq_count(), 1);
    assert_eq!(bus.metrics().queue_depth.get(), 0);
    assert_eq!(bus.metrics().dlq_depth.get(), 1);
    assert!(matches!(bus.poll(T0 + 1_000_000 * MS, 3), Delivery::Idle));
}

#[test]
fn dlq_event_can_be_replayed_and_acked() {
    let mut bus = OutboxBus::new(BusConfig::new().with_max_retries(1));
    let envelope = event(3);
    publish(&mut bus, &envelope, T0);
    let (id, _) = deliver(&mut bus, T0, 1);
    assert!(bus.complete(id, 1, Err(HandlerError("temporary outage".into())), T0));
    assert_eq!(bus.outbox().status(id), Some(OutboxStatus::Dlq));

    assert!(bus.replay_dlq(id, T0 + 5 * MS));
    assert!(!bus.replay_dlq(id, T0 + 6 * MS));
    assert_eq!(bus.outbox().attempts(id), Some(0));
    assert_eq!(bus.outbox().last_error(id), None);
    assert_eq!(bus.metrics().queue_depth.get(), 1);
    assert_eq!(bus.metrics().dlq_depth.get(), 0);

    let (again, _) = deliver(&mut bus, T0 + 5 * MS, 2);
    assert!(bus.complete(again, 2, Ok(()), T0 + 6 * MS));
    assert_eq!(bus.outbox().status(id), Some(OutboxStatus::Acked));
}

#[test]
fn handler_receives_last_seen_for_idempotency_context() {
    let mut bus = OutboxBus::new(BusConfig::new());
    let first = event(1);
    let second = event(2);
    publish(&mut bus, &first, T0);
    publish(&mut bus, &second, T0 + 1 * MS);
    let (a, seen_a) = deliver(&mut bus, T0 + 2 * MS, 1);
    assert_eq!(a, first.id);
    assert!(bus.complete(a, 1, Ok(()), T0 + 3 * MS));
    let (b, seen_b) = deliver(&mut bus, T0 + 4 * MS, 2);
    assert_eq!(b, second.id);
    assert_eq!(seen_a, None);
    assert_eq!(seen_b, Some(first.id));
}

#[test]
fn attempts_returns_none_for_unknown_event() {
    let bus = OutboxBus::new(BusConfig::new());
    assert_eq!(bus.outbox().attempts(42), None);
    assert_eq!(bus.outbox().status(42), None);
    assert_eq!(bus.outbox().last_error(42), None);
}

#[test]
fn crash_recovery_processes_pending_outbox_after_new_subscriber() {
    let mut bus = OutboxBus::new(BusConfig::new());
    let envelope = event(1);
    publish(&mut bus, &envelope, T0);
    // Any later worker finds the durable pending event.
    let (id, _) = deliver(&mut bus, T0 + 60_000 * MS, 99);
    assert_eq!(id, envelope.id);
    assert!(bus.complete(id, 99, Ok(()), T0 + 60_001 * MS));
    assert_eq!(bus.outbox().status(id), Some(OutboxStatus::Acked));
}

#[test]
fn dlq_can_be_replayed_and_pruned() {
    let mut bus = OutboxBus::new(BusConfig::new().with_max_retries(1));
    let envelope = event(1);
    publish(&mut bus, &envelope, T0);
    let (id, _) = deliver(&mut bus, T0, 1);
    assert!(bus.complete(id, 1, Err(HandlerError("permanent".into())), T0));
    assert!(bus.replay_dlq(id, T0 + 1 * MS));
    assert!(!bus.replay_dlq(id, T0 + 2 * MS));
    assert_eq!(bus.outbox().status(id), Some(OutboxStatus::Pending));
    let removed = bus.prune_dlq_before(T0 + 1_000 * MS);
    assert_eq!(removed, 0, "replayed events are not DLQ rows");
}

#[test]
fn dlq_retention_prunes_only_expired_dlq_events() {
    let mut bus = OutboxBus::new(BusConfig::new().with_max_retries(1));
    let old = event(1);
    let fresh = event(2);
    let pending = event(3);
    publish(&mut bus, &old, T0);
    publish(&mut bus, &fresh, T0 + 1 * MS);
    publish(&mut bus, &pending, T0 + 2 * MS);
    let (a, _) = deliver(&mut bus, T0 + 10 * MS, 1);
    assert!(bus.complete(a, 1, Err(HandlerError("retention test".into())), T0 + 10 * MS));
    let (b, _) = deliver(&mut bus, T0 + 500 * MS, 2);
    assert!(bus.complete(b, 2, Err(HandlerError("retention test".into())), T0 + 500 * MS));
    assert_eq!(bus.outbox().dlq_count(), 2);

    let deleted = bus.prune_dlq_before(T0 + 100 * MS);
    assert_eq!(deleted, 1);
    assert_eq!(bus.outbox().status(old.id), None);
    assert_eq!(bus.outbox().status(fresh.id), Some(OutboxStatus::Dlq));
    assert_eq!(bus.outbox().status(pending.id), Some(OutboxStatus::Pending));
    assert_eq!(bus.outbox().dlq_count(), 1);
    assert_eq!(bus.metrics().dlq_depth.get(), 1);
}

#[test]
fn refresh_metrics_reconciles_durable_queue_and_dlq_state() {
    let mut bus = OutboxBus::new(BusConfig::new().with_max_retries(1));
    let envelope = event(1);
    publish(&mut bus, &envelope, T0);

    let pending = bus.refresh_metrics(T0 + 3_000 * MS);
    assert_eq!(pending.queue_depth, 1);
    assert_eq!(pending.dlq_depth, 0);
    assert!(pending.oldest_event_age_ms >= 2_000);
    assert_eq!(pending.published, 1);

    let (id, _) = deliver(&mut bus, T0 + 3_000 * MS, 1);
    assert!(bus.complete(id, 1, Err(HandlerError("x".into())), T0 + 3_001 * MS));
    let dlq = bus.refresh_metrics(T0 + 4_000 * MS);
    assert_eq!(dlq.queue_depth, 0);
    assert_eq!(dlq.dlq_depth, 1);
    assert_eq!(dlq.oldest_event_age_ms, 0);
}

#[test]
fn stale_in_progress_event_is_reclaimed() {
    let mut bus = OutboxBus::new(BusConfig::new().with_lease_timeout(1));
    let envelope = event(1);
    publish(&mut bus, &envelope, T0);
    let (id, _) = deliver(&mut bus, T0, 1);
    // The first worker never completes; its lease runs out.
    let (again, _) = deliver(&mut bus, T0 + 5_000 * MS, 2);
    assert_eq!(again, id);
    assert!(bus.complete(id, 2, Ok(()), T0 + 5_001 * MS));
    assert_eq!(bus.outbox().status(id), Some(OutboxStatus::Acked));
}

#[test]
fn live_lease_blocks_other_workers() {
    let mut bus = OutboxBus::new(BusConfig::new());
    publish(&mut bus, &event(1), T0);
    let _ = deliver(&mut bus, T0, 1);
    assert!(matches!(bus.poll(T0 + 59_999 * MS, 2), Delivery::Idle));
}

#[test]
fn late_worker_completion_cannot_overwrite_newer_terminal_state() {
    let mut bus = OutboxBus::new(BusConfig::new());
    let envelope = event(1);
    publish(&mut bus, &envelope, T0);
    let (id, _) = deliver(&mut bus, T0, 1);
    assert!(bus.complete(id, 1, Ok(()), T0 + 1 * MS));

    assert!(!bus.complete(id, 1, Err(HandlerError("late failure".into())), T0 + 2 * MS));
    assert!(!bus.complete(id, 1, Ok(()), T0 + 3 * MS));
    assert_eq!(bus.outbox().status(id), Some(OutboxStatus::Acked));
    assert_eq!(bus.outbox().attempts(id), Some(0));
}

#[test]
fn stale_worker_cannot_finish_newer_claim() {
    let mut bus = OutboxBus::new(BusConfig::new().with_lease_timeout(1));
    let envelope = event(1);
    publish(&mut bus, &envelope, T0);
    let (first, _) = deliver(&mut bus, T0, 1);
    let (second, _) = deliver(&mut bus, T0 + 5_000 * MS, 2);
    assert_eq!(first, second);

    assert!(!bus.complete(first, 1, Err(HandlerError("late failure".into())), T0 + 5_001 * MS));
    assert!(!bus.complete(first, 1, Ok(()), T0 + 5_002 * MS));
    assert_eq!(bus.outbox().status(first), Some(OutboxStatus::InProgress));
    assert!(!bus.outbox().already_handled(first));

    assert!(bus.complete(second, 2, Ok(()), T0 + 5_003 * MS));
    assert_eq!(bus.outbox().status(first), Some(OutboxStatus::Acked));
}

#[test]
fn handled_event_is_settled_without_redelivery() {
    let mut bus = OutboxBus::new(BusConfig::new().with_lease_timeout(1));
    let envelope = event(1);
    publish(&mut bus, &envelope, T0);
    let (id, _) = deliver(&mut bus, T0, 1);
    assert!(bus.complete(id, 1, Ok(()), T0 + 1 * MS));
    assert!(bus.replay_dlq(id, T0 + 2 * MS) == false);
    // An acknowledged event is never claimed again.
    assert!(matches!(bus.poll(T0 + 10_000 * MS, 2), Delivery::Idle));
}

#[test]
fn oldest_first_delivery_order() {
    let mut bus = OutboxBus::new(BusConfig::new());
    publish(&mut bus, &event(2), T0 + 5 * MS);
    publish(&mut bus, &event(1), T0);
    publish(&mut bus, &event(3), T0 + 5 * MS);
    let (a, _) = deliver(&mut bus, T0 + 10 * MS, 1);
    let (b, _) = deliver(&mut bus, T0 + 10 * MS, 2);
    let (c, _) = deliver(&mut bus, T0 + 10 * MS, 3);
    assert_eq!((a, b, c), (1, 2, 3));
}
