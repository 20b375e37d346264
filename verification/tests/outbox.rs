use phenotype_event_bus::outbox::{Outbox, OutboxStatus};

const MS: i128 = 1_000_000;
const T0: i128 = 1_700_000_000_000 * MS;

#[test]
fn insert_claim_and_ack() {
    let mut outbox = Outbox::new();
    assert!(!outbox.insert(1, "{}".into(), T0));
    assert!(outbox.insert(1, "{}".into(), T0));
    let claim = outbox.claim_next(T0, T0 - 60_000 * MS, 7).expect("claim");
    assert_eq!(claim.event_id, 1);
    assert_eq!(claim.envelope, "{}");
    assert!(outbox.holds_claim_on(1, 7));
    assert!(!outbox.holds_claim_on(1, 8));
    assert!(outbox.claim_next(T0, T0 - 60_000 * MS, 8).is_none());
    assert!(!outbox.mark_handled(1, 8, T0));
    assert!(outbox.mark_handled(1, 7, T0 + 1 * MS));
    assert_eq!(outbox.status(1), Some(OutboxStatus::Acked));
    assert_eq!(outbox.last_seen(), Some(1));
    assert!(outbox.already_handled(1));
    assert_eq!(outbox.pending_count(), 0);
}

#[test]
fn failure_needs_the_current_claim() {
    let mut outbox = Outbox::new();
    outbox.insert(1, "{}".into(), T0);
    assert!(!outbox.mark_failed(1, 3, "boom".into(), T0, 3));
    outbox.claim_next(T0, T0 - 1 * MS, 3).expect("claim");
    assert!(outbox.mark_failed(1, 3, "boom".into(), T0, 3));
    assert_eq!(outbox.status(1), Some(OutboxStatus::Retrying));
    assert_eq!(outbox.attempts(1), Some(1));
    assert_eq!(outbox.last_error(1), Some("boom".into()));
    assert!(!outbox.mark_failed(2, 3, "missing".into(), T0, 3));
}

#[test]
fn prune_keeps_order_of_survivors() {
    let mut outbox = Outbox::new();
    for id in 1..=4u128 {
        outbox.insert(id, "{}".into(), T0 + id as i128 * MS);
    }
    for token in 1..=2u128 {
        let claim = outbox.claim_next(T0 + 100 * MS, T0, token).expect("claim");
        assert!(outbox.mark_failed(claim.event_id, token, "x".into(), T0 + 100 * MS, 1));
    }
    assert_eq!(outbox.dlq_count(), 2);
    assert_eq!(outbox.prune_dlq_before(T0 + 101 * MS), 2);
    assert_eq!(outbox.status(1), None);
    assert_eq!(outbox.status(2), None);
    assert_eq!(outbox.pending_count(), 2);
    assert_eq!(outbox.oldest_pending_created_at(), Some(T0 + 3 * MS));
    let next = outbox.claim_next(T0 + 200 * MS, T0, 9).expect("claim");
    assert_eq!(next.event_id, 3);
}

#[test]
fn last_seen_is_latest_handled() {
    let mut outbox = Outbox::new();
    assert_eq!(outbox.last_seen(), None);
    for id in 1..=3u128 {
        outbox.insert(id, "{}".into(), T0);
    }
    for (token, at) in [(1u128, 30i128), (2, 10), (3, 30)] {
        let claim = outbox.claim_next(T0, T0 - 1 * MS, token).expect("claim");
        assert!(outbox.mark_handled(claim.event_id, token, T0 + at * MS));
    }
    assert_eq!(outbox.last_seen(), Some(3));
}

#[test]
fn status_text() {
    assert_eq!(OutboxStatus::Pending.as_str(), "pending");
    assert_eq!(OutboxStatus::Retrying.as_str(), "retrying");
    assert_eq!(OutboxStatus::InProgress.as_str(), "in_progress");
    assert_eq!(OutboxStatus::Acked.as_str(), "acked");
    assert_eq!(OutboxStatus::Dlq.as_str(), "dlq");
}

#[test]
fn racing_workers_claim_once() {
    let mut outbox = Outbox::new();
    outbox.insert(1, "{}".into(), T0);
    let cutoff = T0 - 60_000 * MS;
    let chosen_a = outbox.next_claimable(T0, cutoff);
    let chosen_b = outbox.next_claimable(T0, cutoff);
    assert_eq!(chosen_a, Some(1));
    assert_eq!(chosen_b, Some(1));
    assert!(outbox.claim_if_claimable(1, T0, cutoff, 10));
    assert!(!outbox.claim_if_claimable(1, T0, cutoff, 11));
    assert!(outbox.holds_claim_on(1, 10));
    assert!(!outbox.claim_if_claimable(2, T0, cutoff, 12));
    assert_eq!(outbox.next_claimable(T0, cutoff), None);
    // Once the lease has run out, another worker can take it over.
    assert!(outbox.claim_if_claimable(1, T0 + 61_000 * MS, T0 + MS, 11));
    assert!(outbox.holds_claim_on(1, 11));
}
