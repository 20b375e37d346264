//! The bus over its outbox: publishing, the worker's claim-deliver-complete
//! cycle, dead-letter handling, and the bookkeeping of the bus-wide series
//! that goes with each step.

use vstd::prelude::*;
use crate::delivery::{BusConfig, Ack, HandlerError, lease_cutoff, effective_lease_ns, nack_text, MAX_RETRY_DELAY_NS, NANOS_PER_MILLI, instant_ns, instant_nanos};
use crate::envelope::{EventEnvelope, EnvelopeError, validation};
use crate::observability::{MetricsRegistry, MetricsSnapshot, RegistryView, wrapping_succ, snapshot};
use crate::outbox::{oldest_queued_created_at, Outbox, OutboxRow, HandledEvent, failed, replayed, pruned, expired_dlq, lemma_prune_keeps_live_rows, OutboxStatus, ClaimedEvent, queued_count, dlq_count_of, row_for, holds_claim, has_row, fresh_row, any_claimable, is_next_claim, was_handled, acked, claimed, row_index, last_handled, lemma_status_count_bound, lemma_status_count_push, lemma_status_count_update};

verus! {

/// `x - amount`, stopping at zero.
pub open spec fn saturating_minus(x: u64, amount: u64) -> u64 {
    if x >= amount { (x - amount) as u64 } else { 0 }
}

/// Records a publish: one more published event, and one more queued event
/// unless it was a duplicate.
pub fn record_publish(registry: &mut MetricsRegistry, duplicate: bool)
    ensures
        final(registry)@ == (RegistryView {
            published: wrapping_succ(old(registry)@.published),
            queue_depth: if duplicate { old(registry)@.queue_depth } else { wrapping_succ(old(registry)@.queue_depth) },
            ..old(registry)@
        }),
{
    registry.events_published.increment();
    if !duplicate {
        registry.queue_depth.increment();
    }
}

/// Records an acknowledged delivery: one more processed event, one fewer
/// queued event.
pub fn record_ack(registry: &mut MetricsRegistry)
    ensures
        final(registry)@ == (RegistryView {
            processed: wrapping_succ(old(registry)@.processed),
            queue_depth: saturating_minus(old(registry)@.queue_depth, 1),
            ..old(registry)@
        }),
{
    registry.queue_depth.decrement_by(1);
    registry.events_processed.increment();
}

/// Records a refused delivery that left the event with `status`: one more
/// failed event, and one more retried event, or a move from the queue to
/// the dead-letter queue.
pub fn record_failure(registry: &mut MetricsRegistry, status: OutboxStatus)
    ensures
        final(registry)@ == (if status is Dlq {
            RegistryView {
                failed: wrapping_succ(old(registry)@.failed),
                queue_depth: saturating_minus(old(registry)@.queue_depth, 1),
                dlq_depth: wrapping_succ(old(registry)@.dlq_depth),
                ..old(registry)@
            }
        } else {
            RegistryView {
                failed: wrapping_succ(old(registry)@.failed),
                retried: wrapping_succ(old(registry)@.retried),
                ..old(registry)@
            }
        }),
{
    match status {
        OutboxStatus::Dlq => {
            registry.queue_depth.decrement_by(1);
            registry.dlq_depth.increment();
        },
        _ => {
            registry.events_retried.increment();
        },
    }
    registry.events_failed.increment();
}

/// Records a replay: the event moves from the dead-letter queue back to the
/// queue.
pub fn record_replay(registry: &mut MetricsRegistry)
    ensures
        final(registry)@ == (RegistryView {
            queue_depth: wrapping_succ(old(registry)@.queue_depth),
            dlq_depth: saturating_minus(old(registry)@.dlq_depth, 1),
            ..old(registry)@
        }),
{
    registry.queue_depth.increment();
    registry.dlq_depth.decrement_by(1);
}

/// Records a prune that deleted `removed` dead-lettered events.
pub fn record_prune(registry: &mut MetricsRegistry, removed: u64)
    ensures
        final(registry)@ == (RegistryView {
            dlq_depth: saturating_minus(old(registry)@.dlq_depth, removed),
            ..old(registry)@
        }),
{
    if removed > 0 {
        registry.dlq_depth.decrement_by(removed);
    }
}

/// Resets the queue gauges from counts read off the store, and returns the
/// snapshot with those counts. Negative counts read as zero.
pub fn reconcile_metrics(registry: &mut MetricsRegistry, pending: i64, dlq: i64, oldest_event_age_ms: u64) -> (s: MetricsSnapshot)
    ensures
        final(registry)@ == (RegistryView {
            queue_depth: if pending > 0 { pending as u64 } else { 0 },
            dlq_depth: if dlq > 0 { dlq as u64 } else { 0 },
            oldest_event_age_ms,
            ..old(registry)@
        }),
        s == (MetricsSnapshot {
            published: old(registry)@.published,
            processed: old(registry)@.processed,
            failed: old(registry)@.failed,
            retried: old(registry)@.retried,
            queue_depth: if pending > 0 { pending as u64 } else { 0 },
            dlq_depth: if dlq > 0 { dlq as u64 } else { 0 },
            oldest_event_age_ms,
        }),
{
    let queue_depth: u64 = if pending > 0 { pending as u64 } else { 0 };
    let dlq_depth: u64 = if dlq > 0 { dlq as u64 } else { 0 };
    registry.queue_depth.set(queue_depth);
    registry.dlq_depth.set(dlq_depth);
    registry.oldest_event_age_ms.set(oldest_event_age_ms);
    snapshot(registry)
}

/// What a worker does with an event it has claimed.
#[derive(Debug, Clone, Copy, PartialEq, Eq, Structural)]
pub enum ClaimedAction {
    /// The event was handled before: acknowledge it without calling the
    /// handler.
    Acknowledge,
    /// Hand the event to the handler.
    Deliver,
}

/// A claimed event that the handled-event log already records is
/// acknowledged without delivery; any other is delivered.
pub fn claimed_action(already_handled: bool) -> (a: ClaimedAction)
    ensures
        a == (if already_handled { ClaimedAction::Acknowledge } else { ClaimedAction::Deliver }),
{
    if already_handled {
        ClaimedAction::Acknowledge
    } else {
        ClaimedAction::Deliver
    }
}

/// How a delivery is completed in the store.
#[derive(Debug)]
pub enum Completion {
    /// Acknowledge the event.
    Acknowledge,
    /// Record a failed attempt with this error text.
    Fail(String),
}

/// The completion for a handler's outcome: acknowledge on success; on a
/// refusal, a failed attempt recorded as `handler nack: ` and the reason.
pub fn completion(outcome: Result<(), HandlerError>) -> (c: Completion)
    ensures
        outcome is Ok ==> c is Acknowledge,
        outcome matches Err(e) ==> c matches Completion::Fail(m) && m@ == nack_text(e.0@),
{
    match outcome {
        Ok(()) => Completion::Acknowledge,
        Err(e) => Completion::Fail(e.message()),
    }
}

/// Records what a completion left in the store: nothing when the worker no
/// longer held the claim (`None`), an acknowledgement, or a failed attempt
/// that left the event with the given status.
pub fn record_completion(registry: &mut MetricsRegistry, stored: Option<OutboxStatus>)
    ensures
        final(registry)@ == (match stored {
            None => old(registry)@,
            Some(OutboxStatus::Acked) => RegistryView {
                processed: wrapping_succ(old(registry)@.processed),
                queue_depth: saturating_minus(old(registry)@.queue_depth, 1),
                ..old(registry)@
            },
            Some(OutboxStatus::Dlq) => RegistryView {
                failed: wrapping_succ(old(registry)@.failed),
                queue_depth: saturating_minus(old(registry)@.queue_depth, 1),
                dlq_depth: wrapping_succ(old(registry)@.dlq_depth),
                ..old(registry)@
            },
            Some(_) => RegistryView {
                failed: wrapping_succ(old(registry)@.failed),
                retried: wrapping_succ(old(registry)@.retried),
                ..old(registry)@
            },
        }),
{
    match stored {
        None => {},
        Some(OutboxStatus::Acked) => record_ack(registry),
        Some(status) => record_failure(registry, status),
    }
}

/// How a worker's poll ended.
#[derive(Debug, Clone, Copy, PartialEq, Eq, Structural)]
pub enum PollOutcome {
    /// An event was claimed and dealt with.
    Processed,
    /// Nothing was due.
    Idle,
    /// The store failed.
    Failed,
}

/// What a worker does after a poll.
#[derive(Debug, Clone, Copy, PartialEq, Eq, Structural)]
pub enum WorkerAction {
    /// Poll again at once.
    PollAgain,
    /// Sleep this many milliseconds, then poll.
    Sleep(u64),
}

/// The worker loop's decision: after a processed event poll again at once;
/// when idle sleep for the poll interval; after a store failure count a
/// worker error and sleep for the poll interval.
pub fn after_poll(registry: &mut MetricsRegistry, config: &BusConfig, outcome: PollOutcome) -> (a: WorkerAction)
    ensures
        a == (match outcome {
            PollOutcome::Processed => WorkerAction::PollAgain,
            _ => WorkerAction::Sleep(config.poll_interval_ms),
        }),
        final(registry)@ == (if outcome is Failed {
            RegistryView { worker_errors: wrapping_succ(old(registry)@.worker_errors), ..old(registry)@ }
        } else {
            old(registry)@
        }),
{
    match outcome {
        PollOutcome::Processed => WorkerAction::PollAgain,
        PollOutcome::Idle => WorkerAction::Sleep(config.poll_interval_ms),
        PollOutcome::Failed => {
            registry.worker_errors.increment();
            WorkerAction::Sleep(config.poll_interval_ms)
        },
    }
}

} // verus!

verus! {

/// Every event still owed a delivery has attempts left: none yet, or fewer
/// than `max_retries`.
pub open spec fn attempts_within_budget(rows: Seq<OutboxRow>, max_retries: i64) -> bool {
    forall|i: int|
        0 <= i < rows.len() && (#[trigger] rows[i]).status.is_queued() ==> rows[i].attempts == 0
            || rows[i].attempts < max_retries
}

proof fn lemma_prune_keeps_budget(rows: Seq<OutboxRow>, cutoff: i128, max_retries: i64)
    requires
        attempts_within_budget(rows, max_retries),
    ensures
        attempts_within_budget(pruned(rows, cutoff), max_retries),
    decreases rows.len(),
{
    reveal(Seq::filter);
    if rows.len() > 0 {
        let sub = rows.drop_last();
        assert forall|i: int|
            0 <= i < sub.len() && (#[trigger] sub[i]).status.is_queued() implies sub[i].attempts == 0
            || sub[i].attempts < max_retries by {
            assert(sub[i] == rows[i]);
        }
        lemma_prune_keeps_budget(sub, cutoff, max_retries);
        let p = pruned(sub, cutoff);
        if !expired_dlq(rows.last(), cutoff) {
            let q = p.push(rows.last());
            assert forall|i: int|
                0 <= i < q.len() && (#[trigger] q[i]).status.is_queued() implies q[i].attempts == 0
                || q[i].attempts < max_retries by {
                if i < p.len() {
                    assert(q[i] == p[i]);
                } else {
                    assert(q[i] == rows[rows.len() - 1]);
                }
            }
        }
    }
}

/// Whole milliseconds from `oldest` to `now` (both in nanoseconds), and
/// zero where there is no `oldest` or it is not earlier; at most `u64::MAX`.
pub open spec fn age_ms(oldest: Option<i128>, now: i128) -> u64 {
    match oldest {
        None => 0,
        Some(t) => if now - t > 0 {
            if (now - t) / NANOS_PER_MILLI as int <= u64::MAX { ((now - t) / NANOS_PER_MILLI as int) as u64 } else { u64::MAX }
        } else {
            0
        },
    }
}

/// How long ago `oldest` was at `now`, in whole milliseconds; zero without
/// an `oldest` or when it lies in the future.
pub fn age_since(oldest: Option<i128>, now: i128) -> (a: u64)
    ensures
        a == age_ms(oldest, now),
{
    match oldest {
        None => 0,
        Some(t) => {
            if now > t {
                let d: u128 = if t >= 0 || now < 0 {
                    (now - t) as u128
                } else {
                    (now as u128) + ((-(t + 1)) as u128) + 1
                };
                let m: u128 = d / (NANOS_PER_MILLI as u128);
                if m <= u64::MAX as u128 {
                    m as u64
                } else {
                    u64::MAX
                }
            } else {
                0
            }
        },
    }
}

/// The instant written in an RFC 3339 timestamp, as `chrono` reads it: whole
/// seconds since the Unix epoch and the nanoseconds past them; `None` where
/// it does not parse.
pub uninterp spec fn rfc3339_instant(text: Seq<char>) -> Option<(i64, u32)>;

/// Parses an RFC 3339 timestamp with `chrono::DateTime::parse_from_rfc3339`
/// and reads it with `timestamp` and `timestamp_subsec_nanos`. The contract
/// names the result; the grammar of RFC 3339 is not stated.
#[verifier::external_body]
fn parse_rfc3339_instant(text: &str) -> (t: Option<(i64, u32)>)
    ensures
        t == rfc3339_instant(text@),
{
    match chrono::DateTime::parse_from_rfc3339(text) {
        Ok(instant) => Some((instant.timestamp(), instant.timestamp_subsec_nanos())),
        Err(_) => None,
    }
}

/// The instant of a stored RFC 3339 time, in nanoseconds.
pub open spec fn stored_instant_ns(text: Seq<char>) -> Option<i128> {
    match rfc3339_instant(text) {
        Some((secs, nanos)) => Some(instant_ns(secs, nanos) as i128),
        None => None,
    }
}

/// The age at `now` (nanoseconds) of the oldest event still owed a
/// delivery, given its stored RFC 3339 creation time, in whole
/// milliseconds; zero when there is none, when the time does not parse, or
/// when it lies in the future.
pub fn oldest_event_age_ms(oldest_created_at: Option<&str>, now: i128) -> (age: u64)
    ensures
        age == age_ms(
            match oldest_created_at {
                Some(text) => stored_instant_ns(text@),
                None => None,
            },
            now,
        ),
{
    let oldest = match oldest_created_at {
        Some(text) => match parse_rfc3339_instant(text) {
            Some((secs, nanos)) => Some(instant_nanos(secs, nanos)),
            None => None,
        },
        None => None,
    };
    age_since(oldest, now)
}

/// What a worker's poll found.
#[derive(Debug)]
pub enum Delivery {
    /// Nothing was due.
    Idle,
    /// The claimed event had been handled before; it was acknowledged
    /// without calling the handler.
    Settled { event_id: u128 },
    /// Deliver the claimed event to the handler, with the most recently
    /// handled event as idempotency context.
    Deliver { event: ClaimedEvent, last_seen: Option<u128> },
}

/// An in-process bus: an outbox, its configuration, and the bus-wide series
/// it keeps up to date.
#[derive(Debug)]
pub struct OutboxBus {
    outbox: Outbox,
    config: BusConfig,
    metrics: MetricsRegistry,
}

impl OutboxBus {
    /// The outbox.
    pub closed spec fn store(self) -> Outbox {
        self.outbox
    }

    /// The configuration.
    pub closed spec fn settings(self) -> BusConfig {
        self.config
    }

    /// The bus-wide series.
    pub closed spec fn series(self) -> RegistryView {
        self.metrics@
    }

    /// The outbox is well formed, and every event still owed a delivery has
    /// attempts left: none yet, or fewer than the retry budget.
    pub open spec fn wf(self) -> bool {
        &&& self.store().wf()
        &&& attempts_within_budget(self.store().rows(), self.settings().max_retries)
    }

    /// The queue gauges agree with the outbox: the queue depth is the number
    /// of events still owed a delivery, the dead-letter depth the number of
    /// dead-lettered events.
    pub open spec fn gauges_track(self) -> bool {
        &&& self.series().queue_depth == queued_count(self.store().rows())
        &&& self.series().dlq_depth == dlq_count_of(self.store().rows())
    }

    /// An empty bus with every series at zero.
    pub fn new(config: BusConfig) -> (b: OutboxBus)
        ensures
            b.wf(),
            b.gauges_track(),
            b.settings() == config,
            b.store().rows().len() == 0,
            b.store().handled().len() == 0,
            b.series() == MetricsRegistry::new_view(),
    {
        let b = OutboxBus { outbox: Outbox::new(), config, metrics: MetricsRegistry::new() };
        b
    }

    /// The outbox.
    pub fn outbox(&self) -> (o: &Outbox)
        ensures
            *o == self.store(),
    {
        &self.outbox
    }

    /// The bus-wide series.
    pub fn metrics(&self) -> (m: &MetricsRegistry)
        ensures
            m@ == self.series(),
    {
        &self.metrics
    }

    /// The configuration.
    pub fn config(&self) -> (c: BusConfig)
        ensures
            c == self.settings(),
    {
        self.config
    }

    /// Publishes an envelope, stored as `envelope_json`: refuses an invalid
    /// envelope; otherwise inserts it as pending unless the outbox already
    /// holds its id, and acknowledges with whether it was a duplicate.
    pub fn publish(&mut self, envelope: &EventEnvelope, envelope_json: String, now: i128) -> (r: Result<Ack, EnvelopeError>)
        requires
            old(self).wf(),
        ensures
            final(self).wf(),
            final(self).settings() == old(self).settings(),
            old(self).gauges_track() ==> final(self).gauges_track(),
            match validation(envelope.event_type@, envelope.source@, envelope.schema_version) {
                Err(e) => r == Err::<Ack, EnvelopeError>(e) && *final(self) == *old(self),
                Ok(()) => {
                    let dup = has_row(old(self).store().rows(), envelope.id);
                    &&& r == Ok::<Ack, EnvelopeError>(Ack { event_id: envelope.id, duplicate: dup })
                    &&& final(self).store().handled() == old(self).store().handled()
                    &&& dup ==> final(self).store().rows() == old(self).store().rows()
                    &&& !dup ==> final(self).store().rows() == old(self).store().rows().push(
                        fresh_row(envelope.id, envelope_json, now),
                    )
                    &&& final(self).series() == (RegistryView {
                        published: wrapping_succ(old(self).series().published),
                        queue_depth: if dup { old(self).series().queue_depth } else { wrapping_succ(old(self).series().queue_depth) },
                        ..old(self).series()
                    })
                },
            },
    {
        if let Err(e) = envelope.validate() {
            return Err(e);
        }
        let duplicate = self.outbox.insert(envelope.id, envelope_json, now);
        proof {
            self.outbox.lemma_len_fits();
            lemma_status_count_bound(old(self).store().rows(), |s: OutboxStatus| s.is_queued());
            if !duplicate {
                lemma_status_count_push(old(self).store().rows(), fresh_row(envelope.id, envelope_json, now), |s: OutboxStatus| s.is_queued());
                lemma_status_count_push(old(self).store().rows(), fresh_row(envelope.id, envelope_json, now), |s: OutboxStatus| s is Dlq);
            }
        }
        record_publish(&mut self.metrics, duplicate);
        Ok(Ack { event_id: envelope.id, duplicate })
    }

    /// One poll of a worker with `token` at `now`: claims the oldest
    /// claimable event under a fresh lease; if the event was handled before,
    /// acknowledges it without delivery; otherwise hands it out for
    /// delivery with the most recently handled event.
    pub fn poll(&mut self, now: i128, token: u128) -> (d: Delivery)
        requires
            old(self).wf(),
            now - effective_lease_ns(old(self).settings().lease_timeout_ns) >= i128::MIN,
        ensures
            final(self).wf(),
            final(self).settings() == old(self).settings(),
            old(self).gauges_track() ==> final(self).gauges_track(),
            ({
                let rows = old(self).store().rows();
                let cutoff = now - effective_lease_ns(old(self).settings().lease_timeout_ns);
                match d {
                    Delivery::Idle => !any_claimable(rows, now, cutoff as i128)
                        && final(self).store().rows() == rows
                        && final(self).store().handled() == old(self).store().handled()
                        && final(self).series() == old(self).series(),
                    Delivery::Settled { event_id } => exists|i: int|
                        is_next_claim(rows, i, now, cutoff as i128) && rows[i].event_id == event_id
                        && was_handled(old(self).store().handled(), event_id)
                        && final(self).store().rows() == rows.update(i, acked(claimed(rows[i], now, token), now))
                        && final(self).store().handled() == old(self).store().handled()
                        && final(self).series() == (RegistryView {
                            processed: wrapping_succ(old(self).series().processed),
                            queue_depth: saturating_minus(old(self).series().queue_depth, 1),
                            ..old(self).series()
                        }),
                    Delivery::Deliver { event, last_seen } => exists|i: int|
                        is_next_claim(rows, i, now, cutoff as i128) && rows[i].event_id == event.event_id
                        && event.envelope == rows[i].envelope && event.claim_token == token
                        && !was_handled(old(self).store().handled(), event.event_id)
                        && final(self).store().rows() == rows.update(i, claimed(rows[i], now, token))
                        && final(self).store().handled() == old(self).store().handled()
                        && final(self).series() == old(self).series()
                        && last_seen == last_handled(old(self).store().handled()),
                }
            }),
    {
        let cutoff = lease_cutoff(now, self.config.lease_timeout_ns);
        let claimed_event = match self.outbox.claim_next(now, cutoff, token) {
            None => return Delivery::Idle,
            Some(c) => c,
        };
        let ghost mid = self.outbox.rows();
        let ghost i = choose|i: int|
            is_next_claim(old(self).store().rows(), i, now, cutoff) && claimed_event.event_id == old(self).store().rows()[i].event_id
                && claimed_event.envelope == old(self).store().rows()[i].envelope && claimed_event.claim_token == token
                && mid == old(self).store().rows().update(i, claimed(old(self).store().rows()[i], now, token));
        proof {
            let rows = old(self).store().rows();
            lemma_status_count_update(rows, i, claimed(rows[i], now, token), |s: OutboxStatus| s.is_queued());
            lemma_status_count_update(rows, i, claimed(rows[i], now, token), |s: OutboxStatus| s is Dlq);
            assert(has_row(mid, claimed_event.event_id) && row_index(mid, claimed_event.event_id) == i) by {
                assert(mid[i].event_id == claimed_event.event_id);
            }
        }
        let handled_before = self.outbox.already_handled(claimed_event.event_id);
        if claimed_action(handled_before) == ClaimedAction::Acknowledge {
            let id = claimed_event.event_id;
            let changed = self.outbox.mark_handled(id, token, now);
            proof {
                assert(changed);
                let rows = old(self).store().rows();
                let c = claimed(rows[i], now, token);
                lemma_status_count_update(mid, i, acked(c, now), |s: OutboxStatus| s.is_queued());
                lemma_status_count_update(mid, i, acked(c, now), |s: OutboxStatus| s is Dlq);
                assert(mid.update(i, acked(c, now)) =~= rows.update(i, acked(c, now)));
            }
            record_ack(&mut self.metrics);
            Delivery::Settled { event_id: id }
        } else {
            let last_seen = self.outbox.last_seen();
            Delivery::Deliver { event: claimed_event, last_seen }
        }
    }

    /// Completes the delivery of `event_id` by the worker with `token` with
    /// the handler's outcome at `now`: acknowledges it, or records the
    /// refusal as a failed attempt. Only the worker that holds the current
    /// claim can complete; answers whether it did.
    pub fn complete(&mut self, event_id: u128, token: u128, outcome: Result<(), HandlerError>, now: i128) -> (changed: bool)
        requires
            old(self).wf(),
            now <= i128::MAX - MAX_RETRY_DELAY_NS,
        ensures
            final(self).wf(),
            final(self).settings() == old(self).settings(),
            old(self).gauges_track() ==> final(self).gauges_track(),
            ({
                let rows = old(self).store().rows();
                let i = row_index(rows, event_id);
                &&& changed == (row_for(rows, event_id) matches Some(r) && holds_claim(r, token))
                &&& !changed ==> final(self).store().rows() == rows && final(self).store().handled()
                    == old(self).store().handled() && final(self).series() == old(self).series()
                &&& changed && outcome is Ok ==> final(self).store().rows() == rows.update(i, acked(rows[i], now))
                    && final(self).store().handled() == (if was_handled(old(self).store().handled(), event_id) {
                        old(self).store().handled()
                    } else {
                        old(self).store().handled().push(HandledEvent { event_id, handled_at: now })
                    })
                    && final(self).series() == (RegistryView {
                        processed: wrapping_succ(old(self).series().processed),
                        queue_depth: saturating_minus(old(self).series().queue_depth, 1),
                        ..old(self).series()
                    })
                &&& changed && outcome is Err ==> (exists|m: String|
                    m@ == nack_text(outcome->Err_0.0@) && final(self).store().rows() == rows.update(
                        i,
                        failed(rows[i], m, now, old(self).settings().max_retries),
                    ))
                    && final(self).store().handled() == old(self).store().handled()
                    && final(self).series() == (if rows[i].attempts + 1 >= old(self).settings().max_retries {
                        RegistryView {
                            failed: wrapping_succ(old(self).series().failed),
                            queue_depth: saturating_minus(old(self).series().queue_depth, 1),
                            dlq_depth: wrapping_succ(old(self).series().dlq_depth),
                            ..old(self).series()
                        }
                    } else {
                        RegistryView {
                            failed: wrapping_succ(old(self).series().failed),
                            retried: wrapping_succ(old(self).series().retried),
                            ..old(self).series()
                        }
                    })
            }),
    {
        let ghost rows = old(self).store().rows();
        let ghost i = row_index(rows, event_id);
        match completion(outcome) {
            Completion::Acknowledge => {
                let changed = self.outbox.mark_handled(event_id, token, now);
                if changed {
                    proof {
                        lemma_status_count_update(rows, i, acked(rows[i], now), |s: OutboxStatus| s.is_queued());
                        lemma_status_count_update(rows, i, acked(rows[i], now), |s: OutboxStatus| s is Dlq);
                        assert forall|k: int|
                            0 <= k < self.outbox.rows().len() && (#[trigger] self.outbox.rows()[k]).status.is_queued()
                            implies self.outbox.rows()[k].attempts == 0 || self.outbox.rows()[k].attempts < self.config.max_retries by {
                            assert(k != i);
                            assert(self.outbox.rows()[k] == rows[k]);
                        }
                    }
                    record_ack(&mut self.metrics);
                }
                changed
            },
            Completion::Fail(message) => {
                let ghost m = message;
                if !self.outbox.holds_claim_on(event_id, token) {
                    return false;
                }
                let changed = self.outbox.mark_failed(event_id, token, message, now, self.config.max_retries);
                proof {
                    let f = failed(rows[i], m, now, self.config.max_retries);
                    lemma_status_count_update(rows, i, f, |s: OutboxStatus| s.is_queued());
                    lemma_status_count_update(rows, i, f, |s: OutboxStatus| s is Dlq);
                    assert forall|k: int|
                        0 <= k < self.outbox.rows().len() && (#[trigger] self.outbox.rows()[k]).status.is_queued()
                        implies self.outbox.rows()[k].attempts == 0 || self.outbox.rows()[k].attempts < self.config.max_retries by {
                        if k != i {
                            assert(self.outbox.rows()[k] == rows[k]);
                        }
                    }
                    assert(has_row(self.outbox.rows(), event_id) && row_index(self.outbox.rows(), event_id) == i) by {
                        assert(self.outbox.rows()[i].event_id == event_id);
                    }
                }
                let status = match self.outbox.status(event_id) {
                    Some(st) => st,
                    None => OutboxStatus::Retrying,
                };
                proof {
                    self.outbox.lemma_len_fits();
                    lemma_status_count_bound(self.outbox.rows(), |s: OutboxStatus| s is Dlq);
                }
                record_failure(&mut self.metrics, status);
                changed
            },
        }
    }

    /// Puts a dead-lettered event back in the queue at `now`, with its
    /// attempts and last error cleared. Answers whether it was dead-lettered.
    pub fn replay_dlq(&mut self, event_id: u128, now: i128) -> (changed: bool)
        requires
            old(self).wf(),
        ensures
            final(self).wf(),
            final(self).settings() == old(self).settings(),
            old(self).gauges_track() ==> final(self).gauges_track(),
            final(self).store().handled() == old(self).store().handled(),
            changed == (row_for(old(self).store().rows(), event_id) matches Some(r) && r.status is Dlq),
            changed ==> final(self).store().rows() == old(self).store().rows().update(
                row_index(old(self).store().rows(), event_id),
                replayed(old(self).store().rows()[row_index(old(self).store().rows(), event_id)], now),
            ) && final(self).series() == (RegistryView {
                queue_depth: wrapping_succ(old(self).series().queue_depth),
                dlq_depth: saturating_minus(old(self).series().dlq_depth, 1),
                ..old(self).series()
            }),
            !changed ==> final(self).store().rows() == old(self).store().rows() && final(self).series()
                == old(self).series(),
    {
        let ghost rows = old(self).store().rows();
        let ghost i = row_index(rows, event_id);
        let changed = self.outbox.replay_dlq(event_id, now);
        if changed {
            proof {
                let r = replayed(rows[i], now);
                lemma_status_count_update(rows, i, r, |s: OutboxStatus| s.is_queued());
                lemma_status_count_update(rows, i, r, |s: OutboxStatus| s is Dlq);
                self.outbox.lemma_len_fits();
                lemma_status_count_bound(self.outbox.rows(), |s: OutboxStatus| s.is_queued());
                assert forall|k: int|
                    0 <= k < self.outbox.rows().len() && (#[trigger] self.outbox.rows()[k]).status.is_queued()
                    implies self.outbox.rows()[k].attempts == 0 || self.outbox.rows()[k].attempts < self.config.max_retries by {
                    if k != i {
                        assert(self.outbox.rows()[k] == rows[k]);
                    }
                }
            }
            record_replay(&mut self.metrics);
        }
        changed
    }

    /// Deletes every dead-lettered event last touched before `cutoff`.
    /// Answers how many it deleted.
    pub fn prune_dlq_before(&mut self, cutoff: i128) -> (removed: u64)
        requires
            old(self).wf(),
        ensures
            final(self).wf(),
            final(self).settings() == old(self).settings(),
            old(self).gauges_track() ==> final(self).gauges_track(),
            final(self).store().handled() == old(self).store().handled(),
            final(self).store().rows() == pruned(old(self).store().rows(), cutoff),
            removed == old(self).store().rows().len() - final(self).store().rows().len(),
            final(self).series() == (RegistryView {
                dlq_depth: saturating_minus(old(self).series().dlq_depth, removed),
                ..old(self).series()
            }),
    {
        let removed = self.outbox.prune_dlq_before(cutoff);
        proof {
            lemma_prune_keeps_live_rows(old(self).store().rows(), cutoff);
            lemma_prune_keeps_budget(old(self).store().rows(), cutoff, self.config.max_retries);
        }
        record_prune(&mut self.metrics, removed);
        removed
    }

    /// Resets the queue gauges from the outbox, sets the oldest-event age
    /// from the oldest event still owed a delivery, and returns the snapshot
    /// of every series.
    pub fn refresh_metrics(&mut self, now: i128) -> (s: MetricsSnapshot)
        requires
            old(self).wf(),
        ensures
            final(self).wf(),
            final(self).gauges_track(),
            final(self).store() == old(self).store(),
            final(self).settings() == old(self).settings(),
            final(self).series() == (RegistryView {
                queue_depth: queued_count(old(self).store().rows()) as u64,
                dlq_depth: dlq_count_of(old(self).store().rows()) as u64,
                oldest_event_age_ms: age_ms(oldest_queued_created_at(old(self).store().rows()), now),
                ..old(self).series()
            }),
            s == (MetricsSnapshot {
                published: old(self).series().published,
                processed: old(self).series().processed,
                failed: old(self).series().failed,
                retried: old(self).series().retried,
                queue_depth: queued_count(old(self).store().rows()) as u64,
                dlq_depth: dlq_count_of(old(self).store().rows()) as u64,
                oldest_event_age_ms: age_ms(oldest_queued_created_at(old(self).store().rows()), now),
            }),
    {
        let pending = self.outbox.pending_count();
        let dlq = self.outbox.dlq_count();
        let oldest = self.outbox.oldest_pending_created_at();
        let age = age_since(oldest, now);
        self.metrics.queue_depth.set(pending);
        self.metrics.dlq_depth.set(dlq);
        self.metrics.oldest_event_age_ms.set(age);
        snapshot(&self.metrics)
    }
}

} // verus!

verus! {

/// The age is the whole milliseconds between the two instants: with no
/// instant or one not earlier than `now` it is zero; otherwise it is the
/// difference in nanoseconds divided by a million, rounded down, as long as
/// that fits in `u64`; and it never shrinks as `now` advances.
pub proof fn lemma_age_is_elapsed_millis(t: i128, now: i128, later: i128)
    ensures
        age_ms(None, now) == 0,
        t >= now ==> age_ms(Some(t), now) == 0,
        t < now && (now - t) / 1_000_000 <= u64::MAX ==> age_ms(Some(t), now) as int == (now - t)
            / 1_000_000,
        t < now ==> age_ms(Some(t), now) as int * 1_000_000 <= now - t,
        t < now && (now - t) / 1_000_000 <= u64::MAX ==> now - t < (age_ms(Some(t), now) as int + 1)
            * 1_000_000,
        now <= later ==> age_ms(Some(t), now) <= age_ms(Some(t), later),
{
    if now <= later && t < now {
        assert((now - t) / 1_000_000 <= (later - t) / 1_000_000) by (nonlinear_arith)
            requires
                0 < now - t <= later - t,
        ;
    }
    if t < now {
        assert(((now - t) / 1_000_000) * 1_000_000 <= now - t < ((now - t) / 1_000_000 + 1) * 1_000_000) by (nonlinear_arith)
            requires
                0 < now - t,
        ;
    }
}

} // verus!
