//! The outbox: every published event with its delivery state, and the
//! handled-event log. Each operation is one statement of the bus against its
//! store; timestamps are nanoseconds since the Unix epoch.

use vstd::prelude::*;
use crate::delivery::{retry_delay_ms, failure_update, MAX_RETRY_DELAY_NS, NANOS_PER_MILLI};

verus! {

/// Where an event stands in its delivery.
#[derive(Debug, Clone, Copy, PartialEq, Eq, Structural)]
pub enum OutboxStatus {
    /// Published and waiting for its first delivery.
    Pending,
    /// Refused by a handler and waiting for its next attempt.
    Retrying,
    /// Claimed by a worker that holds a lease on it.
    InProgress,
    /// Delivered and acknowledged.
    Acked,
    /// Out of retries: parked in the dead-letter queue.
    Dlq,
}

/// The text under which a status is stored.
pub open spec fn status_text(s: OutboxStatus) -> Seq<char> {
    match s {
        OutboxStatus::Pending => "pending"@,
        OutboxStatus::Retrying => "retrying"@,
        OutboxStatus::InProgress => "in_progress"@,
        OutboxStatus::Acked => "acked"@,
        OutboxStatus::Dlq => "dlq"@,
    }
}

impl OutboxStatus {
    /// Still owed a delivery: pending, retrying or in progress.
    pub open spec fn is_queued(self) -> bool {
        self is Pending || self is Retrying || self is InProgress
    }

    /// Waiting for a worker: pending or retrying.
    pub open spec fn is_waiting(self) -> bool {
        self is Pending || self is Retrying
    }

    /// The text under which the status is stored.
    pub fn as_str(&self) -> (t: &'static str)
        ensures
            t@ == status_text(*self),
    {
        match self {
            OutboxStatus::Pending => "pending",
            OutboxStatus::Retrying => "retrying",
            OutboxStatus::InProgress => "in_progress",
            OutboxStatus::Acked => "acked",
            OutboxStatus::Dlq => "dlq",
        }
    }
}

/// One event in the outbox.
#[derive(Debug)]
pub struct OutboxRow {
    pub event_id: u128,
    /// The envelope, as JSON text.
    pub envelope: String,
    pub status: OutboxStatus,
    pub attempts: i64,
    pub next_attempt_at: i128,
    pub last_error: Option<String>,
    pub created_at: i128,
    pub updated_at: i128,
    /// The token of the worker that holds the current claim, if any.
    pub claim_token: Option<u128>,
}

impl OutboxRow {
    /// A copy of the row.
    pub fn duplicate(&self) -> (r: OutboxRow)
        ensures
            r == *self,
    {
        let last_error = match &self.last_error {
            Some(e) => Some(e.clone()),
            None => None,
        };
        OutboxRow {
            event_id: self.event_id,
            envelope: self.envelope.clone(),
            status: self.status,
            attempts: self.attempts,
            next_attempt_at: self.next_attempt_at,
            last_error,
            created_at: self.created_at,
            updated_at: self.updated_at,
            claim_token: self.claim_token,
        }
    }
}

/// The row a publish inserts.
pub open spec fn fresh_row(event_id: u128, envelope: String, now: i128) -> OutboxRow {
    OutboxRow {
        event_id,
        envelope,
        status: OutboxStatus::Pending,
        attempts: 0,
        next_attempt_at: now,
        last_error: None,
        created_at: now,
        updated_at: now,
        claim_token: None,
    }
}

/// A worker may claim the row: it is waiting and due, or it is in progress
/// under a lease taken before `lease_cutoff`.
pub open spec fn claimable(r: OutboxRow, now: i128, lease_cutoff: i128) -> bool {
    (r.status.is_waiting() && r.next_attempt_at <= now) || (r.status is InProgress && r.updated_at
        < lease_cutoff)
}

/// The row once claimed at `now` under `token`.
pub open spec fn claimed(r: OutboxRow, now: i128, token: u128) -> OutboxRow {
    OutboxRow { status: OutboxStatus::InProgress, updated_at: now, claim_token: Some(token), ..r }
}

/// The worker with `token` holds the current claim on the row.
pub open spec fn holds_claim(r: OutboxRow, token: u128) -> bool {
    r.status is InProgress && r.claim_token == Some(token)
}

/// The row once acknowledged at `now`.
pub open spec fn acked(r: OutboxRow, now: i128) -> OutboxRow {
    OutboxRow { status: OutboxStatus::Acked, updated_at: now, claim_token: None, ..r }
}

/// The status after a failed attempt that brings the count to `attempts`.
pub open spec fn failure_status(attempts: int, max_retries: i64) -> OutboxStatus {
    if attempts >= max_retries {
        OutboxStatus::Dlq
    } else {
        OutboxStatus::Retrying
    }
}

/// The row once its current attempt failed at `now` with `error`.
pub open spec fn failed(r: OutboxRow, error: String, now: i128, max_retries: i64) -> OutboxRow {
    OutboxRow {
        status: failure_status(r.attempts + 1, max_retries),
        attempts: (r.attempts + 1) as i64,
        next_attempt_at: (now + retry_delay_ms(r.event_id, r.attempts + 1) * NANOS_PER_MILLI) as i128,
        last_error: Some(error),
        updated_at: now,
        claim_token: None,
        ..r
    }
}

/// The row once taken out of the dead-letter queue at `now`.
pub open spec fn replayed(r: OutboxRow, now: i128) -> OutboxRow {
    OutboxRow {
        status: OutboxStatus::Pending,
        attempts: 0,
        next_attempt_at: now,
        last_error: None,
        updated_at: now,
        claim_token: None,
        ..r
    }
}

/// A dead-lettered row last touched before `cutoff`.
pub open spec fn expired_dlq(r: OutboxRow, cutoff: i128) -> bool {
    r.status is Dlq && r.updated_at < cutoff
}

/// No two rows share an event id.
pub open spec fn ids_distinct(rows: Seq<OutboxRow>) -> bool {
    forall|i: int, j: int| 0 <= i < j < rows.len() ==> rows[i].event_id != rows[j].event_id
}

/// Some row holds the event.
pub open spec fn has_row(rows: Seq<OutboxRow>, id: u128) -> bool {
    exists|i: int| 0 <= i < rows.len() && rows[i].event_id == id
}

/// The position of the event's row.
pub open spec fn row_index(rows: Seq<OutboxRow>, id: u128) -> int {
    choose|i: int| 0 <= i < rows.len() && rows[i].event_id == id
}

/// The event's row, if there is one.
pub open spec fn row_for(rows: Seq<OutboxRow>, id: u128) -> Option<OutboxRow> {
    if has_row(rows, id) {
        Some(rows[row_index(rows, id)])
    } else {
        None
    }
}

/// Row `i` is the one a claim takes: claimable, and the oldest claimable
/// row, the first of them where several are equally old.
pub open spec fn is_next_claim(rows: Seq<OutboxRow>, i: int, now: i128, lease_cutoff: i128) -> bool {
    &&& 0 <= i < rows.len()
    &&& claimable(rows[i], now, lease_cutoff)
    &&& forall|j: int|
        0 <= j < rows.len() && claimable(#[trigger] rows[j], now, lease_cutoff) ==> rows[i].created_at
            < rows[j].created_at || (rows[i].created_at == rows[j].created_at && i <= j)
}

/// The store's conditional claim of event `id` for `token` at `now`: the
/// row is taken only if it is still claimable. The rows after it, and
/// whether it was taken.
pub open spec fn conditional_claim(rows: Seq<OutboxRow>, id: u128, now: i128, lease_cutoff: i128, token: u128) -> (Seq<OutboxRow>, bool) {
    if has_row(rows, id) && claimable(rows[row_index(rows, id)], now, lease_cutoff) {
        (rows.update(row_index(rows, id), claimed(rows[row_index(rows, id)], now, token)), true)
    } else {
        (rows, false)
    }
}

/// Some row is claimable.
pub open spec fn any_claimable(rows: Seq<OutboxRow>, now: i128, lease_cutoff: i128) -> bool {
    exists|i: int| 0 <= i < rows.len() && claimable(#[trigger] rows[i], now, lease_cutoff)
}

/// One entry of the handled-event log.
#[derive(Debug, Clone, Copy, PartialEq, Eq, Structural)]
pub struct HandledEvent {
    pub event_id: u128,
    pub handled_at: i128,
}

/// The log records the event.
pub open spec fn was_handled(log: Seq<HandledEvent>, id: u128) -> bool {
    exists|i: int| 0 <= i < log.len() && log[i].event_id == id
}

/// The most recently handled event: the last entry of the log with the
/// latest handling time.
pub open spec fn last_handled(log: Seq<HandledEvent>) -> Option<u128> {
    if log.len() == 0 {
        None
    } else {
        Some(log[choose|i: int| is_last_handled(log, i)].event_id)
    }
}

/// Entry `i` has the latest handling time, and is the last entry that has.
pub open spec fn is_last_handled(log: Seq<HandledEvent>, i: int) -> bool {
    &&& 0 <= i < log.len()
    &&& forall|j: int| 0 <= j < log.len() ==> #[trigger] log[j].handled_at <= log[i].handled_at
    &&& forall|j: int| i < j < log.len() ==> #[trigger] log[j].handled_at < log[i].handled_at
}

/// No event appears twice in the log.
pub open spec fn log_distinct(log: Seq<HandledEvent>) -> bool {
    forall|i: int, j: int| 0 <= i < j < log.len() ==> log[i].event_id != log[j].event_id
}

/// How many rows have a status that satisfies `p`.
pub open spec fn status_count(rows: Seq<OutboxRow>, p: spec_fn(OutboxStatus) -> bool) -> nat
    decreases rows.len(),
{
    if rows.len() == 0 {
        0
    } else {
        status_count(rows.drop_last(), p) + (if p(rows.last().status) { 1nat } else { 0nat })
    }
}

/// How many rows are still owed a delivery.
pub open spec fn queued_count(rows: Seq<OutboxRow>) -> nat {
    status_count(rows, |s: OutboxStatus| s.is_queued())
}

/// How many rows are dead-lettered.
pub open spec fn dlq_count_of(rows: Seq<OutboxRow>) -> nat {
    status_count(rows, |s: OutboxStatus| s is Dlq)
}

/// How many rows are acknowledged.
pub open spec fn acked_count(rows: Seq<OutboxRow>) -> nat {
    status_count(rows, |s: OutboxStatus| s is Acked)
}

/// When the oldest row still owed a delivery was published, if any is.
pub open spec fn oldest_queued_created_at(rows: Seq<OutboxRow>) -> Option<i128> {
    if exists|i: int| 0 <= i < rows.len() && (#[trigger] rows[i]).status.is_queued() {
        Some(choose|t: i128| is_oldest_queued(rows, t))
    } else {
        None
    }
}

/// Some row still owed a delivery was published at `t`, and none earlier.
pub open spec fn is_oldest_queued(rows: Seq<OutboxRow>, t: i128) -> bool {
    &&& exists|i: int| 0 <= i < rows.len() && (#[trigger] rows[i]).status.is_queued() && rows[i].created_at == t
    &&& forall|i: int| 0 <= i < rows.len() && (#[trigger] rows[i]).status.is_queued() ==> t <= rows[i].created_at
}

/// The rows a prune at `cutoff` keeps.
pub open spec fn pruned(rows: Seq<OutboxRow>, cutoff: i128) -> Seq<OutboxRow> {
    rows.filter(|r: OutboxRow| !expired_dlq(r, cutoff))
}

/// An event a worker has claimed.
#[derive(Debug)]
pub struct ClaimedEvent {
    pub event_id: u128,
    pub envelope: String,
    pub claim_token: u128,
}

/// The outbox and the handled-event log of one bus.
#[derive(Debug)]
pub struct Outbox {
    rows: Vec<OutboxRow>,
    handled: Vec<HandledEvent>,
}

impl Outbox {
    /// The rows, in insertion order.
    pub closed spec fn rows(self) -> Seq<OutboxRow> {
        self.rows@
    }

    /// The handled-event log, in the order events were handled.
    pub closed spec fn handled(self) -> Seq<HandledEvent> {
        self.handled@
    }

    /// Each event has at most one row and one log entry, and no attempt
    /// count is negative.
    pub open spec fn wf(self) -> bool {
        &&& ids_distinct(self.rows())
        &&& log_distinct(self.handled())
        &&& forall|i: int| 0 <= i < self.rows().len() ==> #[trigger] self.rows()[i].attempts >= 0
    }

    /// The outbox holds at most `usize::MAX` rows.
    pub proof fn lemma_len_fits(&self)
        ensures
            self.rows().len() <= usize::MAX,
    {
        assert(self.rows.len() == self.rows@.len());
    }

    /// An empty outbox.
    pub fn new() -> (o: Outbox)
        ensures
            o.wf(),
            o.rows() == Seq::<OutboxRow>::empty(),
            o.handled() == Seq::<HandledEvent>::empty(),
    {
        Outbox { rows: Vec::new(), handled: Vec::new() }
    }

    fn find(&self, id: u128) -> (r: Option<usize>)
        requires
            self.wf(),
        ensures
            r is None <==> !has_row(self.rows(), id),
            r matches Some(i) ==> i == row_index(self.rows(), id) && i < self.rows().len()
                && self.rows()[i as int].event_id == id,
    {
        let mut i: usize = 0;
        while i < self.rows.len()
            invariant
                i <= self.rows@.len(),
                self.wf(),
                forall|j: int| 0 <= j < i ==> self.rows@[j].event_id != id,
            decreases self.rows@.len() - i,
        {
            if self.rows[i].event_id == id {
                proof {
                    assert(has_row(self.rows(), id));
                    let k = row_index(self.rows(), id);
                    assert(self.rows()[k].event_id == id);
                    assert(k == i as int);
                }
                return Some(i);
            }
            i = i + 1;
        }
        None
    }

    /// The log records the event.
    pub fn already_handled(&self, id: u128) -> (r: bool)
        ensures
            r == was_handled(self.handled(), id),
    {
        let mut i: usize = 0;
        while i < self.handled.len()
            invariant
                i <= self.handled@.len(),
                forall|j: int| 0 <= j < i ==> self.handled@[j].event_id != id,
            decreases self.handled@.len() - i,
        {
            if self.handled[i].event_id == id {
                return true;
            }
            i = i + 1;
        }
        false
    }

    /// Inserts a pending event, unless the outbox already holds its id.
    /// Answers whether it did hold it.
    pub fn insert(&mut self, id: u128, envelope: String, now: i128) -> (duplicate: bool)
        requires
            old(self).wf(),
        ensures
            final(self).wf(),
            duplicate == has_row(old(self).rows(), id),
            duplicate ==> final(self).rows() == old(self).rows(),
            !duplicate ==> final(self).rows() == old(self).rows().push(fresh_row(id, envelope, now)),
            final(self).handled() == old(self).handled(),
    {
        match self.find(id) {
            Some(_) => true,
            None => {
                self.rows.push(
                    OutboxRow {
                        event_id: id,
                        envelope,
                        status: OutboxStatus::Pending,
                        attempts: 0,
                        next_attempt_at: now,
                        last_error: None,
                        created_at: now,
                        updated_at: now,
                        claim_token: None,
                    },
                );
                proof {
                    assert forall|i: int, j: int|
                        0 <= i < j < self.rows@.len() implies self.rows@[i].event_id
                        != self.rows@[j].event_id by {
                        if j == self.rows@.len() - 1 {
                            assert(old(self).rows()[i].event_id == self.rows@[i].event_id);
                        }
                    }
                }
                false
            },
        }
    }

    /// Acknowledges the event, if the worker with `token` holds the current
    /// claim on it; records it in the handled-event log unless already
    /// there. Answers whether it did.
    pub fn mark_handled(&mut self, id: u128, token: u128, now: i128) -> (changed: bool)
        requires
            old(self).wf(),
        ensures
            final(self).wf(),
            changed == (row_for(old(self).rows(), id) matches Some(r) && holds_claim(r, token)),
            changed ==> final(self).rows() == old(self).rows().update(
                row_index(old(self).rows(), id),
                acked(old(self).rows()[row_index(old(self).rows(), id)], now),
            ),
            changed ==> final(self).handled() == (if was_handled(old(self).handled(), id) {
                old(self).handled()
            } else {
                old(self).handled().push(HandledEvent { event_id: id, handled_at: now })
            }),
            !changed ==> final(self).rows() == old(self).rows() && final(self).handled() == old(
                self,
            ).handled(),
    {
        let i = match self.find(id) {
            Some(i) => i,
            None => return false,
        };
        let holds = match self.rows[i].status {
            OutboxStatus::InProgress => match self.rows[i].claim_token {
                Some(t) => t == token,
                None => false,
            },
            _ => false,
        };
        if !holds {
            return false;
        }
        self.rows[i].status = OutboxStatus::Acked;
        self.rows[i].updated_at = now;
        self.rows[i].claim_token = None;
        proof {
            assert(self.rows@ =~= old(self).rows().update(i as int, acked(old(self).rows()[i as int], now)));
            assert forall|a: int, b: int|
                0 <= a < b < self.rows@.len() implies self.rows@[a].event_id
                != self.rows@[b].event_id by {
                assert(old(self).rows()[a].event_id == self.rows@[a].event_id);
                assert(old(self).rows()[b].event_id == self.rows@[b].event_id);
            }
            assert forall|k: int| 0 <= k < self.rows@.len() implies #[trigger] self.rows@[k].attempts >= 0 by {
                assert(old(self).rows()[k].attempts == self.rows@[k].attempts);
            }
        }
        if !self.already_handled(id) {
            self.handled.push(HandledEvent { event_id: id, handled_at: now });
            proof {
                assert forall|a: int, b: int|
                    0 <= a < b < self.handled@.len() implies self.handled@[a].event_id
                    != self.handled@[b].event_id by {
                    if b == self.handled@.len() - 1 {
                        assert(old(self).handled()[a].event_id == self.handled@[a].event_id);
                    }
                }
            }
        }
        true
    }

    /// Records a failed attempt at `now` with `error`, if the worker with
    /// `token` holds the current claim on the event: one more attempt, a
    /// retry after the back-off, or the dead-letter queue once the attempts
    /// reach `max_retries`. Answers whether it did.
    pub fn mark_failed(&mut self, id: u128, token: u128, error: String, now: i128, max_retries: i64) -> (changed: bool)
        requires
            old(self).wf(),
            now <= i128::MAX - MAX_RETRY_DELAY_NS,
            row_for(old(self).rows(), id) matches Some(r) ==> r.attempts < i64::MAX,
        ensures
            final(self).wf(),
            changed == (row_for(old(self).rows(), id) matches Some(r) && holds_claim(r, token)),
            changed ==> final(self).rows() == old(self).rows().update(
                row_index(old(self).rows(), id),
                failed(old(self).rows()[row_index(old(self).rows(), id)], error, now, max_retries),
            ),
            !changed ==> final(self).rows() == old(self).rows(),
            final(self).handled() == old(self).handled(),
    {
        let i = match self.find(id) {
            Some(i) => i,
            None => return false,
        };
        proof {
            assert(self.rows@[i as int].attempts >= 0);
        }
        let update = failure_update(id, self.rows[i].attempts, now, max_retries);
        let holds = match self.rows[i].status {
            OutboxStatus::InProgress => match self.rows[i].claim_token {
                Some(t) => t == token,
                None => false,
            },
            _ => false,
        };
        if !holds {
            return false;
        }
        self.rows[i].status = update.status;
        self.rows[i].attempts = update.attempts;
        self.rows[i].next_attempt_at = update.next_attempt_at;
        self.rows[i].last_error = Some(error);
        self.rows[i].updated_at = now;
        self.rows[i].claim_token = None;
        proof {
            assert(self.rows@ =~= old(self).rows().update(
                i as int,
                failed(old(self).rows()[i as int], error, now, max_retries),
            ));
            assert forall|a: int, b: int|
                0 <= a < b < self.rows@.len() implies self.rows@[a].event_id
                != self.rows@[b].event_id by {
                assert(old(self).rows()[a].event_id == self.rows@[a].event_id);
                assert(old(self).rows()[b].event_id == self.rows@[b].event_id);
            }
            assert forall|k: int| 0 <= k < self.rows@.len() implies #[trigger] self.rows@[k].attempts >= 0 by {
                assert(old(self).rows()[k].attempts <= self.rows@[k].attempts);
            }
        }
        true
    }

    /// Puts a dead-lettered event back in the queue at `now`, with its
    /// attempts and last error cleared. Answers whether the event was
    /// dead-lettered.
    pub fn replay_dlq(&mut self, id: u128, now: i128) -> (changed: bool)
        requires
            old(self).wf(),
        ensures
            final(self).wf(),
            changed == (row_for(old(self).rows(), id) matches Some(r) && r.status is Dlq),
            changed ==> final(self).rows() == old(self).rows().update(
                row_index(old(self).rows(), id),
                replayed(old(self).rows()[row_index(old(self).rows(), id)], now),
            ),
            !changed ==> final(self).rows() == old(self).rows(),
            final(self).handled() == old(self).handled(),
    {
        let i = match self.find(id) {
            Some(i) => i,
            None => return false,
        };
        match self.rows[i].status {
            OutboxStatus::Dlq => {},
            _ => return false,
        }
        self.rows[i].status = OutboxStatus::Pending;
        self.rows[i].attempts = 0;
        self.rows[i].next_attempt_at = now;
        self.rows[i].last_error = None;
        self.rows[i].updated_at = now;
        self.rows[i].claim_token = None;
        proof {
            assert(self.rows@ =~= old(self).rows().update(i as int, replayed(old(self).rows()[i as int], now)));
            assert forall|a: int, b: int|
                0 <= a < b < self.rows@.len() implies self.rows@[a].event_id
                != self.rows@[b].event_id by {
                assert(old(self).rows()[a].event_id == self.rows@[a].event_id);
                assert(old(self).rows()[b].event_id == self.rows@[b].event_id);
            }
            assert forall|k: int| 0 <= k < self.rows@.len() implies #[trigger] self.rows@[k].attempts >= 0 by {
                if k != i {
                    assert(old(self).rows()[k].attempts == self.rows@[k].attempts);
                }
            }
        }
        true
    }

    fn next_claim_index(&self, now: i128, lease_cutoff: i128) -> (r: Option<usize>)
        requires
            self.wf(),
        ensures
            r is None <==> !any_claimable(self.rows(), now, lease_cutoff),
            r matches Some(b) ==> is_next_claim(self.rows(), b as int, now, lease_cutoff),
    {
        let mut best: Option<usize> = None;
        let mut i: usize = 0;
        while i < self.rows.len()
            invariant
                i <= self.rows@.len(),
                self.wf(),
                best matches Some(b) ==> b < i && claimable(self.rows@[b as int], now, lease_cutoff)
                    && forall|j: int|
                    0 <= j < i && claimable(#[trigger] self.rows@[j], now, lease_cutoff)
                        ==> self.rows@[b as int].created_at < self.rows@[j].created_at || (
                    self.rows@[b as int].created_at == self.rows@[j].created_at && b <= j),
                best is None ==> forall|j: int|
                    0 <= j < i ==> !claimable(#[trigger] self.rows@[j], now, lease_cutoff),
            decreases self.rows@.len() - i,
        {
            let row = &self.rows[i];
            let due = match row.status {
                OutboxStatus::Pending | OutboxStatus::Retrying => row.next_attempt_at <= now,
                OutboxStatus::InProgress => row.updated_at < lease_cutoff,
                _ => false,
            };
            if due {
                match best {
                    None => {
                        best = Some(i);
                    },
                    Some(b) => {
                        if row.created_at < self.rows[b].created_at {
                            best = Some(i);
                        }
                    },
                }
            }
            i = i + 1;
        }
        best
    }

    fn claim_at(&mut self, b: usize, now: i128, token: u128)
        requires
            old(self).wf(),
            b < old(self).rows().len(),
        ensures
            final(self).wf(),
            final(self).handled() == old(self).handled(),
            final(self).rows() == old(self).rows().update(b as int, claimed(old(self).rows()[b as int], now, token)),
    {
        self.rows[b].status = OutboxStatus::InProgress;
        self.rows[b].updated_at = now;
        self.rows[b].claim_token = Some(token);
        proof {
            assert(self.rows@ =~= old(self).rows().update(b as int, claimed(old(self).rows()[b as int], now, token)));
            assert forall|a: int, k: int|
                0 <= a < k < self.rows@.len() implies self.rows@[a].event_id
                != self.rows@[k].event_id by {
                assert(old(self).rows()[a].event_id == self.rows@[a].event_id);
                assert(old(self).rows()[k].event_id == self.rows@[k].event_id);
            }
            assert forall|k: int| 0 <= k < self.rows@.len() implies #[trigger] self.rows@[k].attempts >= 0 by {
                assert(old(self).rows()[k].attempts == self.rows@[k].attempts);
            }
        }
    }

    /// The event a claim at `now` would take: the oldest claimable one, the
    /// first of them where several are equally old. Reading it changes
    /// nothing.
    pub fn next_claimable(&self, now: i128, lease_cutoff: i128) -> (r: Option<u128>)
        requires
            self.wf(),
        ensures
            r is None <==> !any_claimable(self.rows(), now, lease_cutoff),
            r matches Some(id) ==> exists|i: int|
                is_next_claim(self.rows(), i, now, lease_cutoff) && self.rows()[i].event_id == id,
    {
        match self.next_claim_index(now, lease_cutoff) {
            None => None,
            Some(b) => Some(self.rows[b].event_id),
        }
    }

    /// Claims the event for the worker with `token` at `now`, if it is still
    /// claimable: the check and the update are one step, so a worker that
    /// chose the event earlier finds out here whether another took it first.
    /// Answers whether it claimed it.
    pub fn claim_if_claimable(&mut self, id: u128, now: i128, lease_cutoff: i128, token: u128) -> (taken: bool)
        requires
            old(self).wf(),
        ensures
            final(self).wf(),
            final(self).handled() == old(self).handled(),
            (final(self).rows(), taken) == conditional_claim(old(self).rows(), id, now, lease_cutoff, token),
    {
        match self.find(id) {
            None => false,
            Some(i) => {
                let row = &self.rows[i];
                let due = match row.status {
                    OutboxStatus::Pending | OutboxStatus::Retrying => row.next_attempt_at <= now,
                    OutboxStatus::InProgress => row.updated_at < lease_cutoff,
                    _ => false,
                };
                if due {
                    self.claim_at(i, now, token);
                }
                due
            },
        }
    }

    /// Claims the oldest claimable event at `now` for the worker with
    /// `token`: marks it in progress under a lease that starts now. Claims
    /// taken before `lease_cutoff` have expired and can be taken over.
    pub fn claim_next(&mut self, now: i128, lease_cutoff: i128, token: u128) -> (c: Option<ClaimedEvent>)
        requires
            old(self).wf(),
        ensures
            final(self).wf(),
            final(self).handled() == old(self).handled(),
            c is None <==> !any_claimable(old(self).rows(), now, lease_cutoff),
            c is None ==> final(self).rows() == old(self).rows(),
            c matches Some(e) ==> exists|i: int|
                is_next_claim(old(self).rows(), i, now, lease_cutoff) && e.event_id == old(
                    self,
                ).rows()[i].event_id && e.envelope == old(self).rows()[i].envelope && e.claim_token
                    == token && final(self).rows() == old(self).rows().update(
                    i,
                    claimed(old(self).rows()[i], now, token),
                ),
    {
        match self.next_claim_index(now, lease_cutoff) {
            None => None,
            Some(b) => {
                self.claim_at(b, now, token);
                Some(
                    ClaimedEvent {
                        event_id: self.rows[b].event_id,
                        envelope: self.rows[b].envelope.clone(),
                        claim_token: token,
                    },
                )
            },
        }
    }

    /// Deletes every dead-lettered event last touched before `cutoff`, keeping
    /// the order of the rest. Answers how many it deleted.
    pub fn prune_dlq_before(&mut self, cutoff: i128) -> (removed: u64)
        requires
            old(self).wf(),
        ensures
            final(self).wf(),
            final(self).rows() == pruned(old(self).rows(), cutoff),
            removed == old(self).rows().len() - final(self).rows().len(),
            final(self).handled() == old(self).handled(),
    {
        let mut kept: Vec<OutboxRow> = Vec::new();
        let mut i: usize = 0;
        proof {
            reveal(Seq::filter);
            assert(self.rows@.take(0) =~= Seq::<OutboxRow>::empty());
        }
        while i < self.rows.len()
            invariant
                i <= self.rows@.len(),
                self.wf(),
                self.rows@ == old(self).rows(),
                kept@ == pruned(self.rows@.take(i as int), cutoff),
                kept@.len() <= i,
                forall|k: int|
                    0 <= k < kept@.len() ==> exists|j: int|
                        0 <= j < i && (#[trigger] kept@[k]).event_id == self.rows@[j].event_id
                            && kept@[k].attempts == self.rows@[j].attempts,
                ids_distinct(kept@),
            decreases self.rows@.len() - i,
        {
            proof {
                reveal(Seq::filter);
                assert(self.rows@.take(i + 1).drop_last() =~= self.rows@.take(i as int));
                assert(self.rows@.take(i + 1).last() == self.rows@[i as int]);
            }
            let expired = match self.rows[i].status {
                OutboxStatus::Dlq => self.rows[i].updated_at < cutoff,
                _ => false,
            };
            if !expired {
                let row = self.rows[i].duplicate();
                let ghost before = kept@;
                kept.push(row);
                proof {
                    assert forall|a: int, b: int|
                        0 <= a < b < kept@.len() implies kept@[a].event_id != kept@[b].event_id by {
                        if b == kept@.len() - 1 {
                            assert(kept@[a] == before[a]);
                            let j = choose|j: int|
                                0 <= j < i && before[a].event_id == self.rows@[j].event_id
                                    && before[a].attempts == self.rows@[j].attempts;
                            assert(self.rows@[j].event_id != self.rows@[i as int].event_id);
                        }
                    }
                    assert forall|k: int|
                        0 <= k < kept@.len() implies exists|j: int|
                            0 <= j < i + 1 && (#[trigger] kept@[k]).event_id == self.rows@[j].event_id
                                && kept@[k].attempts == self.rows@[j].attempts by {
                        if k == kept@.len() - 1 {
                            assert(kept@[k] == self.rows@[i as int]);
                        } else {
                            assert(kept@[k] == before[k]);
                        }
                    }
                }
            }
            i = i + 1;
        }
        proof {
            assert(self.rows@.take(i as int) =~= self.rows@);
            assert forall|k: int| 0 <= k < kept@.len() implies #[trigger] kept@[k].attempts >= 0 by {
                let j = choose|j: int|
                    0 <= j < i && kept@[k].event_id == self.rows@[j].event_id
                        && kept@[k].attempts == self.rows@[j].attempts;
                assert(self.rows@[j].attempts >= 0);
            }
        }
        let removed = (self.rows.len() - kept.len()) as u64;
        self.rows = kept;
        removed
    }

    /// The worker with `token` holds the current claim on the event.
    pub fn holds_claim_on(&self, id: u128, token: u128) -> (h: bool)
        requires
            self.wf(),
        ensures
            h == (row_for(self.rows(), id) matches Some(r) && holds_claim(r, token)),
    {
        match self.find(id) {
            Some(i) => match self.rows[i].status {
                OutboxStatus::InProgress => match self.rows[i].claim_token {
                    Some(t) => t == token,
                    None => false,
                },
                _ => false,
            },
            None => false,
        }
    }

    /// The event's status, if the outbox holds it.
    pub fn status(&self, id: u128) -> (s: Option<OutboxStatus>)
        requires
            self.wf(),
        ensures
            s == (match row_for(self.rows(), id) {
                Some(r) => Some(r.status),
                None => None,
            }),
    {
        match self.find(id) {
            Some(i) => Some(self.rows[i].status),
            None => None,
        }
    }

    /// The event's failed attempts, if the outbox holds it.
    pub fn attempts(&self, id: u128) -> (a: Option<i64>)
        requires
            self.wf(),
        ensures
            a == (match row_for(self.rows(), id) {
                Some(r) => Some(r.attempts),
                None => None,
            }),
    {
        match self.find(id) {
            Some(i) => Some(self.rows[i].attempts),
            None => None,
        }
    }

    /// The error of the event's last failed attempt: `None` if the outbox
    /// does not hold the event or no error is recorded.
    pub fn last_error(&self, id: u128) -> (e: Option<String>)
        requires
            self.wf(),
        ensures
            e == (match row_for(self.rows(), id) {
                Some(r) => r.last_error,
                None => None,
            }),
    {
        match self.find(id) {
            Some(i) => match &self.rows[i].last_error {
                Some(e) => Some(e.clone()),
                None => None,
            },
            None => None,
        }
    }

    /// How many events are still owed a delivery: pending, retrying or in
    /// progress.
    pub fn pending_count(&self) -> (n: u64)
        ensures
            n == queued_count(self.rows()),
    {
        let mut n: u64 = 0;
        let mut i: usize = 0;
        while i < self.rows.len()
            invariant
                i <= self.rows@.len(),
                n == queued_count(self.rows@.take(i as int)),
                n <= i,
            decreases self.rows@.len() - i,
        {
            proof {
                assert(self.rows@.take(i + 1).drop_last() =~= self.rows@.take(i as int));
            }
            match self.rows[i].status {
                OutboxStatus::Pending | OutboxStatus::Retrying | OutboxStatus::InProgress => {
                    n = n + 1;
                },
                _ => {},
            }
            i = i + 1;
        }
        proof {
            assert(self.rows@.take(i as int) =~= self.rows@);
        }
        n
    }

    /// How many events are dead-lettered.
    pub fn dlq_count(&self) -> (n: u64)
        ensures
            n == dlq_count_of(self.rows()),
    {
        let mut n: u64 = 0;
        let mut i: usize = 0;
        while i < self.rows.len()
            invariant
                i <= self.rows@.len(),
                n == dlq_count_of(self.rows@.take(i as int)),
                n <= i,
            decreases self.rows@.len() - i,
        {
            proof {
                assert(self.rows@.take(i + 1).drop_last() =~= self.rows@.take(i as int));
            }
            match self.rows[i].status {
                OutboxStatus::Dlq => {
                    n = n + 1;
                },
                _ => {},
            }
            i = i + 1;
        }
        proof {
            assert(self.rows@.take(i as int) =~= self.rows@);
        }
        n
    }

    /// When the oldest event still owed a delivery was published.
    pub fn oldest_pending_created_at(&self) -> (t: Option<i128>)
        ensures
            t == oldest_queued_created_at(self.rows()),
    {
        let mut best: Option<i128> = None;
        let mut i: usize = 0;
        while i < self.rows.len()
            invariant
                i <= self.rows@.len(),
                best is None <==> forall|j: int| 0 <= j < i ==> !(#[trigger] self.rows@[j]).status.is_queued(),
                best matches Some(v) ==> (exists|j: int| 0 <= j < i && (#[trigger] self.rows@[j]).status.is_queued() && self.rows@[j].created_at == v)
                    && forall|j: int| 0 <= j < i && (#[trigger] self.rows@[j]).status.is_queued() ==> v <= self.rows@[j].created_at,
            decreases self.rows@.len() - i,
        {
            let queued = match self.rows[i].status {
                OutboxStatus::Pending | OutboxStatus::Retrying | OutboxStatus::InProgress => true,
                _ => false,
            };
            if queued {
                let t = self.rows[i].created_at;
                match best {
                    None => {
                        best = Some(t);
                    },
                    Some(v) => {
                        if t < v {
                            best = Some(t);
                        }
                    },
                }
            }
            i = i + 1;
        }
        proof {
            let rows = self.rows();
            if let Some(v) = best {
                assert(is_oldest_queued(rows, v));
                let t = choose|t: i128| is_oldest_queued(rows, t);
                let k = choose|i: int| 0 <= i < rows.len() && (#[trigger] rows[i]).status.is_queued() && rows[i].created_at == t;
                let kv = choose|i: int| 0 <= i < rows.len() && (#[trigger] rows[i]).status.is_queued() && rows[i].created_at == v;
                assert(t <= rows[kv].created_at);
                assert(v <= rows[k].created_at);
            }
        }
        best
    }

    /// The most recently handled event: the last entry of the log with the
    /// latest handling time.
    pub fn last_seen(&self) -> (s: Option<u128>)
        ensures
            s == last_handled(self.handled()),
    {
        if self.handled.len() == 0 {
            return None;
        }
        let mut best: usize = 0;
        let mut i: usize = 1;
        while i < self.handled.len()
            invariant
                1 <= i <= self.handled@.len(),
                best < i,
                forall|j: int| 0 <= j < i ==> #[trigger] self.handled@[j].handled_at <= self.handled@[best as int].handled_at,
                forall|j: int| best < j < i ==> #[trigger] self.handled@[j].handled_at < self.handled@[best as int].handled_at,
            decreases self.handled@.len() - i,
        {
            if self.handled[i].handled_at >= self.handled[best].handled_at {
                best = i;
            }
            i = i + 1;
        }
        proof {
            let log = self.handled();
            let b = best as int;
            assert(is_last_handled(log, b));
            let c = choose|i: int| is_last_handled(log, i);
            if c < b {
                assert(log[b].handled_at < log[c].handled_at);
            } else if b < c {
                assert(log[c].handled_at < log[b].handled_at);
            }
            assert(c == b);
        }
        Some(self.handled[best].event_id)
    }
}

} // verus!

verus! {

/// Counting after appending a row adds that row.
pub proof fn lemma_status_count_push(rows: Seq<OutboxRow>, x: OutboxRow, p: spec_fn(OutboxStatus) -> bool)
    ensures
        status_count(rows.push(x), p) == status_count(rows, p) + (if p(x.status) { 1nat } else { 0nat }),
{
    assert(rows.push(x).drop_last() =~= rows);
}

/// Counting after replacing one row swaps that row's contribution.
pub proof fn lemma_status_count_update(rows: Seq<OutboxRow>, i: int, x: OutboxRow, p: spec_fn(OutboxStatus) -> bool)
    requires
        0 <= i < rows.len(),
    ensures
        status_count(rows.update(i, x), p) + (if p(rows[i].status) { 1nat } else { 0nat })
            == status_count(rows, p) + (if p(x.status) { 1nat } else { 0nat }),
    decreases rows.len(),
{
    let u = rows.update(i, x);
    if i == rows.len() - 1 {
        assert(u.drop_last() =~= rows.drop_last());
    } else {
        assert(u.drop_last() =~= rows.drop_last().update(i, x));
        lemma_status_count_update(rows.drop_last(), i, x, p);
    }
}

/// A count never exceeds the number of rows.
pub proof fn lemma_status_count_bound(rows: Seq<OutboxRow>, p: spec_fn(OutboxStatus) -> bool)
    ensures
        status_count(rows, p) <= rows.len(),
    decreases rows.len(),
{
    if rows.len() > 0 {
        lemma_status_count_bound(rows.drop_last(), p);
    }
}

/// Every row is either still owed a delivery, dead-lettered or acknowledged.
pub proof fn lemma_counts_partition(rows: Seq<OutboxRow>)
    ensures
        queued_count(rows) + dlq_count_of(rows) + acked_count(rows) == rows.len(),
    decreases rows.len(),
{
    if rows.len() > 0 {
        lemma_counts_partition(rows.drop_last());
    }
}

/// Pruning removes only dead-lettered rows: the work still owed and the
/// acknowledged events are untouched.
pub proof fn lemma_prune_keeps_live_rows(rows: Seq<OutboxRow>, cutoff: i128)
    ensures
        queued_count(pruned(rows, cutoff)) == queued_count(rows),
        acked_count(pruned(rows, cutoff)) == acked_count(rows),
        dlq_count_of(pruned(rows, cutoff)) + (rows.len() - pruned(rows, cutoff).len()) == dlq_count_of(rows),
    decreases rows.len(),
{
    reveal(Seq::filter);
    if rows.len() > 0 {
        lemma_prune_keeps_live_rows(rows.drop_last(), cutoff);
        let sub = pruned(rows.drop_last(), cutoff);
        if !expired_dlq(rows.last(), cutoff) {
            lemma_status_count_push(sub, rows.last(), |s: OutboxStatus| s.is_queued());
            lemma_status_count_push(sub, rows.last(), |s: OutboxStatus| s is Acked);
            lemma_status_count_push(sub, rows.last(), |s: OutboxStatus| s is Dlq);
        }
    }
}

/// A claim holds its event for the length of its lease: no worker can claim
/// it again until the lease cutoff passes the time of the claim, and any
/// worker can once it has.
pub proof fn lemma_claim_lease(r: OutboxRow, now: i128, token: u128, later: i128, lease_cutoff: i128)
    ensures
        lease_cutoff <= now ==> !claimable(claimed(r, now, token), later, lease_cutoff),
        now < lease_cutoff ==> claimable(claimed(r, now, token), later, lease_cutoff),
        holds_claim(claimed(r, now, token), token),
{
}

/// No double delivery under a live lease: once row `i` is claimed at `now`,
/// a claim whose lease cutoff is not past `now` cannot take it again.
pub proof fn lemma_no_double_claim(rows: Seq<OutboxRow>, i: int, now: i128, token: u128, later: i128, lease_cutoff: i128)
    requires
        0 <= i < rows.len(),
        lease_cutoff <= now,
    ensures
        !is_next_claim(rows.update(i, claimed(rows[i], now, token)), i, later, lease_cutoff),
{
}

/// Two workers racing for one event: both may have chosen it, but the
/// conditional claims run one after the other, and while the first claim's
/// lease lives (the second claim's lease cutoff is not past the first
/// claim's time) the second finds the event no longer claimable.
pub proof fn lemma_interleaved_claims_exclusive(
    rows: Seq<OutboxRow>,
    id: u128,
    now1: i128,
    cutoff1: i128,
    token1: u128,
    now2: i128,
    cutoff2: i128,
    token2: u128,
)
    requires
        ids_distinct(rows),
        cutoff2 <= now1,
    ensures
        !(conditional_claim(rows, id, now1, cutoff1, token1).1 && conditional_claim(
            conditional_claim(rows, id, now1, cutoff1, token1).0,
            id,
            now2,
            cutoff2,
            token2,
        ).1),
{
    let (after, first) = conditional_claim(rows, id, now1, cutoff1, token1);
    if first {
        let i = row_index(rows, id);
        assert(after[i].event_id == id);
        assert(has_row(after, id));
        let j = row_index(after, id);
        assert(after[j].event_id == id);
        if j != i {
            assert(rows[j].event_id == after[j].event_id);
            assert(rows[i].event_id == id);
            if i < j {
                assert(rows[i].event_id != rows[j].event_id);
            } else {
                assert(rows[j].event_id != rows[i].event_id);
            }
        }
        assert(!claimable(after[j], now2, cutoff2));
    }
}

/// Events are never lost: a prune keeps every row that is still owed a
/// delivery or acknowledged, in order.
pub proof fn lemma_prune_keeps_queued_rows(rows: Seq<OutboxRow>, cutoff: i128, i: int)
    requires
        0 <= i < rows.len(),
        !(rows[i].status is Dlq),
    ensures
        pruned(rows, cutoff).contains(rows[i]),
{
    rows.lemma_filter_contains(|r: OutboxRow| !expired_dlq(r, cutoff), i);
}

/// Taking over a claim revokes the earlier one: the worker with the earlier
/// token can then neither acknowledge nor fail the event.
pub proof fn lemma_takeover_revokes(r: OutboxRow, now: i128, old_token: u128, new_token: u128)
    requires
        old_token != new_token,
    ensures
        !holds_claim(claimed(r, now, new_token), old_token),
        holds_claim(claimed(r, now, new_token), new_token),
{
}

/// Acknowledged and dead-lettered events are final for workers: no worker
/// can claim them, and none holds a claim on them, so a late completion of
/// an earlier attempt leaves them unchanged.
pub proof fn lemma_terminal_rows_are_final(r: OutboxRow, now: i128, lease_cutoff: i128, token: u128)
    requires
        r.status is Acked || r.status is Dlq,
    ensures
        !claimable(r, now, lease_cutoff),
        !holds_claim(r, token),
{
}

/// Replaying takes the event out of the dead-letter queue with a clean
/// slate, so a second replay finds nothing to do; the event is due at once.
pub proof fn lemma_replay_resets(r: OutboxRow, now: i128, later: i128, lease_cutoff: i128)
    requires
        now <= later,
    ensures
        replayed(r, now).status is Pending,
        !(replayed(r, now).status is Dlq),
        replayed(r, now).attempts == 0,
        replayed(r, now).last_error is None,
        claimable(replayed(r, now), later, lease_cutoff),
{
}

/// The retry budget: a failed attempt dead-letters the event exactly when
/// it brings the attempts to `max_retries`, and schedules a retry after the
/// back-off otherwise.
pub proof fn lemma_retry_budget(r: OutboxRow, error: String, now: i128, max_retries: i64)
    ensures
        failed(r, error, now, max_retries).status is Dlq <==> r.attempts + 1 >= max_retries,
        failed(r, error, now, max_retries).status is Retrying <==> r.attempts + 1 < max_retries,
        forall|t: u128| !holds_claim(#[trigger] failed(r, error, now, max_retries), t),
{
}

/// Publishing is idempotent: once an event is inserted, inserting it again
/// is a duplicate.
pub proof fn lemma_insert_then_duplicate(rows: Seq<OutboxRow>, id: u128, envelope: String, now: i128)
    ensures
        has_row(rows.push(fresh_row(id, envelope, now)), id),
{
    let s = rows.push(fresh_row(id, envelope, now));
    assert(s[rows.len() as int].event_id == id);
}

} // verus!

verus! {

/// Which rows a worker can claim, whatever their attempt count or other
/// fields: a pending or retrying row whose next attempt is due, and an
/// in-progress row whose lease was taken before the cutoff; no other row.
pub proof fn lemma_claimable_rows(r: OutboxRow, now: i128, lease_cutoff: i128)
    ensures
        (r.status is Pending && r.next_attempt_at <= now) ==> claimable(r, now, lease_cutoff),
        (r.status is Retrying && r.next_attempt_at <= now) ==> claimable(r, now, lease_cutoff),
        (r.status is InProgress && r.updated_at < lease_cutoff) ==> claimable(r, now, lease_cutoff),
        claimable(r, now, lease_cutoff) ==> (r.status is Pending && r.next_attempt_at <= now) || (
        r.status is Retrying && r.next_attempt_at <= now) || (r.status is InProgress
            && r.updated_at < lease_cutoff),
{
}

/// A poll finds nothing only when nothing is due: no pending or retrying
/// row has its next attempt at or before `now`, and no in-progress row holds
/// a lease taken before the cutoff.
pub proof fn lemma_nothing_claimable_means_nothing_due(rows: Seq<OutboxRow>, now: i128, lease_cutoff: i128)
    requires
        !any_claimable(rows, now, lease_cutoff),
    ensures
        forall|i: int|
            0 <= i < rows.len() ==> !((#[trigger] rows[i]).status is Pending && rows[i].next_attempt_at <= now)
                && !(rows[i].status is Retrying && rows[i].next_attempt_at <= now) && !(rows[i].status is InProgress
                && rows[i].updated_at < lease_cutoff),
{
    assert forall|i: int| 0 <= i < rows.len() implies !((#[trigger] rows[i]).status is Pending
        && rows[i].next_attempt_at <= now) && !(rows[i].status is Retrying && rows[i].next_attempt_at
        <= now) && !(rows[i].status is InProgress && rows[i].updated_at < lease_cutoff) by {
        assert(!claimable(rows[i], now, lease_cutoff));
    }
}

/// A failed attempt raises the attempt count by exactly one, records the
/// error, drops the claim, stamps the time, schedules the next attempt after
/// the back-off in milliseconds, and dead-letters the event exactly when the
/// new count reaches the retry budget; the event's id, envelope and
/// creation time are kept.
pub proof fn lemma_failed_attempt(r: OutboxRow, error: String, now: i128, max_retries: i64)
    requires
        0 <= r.attempts < i64::MAX,
        now + MAX_RETRY_DELAY_NS <= i128::MAX,
    ensures
        failed(r, error, now, max_retries).attempts == r.attempts + 1,
        failed(r, error, now, max_retries).status is Dlq <==> r.attempts + 1 >= max_retries,
        failed(r, error, now, max_retries).status is Retrying <==> r.attempts + 1 < max_retries,
        failed(r, error, now, max_retries).last_error == Some(error),
        failed(r, error, now, max_retries).claim_token is None,
        failed(r, error, now, max_retries).updated_at == now,
        failed(r, error, now, max_retries).next_attempt_at == now + retry_delay_ms(
            r.event_id,
            r.attempts + 1,
        ) * 1_000_000,
        failed(r, error, now, max_retries).event_id == r.event_id,
        failed(r, error, now, max_retries).envelope == r.envelope,
        failed(r, error, now, max_retries).created_at == r.created_at,
{
    crate::delivery::lemma_retry_delay_bounded(r.event_id, r.attempts + 1);
}

/// The row after `k` rounds of being claimed at `now` under `token` and
/// failing at `now` with `error`.
pub open spec fn after_failed_rounds(r: OutboxRow, k: nat, error: String, now: i128, token: u128, max_retries: i64) -> OutboxRow
    decreases k,
{
    if k == 0 {
        r
    } else {
        failed(
            claimed(after_failed_rounds(r, (k - 1) as nat, error, now, token, max_retries), now, token),
            error,
            now,
            max_retries,
        )
    }
}

/// A fresh event that fails `k` times in a row has made `k` attempts; it is
/// dead-lettered exactly when `k` has reached the retry budget, and waits
/// for a retry before that. In particular `max_retries` failures in a row
/// dead-letter it with `max_retries` attempts.
pub proof fn lemma_consecutive_failures(r: OutboxRow, k: nat, error: String, now: i128, token: u128, max_retries: i64)
    requires
        r.attempts == 0,
        1 <= k < i64::MAX,
        now + MAX_RETRY_DELAY_NS <= i128::MAX,
    ensures
        after_failed_rounds(r, k, error, now, token, max_retries).attempts == k,
        after_failed_rounds(r, k, error, now, token, max_retries).status is Dlq <==> k >= max_retries,
        after_failed_rounds(r, k, error, now, token, max_retries).status is Retrying <==> k < max_retries,
    decreases k,
{
    if k > 1 {
        lemma_consecutive_failures(r, (k - 1) as nat, error, now, token, max_retries);
    }
    let prev = after_failed_rounds(r, (k - 1) as nat, error, now, token, max_retries);
    lemma_failed_attempt(claimed(prev, now, token), error, now, max_retries);
}

/// How many rows are dead-lettered and were last updated before `cutoff`.
pub open spec fn expired_dead_letters(rows: Seq<OutboxRow>, cutoff: i128) -> nat
    decreases rows.len(),
{
    if rows.len() == 0 {
        0
    } else {
        expired_dead_letters(rows.drop_last(), cutoff) + (if rows.last().status is Dlq
            && rows.last().updated_at < cutoff { 1nat } else { 0nat })
    }
}

/// A prune removes exactly the dead-lettered rows last updated before the
/// cutoff, whatever their other fields: none of them is left, every other
/// row is kept, and the number removed is the number of such rows.
pub proof fn lemma_prune_removes_exactly_expired(rows: Seq<OutboxRow>, cutoff: i128)
    ensures
        forall|i: int|
            0 <= i < rows.len() && (#[trigger] rows[i]).status is Dlq && rows[i].updated_at < cutoff
                ==> !pruned(rows, cutoff).contains(rows[i]),
        forall|i: int|
            0 <= i < rows.len() && !((#[trigger] rows[i]).status is Dlq && rows[i].updated_at < cutoff)
                ==> pruned(rows, cutoff).contains(rows[i]),
        rows.len() - pruned(rows, cutoff).len() == expired_dead_letters(rows, cutoff),
    decreases rows.len(),
{
    reveal(Seq::filter);
    let p = |r: OutboxRow| !expired_dlq(r, cutoff);
    assert forall|i: int|
        0 <= i < rows.len() && (#[trigger] rows[i]).status is Dlq && rows[i].updated_at < cutoff
            implies !pruned(rows, cutoff).contains(rows[i]) by {
        if pruned(rows, cutoff).contains(rows[i]) {
            let j = choose|j: int| 0 <= j < pruned(rows, cutoff).len() && pruned(rows, cutoff)[j] == rows[i];
            rows.lemma_filter_pred(p, j);
        }
    }
    assert forall|i: int|
        0 <= i < rows.len() && !((#[trigger] rows[i]).status is Dlq && rows[i].updated_at < cutoff)
            implies pruned(rows, cutoff).contains(rows[i]) by {
        rows.lemma_filter_contains(p, i);
    }
    if rows.len() > 0 {
        lemma_prune_removes_exactly_expired(rows.drop_last(), cutoff);
    }
}

} // verus!

verus! {

/// What each single-row step writes: a publish stores a pending row due at
/// once with no attempts, error or claim; a claim marks the row in progress
/// under the token, stamped now; an acknowledgement marks it acked, stamped
/// now, and drops the claim; a replay makes it pending and due now with no
/// attempts, error or claim. Each keeps the event's id, envelope and
/// creation time.
pub proof fn lemma_row_steps(r: OutboxRow, id: u128, envelope: String, now: i128, token: u128)
    ensures
        fresh_row(id, envelope, now).event_id == id && fresh_row(id, envelope, now).envelope == envelope
            && fresh_row(id, envelope, now).status is Pending && fresh_row(id, envelope, now).attempts
            == 0 && fresh_row(id, envelope, now).next_attempt_at == now && fresh_row(
            id,
            envelope,
            now,
        ).created_at == now && fresh_row(id, envelope, now).updated_at == now && fresh_row(
            id,
            envelope,
            now,
        ).last_error is None && fresh_row(id, envelope, now).claim_token is None,
        claimed(r, now, token).status is InProgress && claimed(r, now, token).claim_token == Some(
            token,
        ) && claimed(r, now, token).updated_at == now && claimed(r, now, token).attempts
            == r.attempts && claimed(r, now, token).next_attempt_at == r.next_attempt_at && claimed(
            r,
            now,
            token,
        ).last_error == r.last_error,
        acked(r, now).status is Acked && acked(r, now).claim_token is None && acked(r, now).updated_at
            == now && acked(r, now).attempts == r.attempts && acked(r, now).last_error == r.last_error,
        replayed(r, now).status is Pending && replayed(r, now).attempts == 0 && replayed(
            r,
            now,
        ).next_attempt_at == now && replayed(r, now).last_error is None && replayed(r, now).claim_token
            is None && replayed(r, now).updated_at == now,
        claimed(r, now, token).event_id == r.event_id && acked(r, now).event_id == r.event_id
            && replayed(r, now).event_id == r.event_id,
        claimed(r, now, token).envelope == r.envelope && acked(r, now).envelope == r.envelope
            && replayed(r, now).envelope == r.envelope,
        claimed(r, now, token).created_at == r.created_at && acked(r, now).created_at == r.created_at
            && replayed(r, now).created_at == r.created_at,
{
}

/// The counts: one more row adds one to the queue count exactly when it is
/// pending, retrying or in progress, one to the dead-letter count exactly
/// when it is dead-lettered, and one to the acknowledged count exactly when
/// it is acked.
pub proof fn lemma_counts_of_push(rows: Seq<OutboxRow>, r: OutboxRow)
    ensures
        queued_count(rows.push(r)) == queued_count(rows) + (if r.status is Pending || r.status is Retrying
            || r.status is InProgress { 1nat } else { 0nat }),
        dlq_count_of(rows.push(r)) == dlq_count_of(rows) + (if r.status is Dlq { 1nat } else { 0nat }),
        acked_count(rows.push(r)) == acked_count(rows) + (if r.status is Acked { 1nat } else { 0nat }),
        queued_count(Seq::<OutboxRow>::empty()) == 0,
{
    lemma_status_count_push(rows, r, |s: OutboxStatus| s.is_queued());
    lemma_status_count_push(rows, r, |s: OutboxStatus| s is Dlq);
    lemma_status_count_push(rows, r, |s: OutboxStatus| s is Acked);
}

} // verus!
