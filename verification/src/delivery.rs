//! The delivery rules of the bus: retry back-off and budget, leases,
//! bounded retries under store contention, and the worker's poll loop.

use vstd::prelude::*;
use vstd::arithmetic::power2::{pow2, lemma2_to64, lemma_pow2_strictly_increases, lemma_pow2_unfold};
use vstd::bits::lemma_u64_shl_is_mul;
use vstd::utf8::encode_utf8_decode_utf8;
use vstd::string::{StringSliceAdditionalSpecFns, StringExecFns};
use crate::outbox::{OutboxStatus, failure_status};
use crate::observability::{MetricsRegistry, RegistryView, wrapping_succ};

verus! {

/// The longest back-off between two attempts, in milliseconds.
pub const MAX_RETRY_DELAY_MS: i64 = 30_000;

/// Nanoseconds in a millisecond.
pub const NANOS_PER_MILLI: i128 = 1_000_000;

/// The longest back-off between two attempts, in nanoseconds.
pub const MAX_RETRY_DELAY_NS: i128 = 30_000_000_000;

/// How many times a failed attempt's back-off doubles at most.
pub const MAX_BACKOFF_EXPONENT: u64 = 12;

/// The doubling exponent of the back-off before attempt `attempt`.
pub open spec fn backoff_exponent(attempt: int) -> nat {
    if attempt - 1 < 12 {
        (attempt - 1) as nat
    } else {
        12
    }
}

/// The back-off before attempt `attempt`, without jitter: 10 ms doubled per
/// earlier attempt, at most 12 times.
pub open spec fn backoff_base_ms(attempt: int) -> int {
    10 * (pow2(backoff_exponent(attempt)) as int)
}

/// The jitter window: a quarter of the base back-off, and at least 1 ms.
pub open spec fn jitter_window_ms(attempt: int) -> int {
    if backoff_base_ms(attempt) / 4 > 1 {
        backoff_base_ms(attempt) / 4
    } else {
        1
    }
}

/// Milliseconds to wait before attempt number `attempt` (counting from 1) of
/// event `event_id`: the base back-off plus the event id modulo the jitter
/// window, capped at 30 s.
pub open spec fn retry_delay_ms(event_id: u128, attempt: int) -> int {
    let d = backoff_base_ms(attempt) + (event_id as int) % jitter_window_ms(attempt);
    if d < MAX_RETRY_DELAY_MS {
        d
    } else {
        MAX_RETRY_DELAY_MS as int
    }
}

proof fn lemma_base_bounds(attempt: int)
    requires
        attempt >= 1,
    ensures
        10 <= backoff_base_ms(attempt) <= 40960,
        backoff_base_ms(attempt) / 4 >= 2,
        jitter_window_ms(attempt) == backoff_base_ms(attempt) / 4,
        attempt <= 12 ==> backoff_base_ms(attempt + 1) == 2 * backoff_base_ms(attempt),
        attempt >= 13 ==> backoff_base_ms(attempt) == 40960 && backoff_base_ms(attempt + 1) == 40960,
{
    let e = backoff_exponent(attempt);
    lemma2_to64();
    if e < 12 {
        lemma_pow2_strictly_increases(e, 12);
    }
    if e > 0 {
        lemma_pow2_strictly_increases(0, e);
    }
    if attempt <= 12 {
        lemma_pow2_unfold((e + 1) as nat);
    }
}

/// How long to wait before attempt `attempt` of event `event_id`, in
/// milliseconds.
pub fn retry_delay(event_id: u128, attempt: i64) -> (d: i64)
    requires
        attempt >= 1,
    ensures
        d == retry_delay_ms(event_id, attempt as int),
{
    proof {
        lemma_base_bounds(attempt as int);
    }
    let exponent: u64 = if attempt - 1 < 12 {
        (attempt - 1) as u64
    } else {
        MAX_BACKOFF_EXPONENT
    };
    proof {
        lemma2_to64();
        if exponent < 12 {
            lemma_pow2_strictly_increases(exponent as nat, 12);
        }
        lemma_u64_shl_is_mul(1, exponent);
    }
    let factor: u64 = 1u64 << exponent;
    let base_ms: i64 = 10 * (factor as i64);
    let window: i64 = if base_ms / 4 > 1 {
        base_ms / 4
    } else {
        1
    };
    let jitter: i64 = (event_id % (window as u128)) as i64;
    let total: i64 = base_ms + jitter;
    if total < MAX_RETRY_DELAY_MS {
        total
    } else {
        MAX_RETRY_DELAY_MS
    }
}

/// Every back-off lies between 10 ms and 30 s.
pub proof fn lemma_retry_delay_bounded(event_id: u128, attempt: int)
    requires
        attempt >= 1,
    ensures
        10 <= retry_delay_ms(event_id, attempt) <= MAX_RETRY_DELAY_MS,
{
    lemma_base_bounds(attempt);
}

/// One more attempt never waits less, and waits strictly longer until the
/// 30 s cap is reached.
pub proof fn lemma_retry_delay_step(event_id: u128, attempt: int)
    requires
        attempt >= 1,
    ensures
        retry_delay_ms(event_id, attempt) <= retry_delay_ms(event_id, attempt + 1),
        retry_delay_ms(event_id, attempt) < MAX_RETRY_DELAY_MS ==> retry_delay_ms(event_id, attempt)
            < retry_delay_ms(event_id, attempt + 1),
{
    lemma_base_bounds(attempt);
    lemma_base_bounds(attempt + 1);
}

/// The back-off, in numbers: before attempt `a` (from 1 to 12) it is
/// 10 ms times 2^(a-1), plus the event id modulo a quarter of that (at
/// least 1), and it never reaches the cap there; from attempt 13 on it is
/// the 30 s cap.
pub proof fn lemma_retry_delay_values(event_id: u128, a: int)
    requires
        a >= 1,
    ensures
        a <= 12 ==> retry_delay_ms(event_id, a) == 10 * (pow2((a - 1) as nat) as int) + (event_id as int) % (
        if 10 * (pow2((a - 1) as nat) as int) / 4 > 1 { 10 * (pow2((a - 1) as nat) as int) / 4 } else { 1int }),
        a <= 12 ==> retry_delay_ms(event_id, a) < 30_000,
        a >= 13 ==> retry_delay_ms(event_id, a) == 30_000,
{
    lemma_base_bounds(a);
    lemma2_to64();
    if a <= 12 {
        lemma_pow2_strictly_increases((a - 1) as nat, 12);
        if a == 12 {
            assert(pow2(11) == 2048);
        } else {
            lemma_pow2_strictly_increases((a - 1) as nat, 11);
        }
    }
}

/// The back-off grows with the attempt number.
pub proof fn lemma_retry_delay_monotonic(event_id: u128, a1: int, a2: int)
    requires
        1 <= a1 <= a2,
    ensures
        retry_delay_ms(event_id, a1) <= retry_delay_ms(event_id, a2),
    decreases a2 - a1,
{
    if a1 < a2 {
        lemma_retry_delay_monotonic(event_id, a1, a2 - 1);
        lemma_retry_delay_step(event_id, a2 - 1);
    }
}


/// What a failed attempt writes into the event's row.
#[derive(Debug, Clone, Copy, PartialEq, Eq, Structural)]
pub struct FailureUpdate {
    pub status: OutboxStatus,
    pub attempts: i64,
    pub next_attempt_at: i128,
}

/// The row update for a failed attempt of `event_id` that had `attempts`
/// failures before it, at `now` (nanoseconds): one more attempt, the
/// dead-letter queue once the count reaches `max_retries` and a retry
/// otherwise, due after the back-off.
pub fn failure_update(event_id: u128, attempts: i64, now: i128, max_retries: i64) -> (u: FailureUpdate)
    requires
        0 <= attempts < i64::MAX,
        now <= i128::MAX - MAX_RETRY_DELAY_NS,
    ensures
        u.attempts == attempts + 1,
        u.status == failure_status(attempts + 1, max_retries),
        u.next_attempt_at == now + retry_delay_ms(event_id, attempts + 1) * NANOS_PER_MILLI,
{
    let next_attempts = attempts + 1;
    let status = if next_attempts >= max_retries {
        OutboxStatus::Dlq
    } else {
        OutboxStatus::Retrying
    };
    let delay = retry_delay(event_id, next_attempts);
    proof {
        lemma_retry_delay_bounded(event_id, next_attempts as int);
    }
    FailureUpdate { status, attempts: next_attempts, next_attempt_at: now + (delay as i128) * NANOS_PER_MILLI }
}

/// The lease a claim gets when the configured one cannot be represented,
/// in nanoseconds.
pub const FALLBACK_LEASE_NS: i128 = 60_000_000_000;

/// The shortest lease, in nanoseconds: one millisecond.
pub const MIN_LEASE_NS: u128 = 1_000_000;

/// The longest lease a signed 64-bit count of milliseconds holds, in
/// nanoseconds.
pub const MAX_LEASE_NS: u128 = 9_223_372_036_854_775_807_000_000;

/// The tunable parameters of a bus.
#[derive(Debug, Clone, Copy, PartialEq, Eq, Structural)]
pub struct BusConfig {
    /// Failed attempts after which an event is dead-lettered.
    pub max_retries: i64,
    /// How long an idle worker sleeps between polls, in milliseconds.
    pub poll_interval_ms: u64,
    /// How long a claim stays exclusive, in nanoseconds.
    pub lease_timeout_ns: u128,
}

impl BusConfig {
    /// Three retries, a 25 ms poll interval and a 60 s lease.
    pub fn new() -> (c: BusConfig)
        ensures
            c == (BusConfig { max_retries: 3, poll_interval_ms: 25, lease_timeout_ns: 60_000_000_000 }),
    {
        BusConfig { max_retries: 3, poll_interval_ms: 25, lease_timeout_ns: 60_000_000_000 }
    }

    /// The same bus with another retry budget.
    pub fn with_max_retries(self, max_retries: i64) -> (c: BusConfig)
        ensures
            c == (BusConfig { max_retries, ..self }),
    {
        BusConfig { max_retries, ..self }
    }

    /// The same bus with another lease, of at least 1 ms.
    pub fn with_lease_timeout(self, lease_timeout_ns: u128) -> (c: BusConfig)
        ensures
            c == (BusConfig {
                lease_timeout_ns: if lease_timeout_ns >= MIN_LEASE_NS { lease_timeout_ns } else { MIN_LEASE_NS },
                ..self
            }),
    {
        let lease_timeout_ns = if lease_timeout_ns >= MIN_LEASE_NS {
            lease_timeout_ns
        } else {
            MIN_LEASE_NS
        };
        BusConfig { lease_timeout_ns, ..self }
    }
}

/// The lease actually applied, in nanoseconds: the configured one, or 60 s
/// where it is longer than a signed 64-bit count of milliseconds.
pub open spec fn effective_lease_ns(lease_timeout_ns: u128) -> int {
    if lease_timeout_ns <= MAX_LEASE_NS {
        lease_timeout_ns as int
    } else {
        FALLBACK_LEASE_NS as int
    }
}

/// Claims taken before this instant (nanoseconds) have expired.
pub fn lease_cutoff(now: i128, lease_timeout_ns: u128) -> (c: i128)
    requires
        now - effective_lease_ns(lease_timeout_ns) >= i128::MIN,
    ensures
        c == now - effective_lease_ns(lease_timeout_ns),
{
    let lease: i128 = if lease_timeout_ns <= MAX_LEASE_NS {
        lease_timeout_ns as i128
    } else {
        FALLBACK_LEASE_NS
    };
    now - lease
}

/// The instant `secs` seconds and `nanos` nanoseconds after the Unix epoch,
/// in nanoseconds.
pub open spec fn instant_ns(secs: i64, nanos: u32) -> int {
    secs * 1_000_000_000 + nanos
}

/// An instant given as seconds and nanoseconds, in nanoseconds since the
/// Unix epoch.
pub fn instant_nanos(secs: i64, nanos: u32) -> (t: i128)
    ensures
        t == instant_ns(secs, nanos),
{
    (secs as i128) * 1_000_000_000 + (nanos as i128)
}

/// An instant in nanoseconds, split into whole seconds (rounded down) and
/// the nanoseconds past them; `None` where the seconds leave `i64`.
pub fn instant_parts(t: i128) -> (p: Option<(i64, u32)>)
    ensures
        p matches Some((secs, nanos)) ==> instant_ns(secs, nanos) == t && nanos < 1_000_000_000,
        p is None <==> !(i64::MIN <= t / 1_000_000_000 <= i64::MAX),
{
    let secs = t / 1_000_000_000;
    let rem = t % 1_000_000_000;
    let (secs, rem) = if rem < 0 { (secs - 1, rem + 1_000_000_000) } else { (secs, rem) };
    if secs < i64::MIN as i128 || secs > i64::MAX as i128 {
        None
    } else {
        Some((secs as i64, rem as u32))
    }
}

/// How many times an operation is retried after the store reports
/// contention.
pub const BUSY_RETRY_LIMIT: u32 = 8;

/// The first pause after contention, in milliseconds.
pub const BUSY_INITIAL_DELAY_MS: u64 = 2;

/// The longest pause after contention, in milliseconds.
pub const BUSY_MAX_DELAY_MS: u64 = 250;

/// What to do after a store operation failed.
#[derive(Debug, Clone, Copy, PartialEq, Eq, Structural)]
pub enum BusyAction {
    /// Sleep this many milliseconds, then run the operation again.
    Sleep(u64),
    /// Return the error.
    GiveUp,
}

/// The progress of a store operation retried under contention.
#[derive(Debug, Clone, Copy, PartialEq, Eq, Structural)]
pub struct BusyRetry {
    /// Retries taken so far.
    pub attempt: u32,
    /// The pause before the next retry, in milliseconds.
    pub delay_ms: u64,
}

impl BusyRetry {
    /// The retry budget is respected and the pause is bounded.
    pub open spec fn wf(self) -> bool {
        self.attempt <= BUSY_RETRY_LIMIT && self.delay_ms <= BUSY_MAX_DELAY_MS
    }

    /// Before the first try.
    pub fn new() -> (r: BusyRetry)
        ensures
            r.wf(),
            r == (BusyRetry { attempt: 0, delay_ms: BUSY_INITIAL_DELAY_MS }),
    {
        BusyRetry { attempt: 0, delay_ms: BUSY_INITIAL_DELAY_MS }
    }

    /// The operation failed; `busy` says whether the store reported
    /// contention. Contention is retried, after a pause that doubles up to
    /// 250 ms, at most 8 times, and each such retry is counted in the
    /// `sqlite_busy_retries` series; any other error, or contention once the
    /// budget is spent, is returned.
    pub fn on_error(&mut self, registry: &mut MetricsRegistry, busy: bool) -> (a: BusyAction)
        requires
            old(self).wf(),
        ensures
            final(self).wf(),
            a == busy_action(*old(self), busy),
            *final(self) == busy_step(*old(self), busy),
            final(registry)@ == (if a is Sleep {
                RegistryView {
                    sqlite_busy_retries: wrapping_succ(old(registry)@.sqlite_busy_retries),
                    ..old(registry)@
                }
            } else {
                old(registry)@
            }),
    {
        if self.attempt < BUSY_RETRY_LIMIT && busy {
            let pause = self.delay_ms;
            self.attempt = self.attempt + 1;
            self.delay_ms = if 2 * self.delay_ms <= BUSY_MAX_DELAY_MS {
                2 * self.delay_ms
            } else {
                BUSY_MAX_DELAY_MS
            };
            registry.sqlite_busy_retries.increment();
            BusyAction::Sleep(pause)
        } else {
            BusyAction::GiveUp
        }
    }
}

/// Contention is retried: the budget is not spent and the error is
/// contention.
pub open spec fn retries(r: BusyRetry, busy: bool) -> bool {
    r.attempt < BUSY_RETRY_LIMIT && busy
}

/// What to do after an error: sleep for the current pause, or give up.
pub open spec fn busy_action(r: BusyRetry, busy: bool) -> BusyAction {
    if retries(r, busy) {
        BusyAction::Sleep(r.delay_ms)
    } else {
        BusyAction::GiveUp
    }
}

/// The retry state after an error: one more retry and a doubled pause, at
/// most 250 ms, or unchanged when giving up.
pub open spec fn busy_step(r: BusyRetry, busy: bool) -> BusyRetry {
    if retries(r, busy) {
        BusyRetry {
            attempt: (r.attempt + 1) as u32,
            delay_ms: if 2 * r.delay_ms <= BUSY_MAX_DELAY_MS { (2 * r.delay_ms) as u64 } else { BUSY_MAX_DELAY_MS },
        }
    } else {
        r
    }
}

/// The retry state after `k` contention errors in a row.
pub open spec fn after_busy_errors(k: nat) -> BusyRetry
    decreases k,
{
    if k == 0 {
        BusyRetry { attempt: 0, delay_ms: BUSY_INITIAL_DELAY_MS }
    } else {
        busy_step(after_busy_errors((k - 1) as nat), true)
    }
}

/// The contention budget: the first 8 contention errors in a row are each
/// retried after a pause of 2, 4, 8, 16, 32, 64, 128 and then 250 ms, and
/// the 9th is given up on, so an operation runs at most 9 times.
pub proof fn lemma_busy_retry_budget(k: nat)
    requires
        k <= BUSY_RETRY_LIMIT,
    ensures
        after_busy_errors(k).attempt == k,
        after_busy_errors(k).wf(),
        k < 7 ==> after_busy_errors(k).delay_ms == pow2(k + 1),
        k >= 7 ==> after_busy_errors(k).delay_ms == BUSY_MAX_DELAY_MS,
        k < BUSY_RETRY_LIMIT ==> busy_action(after_busy_errors(k), true) == BusyAction::Sleep(
            after_busy_errors(k).delay_ms,
        ),
        k == BUSY_RETRY_LIMIT ==> busy_action(after_busy_errors(k), true) == BusyAction::GiveUp,
    decreases k,
{
    lemma2_to64();
    if k > 0 {
        lemma_busy_retry_budget((k - 1) as nat);
    }
}

/// `needle` occurs in `hay` at position `i`.
pub open spec fn occurs_at(hay: Seq<u8>, needle: Seq<u8>, i: int) -> bool {
    0 <= i && i + needle.len() <= hay.len() && hay.subrange(i, i + needle.len()) == needle
}

/// `needle` occurs somewhere in `hay`.
pub open spec fn contains_bytes(hay: Seq<u8>, needle: Seq<u8>) -> bool {
    exists|i: int| occurs_at(hay, needle, i)
}

fn matches_at(hay: &[u8], needle: &[u8], i: usize) -> (r: bool)
    requires
        i + needle@.len() <= hay@.len(),
    ensures
        r == occurs_at(hay@, needle@, i as int),
{
    let mut k: usize = 0;
    while k < needle.len()
        invariant
            k <= needle@.len(),
            i + needle@.len() <= hay@.len(),
            hay@.len() == hay.len(),
            needle@.len() == needle.len(),
            forall|m: int| 0 <= m < k ==> hay@[i + m] == needle@[m],
        decreases needle@.len() - k,
    {
        if hay[i + k] != needle[k] {
            assert(hay@.subrange(i as int, i + needle@.len())[k as int] != needle@[k as int]);
            return false;
        }
        k = k + 1;
    }
    assert(hay@.subrange(i as int, i + needle@.len()) =~= needle@);
    true
}

fn find_bytes(hay: &[u8], needle: &[u8]) -> (r: bool)
    ensures
        r == contains_bytes(hay@, needle@),
{
    if needle.len() == 0 {
        assert(occurs_at(hay@, needle@, 0)) by {
            assert(hay@.subrange(0, 0) =~= needle@);
        }
        return true;
    }
    if needle.len() > hay.len() {
        return false;
    }
    let last = hay.len() - needle.len();
    let mut i: usize = 0;
    while i <= last
        invariant
            last == hay@.len() - needle@.len(),
            needle@.len() >= 1,
            hay@.len() == hay.len(),
            needle@.len() == needle.len(),
            i <= last + 1,
            forall|j: int| 0 <= j < i ==> !occurs_at(hay@, needle@, j),
        decreases last + 1 - i,
    {
        if matches_at(hay, needle, i) {
            return true;
        }
        i = i + 1;
    }
    false
}

/// The message SQLite gives when the database is locked by another writer.
pub open spec fn locked_message() -> Seq<u8> {
    "database is locked".spec_bytes()
}

/// A database error is contention: its code is `5` (`SQLITE_BUSY`), or its
/// message says that the database is locked.
pub fn is_sqlite_busy(code: Option<&str>, message: &str) -> (busy: bool)
    ensures
        busy == ((code matches Some(c) && c@ == "5"@) || contains_bytes(
            message.spec_bytes(),
            locked_message(),
        )),
{
    let code_is_busy = match code {
        Some(c) => {
            let got = c.as_bytes();
            let want = "5".as_bytes();
            let same = got.len() == want.len() && matches_at(got, want, 0);
            proof {
                encode_utf8_decode_utf8(c@);
                encode_utf8_decode_utf8("5"@);
                if got@.len() == want@.len() {
                    assert(got@.subrange(0, want@.len() as int) =~= got@);
                }
                if same {
                    assert(got@ =~= want@);
                    assert(c@ == "5"@);
                }
                if c@ == "5"@ {
                    assert(got@ == want@);
                }
            }
            same
        },
        None => false,
    };
    code_is_busy || find_bytes(message.as_bytes(), "database is locked".as_bytes())
}


/// The message SQLite gives when a column being added already exists.
pub open spec fn duplicate_column_message() -> Seq<u8> {
    "duplicate column name".spec_bytes()
}

/// A schema change failed only because the column it adds is already there:
/// the error's text says `duplicate column name`.
pub fn is_duplicate_column_error(message: &str) -> (dup: bool)
    ensures
        dup == contains_bytes(message.spec_bytes(), duplicate_column_message()),
{
    find_bytes(message.as_bytes(), "duplicate column name".as_bytes())
}

/// The acknowledgement of a publish.
#[derive(Debug, Clone, Copy, PartialEq, Eq, Structural)]
pub struct Ack {
    pub event_id: u128,
    /// The event was already in the outbox, so nothing was inserted.
    pub duplicate: bool,
}

/// A handler's refusal of an event, with its reason.
#[derive(Debug)]
pub struct HandlerError(pub String);

/// The text a refusal is recorded under.
pub open spec fn nack_text(reason: Seq<char>) -> Seq<char> {
    "handler nack: "@ + reason
}

impl HandlerError {
    /// The refusal as recorded in the outbox: `handler nack: ` and the
    /// reason.
    pub fn message(&self) -> (m: String)
        ensures
            m@ == nack_text(self.0@),
    {
        let prefix = "handler nack: ".to_owned();
        prefix.concat(self.0.as_str())
    }
}

} // verus!
