//! In-process counters and gauges that describe the bus, the registry that
//! holds the bus-wide series, and the exportable snapshot of that registry.

use vstd::prelude::*;
use crate::envelope::EventEnvelope;
use vstd::arithmetic::power2::pow2;

verus! {

/// Why tracing could not start.
#[derive(Debug)]
pub enum InitError {
    /// The OTLP exporter could not be installed.
    Otlp(String),
    /// The global tracing subscriber was already installed or refused.
    Subscriber(String),
}

/// A monotonically increasing event counter.
#[derive(Debug, Clone, Copy)]
pub struct Counter {
    value: u64,
}

/// `x + 1` as an unsigned 64-bit atomic `fetch_add` computes it.
pub open spec fn wrapping_succ(x: u64) -> u64 {
    if x == u64::MAX { 0 } else { (x + 1) as u64 }
}

impl Counter {
    /// The counter's current value.
    pub closed spec fn value(self) -> u64 {
        self.value
    }

    /// A counter at zero.
    pub fn new() -> (c: Counter)
        ensures
            c.value() == 0,
    {
        Counter { value: 0 }
    }

    /// Adds one, wrapping around at `u64::MAX` as an atomic `fetch_add` does.
    pub fn increment(&mut self)
        ensures
            final(self).value() == wrapping_succ(old(self).value()),
    {
        self.value = self.value.wrapping_add(1);
    }

    /// The current value.
    pub fn get(&self) -> (v: u64)
        ensures
            v == self.value(),
    {
        self.value
    }

    /// Sets the counter back to zero.
    pub fn reset(&mut self)
        ensures
            final(self).value() == 0,
    {
        self.value = 0;
    }
}

/// A value that can move both ways, such as a queue depth.
#[derive(Debug, Clone, Copy)]
pub struct Gauge {
    value: u64,
}

impl Gauge {
    /// The gauge's current value.
    pub closed spec fn value(self) -> u64 {
        self.value
    }

    /// A gauge at zero.
    pub fn new() -> (g: Gauge)
        ensures
            g.value() == 0,
    {
        Gauge { value: 0 }
    }

    /// Replaces the value.
    pub fn set(&mut self, value: u64)
        ensures
            final(self).value() == value,
    {
        self.value = value;
    }

    /// Adds one, wrapping around at `u64::MAX` as an atomic `fetch_add` does.
    pub fn increment(&mut self)
        ensures
            final(self).value() == wrapping_succ(old(self).value()),
    {
        self.value = self.value.wrapping_add(1);
    }

    /// Subtracts `amount`, stopping at zero.
    pub fn decrement_by(&mut self, amount: u64)
        ensures
            final(self).value() == (if old(self).value() >= amount { (old(self).value() - amount) as u64 } else { 0 }),
    {
        self.value = self.value.saturating_sub(amount);
    }

    /// The current value.
    pub fn get(&self) -> (v: u64)
        ensures
            v == self.value(),
    {
        self.value
    }
}

/// The bus-wide series: what the process keeps once, for every bus in it.
#[derive(Debug, Clone, Copy)]
pub struct MetricsRegistry {
    pub events_published: Counter,
    pub events_processed: Counter,
    pub events_failed: Counter,
    pub events_retried: Counter,
    pub queue_depth: Gauge,
    pub dlq_depth: Gauge,
    pub oldest_event_age_ms: Gauge,
    pub worker_errors: Counter,
    pub sqlite_busy_retries: Counter,
}

/// The value of every bus-wide series.
#[derive(Debug, Clone, Copy, PartialEq, Eq, Structural)]
pub struct RegistryView {
    pub published: u64,
    pub processed: u64,
    pub failed: u64,
    pub retried: u64,
    pub queue_depth: u64,
    pub dlq_depth: u64,
    pub oldest_event_age_ms: u64,
    pub worker_errors: u64,
    pub sqlite_busy_retries: u64,
}

impl View for MetricsRegistry {
    type V = RegistryView;

    open spec fn view(&self) -> RegistryView {
        RegistryView {
            published: self.events_published.value(),
            processed: self.events_processed.value(),
            failed: self.events_failed.value(),
            retried: self.events_retried.value(),
            queue_depth: self.queue_depth.value(),
            dlq_depth: self.dlq_depth.value(),
            oldest_event_age_ms: self.oldest_event_age_ms.value(),
            worker_errors: self.worker_errors.value(),
            sqlite_busy_retries: self.sqlite_busy_retries.value(),
        }
    }
}

impl MetricsRegistry {
    /// Every series at zero.
    pub open spec fn new_view() -> RegistryView {
        RegistryView {
            published: 0,
            processed: 0,
            failed: 0,
            retried: 0,
            queue_depth: 0,
            dlq_depth: 0,
            oldest_event_age_ms: 0,
            worker_errors: 0,
            sqlite_busy_retries: 0,
        }
    }

    /// Every series at zero.
    pub fn new() -> (r: MetricsRegistry)
        ensures
            r.events_published.value() == 0,
            r.events_processed.value() == 0,
            r.events_failed.value() == 0,
            r.events_retried.value() == 0,
            r.queue_depth.value() == 0,
            r.dlq_depth.value() == 0,
            r.oldest_event_age_ms.value() == 0,
            r.worker_errors.value() == 0,
            r.sqlite_busy_retries.value() == 0,
    {
        MetricsRegistry {
            events_published: Counter::new(),
            events_processed: Counter::new(),
            events_failed: Counter::new(),
            events_retried: Counter::new(),
            queue_depth: Gauge::new(),
            dlq_depth: Gauge::new(),
            oldest_event_age_ms: Gauge::new(),
            worker_errors: Counter::new(),
            sqlite_busy_retries: Counter::new(),
        }
    }
}

/// The published, processed and failed counters, in that order.
pub fn metrics(registry: &mut MetricsRegistry) -> (res: (&mut Counter, &mut Counter, &mut Counter))
    ensures
        *res.0 == old(registry).events_published,
        *res.1 == old(registry).events_processed,
        *res.2 == old(registry).events_failed,
        *final(registry) == (MetricsRegistry {
            events_published: *final(res.0),
            events_processed: *final(res.1),
            events_failed: *final(res.2),
            ..*old(registry)
        }),
{
    (&mut registry.events_published, &mut registry.events_processed, &mut registry.events_failed)
}


/// The queue-depth and dead-letter-depth gauges, in that order.
pub fn queue_metrics(registry: &mut MetricsRegistry) -> (res: (&mut Gauge, &mut Gauge))
    ensures
        *res.0 == old(registry).queue_depth,
        *res.1 == old(registry).dlq_depth,
        *final(registry) == (MetricsRegistry {
            queue_depth: *final(res.0),
            dlq_depth: *final(res.1),
            ..*old(registry)
        }),
{
    (&mut registry.queue_depth, &mut registry.dlq_depth)
}

/// The retried counter and the oldest-pending-event age gauge, in that order.
pub fn retry_metrics(registry: &mut MetricsRegistry) -> (res: (&mut Counter, &mut Gauge))
    ensures
        *res.0 == old(registry).events_retried,
        *res.1 == old(registry).oldest_event_age_ms,
        *final(registry) == (MetricsRegistry {
            events_retried: *final(res.0),
            oldest_event_age_ms: *final(res.1),
            ..*old(registry)
        }),
{
    (&mut registry.events_retried, &mut registry.oldest_event_age_ms)
}

/// Counts worker-side storage, lock and decode errors that made a poll back
/// off; handler delivery failures are counted elsewhere.
pub fn worker_errors(registry: &mut MetricsRegistry) -> (res: &mut Counter)
    ensures
        *res == old(registry).worker_errors,
        *final(registry) == (MetricsRegistry { worker_errors: *final(res), ..*old(registry) }),
{
    &mut registry.worker_errors
}

/// Counts the bounded retries taken after SQLite reported contention.
pub fn sqlite_busy_retries(registry: &mut MetricsRegistry) -> (res: &mut Counter)
    ensures
        *res == old(registry).sqlite_busy_retries,
        *final(registry) == (MetricsRegistry { sqlite_busy_retries: *final(res), ..*old(registry) }),
{
    &mut registry.sqlite_busy_retries
}

/// The lower-case hexadecimal digit for `d`, with `0 <= d < 16`.
pub open spec fn hex_digit(d: int) -> char {
    if d < 10 {
        (('0' as int) + d) as char
    } else {
        (('a' as int) + d - 10) as char
    }
}

/// Hexadecimal digit `k` of the 32 of `id`, counting from the most
/// significant.
pub open spec fn uuid_nibble(id: u128, k: int) -> int {
    (id as int / pow2((4 * (31 - k)) as nat) as int) % 16
}

/// Character `i` of the hyphenated text of `id`: hyphens at positions 8,
/// 13, 18 and 23, and the 32 hexadecimal digits in order around them.
pub open spec fn uuid_char(id: u128, i: int) -> char {
    if i == 8 || i == 13 || i == 18 || i == 23 {
        '-'
    } else if i < 8 {
        hex_digit(uuid_nibble(id, i))
    } else if i < 13 {
        hex_digit(uuid_nibble(id, i - 1))
    } else if i < 18 {
        hex_digit(uuid_nibble(id, i - 2))
    } else if i < 23 {
        hex_digit(uuid_nibble(id, i - 3))
    } else {
        hex_digit(uuid_nibble(id, i - 4))
    }
}

/// The hyphenated lower-case text of the UUID with this 128-bit value:
/// 36 characters in groups of 8, 4, 4, 4 and 12 hexadecimal digits.
pub open spec fn uuid_text(id: u128) -> Seq<char> {
    Seq::new(36, |i: int| uuid_char(id, i))
}

/// Writes the UUID with this value through `uuid::Uuid`'s `Display`, which
/// writes the hyphenated lower-case form.
#[verifier::external_body]
fn uuid_string(id: u128) -> (s: String)
    ensures
        s@ == uuid_text(id),
{
    uuid::Uuid::from_u128(id).to_string()
}

/// The span an event is traced under: its name and its fields.
#[derive(Debug)]
pub struct EventTrace {
    /// The span's name.
    pub name: &'static str,
    pub event_id: String,
    pub event_type: String,
    pub source: String,
    /// The correlation id, or the empty string when there is none.
    pub correlation_id: String,
}

/// The span for an envelope: named `event`, with the event's id, type,
/// source and correlation id.
pub fn trace_envelope(envelope: &EventEnvelope) -> (t: EventTrace)
    ensures
        t.name@ == "event"@,
        t.event_id@ == uuid_text(envelope.id),
        t.event_type@ == envelope.event_type@,
        t.source@ == envelope.source@,
        t.correlation_id@ == (match envelope.correlation_id {
            Some(c) => uuid_text(c),
            None => Seq::<char>::empty(),
        }),
{
    let correlation_id = match envelope.correlation_id {
        Some(c) => uuid_string(c),
        None => String::new(),
    };
    EventTrace {
        name: "event",
        event_id: uuid_string(envelope.id),
        event_type: envelope.event_type.clone(),
        source: envelope.source.clone(),
        correlation_id,
    }
}

/// The exportable values of the bus-wide series at one moment.
#[derive(Debug, Clone, Copy, PartialEq, Eq, Structural)]
pub struct MetricsSnapshot {
    pub published: u64,
    pub processed: u64,
    pub failed: u64,
    pub retried: u64,
    pub queue_depth: u64,
    pub dlq_depth: u64,
    pub oldest_event_age_ms: u64,
}

impl MetricsSnapshot {
    /// Hands each of the seven series to `record`, under its stable name and
    /// with its value, in export order.
    pub fn emit<F: FnMut(&'static str, u64)>(&self, record: F)
        requires
            forall|name: &'static str, value: u64| call_requires(record, (name, value)),
        ensures
            call_ensures(record, ("phenotype_event_published_total", self.published), ()),
            call_ensures(record, ("phenotype_event_processed_total", self.processed), ()),
            call_ensures(record, ("phenotype_event_failed_total", self.failed), ()),
            call_ensures(record, ("phenotype_event_retried_total", self.retried), ()),
            call_ensures(record, ("phenotype_event_queue_depth", self.queue_depth), ()),
            call_ensures(record, ("phenotype_event_dlq_depth", self.dlq_depth), ()),
            call_ensures(record, ("phenotype_event_oldest_age_ms", self.oldest_event_age_ms), ()),
    {
        let mut sink = record;
        sink("phenotype_event_published_total", self.published);
        sink("phenotype_event_processed_total", self.processed);
        sink("phenotype_event_failed_total", self.failed);
        sink("phenotype_event_retried_total", self.retried);
        sink("phenotype_event_queue_depth", self.queue_depth);
        sink("phenotype_event_dlq_depth", self.dlq_depth);
        sink("phenotype_event_oldest_age_ms", self.oldest_event_age_ms);
    }
}

/// The current value of every bus-wide series.
pub fn snapshot(registry: &MetricsRegistry) -> (s: MetricsSnapshot)
    ensures
        s.published == registry.events_published.value(),
        s.processed == registry.events_processed.value(),
        s.failed == registry.events_failed.value(),
        s.retried == registry.events_retried.value(),
        s.queue_depth == registry.queue_depth.value(),
        s.dlq_depth == registry.dlq_depth.value(),
        s.oldest_event_age_ms == registry.oldest_event_age_ms.value(),
{
    MetricsSnapshot {
        published: registry.events_published.get(),
        processed: registry.events_processed.get(),
        failed: registry.events_failed.get(),
        retried: registry.events_retried.get(),
        queue_depth: registry.queue_depth.get(),
        dlq_depth: registry.dlq_depth.get(),
        oldest_event_age_ms: registry.oldest_event_age_ms.get(),
    }
}

} // verus!
