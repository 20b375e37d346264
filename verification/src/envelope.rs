//! The event envelope the bus carries, and its validation rules.

use vstd::prelude::*;

verus! {

/// Why an envelope was refused.
#[derive(Debug, Clone, Copy, PartialEq, Eq, Structural)]
pub enum EnvelopeError {
    /// The event type is the empty string.
    EmptyEventType,
    /// The source is the empty string.
    EmptySource,
    /// The schema version is 0; versions start at 1.
    ZeroSchemaVersion,
}

/// An event together with the metadata the bus needs to route, trace and
/// deduplicate it. Identifiers are UUIDs held as their 128-bit value; the
/// payload is JSON text.
#[derive(Debug)]
pub struct EventEnvelope {
    pub id: u128,
    pub event_type: String,
    pub source: String,
    pub schema_version: u32,
    pub correlation_id: Option<u128>,
    pub causation_id: Option<u128>,
    pub payload: String,
}

/// What `validate` answers for an envelope with these fields.
pub open spec fn validation(event_type: Seq<char>, source: Seq<char>, schema_version: u32) -> Result<(), EnvelopeError> {
    if event_type.len() == 0 {
        Err(EnvelopeError::EmptyEventType)
    } else if source.len() == 0 {
        Err(EnvelopeError::EmptySource)
    } else if schema_version == 0 {
        Err(EnvelopeError::ZeroSchemaVersion)
    } else {
        Ok(())
    }
}

impl EventEnvelope {
    /// The envelope passes validation.
    pub open spec fn is_valid(&self) -> bool {
        validation(self.event_type@, self.source@, self.schema_version) is Ok
    }

    /// Checks the envelope: a non-empty event type, a non-empty source and a
    /// schema version of at least 1, reported in that order.
    pub fn validate(&self) -> (res: Result<(), EnvelopeError>)
        ensures
            res == validation(self.event_type@, self.source@, self.schema_version),
    {
        check(self.event_type.as_str(), self.source.as_str(), self.schema_version)
    }

    /// Starts an envelope of the given type, source and JSON payload, with
    /// schema version 1 and no correlation or causation.
    pub fn builder(event_type: &str, source: &str, payload: &str) -> (b: EnvelopeBuilder)
        ensures
            b.event_type@ == event_type@,
            b.source@ == source@,
            b.payload@ == payload@,
            b.schema_version == 1,
            b.correlation_id is None,
            b.causation_id is None,
    {
        EnvelopeBuilder {
            event_type: event_type.to_owned(),
            source: source.to_owned(),
            payload: payload.to_owned(),
            schema_version: 1,
            correlation_id: None,
            causation_id: None,
        }
    }
}

fn check(event_type: &str, source: &str, schema_version: u32) -> (res: Result<(), EnvelopeError>)
    ensures
        res == validation(event_type@, source@, schema_version),
{
    if event_type.is_empty() {
        Err(EnvelopeError::EmptyEventType)
    } else if source.is_empty() {
        Err(EnvelopeError::EmptySource)
    } else if schema_version == 0 {
        Err(EnvelopeError::ZeroSchemaVersion)
    } else {
        Ok(())
    }
}

/// The fields of an envelope under construction.
#[derive(Debug)]
pub struct EnvelopeBuilder {
    pub event_type: String,
    pub source: String,
    pub payload: String,
    pub schema_version: u32,
    pub correlation_id: Option<u128>,
    pub causation_id: Option<u128>,
}

/// The UUID with this 128-bit value has version 7 (a time-ordered UUID) and
/// the RFC 4122 variant: its version nibble, bits 76 to 79 (the value
/// divided by 2^76, modulo 16), is 7 and its variant bits, 62 and 63 (the
/// value divided by 2^62, modulo 4), are `10`.
pub open spec fn is_v7_uuid(id: u128) -> bool {
    &&& (id as int / 0x1000_0000_0000_0000_0000int) % 16 == 7
    &&& (id as int / 0x4000_0000_0000_0000int) % 4 == 2
}

/// The version and variant read with shifts and masks, as the `uuid` crate
/// lays them out: the version is the nibble at bit 76, the variant the two
/// bits at bit 62.
pub proof fn lemma_v7_bits(id: u128)
    ensures
        is_v7_uuid(id) <==> ((id >> 76u128) & 0xfu128) == 7 && ((id >> 62u128) & 0x3u128) == 2,
{
    assert((id >> 76u128) == id / 0x1000_0000_0000_0000_0000u128) by (bit_vector);
    assert((id >> 62u128) == id / 0x4000_0000_0000_0000u128) by (bit_vector);
    let v = id / 0x1000_0000_0000_0000_0000u128;
    let w = id / 0x4000_0000_0000_0000u128;
    assert((v & 0xfu128) == v % 16) by (bit_vector);
    assert((w & 0x3u128) == w % 4) by (bit_vector);
}

/// A fresh time-ordered UUID from `uuid::Uuid::now_v7`. It depends on the
/// clock and on random bits; what holds of every outcome is that it has
/// version 7 and the RFC 4122 variant. `now_v7` panics when the system clock
/// reads before the Unix epoch; that is the environment's state, which no
/// precondition can express, and this function shares it.
#[verifier::external_body]
fn new_event_id() -> (id: u128)
    ensures
        is_v7_uuid(id),
{
    uuid::Uuid::now_v7().as_u128()
}

impl EnvelopeBuilder {
    /// Sets the schema version.
    pub fn schema_version(self, schema_version: u32) -> (b: EnvelopeBuilder)
        ensures
            b == (EnvelopeBuilder { schema_version, ..self }),
    {
        EnvelopeBuilder { schema_version, ..self }
    }

    /// Sets the correlation id.
    pub fn correlation_id(self, id: u128) -> (b: EnvelopeBuilder)
        ensures
            b == (EnvelopeBuilder { correlation_id: Some(id), ..self }),
    {
        EnvelopeBuilder { correlation_id: Some(id), ..self }
    }

    /// Sets the causation id.
    pub fn causation_id(self, id: u128) -> (b: EnvelopeBuilder)
        ensures
            b == (EnvelopeBuilder { causation_id: Some(id), ..self }),
    {
        EnvelopeBuilder { causation_id: Some(id), ..self }
    }

    /// Builds the envelope under the given id, if its fields are valid.
    pub fn build_with_id(self, id: u128) -> (res: Result<EventEnvelope, EnvelopeError>)
        ensures
            match validation(self.event_type@, self.source@, self.schema_version) {
                Err(e) => res == Err::<EventEnvelope, EnvelopeError>(e),
                Ok(()) => res matches Ok(env) && env.id == id && env.event_type == self.event_type
                    && env.source == self.source && env.payload == self.payload
                    && env.schema_version == self.schema_version
                    && env.correlation_id == self.correlation_id
                    && env.causation_id == self.causation_id,
            },
    {
        match check(self.event_type.as_str(), self.source.as_str(), self.schema_version) {
            Err(e) => Err(e),
            Ok(()) => Ok(EventEnvelope {
                id,
                event_type: self.event_type,
                source: self.source,
                schema_version: self.schema_version,
                correlation_id: self.correlation_id,
                causation_id: self.causation_id,
                payload: self.payload,
            }),
        }
    }

    /// Builds the envelope under a fresh time-ordered (version 7) UUID, if its
    /// fields are valid.
    pub fn build(self) -> (res: Result<EventEnvelope, EnvelopeError>)
        ensures
            match validation(self.event_type@, self.source@, self.schema_version) {
                Err(e) => res == Err::<EventEnvelope, EnvelopeError>(e),
                Ok(()) => res matches Ok(env) && is_v7_uuid(env.id) && env.event_type == self.event_type
                    && env.source == self.source && env.payload == self.payload
                    && env.schema_version == self.schema_version
                    && env.correlation_id == self.correlation_id
                    && env.causation_id == self.causation_id,
            },
    {
        let id = new_event_id();
        self.build_with_id(id)
    }
}

} // verus!

verus! {

/// An envelope is accepted exactly when its event type and source are
/// non-empty and its schema version is at least 1, whatever their length or
/// content otherwise; a refusal names the first rule broken, in the order
/// event type, source, schema version.
pub proof fn lemma_validation_rules(event_type: Seq<char>, source: Seq<char>, schema_version: u32)
    ensures
        validation(event_type, source, schema_version) is Ok <==> event_type.len() > 0 && source.len()
            > 0 && schema_version >= 1,
        event_type.len() == 0 ==> validation(event_type, source, schema_version) == Err::<
            (),
            EnvelopeError,
        >(EnvelopeError::EmptyEventType),
        event_type.len() > 0 && source.len() == 0 ==> validation(event_type, source, schema_version)
            == Err::<(), EnvelopeError>(EnvelopeError::EmptySource),
        event_type.len() > 0 && source.len() > 0 && schema_version == 0 ==> validation(
            event_type,
            source,
            schema_version,
        ) == Err::<(), EnvelopeError>(EnvelopeError::ZeroSchemaVersion),
{
}

} // verus!
