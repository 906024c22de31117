//! Durable schema-event ledger for following source DDL.
//!
//! Each source DDL that touches a managed relation is recorded in
//! `pg2cb_meta.schema_events` keyed by `(pipeline_id, source_lsn, source_xid)` so replayed WAL is
//! idempotent. An event is recorded as `Pending`, driven through `InTransition`, then
//! `Completed`/`Failed`; a restart lists unfinished events in source-LSN order and resumes them.
//! This module owns the typed rows and the state-transition guards; it never advances a WAL
//! checkpoint.

use crate::checkpoint::{PersistedFault, PipelineFence};
use crate::ident::{PipelineId, Uuid};
use crate::lsn::{law_lsn_reads_back, parsed_lsn, PgLsn};
use crate::text::{render_signed, same_text, signed_decimal};
use vstd::prelude::*;

verus! {

pub const INSERT_SCHEMA_EVENT_SQL: &'static str = r#"
INSERT INTO pg2cb_meta.schema_events (
    event_id, pipeline_id, topology_generation, source_lsn, source_xid,
    command_tag, schema_fingerprint, transitions, state, fencing_token
)
VALUES ($1, $2, $3, $4::text::pg_lsn, $5, $6, $7, $8, 'pending', $9)
ON CONFLICT (pipeline_id, source_lsn, source_xid) DO NOTHING
"#;

pub const LOAD_SCHEMA_EVENT_SQL: &'static str = r#"
SELECT event_id, pipeline_id, topology_generation, source_lsn::text AS source_lsn,
       source_xid, command_tag, schema_fingerprint, transitions, state,
       failure_reason, fencing_token
  FROM pg2cb_meta.schema_events
 WHERE pipeline_id = $1 AND source_lsn = $2::text::pg_lsn AND source_xid = $3
"#;

pub const LIST_UNFINISHED_SCHEMA_EVENTS_SQL: &'static str = r#"
SELECT event_id, pipeline_id, topology_generation, source_lsn::text AS source_lsn,
       source_xid, command_tag, schema_fingerprint, transitions, state,
       failure_reason, fencing_token
  FROM pg2cb_meta.schema_events
 WHERE pipeline_id = $1 AND topology_generation = $2
   AND state IN ('pending', 'in_transition')
 ORDER BY source_lsn, source_xid
"#;

pub const ADVANCE_STATE_SQL: &'static str = r#"
UPDATE pg2cb_meta.schema_events
SET state = $4,
    failure_reason = $5,
    processed_at = CASE WHEN $4 IN ('completed', 'failed') THEN clock_timestamp() ELSE NULL END
WHERE pipeline_id = $1 AND source_lsn = $2::text::pg_lsn AND source_xid = $3
  AND state = $6
"#;

/// Lifecycle state of a persisted schema event.
#[derive(Debug, Clone, Copy, PartialEq, Eq, Structural)]
pub enum SchemaEventState {
    /// Recorded but no table transition has started yet.
    Pending,
    /// A table transition is in progress for this event.
    InTransition,
    /// The transition finished and the target caught up.
    Completed,
    /// The transition could not be applied online; requires operator or rebuild.
    Failed,
}

/// The event may go from one state to the other. The ledger only moves forward: a completed or
/// failed event is terminal, and pending may go straight to completed for a no-op transition
/// (e.g. a whitelisted change with nothing to reload).
pub open spec fn event_may_go(from: SchemaEventState, to: SchemaEventState) -> bool {
    match from {
        SchemaEventState::Pending => !(to is Pending),
        SchemaEventState::InTransition => to is Completed || to is Failed,
        _ => false,
    }
}

impl SchemaEventState {
    pub open spec fn name(self) -> &'static str {
        match self {
            SchemaEventState::Pending => "pending",
            SchemaEventState::InTransition => "in_transition",
            SchemaEventState::Completed => "completed",
            SchemaEventState::Failed => "failed",
        }
    }

    #[must_use]
    pub fn as_str(self) -> (r: &'static str)
        ensures
            r == self.name(),
    {
        match self {
            SchemaEventState::Pending => "pending",
            SchemaEventState::InTransition => "in_transition",
            SchemaEventState::Completed => "completed",
            SchemaEventState::Failed => "failed",
        }
    }

    /// The state that a stored text stands for.
    pub open spec fn named(value: Seq<char>) -> Option<SchemaEventState> {
        if value == "pending"@ {
            Some(SchemaEventState::Pending)
        } else if value == "in_transition"@ {
            Some(SchemaEventState::InTransition)
        } else if value == "completed"@ {
            Some(SchemaEventState::Completed)
        } else if value == "failed"@ {
            Some(SchemaEventState::Failed)
        } else {
            None
        }
    }

    pub fn from_str(value: &str) -> (r: Result<Self, SchemaEventError>)
        ensures
            match r {
                Ok(state) => Self::named(value@) == Some(state),
                Err(e) => Self::named(value@) is None && event_reports(e, Some(("state", value@))),
            },
    {
        if same_text(value, "pending") {
            Ok(SchemaEventState::Pending)
        } else if same_text(value, "in_transition") {
            Ok(SchemaEventState::InTransition)
        } else if same_text(value, "completed") {
            Ok(SchemaEventState::Completed)
        } else if same_text(value, "failed") {
            Ok(SchemaEventState::Failed)
        } else {
            Err(
                SchemaEventError::InvalidPersistedValue {
                    field: "state",
                    value: value.to_string(),
                },
            )
        }
    }

    /// Legal forward transitions.
    #[must_use]
    pub fn can_transition_to(self, next: Self) -> (r: bool)
        ensures
            r == event_may_go(self, next),
    {
        match self {
            SchemaEventState::Pending => match next {
                SchemaEventState::Pending => false,
                _ => true,
            },
            SchemaEventState::InTransition => match next {
                SchemaEventState::Completed => true,
                SchemaEventState::Failed => true,
                _ => false,
            },
            _ => false,
        }
    }
}

/// A durable schema event row. The transitions are a JSON text that this module only carries.
#[derive(Debug, Clone, PartialEq, Eq)]
pub struct SchemaEvent {
    pub event_id: Uuid,
    pub pipeline_id: PipelineId,
    pub topology_generation: u64,
    pub source_lsn: PgLsn,
    pub source_xid: u64,
    pub command_tag: String,
    pub schema_fingerprint: String,
    pub transitions: String,
    pub state: SchemaEventState,
    pub failure_reason: Option<String>,
    pub fencing_token: i64,
}

/// The immutable identity plus payload used to record a new event.
#[derive(Debug, Clone, PartialEq, Eq)]
pub struct SchemaEventRecord {
    pub event_id: Uuid,
    pub fence: PipelineFence,
    pub source_lsn: PgLsn,
    pub source_xid: u64,
    pub command_tag: String,
    pub schema_fingerprint: String,
    pub transitions: String,
}

/// Outcome of recording a schema event.
#[derive(Debug, Clone, Copy, PartialEq, Eq, Structural)]
pub enum RecordOutcome {
    /// A new pending event row was written.
    Inserted,
    /// An event with the same source identity already existed (idempotent WAL replay).
    AlreadyRecorded,
}

#[allow(inconsistent_fields)]
#[derive(Debug, PartialEq, Eq)]
pub enum SchemaEventError {
    GenerationOutOfRange(u64),
    XidOutOfRange(u64),
    /// A fencing token must be positive.
    InvalidFencingToken,
    /// A command tag cannot be empty.
    InvalidCommandTag,
    InvalidPersistedValue { field: &'static str, value: String },
    IllegalTransition { from: &'static str, to: &'static str },
    /// A state update affected another number of rows than one.
    UnexpectedWriteCount(u64),
}

/// The error names the column and shows the stored value.
pub open spec fn event_reports(e: SchemaEventError, fault: Option<PersistedFault>) -> bool {
    e matches SchemaEventError::InvalidPersistedValue { field, value } && fault == Some(
        (field, value@),
    )
}

pub fn database_generation(value: u64) -> (r: Result<i64, SchemaEventError>)
    ensures
        match r {
            Ok(generation) => value <= i64::MAX && generation == value,
            Err(e) => value > i64::MAX && e == SchemaEventError::GenerationOutOfRange(value),
        },
{
    if value <= i64::MAX as u64 {
        Ok(value as i64)
    } else {
        Err(SchemaEventError::GenerationOutOfRange(value))
    }
}

pub fn database_xid(value: u64) -> (r: Result<i64, SchemaEventError>)
    ensures
        match r {
            Ok(xid) => value <= i64::MAX && xid == value,
            Err(e) => value > i64::MAX && e == SchemaEventError::XidOutOfRange(value),
        },
{
    if value <= i64::MAX as u64 {
        Ok(value as i64)
    } else {
        Err(SchemaEventError::XidOutOfRange(value))
    }
}

/// The parameters of the statement that records an event which the record does not hold as such.
#[derive(Debug, PartialEq, Eq)]
pub struct EventParameters {
    pub topology_generation: i64,
    pub source_lsn: String,
    pub source_xid: i64,
}

/// Why an event cannot be recorded, if it cannot.
pub open spec fn record_fault(record: SchemaEventRecord) -> Option<SchemaEventError> {
    if record.fence.topology_generation > i64::MAX {
        Some(SchemaEventError::GenerationOutOfRange(record.fence.topology_generation))
    } else if record.source_xid > i64::MAX {
        Some(SchemaEventError::XidOutOfRange(record.source_xid))
    } else if record.fence.fencing_token <= 0 {
        Some(SchemaEventError::InvalidFencingToken)
    } else if record.command_tag@.len() == 0 {
        Some(SchemaEventError::InvalidCommandTag)
    } else {
        None
    }
}

/// Checks a new event and gives the parameters that record it.
pub fn record_parameters(record: &SchemaEventRecord) -> (r: Result<EventParameters, SchemaEventError>)
    ensures
        match r {
            Ok(parameters) => {
                &&& record_fault(*record) is None
                &&& parameters.topology_generation == record.fence.topology_generation
                &&& parameters.source_lsn@ == record.source_lsn.text()
                &&& parameters.source_xid == record.source_xid
            },
            Err(e) => record_fault(*record) == Some(e),
        },
{
    let topology_generation = match database_generation(record.fence.topology_generation) {
        Err(e) => return Err(e),
        Ok(generation) => generation,
    };
    let source_xid = match database_xid(record.source_xid) {
        Err(e) => return Err(e),
        Ok(xid) => xid,
    };
    if record.fence.fencing_token <= 0 {
        return Err(SchemaEventError::InvalidFencingToken);
    }
    if record.command_tag.as_str().is_empty() {
        return Err(SchemaEventError::InvalidCommandTag);
    }
    Ok(
        EventParameters {
            topology_generation,
            source_lsn: record.source_lsn.display(),
            source_xid,
        },
    )
}

/// What the number of written rows says of a recorded event.
pub fn record_outcome(written: u64) -> (r: RecordOutcome)
    ensures
        r == if written == 1 {
            RecordOutcome::Inserted
        } else {
            RecordOutcome::AlreadyRecorded
        },
{
    if written == 1 {
        RecordOutcome::Inserted
    } else {
        RecordOutcome::AlreadyRecorded
    }
}

/// The parameters of the statement that advances an event.
#[derive(Debug, PartialEq, Eq)]
pub struct AdvanceParameters {
    pub source_xid: i64,
    pub failure_reason: Option<String>,
}

/// The reason that is stored with the next state: only a failed event carries one, and it always
/// does.
pub open spec fn stored_reason(next: SchemaEventState, given: Option<&str>) -> Option<Seq<char>> {
    if next is Failed {
        match given {
            Some(reason) => Some(reason@),
            None => Some("unspecified transition failure"@),
        }
    } else {
        None
    }
}

/// The view of an optional text.
pub open spec fn optional_text(text: Option<String>) -> Option<Seq<char>> {
    match text {
        Some(text) => Some(text@),
        None => None,
    }
}

/// Guards the legal transition of an event and gives the parameters that make it.
pub fn advance_parameters(
    expected_from: SchemaEventState,
    next: SchemaEventState,
    failure_reason: Option<&str>,
    source_xid: u64,
) -> (r: Result<AdvanceParameters, SchemaEventError>)
    ensures
        match r {
            Ok(parameters) => {
                &&& event_may_go(expected_from, next)
                &&& source_xid <= i64::MAX
                &&& parameters.source_xid == source_xid
                &&& optional_text(parameters.failure_reason) == stored_reason(next, failure_reason)
            },
            Err(e) => if !event_may_go(expected_from, next) {
                e == (SchemaEventError::IllegalTransition {
                    from: expected_from.name(),
                    to: next.name(),
                })
            } else {
                source_xid > i64::MAX && e == SchemaEventError::XidOutOfRange(source_xid)
            },
        },
{
    if !expected_from.can_transition_to(next) {
        return Err(
            SchemaEventError::IllegalTransition {
                from: expected_from.as_str(),
                to: next.as_str(),
            },
        );
    }
    let failure_reason = match next {
        SchemaEventState::Failed => match failure_reason {
            Some(reason) => Some(reason.to_string()),
            None => Some("unspecified transition failure".to_string()),
        },
        _ => None,
    };
    match database_xid(source_xid) {
        Err(e) => Err(e),
        Ok(source_xid) => Ok(AdvanceParameters { source_xid, failure_reason }),
    }
}

/// An advance must find the event in the expected state.
pub fn ensure_event_advanced(updated: u64) -> (r: Result<(), SchemaEventError>)
    ensures
        match r {
            Ok(()) => updated == 1,
            Err(e) => updated != 1 && e == SchemaEventError::UnexpectedWriteCount(updated),
        },
{
    if updated == 1 {
        Ok(())
    } else {
        Err(SchemaEventError::UnexpectedWriteCount(updated))
    }
}

/// An event row as the target returns it.
#[derive(Debug, PartialEq, Eq)]
pub struct SchemaEventRow {
    pub event_id: Uuid,
    pub pipeline_id: Uuid,
    pub topology_generation: i64,
    pub source_lsn: String,
    pub source_xid: i64,
    pub command_tag: String,
    pub schema_fingerprint: String,
    pub transitions: String,
    pub state: String,
    pub failure_reason: Option<String>,
    pub fencing_token: i64,
}

impl SchemaEventRow {
    /// The first column that has no meaning.
    pub open spec fn fault(self) -> Option<PersistedFault> {
        if parsed_lsn(self.source_lsn@) is None {
            Some(("source_lsn", self.source_lsn@))
        } else if self.topology_generation < 0 {
            Some(("topology_generation", signed_decimal(self.topology_generation as int)))
        } else if self.source_xid < 0 {
            Some(("source_xid", signed_decimal(self.source_xid as int)))
        } else if SchemaEventState::named(self.state@) is None {
            Some(("state", self.state@))
        } else {
            None
        }
    }

    /// The row holds the event.
    pub open spec fn holds(self, event: SchemaEvent) -> bool {
        &&& event.event_id == self.event_id
        &&& event.pipeline_id.uuid == self.pipeline_id
        &&& event.topology_generation == self.topology_generation
        &&& parsed_lsn(self.source_lsn@) == Some(event.source_lsn.value as nat)
        &&& event.source_xid == self.source_xid
        &&& event.command_tag == self.command_tag
        &&& event.schema_fingerprint == self.schema_fingerprint
        &&& event.transitions == self.transitions
        &&& SchemaEventState::named(self.state@) == Some(event.state)
        &&& event.failure_reason == self.failure_reason
        &&& event.fencing_token == self.fencing_token
    }
}

/// Reads an event row.
pub fn schema_event_from_row(row: SchemaEventRow) -> (r: Result<SchemaEvent, SchemaEventError>)
    ensures
        match r {
            Ok(event) => row.fault() is None && row.holds(event),
            Err(e) => event_reports(e, row.fault()),
        },
{
    let source_lsn = match PgLsn::parse(row.source_lsn.as_str()) {
        None => {
            return Err(
                SchemaEventError::InvalidPersistedValue {
                    field: "source_lsn",
                    value: row.source_lsn,
                },
            );
        },
        Some(lsn) => lsn,
    };
    if row.topology_generation < 0 {
        return Err(
            SchemaEventError::InvalidPersistedValue {
                field: "topology_generation",
                value: render_signed(row.topology_generation),
            },
        );
    }
    if row.source_xid < 0 {
        return Err(
            SchemaEventError::InvalidPersistedValue {
                field: "source_xid",
                value: render_signed(row.source_xid),
            },
        );
    }
    let state = match SchemaEventState::from_str(row.state.as_str()) {
        Err(e) => return Err(e),
        Ok(state) => state,
    };
    Ok(
        SchemaEvent {
            event_id: row.event_id,
            pipeline_id: PipelineId::from_uuid(row.pipeline_id),
            topology_generation: row.topology_generation as u64,
            source_lsn,
            source_xid: row.source_xid as u64,
            command_tag: row.command_tag,
            schema_fingerprint: row.schema_fingerprint,
            transitions: row.transitions,
            state,
            failure_reason: row.failure_reason,
            fencing_token: row.fencing_token,
        },
    )
}

/// Every event state reads back from its stored text.
pub proof fn law_event_state_reads_back(state: SchemaEventState)
    ensures
        SchemaEventState::named(state.name()@) == Some(state),
{
    reveal_strlit("pending");
    reveal_strlit("in_transition");
    reveal_strlit("completed");
    reveal_strlit("failed");
    assert("pending"@[0] == 'p');
    assert("in_transition"@[0] == 'i');
    assert("completed"@[0] == 'c');
    assert("failed"@[0] == 'f');
}

/// The ledger only moves forward: a finished event stays as it is, no event returns to an earlier
/// state, and every unfinished event can still finish either way.
pub proof fn law_event_ledger_moves_forward(from: SchemaEventState, to: SchemaEventState)
    ensures
        (from is Completed || from is Failed) ==> !event_may_go(from, to),
        event_may_go(from, to) ==> !event_may_go(to, from) && from != to,
        (from is Pending || from is InTransition) ==> event_may_go(from, SchemaEventState::Completed)
            && event_may_go(from, SchemaEventState::Failed),
{
}

/// A recorded event reads back: a row that holds the recorded parameters is read as a pending
/// event with the identity of the record.
pub proof fn law_recorded_event_reads_back(
    record: SchemaEventRecord,
    parameters: EventParameters,
    row: SchemaEventRow,
    event: SchemaEvent,
)
    requires
        record_fault(record) is None,
        parameters.topology_generation == record.fence.topology_generation,
        parameters.source_lsn@ == record.source_lsn.text(),
        parameters.source_xid == record.source_xid,
        row.topology_generation == parameters.topology_generation,
        row.source_lsn@ == parameters.source_lsn@,
        row.source_xid == parameters.source_xid,
        row.state@ == "pending"@,
        row.holds(event),
    ensures
        row.fault() is None,
        event.topology_generation == record.fence.topology_generation,
        event.source_lsn == record.source_lsn,
        event.source_xid == record.source_xid,
        event.state is Pending,
{
    law_lsn_reads_back(record.source_lsn);
    law_event_state_reads_back(SchemaEventState::Pending);
}

/// The steps of an event: a pending one goes anywhere, one in transition is completed or fails, and
/// a finished one stays.
pub proof fn law_the_steps_of_an_event(from: SchemaEventState, to: SchemaEventState)
    ensures
        event_may_go(from, to) <==> {
            ||| from is Pending && (to is InTransition || to is Completed || to is Failed)
            ||| from is InTransition && (to is Completed || to is Failed)
        },
{
}

/// The texts of the states, as the stored rows hold them.
pub proof fn law_event_state_texts(state: SchemaEventState)
    ensures
        state is Pending ==> state.name() == "pending",
        state is InTransition ==> state.name() == "in_transition",
        state is Completed ==> state.name() == "completed",
        state is Failed ==> state.name() == "failed",
{
}

/// A failed event always has a reason, the given one where there is one, and no other event has.
pub proof fn law_only_failed_events_have_a_reason(next: SchemaEventState, given: Option<&str>)
    ensures
        stored_reason(next, given) is Some <==> next is Failed,
        next is Failed ==> (given matches Some(reason) ==> stored_reason(next, given) == Some(
            reason@,
        )),
        next is Failed && given is None ==> stored_reason(next, given) == Some(
            "unspecified transition failure"@,
        ),
{
}

/// An event is recorded exactly where its numbers can be stored, its token is positive and its
/// command has a tag.
pub proof fn law_which_events_are_recorded(record: SchemaEventRecord)
    ensures
        record_fault(record) is None <==> {
            &&& record.fence.topology_generation <= i64::MAX
            &&& record.source_xid <= i64::MAX
            &&& record.fence.fencing_token > 0
            &&& record.command_tag@.len() > 0
        },
{
}

/// A stored event has a meaning exactly where each of its columns does.
pub proof fn law_which_event_rows_have_a_meaning(row: SchemaEventRow)
    ensures
        row.fault() is None <==> {
            &&& parsed_lsn(row.source_lsn@) is Some
            &&& row.topology_generation >= 0
            &&& row.source_xid >= 0
            &&& SchemaEventState::named(row.state@) is Some
        },
{
}

/// An event is advanced along its states only, with its reason only where it fails.
pub proof fn law_planned_steps_of_events(
    from: SchemaEventState,
    to: SchemaEventState,
    reason: &str,
    source_xid: u64,
    r: Result<AdvanceParameters, SchemaEventError>,
    stored: Result<EventParameters, SchemaEventError>,
    record: SchemaEventRecord,
)
    requires
        call_ensures(advance_parameters, (from, to, Some(reason), source_xid), r),
        call_ensures(record_parameters, (&record,), stored),
    ensures
        r is Ok <==> event_may_go(from, to) && source_xid <= i64::MAX,
        r matches Ok(parameters) ==> {
            &&& parameters.source_xid as int == source_xid as int
            &&& parameters.failure_reason is Some <==> to is Failed
            &&& parameters.failure_reason matches Some(text) ==> text@ == reason@
        },
        stored matches Ok(parameters) ==> {
            &&& parameters.topology_generation as int == record.fence.topology_generation as int
            &&& parameters.source_lsn@ == record.source_lsn.text()
            &&& parameters.source_xid as int == record.source_xid as int
        },
{
}

/// What is told of an event that cannot be recorded is so.
pub proof fn law_told_faults_of_events(record: SchemaEventRecord)
    ensures
        record_fault(record) matches Some(e) ==> {
            ||| e == SchemaEventError::GenerationOutOfRange(record.fence.topology_generation)
                && record.fence.topology_generation > i64::MAX
            ||| e == SchemaEventError::XidOutOfRange(record.source_xid) && record.source_xid
                > i64::MAX
            ||| e is InvalidFencingToken && record.fence.fencing_token <= 0
            ||| e is InvalidCommandTag && record.command_tag@.len() == 0
        },
{
}

} // verus!
