//! Durable per-table execution state for schema events.

use crate::checkpoint::{CheckpointError, PersistedFault, PipelineFence};
use crate::ident::{PipelineId, Uuid};
use crate::lsn::{law_lsn_reads_back, parsed_lsn, PgLsn};
use crate::text::{render_signed, same_text, signed_decimal};
use vstd::prelude::*;

verus! {

pub const LOAD_SQL: &'static str = r#"
SELECT event_id, pipeline_id, topology_generation, source_lsn::text AS source_lsn,
       source_xid, source_relation_id, action, plan, barrier_lsn::text AS barrier_lsn,
       active_table_generation, pending_table_generation, snapshot_group_id, state,
       failure_reason, fencing_token
  FROM pg2cb_meta.table_schema_transitions
 WHERE pipeline_id = $1 AND source_lsn = $2::text::pg_lsn
   AND source_xid = $3 AND source_relation_id = $4
"#;

pub const LOCK_SQL: &'static str = r#"
SELECT event_id, pipeline_id, topology_generation, source_lsn::text AS source_lsn,
       source_xid, source_relation_id, action, plan, barrier_lsn::text AS barrier_lsn,
       active_table_generation, pending_table_generation, snapshot_group_id, state,
       failure_reason, fencing_token
  FROM pg2cb_meta.table_schema_transitions
 WHERE pipeline_id = $1 AND source_lsn = $2::text::pg_lsn
   AND source_xid = $3 AND source_relation_id = $4
 FOR UPDATE
"#;

pub const LIST_UNFINISHED_SQL: &'static str = r#"
SELECT event_id, pipeline_id, topology_generation, source_lsn::text AS source_lsn,
       source_xid, source_relation_id, action, plan, barrier_lsn::text AS barrier_lsn,
       active_table_generation, pending_table_generation, snapshot_group_id, state,
       failure_reason, fencing_token
  FROM pg2cb_meta.table_schema_transitions
 WHERE pipeline_id = $1 AND topology_generation = $2 AND state <> 'completed'
 ORDER BY source_lsn, source_xid, source_relation_id
 FOR UPDATE
"#;

/// Hands a stored transition over to a newer fence.
pub const ADOPT_SQL: &'static str =
    "UPDATE pg2cb_meta.table_schema_transitions SET fencing_token = $5, updated_at = clock_timestamp() WHERE pipeline_id = $1 AND source_lsn = $2::text::pg_lsn AND source_xid = $3 AND source_relation_id = $4 AND fencing_token < $5 AND state <> 'completed'";

/// Hands all unfinished transitions of a topology over to a newer fence.
pub const ADOPT_UNFINISHED_SQL: &'static str =
    "UPDATE pg2cb_meta.table_schema_transitions SET fencing_token = $3, updated_at = clock_timestamp() WHERE pipeline_id = $1 AND topology_generation = $2 AND fencing_token < $3 AND state <> 'completed'";

/// Records a new transition.
pub const INSERT_SQL: &'static str =
    "INSERT INTO pg2cb_meta.table_schema_transitions (event_id, pipeline_id, topology_generation, source_lsn, source_xid, source_relation_id, action, plan, barrier_lsn, active_table_generation, pending_table_generation, snapshot_group_id, fencing_token) VALUES ($1, $2, $3, $4::text::pg_lsn, $5, $6, $7, $8, $9::text::pg_lsn, $10, $11, $12, $13)";

/// Advances a transition.
pub const ADVANCE_SQL: &'static str =
    "UPDATE pg2cb_meta.table_schema_transitions SET state = $7, failure_reason = $8, updated_at = clock_timestamp(), completed_at = CASE WHEN $7 = 'completed' THEN clock_timestamp() ELSE NULL END WHERE pipeline_id = $1 AND source_lsn = $2::text::pg_lsn AND source_xid = $3 AND source_relation_id = $4 AND fencing_token = $5 AND state = $6";

/// Assigns a snapshot group to a transition and starts its load.
pub const ASSIGN_SNAPSHOT_SQL: &'static str =
    "UPDATE pg2cb_meta.table_schema_transitions SET snapshot_group_id = $7, state = 'snapshotting', failure_reason = NULL, updated_at = clock_timestamp() WHERE pipeline_id = $1 AND source_lsn = $2::text::pg_lsn AND source_xid = $3 AND source_relation_id = $4 AND fencing_token = $5 AND state = $6 AND snapshot_group_id IS NULL";

#[derive(Debug, Clone, Copy, PartialEq, Eq, Structural)]
pub enum TableTransitionAction {
    Noop,
    Online,
    Reload,
    Drop,
    Add,
}

#[derive(Debug, Clone, Copy, PartialEq, Eq, Structural)]
pub enum TableTransitionState {
    Pending,
    Applying,
    Snapshotting,
    CatchingUp,
    CutoverPending,
    Blocked,
    Completed,
}

/// The steps of an action's own way from start to completion.
pub open spec fn action_steps(
    action: TableTransitionAction,
    from: TableTransitionState,
    to: TableTransitionState,
) -> bool {
    let starts = from is Pending || from is Blocked;
    match action {
        TableTransitionAction::Noop => starts && to is Completed,
        TableTransitionAction::Online => {
            ||| starts && to is Applying
            ||| from is Applying && to is Completed
        },
        TableTransitionAction::Reload | TableTransitionAction::Add => {
            ||| starts && to is Snapshotting
            ||| from is Snapshotting && to is CatchingUp
            ||| from is CatchingUp && to is CutoverPending
            ||| from is CutoverPending && to is Completed
        },
        TableTransitionAction::Drop => {
            ||| starts && to is CutoverPending
            ||| from is CutoverPending && to is Completed
        },
    }
}

/// The transition may go from one state to the other: along its action's way, or from any
/// unfinished state to blocked.
pub open spec fn may_go(
    action: TableTransitionAction,
    from: TableTransitionState,
    to: TableTransitionState,
) -> bool {
    ||| to is Blocked && !(from is Blocked || from is Completed)
    ||| action_steps(action, from, to)
}

impl TableTransitionAction {
    pub open spec fn name(self) -> &'static str {
        match self {
            TableTransitionAction::Noop => "noop",
            TableTransitionAction::Online => "online",
            TableTransitionAction::Reload => "reload",
            TableTransitionAction::Drop => "drop",
            TableTransitionAction::Add => "add",
        }
    }

    #[must_use]
    pub fn as_str(self) -> (r: &'static str)
        ensures
            r == self.name(),
    {
        match self {
            TableTransitionAction::Noop => "noop",
            TableTransitionAction::Online => "online",
            TableTransitionAction::Reload => "reload",
            TableTransitionAction::Drop => "drop",
            TableTransitionAction::Add => "add",
        }
    }

    /// The action that a stored text stands for.
    pub open spec fn named(value: Seq<char>) -> Option<TableTransitionAction> {
        if value == "noop"@ {
            Some(TableTransitionAction::Noop)
        } else if value == "online"@ {
            Some(TableTransitionAction::Online)
        } else if value == "reload"@ {
            Some(TableTransitionAction::Reload)
        } else if value == "drop"@ {
            Some(TableTransitionAction::Drop)
        } else if value == "add"@ {
            Some(TableTransitionAction::Add)
        } else {
            None
        }
    }

    pub fn parse(value: &str) -> (r: Result<Self, TableTransitionError>)
        ensures
            match r {
                Ok(action) => Self::named(value@) == Some(action),
                Err(e) => Self::named(value@) is None && transition_reports(
                    e,
                    Some(("action", value@)),
                ),
            },
    {
        if same_text(value, "noop") {
            Ok(TableTransitionAction::Noop)
        } else if same_text(value, "online") {
            Ok(TableTransitionAction::Online)
        } else if same_text(value, "reload") {
            Ok(TableTransitionAction::Reload)
        } else if same_text(value, "drop") {
            Ok(TableTransitionAction::Drop)
        } else if same_text(value, "add") {
            Ok(TableTransitionAction::Add)
        } else {
            Err(
                TableTransitionError::InvalidPersistedValue {
                    field: "action",
                    value: value.to_string(),
                },
            )
        }
    }

    #[must_use]
    pub fn can_transition(self, from: TableTransitionState, to: TableTransitionState) -> (r: bool)
        ensures
            r == may_go(self, from, to),
    {
        if to == TableTransitionState::Blocked && from != TableTransitionState::Blocked && from
            != TableTransitionState::Completed {
            return true;
        }
        let starts = from == TableTransitionState::Pending || from
            == TableTransitionState::Blocked;
        match self {
            TableTransitionAction::Noop => starts && to == TableTransitionState::Completed,
            TableTransitionAction::Online => (starts && to == TableTransitionState::Applying) || (
            from == TableTransitionState::Applying && to == TableTransitionState::Completed),
            TableTransitionAction::Reload | TableTransitionAction::Add => (starts && to
                == TableTransitionState::Snapshotting) || (from
                == TableTransitionState::Snapshotting && to == TableTransitionState::CatchingUp)
                || (from == TableTransitionState::CatchingUp && to
                == TableTransitionState::CutoverPending) || (from
                == TableTransitionState::CutoverPending && to == TableTransitionState::Completed),
            TableTransitionAction::Drop => (starts && to == TableTransitionState::CutoverPending)
                || (from == TableTransitionState::CutoverPending && to
                == TableTransitionState::Completed),
        }
    }
}

impl TableTransitionState {
    pub open spec fn name(self) -> &'static str {
        match self {
            TableTransitionState::Pending => "pending",
            TableTransitionState::Applying => "applying",
            TableTransitionState::Snapshotting => "snapshotting",
            TableTransitionState::CatchingUp => "catching_up",
            TableTransitionState::CutoverPending => "cutover_pending",
            TableTransitionState::Blocked => "blocked",
            TableTransitionState::Completed => "completed",
        }
    }

    #[must_use]
    pub fn as_str(self) -> (r: &'static str)
        ensures
            r == self.name(),
    {
        match self {
            TableTransitionState::Pending => "pending",
            TableTransitionState::Applying => "applying",
            TableTransitionState::Snapshotting => "snapshotting",
            TableTransitionState::CatchingUp => "catching_up",
            TableTransitionState::CutoverPending => "cutover_pending",
            TableTransitionState::Blocked => "blocked",
            TableTransitionState::Completed => "completed",
        }
    }

    /// The state that a stored text stands for.
    pub open spec fn named(value: Seq<char>) -> Option<TableTransitionState> {
        if value == "pending"@ {
            Some(TableTransitionState::Pending)
        } else if value == "applying"@ {
            Some(TableTransitionState::Applying)
        } else if value == "snapshotting"@ {
            Some(TableTransitionState::Snapshotting)
        } else if value == "catching_up"@ {
            Some(TableTransitionState::CatchingUp)
        } else if value == "cutover_pending"@ {
            Some(TableTransitionState::CutoverPending)
        } else if value == "blocked"@ {
            Some(TableTransitionState::Blocked)
        } else if value == "completed"@ {
            Some(TableTransitionState::Completed)
        } else {
            None
        }
    }

    pub fn parse(value: &str) -> (r: Result<Self, TableTransitionError>)
        ensures
            match r {
                Ok(state) => Self::named(value@) == Some(state),
                Err(e) => Self::named(value@) is None && transition_reports(
                    e,
                    Some(("state", value@)),
                ),
            },
    {
        if same_text(value, "pending") {
            Ok(TableTransitionState::Pending)
        } else if same_text(value, "applying") {
            Ok(TableTransitionState::Applying)
        } else if same_text(value, "snapshotting") {
            Ok(TableTransitionState::Snapshotting)
        } else if same_text(value, "catching_up") {
            Ok(TableTransitionState::CatchingUp)
        } else if same_text(value, "cutover_pending") {
            Ok(TableTransitionState::CutoverPending)
        } else if same_text(value, "blocked") {
            Ok(TableTransitionState::Blocked)
        } else if same_text(value, "completed") {
            Ok(TableTransitionState::Completed)
        } else {
            Err(
                TableTransitionError::InvalidPersistedValue {
                    field: "state",
                    value: value.to_string(),
                },
            )
        }
    }
}

#[derive(Debug, Clone, Copy, PartialEq, Eq, Structural)]
pub struct TableTransitionKey {
    pub pipeline_id: PipelineId,
    pub source_lsn: PgLsn,
    pub source_xid: u64,
    pub source_relation_id: u32,
}

/// A new transition. Its plan is a JSON text.
#[derive(Debug, Clone, PartialEq, Eq)]
pub struct TableTransitionRecord {
    pub event_id: Uuid,
    pub fence: PipelineFence,
    pub source_lsn: PgLsn,
    pub source_xid: u64,
    pub source_relation_id: u32,
    pub action: TableTransitionAction,
    pub plan: String,
    pub barrier_lsn: PgLsn,
    pub active_table_generation: Option<u64>,
    pub pending_table_generation: Option<u64>,
    pub snapshot_group_id: Option<Uuid>,
}

/// A stored transition. Its plan is a JSON text.
#[derive(Debug, Clone, PartialEq, Eq)]
pub struct TableTransition {
    pub event_id: Uuid,
    pub key: TableTransitionKey,
    pub topology_generation: u64,
    pub action: TableTransitionAction,
    pub plan: String,
    pub barrier_lsn: PgLsn,
    pub active_table_generation: Option<u64>,
    pub pending_table_generation: Option<u64>,
    pub snapshot_group_id: Option<Uuid>,
    pub state: TableTransitionState,
    pub failure_reason: Option<String>,
    pub fencing_token: i64,
}

#[derive(Debug, Clone, Copy, PartialEq, Eq, Structural)]
pub enum TableTransitionRecordOutcome {
    Inserted,
    Adopted,
    AlreadyRecorded,
}

#[allow(inconsistent_fields)]
#[derive(Debug, PartialEq, Eq)]
pub enum TableTransitionError {
    Fence(CheckpointError),
    /// A transition's event id cannot be nil.
    InvalidEventId,
    /// A source relation id must be positive.
    InvalidSourceRelationId,
    PipelineMismatch { key: PipelineId, fence: PipelineId },
    TopologyMismatch { stored: u64, active: u64 },
    /// A plan cannot be null.
    InvalidPlan,
    XidOutOfRange(u64),
    GenerationOutOfRange { field: &'static str, value: u64 },
    /// A snapshot group id cannot be nil.
    InvalidSnapshotGroupId,
    /// New transitions cannot preassign a snapshot group.
    UnexpectedSnapshotGroupAssignment,
    SnapshotUnsupportedAction(&'static str),
    /// A snapshot transition has no pending generation.
    MissingPendingGeneration,
    InvalidPersistedValue { field: &'static str, value: String },
    ReplayMismatch(&'static str),
    NewerStoredFence { stored: i64, active: i64 },
    FenceMismatch { stored: i64, active: i64 },
    /// The transition was not found.
    NotFound,
    StateMismatch { expected: &'static str, actual: &'static str },
    IllegalStateTransition { action: &'static str, from: &'static str, to: &'static str },
    /// A blocked transition requires a non-empty failure reason.
    MissingFailureReason,
    /// Only a blocked transition may carry a failure reason.
    UnexpectedFailureReason,
    /// A write affected another number of rows than one.
    UnexpectedWriteCount(u64),
}

/// The error names the column and shows the stored value.
pub open spec fn transition_reports(e: TableTransitionError, fault: Option<PersistedFault>) -> bool {
    e matches TableTransitionError::InvalidPersistedValue { field, value } && fault == Some(
        (field, value@),
    )
}

// ---------------------------------------------------------------------------------------------
// Plans
// ---------------------------------------------------------------------------------------------

/// Whether a JSON text is the null value.
pub uninterp spec fn json_null(text: Seq<char>) -> bool;

/// `serde_json::from_str` reads the text as a JSON value, and the result tells whether that value
/// is `Null`. It depends on the text alone. The text `null` is that value.
#[verifier::external_body]
fn is_json_null(text: &str) -> (r: bool)
    ensures
        r == json_null(text@),
        text@ == "null"@ ==> r,
{
    matches!(serde_json::from_str::<serde_json::Value>(text), Ok(serde_json::Value::Null))
}

/// Whether two texts stand for the same JSON value, where both are JSON.
pub uninterp spec fn json_same(a: Seq<char>, b: Seq<char>) -> Option<bool>;

/// `serde_json::from_str` reads both texts as JSON values, and `serde_json::Value::eq` compares
/// them; where one of them is not JSON, there is no result. It depends on the texts alone, and a
/// value is never different from itself.
#[verifier::external_body]
fn compare_json(a: &str, b: &str) -> (r: Option<bool>)
    ensures
        r == json_same(a@, b@),
        a@ == b@ ==> r != Some(false),
{
    let a = serde_json::from_str::<serde_json::Value>(a).ok()?;
    let b = serde_json::from_str::<serde_json::Value>(b).ok()?;
    Some(a == b)
}

/// Two plans are the same: as JSON values, or as texts where one is not JSON.
pub open spec fn plans_same(a: Seq<char>, b: Seq<char>) -> bool {
    match json_same(a, b) {
        Some(same) => same,
        None => a == b,
    }
}

fn is_same_plan(a: &str, b: &str) -> (r: bool)
    ensures
        r == plans_same(a@, b@),
        a@ == b@ ==> r,
{
    match compare_json(a, b) {
        Some(same) => same,
        None => same_text(a, b),
    }
}

// ---------------------------------------------------------------------------------------------
// Recording
// ---------------------------------------------------------------------------------------------

pub fn database_xid(value: u64) -> (r: Result<i64, TableTransitionError>)
    ensures
        match r {
            Ok(xid) => value <= i64::MAX && xid == value,
            Err(e) => value > i64::MAX && e == TableTransitionError::XidOutOfRange(value),
        },
{
    if value <= i64::MAX as u64 {
        Ok(value as i64)
    } else {
        Err(TableTransitionError::XidOutOfRange(value))
    }
}

pub fn database_generation(field: &'static str, value: u64) -> (r: Result<i64, TableTransitionError>)
    ensures
        match r {
            Ok(generation) => value <= i64::MAX && generation == value,
            Err(e) => value > i64::MAX && e == (TableTransitionError::GenerationOutOfRange {
                field,
                value,
            }),
        },
{
    if value <= i64::MAX as u64 {
        Ok(value as i64)
    } else {
        Err(TableTransitionError::GenerationOutOfRange { field, value })
    }
}

pub fn optional_generation(field: &'static str, value: Option<u64>) -> (r: Result<
    Option<i64>,
    TableTransitionError,
>)
    ensures
        match value {
            None => r == Ok::<Option<i64>, TableTransitionError>(None),
            Some(value) => match r {
                Ok(generation) => value <= i64::MAX && generation == Some(value as i64),
                Err(e) => value > i64::MAX && e == (TableTransitionError::GenerationOutOfRange {
                    field,
                    value,
                }),
            },
        },
{
    match value {
        None => Ok(None),
        Some(value) => match database_generation(field, value) {
            Err(e) => Err(e),
            Ok(generation) => Ok(Some(generation)),
        },
    }
}

/// The generations are those that the action leads from and to.
pub open spec fn generations_fit(
    action: TableTransitionAction,
    active: Option<u64>,
    pending: Option<u64>,
) -> bool {
    match action {
        TableTransitionAction::Noop => active is None && pending is None,
        TableTransitionAction::Online | TableTransitionAction::Reload => active is Some
            && pending is Some && pending->0 == active->0 + 1,
        TableTransitionAction::Drop => active is Some && pending is None,
        TableTransitionAction::Add => active is None && pending == Some(1u64),
    }
}

fn do_generations_fit(
    action: TableTransitionAction,
    active: Option<u64>,
    pending: Option<u64>,
) -> (r: bool)
    ensures
        r == generations_fit(action, active, pending),
{
    match action {
        TableTransitionAction::Noop => active.is_none() && pending.is_none(),
        TableTransitionAction::Online | TableTransitionAction::Reload => match active {
            None => false,
            Some(active) => match pending {
                None => false,
                Some(pending) => active < u64::MAX && pending == active + 1,
            },
        },
        TableTransitionAction::Drop => active.is_some() && pending.is_none(),
        TableTransitionAction::Add => active.is_none() && (match pending {
            None => false,
            Some(pending) => pending == 1,
        }),
    }
}

/// Why a transition cannot be recorded, if it cannot, given whether its plan is null.
pub open spec fn record_fault(record: TableTransitionRecord, plan_is_null: bool) -> Option<
    TableTransitionError,
> {
    if record.event_id.value == 0 {
        Some(TableTransitionError::InvalidEventId)
    } else if record.source_relation_id == 0 {
        Some(TableTransitionError::InvalidSourceRelationId)
    } else if plan_is_null {
        Some(TableTransitionError::InvalidPlan)
    } else if record.snapshot_group_id is Some {
        Some(TableTransitionError::UnexpectedSnapshotGroupAssignment)
    } else if !generations_fit(
        record.action,
        record.active_table_generation,
        record.pending_table_generation,
    ) {
        Some(TableTransitionError::ReplayMismatch("table_generations"))
    } else if record.fence.topology_generation > i64::MAX {
        Some(
            TableTransitionError::GenerationOutOfRange {
                field: "topology",
                value: record.fence.topology_generation,
            },
        )
    } else if record.source_xid > i64::MAX {
        Some(TableTransitionError::XidOutOfRange(record.source_xid))
    } else if record.active_table_generation matches Some(value) && value > i64::MAX {
        Some(
            TableTransitionError::GenerationOutOfRange {
                field: "active",
                value: record.active_table_generation->0,
            },
        )
    } else if record.pending_table_generation matches Some(value) && value > i64::MAX {
        Some(
            TableTransitionError::GenerationOutOfRange {
                field: "pending",
                value: record.pending_table_generation->0,
            },
        )
    } else {
        None
    }
}

/// The parameters of the statement that records a transition which the record does not hold as
/// such.
#[derive(Debug, PartialEq, Eq)]
pub struct TransitionParameters {
    pub topology_generation: i64,
    pub source_lsn: String,
    pub source_xid: i64,
    pub source_relation_id: i64,
    pub barrier_lsn: String,
    pub active_table_generation: Option<i64>,
    pub pending_table_generation: Option<i64>,
}

/// The stored number is that of the optional generation.
pub open spec fn same_number(stored: Option<i64>, value: Option<u64>) -> bool {
    match (stored, value) {
        (None, None) => true,
        (Some(stored), Some(value)) => stored == value,
        _ => false,
    }
}

/// The parameters record the transition.
pub open spec fn parameters_record(
    parameters: TransitionParameters,
    record: TableTransitionRecord,
) -> bool {
    &&& parameters.topology_generation == record.fence.topology_generation
    &&& parameters.source_lsn@ == record.source_lsn.text()
    &&& parameters.source_xid == record.source_xid
    &&& parameters.source_relation_id == record.source_relation_id
    &&& parameters.barrier_lsn@ == record.barrier_lsn.text()
    &&& same_number(parameters.active_table_generation, record.active_table_generation)
    &&& same_number(parameters.pending_table_generation, record.pending_table_generation)
}

/// Checks a new transition, given whether its plan is null, and gives the parameters that record
/// it.
pub fn check_record(record: &TableTransitionRecord, plan_is_null: bool) -> (r: Result<
    TransitionParameters,
    TableTransitionError,
>)
    ensures
        match r {
            Ok(parameters) => record_fault(*record, plan_is_null) is None && parameters_record(
                parameters,
                *record,
            ),
            Err(e) => record_fault(*record, plan_is_null) == Some(e),
        },
{
    if record.event_id.is_nil() {
        return Err(TableTransitionError::InvalidEventId);
    }
    if record.source_relation_id == 0 {
        return Err(TableTransitionError::InvalidSourceRelationId);
    }
    if plan_is_null {
        return Err(TableTransitionError::InvalidPlan);
    }
    if record.snapshot_group_id.is_some() {
        return Err(TableTransitionError::UnexpectedSnapshotGroupAssignment);
    }
    if !do_generations_fit(
        record.action,
        record.active_table_generation,
        record.pending_table_generation,
    ) {
        return Err(TableTransitionError::ReplayMismatch("table_generations"));
    }
    let topology_generation = match database_generation(
        "topology",
        record.fence.topology_generation,
    ) {
        Err(e) => return Err(e),
        Ok(generation) => generation,
    };
    let source_xid = match database_xid(record.source_xid) {
        Err(e) => return Err(e),
        Ok(xid) => xid,
    };
    let active_table_generation = match optional_generation(
        "active",
        record.active_table_generation,
    ) {
        Err(e) => return Err(e),
        Ok(generation) => generation,
    };
    let pending_table_generation = match optional_generation(
        "pending",
        record.pending_table_generation,
    ) {
        Err(e) => return Err(e),
        Ok(generation) => generation,
    };
    Ok(
        TransitionParameters {
            topology_generation,
            source_lsn: record.source_lsn.display(),
            source_xid,
            source_relation_id: record.source_relation_id as i64,
            barrier_lsn: record.barrier_lsn.display(),
            active_table_generation,
            pending_table_generation,
        },
    )
}

/// Checks a new transition and gives the parameters that record it.
pub fn validate_record(record: &TableTransitionRecord) -> (r: Result<
    TransitionParameters,
    TableTransitionError,
>)
    ensures
        match r {
            Ok(parameters) => record_fault(*record, json_null(record.plan@)) is None
                && parameters_record(parameters, *record),
            Err(e) => record_fault(*record, json_null(record.plan@)) == Some(e),
        },
{
    check_record(record, is_json_null(record.plan.as_str()))
}

/// The identity of the recorded transition.
pub fn record_key(record: &TableTransitionRecord) -> (r: TableTransitionKey)
    ensures
        r == (TableTransitionKey {
            pipeline_id: record.fence.pipeline_id,
            source_lsn: record.source_lsn,
            source_xid: record.source_xid,
            source_relation_id: record.source_relation_id,
        }),
{
    TableTransitionKey {
        pipeline_id: record.fence.pipeline_id,
        source_lsn: record.source_lsn,
        source_xid: record.source_xid,
        source_relation_id: record.source_relation_id,
    }
}

/// Why a transition cannot be looked up, if it cannot.
pub open spec fn key_fault(key: TableTransitionKey) -> Option<TableTransitionError> {
    if key.source_relation_id == 0 {
        Some(TableTransitionError::InvalidSourceRelationId)
    } else if key.source_xid > i64::MAX {
        Some(TableTransitionError::XidOutOfRange(key.source_xid))
    } else {
        None
    }
}

pub fn validate_key(key: TableTransitionKey) -> (r: Result<(), TableTransitionError>)
    ensures
        match r {
            Ok(()) => key_fault(key) is None,
            Err(e) => key_fault(key) == Some(e),
        },
{
    if key.source_relation_id == 0 {
        return Err(TableTransitionError::InvalidSourceRelationId);
    }
    match database_xid(key.source_xid) {
        Err(e) => Err(e),
        Ok(_) => Ok(()),
    }
}

/// The first immutable field in which a replayed transition differs from the stored one, given
/// whether both plans are the same.
pub open spec fn replay_difference(
    stored: TableTransition,
    record: TableTransitionRecord,
    same_plan: bool,
) -> Option<&'static str> {
    if stored.event_id != record.event_id {
        Some("event_id")
    } else if stored.topology_generation != record.fence.topology_generation {
        Some("topology_generation")
    } else if stored.action != record.action {
        Some("action")
    } else if !same_plan {
        Some("plan")
    } else if stored.barrier_lsn != record.barrier_lsn {
        Some("barrier_lsn")
    } else if stored.active_table_generation != record.active_table_generation {
        Some("active_table_generation")
    } else if stored.pending_table_generation != record.pending_table_generation {
        Some("pending_table_generation")
    } else {
        None
    }
}

fn same_generation(a: Option<u64>, b: Option<u64>) -> (r: bool)
    ensures
        r == (a == b),
{
    match a {
        None => b.is_none(),
        Some(a) => match b {
            None => false,
            Some(b) => a == b,
        },
    }
}

/// Compares a replayed transition with the stored one, given whether both plans are the same.
pub fn check_replay(stored: &TableTransition, record: &TableTransitionRecord, same_plan: bool) -> (r:
    Result<(), TableTransitionError>)
    ensures
        match r {
            Ok(()) => replay_difference(*stored, *record, same_plan) is None,
            Err(e) => replay_difference(*stored, *record, same_plan) matches Some(field) && e
                == TableTransitionError::ReplayMismatch(field),
        },
{
    if stored.event_id != record.event_id {
        Err(TableTransitionError::ReplayMismatch("event_id"))
    } else if stored.topology_generation != record.fence.topology_generation {
        Err(TableTransitionError::ReplayMismatch("topology_generation"))
    } else if stored.action != record.action {
        Err(TableTransitionError::ReplayMismatch("action"))
    } else if !same_plan {
        Err(TableTransitionError::ReplayMismatch("plan"))
    } else if stored.barrier_lsn != record.barrier_lsn {
        Err(TableTransitionError::ReplayMismatch("barrier_lsn"))
    } else if !same_generation(stored.active_table_generation, record.active_table_generation) {
        Err(TableTransitionError::ReplayMismatch("active_table_generation"))
    } else if !same_generation(stored.pending_table_generation, record.pending_table_generation) {
        Err(TableTransitionError::ReplayMismatch("pending_table_generation"))
    } else {
        Ok(())
    }
}

pub fn validate_replay(stored: &TableTransition, record: &TableTransitionRecord) -> (r: Result<
    (),
    TableTransitionError,
>)
    ensures
        ({
            let difference = replay_difference(
                *stored,
                *record,
                plans_same(stored.plan@, record.plan@),
            );
            match r {
                Ok(()) => difference is None,
                Err(e) => difference matches Some(field) && e
                    == TableTransitionError::ReplayMismatch(field),
            }
        }),
        stored.plan@ == record.plan@ && replay_difference(*stored, *record, true) is None ==> r
            is Ok,
{
    check_replay(stored, record, is_same_plan(stored.plan.as_str(), record.plan.as_str()))
}

/// What becomes of a transition that is recorded, given what is stored under its key and whether
/// both plans are the same.
pub open spec fn recording(
    stored: Option<&TableTransition>,
    record: TableTransitionRecord,
    same_plan: bool,
) -> Result<TableTransitionRecordOutcome, TableTransitionError> {
    match stored {
        None => Ok(TableTransitionRecordOutcome::Inserted),
        Some(stored) => match replay_difference(*stored, record, same_plan) {
            Some(field) => Err(TableTransitionError::ReplayMismatch(field)),
            None => if stored.fencing_token > record.fence.fencing_token {
                Err(
                    TableTransitionError::NewerStoredFence {
                        stored: stored.fencing_token,
                        active: record.fence.fencing_token,
                    },
                )
            } else if !(stored.state is Completed) && stored.fencing_token
                < record.fence.fencing_token {
                Ok(TableTransitionRecordOutcome::Adopted)
            } else {
                Ok(TableTransitionRecordOutcome::AlreadyRecorded)
            },
        },
    }
}

/// Decides what becomes of a recorded transition, given whether its plan is the stored one.
pub fn decide_recording(
    stored: Option<&TableTransition>,
    record: &TableTransitionRecord,
    same_plan: bool,
) -> (r: Result<TableTransitionRecordOutcome, TableTransitionError>)
    ensures
        r == recording(stored, *record, same_plan),
{
    match stored {
        None => Ok(TableTransitionRecordOutcome::Inserted),
        Some(stored) => {
            match check_replay(stored, record, same_plan) {
                Err(e) => return Err(e),
                Ok(()) => {},
            }
            if stored.fencing_token > record.fence.fencing_token {
                return Err(
                    TableTransitionError::NewerStoredFence {
                        stored: stored.fencing_token,
                        active: record.fence.fencing_token,
                    },
                );
            }
            if stored.state != TableTransitionState::Completed && stored.fencing_token
                < record.fence.fencing_token {
                return Ok(TableTransitionRecordOutcome::Adopted);
            }
            Ok(TableTransitionRecordOutcome::AlreadyRecorded)
        },
    }
}

/// Decides what becomes of a recorded transition: a new one is inserted, one of an older fence is
/// adopted, and one that differs from the stored one is refused.
pub fn judge_recording(stored: Option<&TableTransition>, record: &TableTransitionRecord) -> (r:
    Result<TableTransitionRecordOutcome, TableTransitionError>)
    ensures
        match stored {
            None => r == recording(None, *record, true),
            Some(found) => r == recording(
                stored,
                *record,
                plans_same(found.plan@, record.plan@),
            ),
        },
        stored matches Some(found) && found.plan@ == record.plan@ ==> r == recording(
            stored,
            *record,
            true,
        ),
{
    let same_plan = match stored {
        None => true,
        Some(stored) => is_same_plan(stored.plan.as_str(), record.plan.as_str()),
    };
    decide_recording(stored, record, same_plan)
}

pub fn ensure_one(written: u64) -> (r: Result<(), TableTransitionError>)
    ensures
        match r {
            Ok(()) => written == 1,
            Err(e) => written != 1 && e == TableTransitionError::UnexpectedWriteCount(written),
        },
{
    if written == 1 {
        Ok(())
    } else {
        Err(TableTransitionError::UnexpectedWriteCount(written))
    }
}

/// No listed transition belongs to a newer fence.
pub open spec fn none_newer(transitions: Seq<TableTransition>, fencing_token: i64) -> bool {
    forall|i: int|
        0 <= i < transitions.len() ==> (#[trigger] transitions[i]).fencing_token <= fencing_token
}

/// Refuses a list of unfinished transitions where one belongs to a newer fence.
pub fn check_listed_fences(transitions: &[TableTransition], fence: PipelineFence) -> (r: Result<
    (),
    TableTransitionError,
>)
    ensures
        match r {
            Ok(()) => none_newer(transitions@, fence.fencing_token),
            Err(e) => exists|i: int|
                {
                    &&& 0 <= i < transitions@.len()
                    &&& none_newer(transitions@.take(i), fence.fencing_token)
                    &&& (#[trigger] transitions@[i]).fencing_token > fence.fencing_token
                    &&& e == (TableTransitionError::NewerStoredFence {
                        stored: transitions@[i].fencing_token,
                        active: fence.fencing_token,
                    })
                },
        },
{
    let mut i: usize = 0;
    while i < transitions.len()
        invariant
            i <= transitions.len(),
            forall|k: int|
                0 <= k < i ==> (#[trigger] transitions@[k]).fencing_token <= fence.fencing_token,
        decreases transitions.len() - i,
    {
        if transitions[i].fencing_token > fence.fencing_token {
            proof {
                let before = transitions@.take(i as int);
                assert forall|k: int| 0 <= k < before.len() implies (
                #[trigger] before[k]).fencing_token <= fence.fencing_token by {
                    assert(before[k] == transitions@[k]);
                }
                assert(transitions@[i as int].fencing_token > fence.fencing_token);
            }
            return Err(
                TableTransitionError::NewerStoredFence {
                    stored: transitions[i].fencing_token,
                    active: fence.fencing_token,
                },
            );
        }
        i = i + 1;
    }
    Ok(())
}

// ---------------------------------------------------------------------------------------------
// Advancing
// ---------------------------------------------------------------------------------------------

/// Why the failure reason does not go with the next state, if it does not.
pub open spec fn reason_fault(next: TableTransitionState, reason: Option<&str>) -> Option<
    TableTransitionError,
> {
    match (next, reason) {
        (TableTransitionState::Blocked, Some(text)) => if text@.len() > 0 {
            None
        } else {
            Some(TableTransitionError::MissingFailureReason)
        },
        (TableTransitionState::Blocked, None) => Some(TableTransitionError::MissingFailureReason),
        (_, None) => None,
        (_, Some(_)) => Some(TableTransitionError::UnexpectedFailureReason),
    }
}

pub fn validate_failure_reason(next: TableTransitionState, failure_reason: Option<&str>) -> (r:
    Result<(), TableTransitionError>)
    ensures
        match r {
            Ok(()) => reason_fault(next, failure_reason) is None,
            Err(e) => reason_fault(next, failure_reason) == Some(e),
        },
{
    match next {
        TableTransitionState::Blocked => match failure_reason {
            None => Err(TableTransitionError::MissingFailureReason),
            Some(reason) => {
                if reason.is_empty() {
                    Err(TableTransitionError::MissingFailureReason)
                } else {
                    Ok(())
                }
            },
        },
        _ => match failure_reason {
            None => Ok(()),
            Some(_) => Err(TableTransitionError::UnexpectedFailureReason),
        },
    }
}

/// Why the fence does not cover the key, if it does not.
pub open spec fn coverage_fault(fence: PipelineFence, key: TableTransitionKey) -> Option<
    TableTransitionError,
> {
    if key_fault(key) is Some {
        key_fault(key)
    } else if key.pipeline_id != fence.pipeline_id {
        Some(
            TableTransitionError::PipelineMismatch {
                key: key.pipeline_id,
                fence: fence.pipeline_id,
            },
        )
    } else {
        None
    }
}

fn check_coverage(fence: PipelineFence, key: TableTransitionKey) -> (r: Result<
    (),
    TableTransitionError,
>)
    ensures
        match r {
            Ok(()) => coverage_fault(fence, key) is None,
            Err(e) => coverage_fault(fence, key) == Some(e),
        },
{
    match validate_key(key) {
        Err(e) => return Err(e),
        Ok(()) => {},
    }
    if key.pipeline_id != fence.pipeline_id {
        return Err(
            TableTransitionError::PipelineMismatch {
                key: key.pipeline_id,
                fence: fence.pipeline_id,
            },
        );
    }
    Ok(())
}

/// Checks an advance before anything is locked.
pub fn check_advance_request(
    fence: PipelineFence,
    key: TableTransitionKey,
    next: TableTransitionState,
    failure_reason: Option<&str>,
) -> (r: Result<(), TableTransitionError>)
    ensures
        match r {
            Ok(()) => reason_fault(next, failure_reason) is None && coverage_fault(fence, key)
                is None,
            Err(e) => if reason_fault(next, failure_reason) is Some {
                reason_fault(next, failure_reason) == Some(e)
            } else {
                coverage_fault(fence, key) == Some(e)
            },
        },
{
    match validate_failure_reason(next, failure_reason) {
        Err(e) => return Err(e),
        Ok(()) => {},
    }
    check_coverage(fence, key)
}

/// Why the stored transition does not belong to the fence, if it does not.
pub open spec fn ownership_fault(current: TableTransition, fence: PipelineFence) -> Option<
    TableTransitionError,
> {
    if current.fencing_token != fence.fencing_token {
        Some(
            TableTransitionError::FenceMismatch {
                stored: current.fencing_token,
                active: fence.fencing_token,
            },
        )
    } else if current.topology_generation != fence.topology_generation {
        Some(
            TableTransitionError::TopologyMismatch {
                stored: current.topology_generation,
                active: fence.topology_generation,
            },
        )
    } else {
        None
    }
}

fn check_ownership(current: &TableTransition, fence: PipelineFence) -> (r: Result<
    (),
    TableTransitionError,
>)
    ensures
        match r {
            Ok(()) => ownership_fault(*current, fence) is None,
            Err(e) => ownership_fault(*current, fence) == Some(e),
        },
{
    if current.fencing_token != fence.fencing_token {
        return Err(
            TableTransitionError::FenceMismatch {
                stored: current.fencing_token,
                active: fence.fencing_token,
            },
        );
    }
    if current.topology_generation != fence.topology_generation {
        return Err(
            TableTransitionError::TopologyMismatch {
                stored: current.topology_generation,
                active: fence.topology_generation,
            },
        );
    }
    Ok(())
}

/// The error of an action that may not go from one state to the other.
pub open spec fn illegal(
    action: TableTransitionAction,
    from: TableTransitionState,
    to: TableTransitionState,
) -> TableTransitionError {
    TableTransitionError::IllegalStateTransition {
        action: action.name(),
        from: from.name(),
        to: to.name(),
    }
}

/// Why the stored transition cannot be advanced, if it cannot.
pub open spec fn advance_fault(
    current: TableTransition,
    fence: PipelineFence,
    expected: TableTransitionState,
    next: TableTransitionState,
) -> Option<TableTransitionError> {
    if ownership_fault(current, fence) is Some {
        ownership_fault(current, fence)
    } else if current.state != expected {
        Some(
            TableTransitionError::StateMismatch {
                expected: expected.name(),
                actual: current.state.name(),
            },
        )
    } else if !may_go(current.action, expected, next) {
        Some(illegal(current.action, expected, next))
    } else {
        None
    }
}

/// Decides whether a stored transition may be advanced.
pub fn judge_advance(
    current: Option<&TableTransition>,
    fence: PipelineFence,
    expected: TableTransitionState,
    next: TableTransitionState,
) -> (r: Result<(), TableTransitionError>)
    ensures
        match current {
            None => r == Err::<(), TableTransitionError>(TableTransitionError::NotFound),
            Some(current) => match r {
                Ok(()) => advance_fault(*current, fence, expected, next) is None,
                Err(e) => advance_fault(*current, fence, expected, next) == Some(e),
            },
        },
{
    let current = match current {
        None => return Err(TableTransitionError::NotFound),
        Some(current) => current,
    };
    match check_ownership(current, fence) {
        Err(e) => return Err(e),
        Ok(()) => {},
    }
    if current.state != expected {
        return Err(
            TableTransitionError::StateMismatch {
                expected: expected.as_str(),
                actual: current.state.as_str(),
            },
        );
    }
    if !current.action.can_transition(expected, next) {
        return Err(
            TableTransitionError::IllegalStateTransition {
                action: current.action.as_str(),
                from: expected.as_str(),
                to: next.as_str(),
            },
        );
    }
    Ok(())
}

// ---------------------------------------------------------------------------------------------
// Snapshot transitions
// ---------------------------------------------------------------------------------------------

/// Checks the start of a snapshot transition before anything is locked.
pub fn check_snapshot_request(
    fence: PipelineFence,
    key: TableTransitionKey,
    snapshot_group_id: Uuid,
) -> (r: Result<(), TableTransitionError>)
    ensures
        match r {
            Ok(()) => snapshot_group_id.value != 0 && coverage_fault(fence, key) is None,
            Err(e) => if snapshot_group_id.value == 0 {
                e == TableTransitionError::InvalidSnapshotGroupId
            } else {
                coverage_fault(fence, key) == Some(e)
            },
        },
{
    if snapshot_group_id.is_nil() {
        return Err(TableTransitionError::InvalidSnapshotGroupId);
    }
    check_coverage(fence, key)
}

/// The transition as it is once its snapshot load has started.
pub open spec fn snapshotting(current: TableTransition, snapshot_group_id: Uuid) ->
    TableTransition {
    TableTransition {
        snapshot_group_id: Some(snapshot_group_id),
        state: TableTransitionState::Snapshotting,
        failure_reason: None,
        ..current
    }
}

/// The snapshot load of the transition has been started with this very group.
pub open spec fn started_with(current: TableTransition, snapshot_group_id: Uuid) -> bool {
    current.state is Snapshotting && current.snapshot_group_id == Some(snapshot_group_id)
}

/// Why no snapshot load can be started for the stored transition, if none can.
pub open spec fn snapshot_fault(
    current: TableTransition,
    fence: PipelineFence,
    expected: TableTransitionState,
    snapshot_group_id: Uuid,
) -> Option<TableTransitionError> {
    if ownership_fault(current, fence) is Some {
        ownership_fault(current, fence)
    } else if !(current.action is Reload || current.action is Add) {
        Some(TableTransitionError::SnapshotUnsupportedAction(current.action.name()))
    } else if current.pending_table_generation is None {
        Some(TableTransitionError::MissingPendingGeneration)
    } else if started_with(current, snapshot_group_id) {
        None
    } else if current.state != expected {
        Some(
            TableTransitionError::StateMismatch {
                expected: expected.name(),
                actual: current.state.name(),
            },
        )
    } else if current.snapshot_group_id is Some {
        Some(TableTransitionError::ReplayMismatch("snapshot_group_id"))
    } else if !may_go(current.action, expected, TableTransitionState::Snapshotting) {
        Some(illegal(current.action, expected, TableTransitionState::Snapshotting))
    } else {
        None
    }
}

/// What is done about the start of a snapshot load.
#[derive(Debug, PartialEq, Eq)]
pub enum SnapshotStart {
    /// The load has been started with this very group: nothing is written.
    AlreadyStarted(TableTransition),
    /// The group has to be assigned; the transition is then this one.
    Assign(TableTransition),
}

/// Decides about the start of a snapshot load.
///
/// An exact retry after an ambiguous commit finds the already-assigned transition; a different
/// group fails closed.
pub fn judge_snapshot_start(
    current: Option<TableTransition>,
    fence: PipelineFence,
    expected: TableTransitionState,
    snapshot_group_id: Uuid,
) -> (r: Result<SnapshotStart, TableTransitionError>)
    ensures
        match current {
            None => r == Err::<SnapshotStart, TableTransitionError>(TableTransitionError::NotFound),
            Some(current) => match r {
                Ok(start) => {
                    &&& snapshot_fault(current, fence, expected, snapshot_group_id) is None
                    &&& start == if started_with(current, snapshot_group_id) {
                        SnapshotStart::AlreadyStarted(current)
                    } else {
                        SnapshotStart::Assign(snapshotting(current, snapshot_group_id))
                    }
                },
                Err(e) => snapshot_fault(current, fence, expected, snapshot_group_id) == Some(e),
            },
        },
{
    let mut current = match current {
        None => return Err(TableTransitionError::NotFound),
        Some(current) => current,
    };
    match check_ownership(&current, fence) {
        Err(e) => return Err(e),
        Ok(()) => {},
    }
    if current.action != TableTransitionAction::Reload && current.action
        != TableTransitionAction::Add {
        return Err(TableTransitionError::SnapshotUnsupportedAction(current.action.as_str()));
    }
    if current.pending_table_generation.is_none() {
        return Err(TableTransitionError::MissingPendingGeneration);
    }
    let same_group = match current.snapshot_group_id {
        None => false,
        Some(group) => group == snapshot_group_id,
    };
    if current.state == TableTransitionState::Snapshotting && same_group {
        return Ok(SnapshotStart::AlreadyStarted(current));
    }
    if current.state != expected {
        return Err(
            TableTransitionError::StateMismatch {
                expected: expected.as_str(),
                actual: current.state.as_str(),
            },
        );
    }
    if current.snapshot_group_id.is_some() {
        return Err(TableTransitionError::ReplayMismatch("snapshot_group_id"));
    }
    if !current.action.can_transition(expected, TableTransitionState::Snapshotting) {
        return Err(
            TableTransitionError::IllegalStateTransition {
                action: current.action.as_str(),
                from: expected.as_str(),
                to: TableTransitionState::Snapshotting.as_str(),
            },
        );
    }
    current.snapshot_group_id = Some(snapshot_group_id);
    current.state = TableTransitionState::Snapshotting;
    current.failure_reason = None;
    Ok(SnapshotStart::Assign(current))
}

// ---------------------------------------------------------------------------------------------
// Rows
// ---------------------------------------------------------------------------------------------

/// A transition row as the target returns it.
#[derive(Debug, PartialEq, Eq)]
pub struct TransitionRow {
    pub event_id: Uuid,
    pub pipeline_id: Uuid,
    pub topology_generation: i64,
    pub source_lsn: String,
    pub source_xid: i64,
    pub source_relation_id: i64,
    pub action: String,
    pub plan: String,
    pub barrier_lsn: String,
    pub active_table_generation: Option<i64>,
    pub pending_table_generation: Option<i64>,
    pub snapshot_group_id: Option<Uuid>,
    pub state: String,
    pub failure_reason: Option<String>,
    pub fencing_token: i64,
}

impl TransitionRow {
    /// The first column that has no meaning.
    pub open spec fn fault(self) -> Option<PersistedFault> {
        if parsed_lsn(self.source_lsn@) is None {
            Some(("source_lsn", self.source_lsn@))
        } else if self.source_xid < 0 {
            Some(("source_xid", signed_decimal(self.source_xid as int)))
        } else if self.source_relation_id < 0 {
            Some(("source_relation_id", signed_decimal(self.source_relation_id as int)))
        } else if self.source_relation_id > u32::MAX {
            Some(("source_relation_id", "out of range"@))
        } else if self.snapshot_group_id matches Some(group) && group.value == 0 {
            Some(("snapshot_group_id", (Uuid { value: 0 }).text()))
        } else if self.topology_generation < 0 {
            Some(("topology_generation", signed_decimal(self.topology_generation as int)))
        } else if TableTransitionAction::named(self.action@) is None {
            Some(("action", self.action@))
        } else if parsed_lsn(self.barrier_lsn@) is None {
            Some(("barrier_lsn", self.barrier_lsn@))
        } else if self.active_table_generation matches Some(value) && value < 0 {
            Some(
                (
                    "active_table_generation",
                    signed_decimal(self.active_table_generation->0 as int),
                ),
            )
        } else if self.pending_table_generation matches Some(value) && value < 0 {
            Some(
                (
                    "pending_table_generation",
                    signed_decimal(self.pending_table_generation->0 as int),
                ),
            )
        } else if TableTransitionState::named(self.state@) is None {
            Some(("state", self.state@))
        } else {
            None
        }
    }

    /// The row holds the transition.
    pub open spec fn holds(self, transition: TableTransition) -> bool {
        &&& transition.event_id == self.event_id
        &&& transition.key.pipeline_id.uuid == self.pipeline_id
        &&& parsed_lsn(self.source_lsn@) == Some(transition.key.source_lsn.value as nat)
        &&& transition.key.source_xid == self.source_xid
        &&& transition.key.source_relation_id == self.source_relation_id
        &&& transition.topology_generation == self.topology_generation
        &&& TableTransitionAction::named(self.action@) == Some(transition.action)
        &&& transition.plan == self.plan
        &&& parsed_lsn(self.barrier_lsn@) == Some(transition.barrier_lsn.value as nat)
        &&& same_number(self.active_table_generation, transition.active_table_generation)
        &&& same_number(self.pending_table_generation, transition.pending_table_generation)
        &&& transition.snapshot_group_id == self.snapshot_group_id
        &&& TableTransitionState::named(self.state@) == Some(transition.state)
        &&& transition.failure_reason == self.failure_reason
        &&& transition.fencing_token == self.fencing_token
    }
}

fn invalid_number(field: &'static str, value: i64) -> (r: TableTransitionError)
    ensures
        transition_reports(r, Some((field, signed_decimal(value as int)))),
{
    TableTransitionError::InvalidPersistedValue { field, value: render_signed(value) }
}

fn parse_lsn(value: &str, field: &'static str) -> (r: Result<PgLsn, TableTransitionError>)
    ensures
        match r {
            Ok(lsn) => parsed_lsn(value@) == Some(lsn.value as nat),
            Err(e) => parsed_lsn(value@) is None && transition_reports(e, Some((field, value@))),
        },
{
    match PgLsn::parse(value) {
        Some(lsn) => Ok(lsn),
        None => Err(
            TableTransitionError::InvalidPersistedValue { field, value: value.to_string() },
        ),
    }
}

fn persisted_optional_u64(value: Option<i64>, field: &'static str) -> (r: Result<
    Option<u64>,
    TableTransitionError,
>)
    ensures
        match r {
            Ok(generation) => same_number(value, generation),
            Err(e) => value matches Some(number) && number < 0 && transition_reports(
                e,
                Some((field, signed_decimal(number as int))),
            ),
        },
{
    match value {
        None => Ok(None),
        Some(value) => {
            if value < 0 {
                Err(invalid_number(field, value))
            } else {
                Ok(Some(value as u64))
            }
        },
    }
}

/// Reads a transition row.
pub fn transition_from_row(row: TransitionRow) -> (r: Result<TableTransition, TableTransitionError>)
    ensures
        match r {
            Ok(transition) => row.fault() is None && row.holds(transition),
            Err(e) => transition_reports(e, row.fault()),
        },
{
    let source_lsn = match parse_lsn(row.source_lsn.as_str(), "source_lsn") {
        Err(e) => return Err(e),
        Ok(lsn) => lsn,
    };
    if row.source_xid < 0 {
        return Err(invalid_number("source_xid", row.source_xid));
    }
    if row.source_relation_id < 0 {
        return Err(invalid_number("source_relation_id", row.source_relation_id));
    }
    if row.source_relation_id > u32::MAX as i64 {
        return Err(
            TableTransitionError::InvalidPersistedValue {
                field: "source_relation_id",
                value: "out of range".to_string(),
            },
        );
    }
    match row.snapshot_group_id {
        None => {},
        Some(group) => {
            if group.is_nil() {
                return Err(
                    TableTransitionError::InvalidPersistedValue {
                        field: "snapshot_group_id",
                        value: Uuid::nil().display(),
                    },
                );
            }
        },
    }
    if row.topology_generation < 0 {
        return Err(invalid_number("topology_generation", row.topology_generation));
    }
    let action = match TableTransitionAction::parse(row.action.as_str()) {
        Err(e) => return Err(e),
        Ok(action) => action,
    };
    let barrier_lsn = match parse_lsn(row.barrier_lsn.as_str(), "barrier_lsn") {
        Err(e) => return Err(e),
        Ok(lsn) => lsn,
    };
    let active_table_generation = match persisted_optional_u64(
        row.active_table_generation,
        "active_table_generation",
    ) {
        Err(e) => return Err(e),
        Ok(generation) => generation,
    };
    let pending_table_generation = match persisted_optional_u64(
        row.pending_table_generation,
        "pending_table_generation",
    ) {
        Err(e) => return Err(e),
        Ok(generation) => generation,
    };
    let state = match TableTransitionState::parse(row.state.as_str()) {
        Err(e) => return Err(e),
        Ok(state) => state,
    };
    Ok(
        TableTransition {
            event_id: row.event_id,
            key: TableTransitionKey {
                pipeline_id: PipelineId::from_uuid(row.pipeline_id),
                source_lsn,
                source_xid: row.source_xid as u64,
                source_relation_id: row.source_relation_id as u32,
            },
            topology_generation: row.topology_generation as u64,
            action,
            plan: row.plan,
            barrier_lsn,
            active_table_generation,
            pending_table_generation,
            snapshot_group_id: row.snapshot_group_id,
            state,
            failure_reason: row.failure_reason,
            fencing_token: row.fencing_token,
        },
    )
}

// ---------------------------------------------------------------------------------------------
// Laws
// ---------------------------------------------------------------------------------------------

/// Every action reads back from its stored text.
pub proof fn law_action_reads_back(action: TableTransitionAction)
    ensures
        TableTransitionAction::named(action.name()@) == Some(action),
{
    reveal_strlit("noop");
    reveal_strlit("online");
    reveal_strlit("reload");
    reveal_strlit("drop");
    reveal_strlit("add");
    assert("noop"@[0] == 'n');
    assert("online"@[0] == 'o');
    assert("reload"@[0] == 'r');
    assert("drop"@[0] == 'd');
    assert("add"@[0] == 'a');
}

/// Every state reads back from its stored text.
pub proof fn law_state_reads_back(state: TableTransitionState)
    ensures
        TableTransitionState::named(state.name()@) == Some(state),
{
    reveal_strlit("pending");
    reveal_strlit("applying");
    reveal_strlit("snapshotting");
    reveal_strlit("catching_up");
    reveal_strlit("cutover_pending");
    reveal_strlit("blocked");
    reveal_strlit("completed");
    assert("pending"@.len() == 7);
    assert("applying"@.len() == 8);
    assert("snapshotting"@.len() == 12);
    assert("catching_up"@.len() == 11);
    assert("cutover_pending"@.len() == 15);
    assert("blocked"@.len() == 7);
    assert("completed"@.len() == 9);
    assert("pending"@[0] == 'p');
    assert("blocked"@[0] == 'b');
}

/// How far along its way a transition is.
pub open spec fn progress_of(state: TableTransitionState) -> int {
    match state {
        TableTransitionState::Pending => 0,
        TableTransitionState::Blocked => 0,
        TableTransitionState::Applying => 1,
        TableTransitionState::Snapshotting => 1,
        TableTransitionState::CatchingUp => 2,
        TableTransitionState::CutoverPending => 3,
        TableTransitionState::Completed => 4,
    }
}

/// A completed transition stays as it is. Every other state can be blocked, and every step but
/// blocking leads further along the way.
pub proof fn law_transitions_are_fail_closed(
    action: TableTransitionAction,
    from: TableTransitionState,
    to: TableTransitionState,
)
    ensures
        from is Completed ==> !may_go(action, from, to),
        !(from is Completed || from is Blocked) ==> may_go(
            action,
            from,
            TableTransitionState::Blocked,
        ),
        may_go(action, from, to) && !(to is Blocked) ==> progress_of(from) < progress_of(to),
{
}

/// A blocked transition resumes exactly as a pending one starts.
pub proof fn law_blocked_transition_resumes_from_its_start(
    action: TableTransitionAction,
    to: TableTransitionState,
)
    requires
        !(to is Blocked),
    ensures
        may_go(action, TableTransitionState::Blocked, to) == may_go(
            action,
            TableTransitionState::Pending,
            to,
        ),
{
}

/// The states that an action's way leads through.
pub open spec fn way(action: TableTransitionAction) -> Seq<TableTransitionState> {
    match action {
        TableTransitionAction::Noop => seq![
            TableTransitionState::Pending,
            TableTransitionState::Completed,
        ],
        TableTransitionAction::Online => seq![
            TableTransitionState::Pending,
            TableTransitionState::Applying,
            TableTransitionState::Completed,
        ],
        TableTransitionAction::Reload | TableTransitionAction::Add => seq![
            TableTransitionState::Pending,
            TableTransitionState::Snapshotting,
            TableTransitionState::CatchingUp,
            TableTransitionState::CutoverPending,
            TableTransitionState::Completed,
        ],
        TableTransitionAction::Drop => seq![
            TableTransitionState::Pending,
            TableTransitionState::CutoverPending,
            TableTransitionState::Completed,
        ],
    }
}

/// Every action can be completed, by exactly one way: each state of it leads to the next one, and
/// to no other but blocked.
pub proof fn law_every_action_has_one_way(
    action: TableTransitionAction,
    at: int,
    to: TableTransitionState,
)
    requires
        0 <= at < way(action).len() - 1,
        !(to is Blocked),
    ensures
        may_go(action, way(action)[at], to) <==> to == way(action)[at + 1],
        way(action)[0] is Pending,
        way(action).last() is Completed,
{
}

/// Starting a snapshot load may be retried with the same group, and only with that one.
pub proof fn law_snapshot_start_is_idempotent(
    current: TableTransition,
    fence: PipelineFence,
    expected: TableTransitionState,
    group: Uuid,
    other: Uuid,
)
    requires
        snapshot_fault(current, fence, expected, group) is None,
        other != group,
    ensures
        ({
            let started = if started_with(current, group) {
                current
            } else {
                snapshotting(current, group)
            };
            &&& started_with(started, group)
            &&& snapshot_fault(started, fence, expected, group) is None
            &&& snapshot_fault(started, fence, expected, other) is Some
        }),
{
}

/// Recording may be repeated: a stored transition with the fields of the record is found again.
pub proof fn law_recording_is_idempotent(stored: TableTransition, record: TableTransitionRecord)
    requires
        replay_difference(stored, record, true) is None,
        stored.fencing_token == record.fence.fencing_token,
    ensures
        recording(Some(&stored), record, true) == Ok::<
            TableTransitionRecordOutcome,
            TableTransitionError,
        >(TableTransitionRecordOutcome::AlreadyRecorded),
{
}

/// A record whose other fields are in order is accepted exactly where its generations are those of
/// its action: an online change and a reload lead from the active generation to the one after it,
/// a drop has only the active one, an addition only the pending first one, and an action without
/// effect has neither.
pub proof fn law_generations_of_each_action(record: TableTransitionRecord)
    requires
        record.event_id.value > 0,
        record.source_relation_id > 0,
        record.snapshot_group_id is None,
        record.fence.topology_generation <= i64::MAX,
        record.source_xid <= i64::MAX,
        record.active_table_generation matches Some(value) ==> value <= i64::MAX,
        record.pending_table_generation matches Some(value) ==> value <= i64::MAX,
    ensures
        record.action == TableTransitionAction::Online || record.action
            == TableTransitionAction::Reload ==> (record_fault(record, false) is None <==> (
        record.active_table_generation is Some && record.pending_table_generation is Some
            && record.pending_table_generation->0 == record.active_table_generation->0 + 1)),
        record.action == TableTransitionAction::Drop ==> (record_fault(record, false) is None <==> (
        record.active_table_generation is Some && record.pending_table_generation is None)),
        record.action == TableTransitionAction::Add ==> (record_fault(record, false) is None <==> (
        record.active_table_generation is None && record.pending_table_generation == Some(1u64))),
        record.action == TableTransitionAction::Noop ==> (record_fault(record, false) is None <==> (
        record.active_table_generation is None && record.pending_table_generation is None)),
        record_fault(record, true) is Some,
{
}

/// A record is accepted exactly where its event and relation are given, its plan is not null, no
/// snapshot group is assigned yet, its generations are those of its action, and its numbers can be
/// stored.
pub proof fn law_which_transitions_are_recorded(record: TableTransitionRecord, plan_is_null: bool)
    ensures
        record_fault(record, plan_is_null) is None <==> {
            &&& record.event_id.value > 0
            &&& record.source_relation_id > 0
            &&& !plan_is_null
            &&& record.snapshot_group_id is None
            &&& match record.action {
                TableTransitionAction::Noop => record.active_table_generation is None
                    && record.pending_table_generation is None,
                TableTransitionAction::Drop => record.active_table_generation is Some
                    && record.pending_table_generation is None,
                TableTransitionAction::Add => record.active_table_generation is None
                    && record.pending_table_generation == Some(1u64),
                _ => record.active_table_generation is Some && record.pending_table_generation
                    is Some && record.pending_table_generation->0
                    == record.active_table_generation->0 + 1,
            }
            &&& record.fence.topology_generation <= i64::MAX
            &&& record.source_xid <= i64::MAX
            &&& record.active_table_generation matches Some(value) ==> value <= i64::MAX
            &&& record.pending_table_generation matches Some(value) ==> value <= i64::MAX
        },
{
}

/// A transition that is not stored is inserted. A stored one with the fields of the record is
/// adopted where it is unfinished and of an older fence, and found again where it is complete or of
/// the same fence; a newer fence, or any field that differs, refuses the record.
pub proof fn law_recorded_transitions(
    stored: TableTransition,
    record: TableTransitionRecord,
    same_plan: bool,
)
    ensures
        recording(None, record, same_plan) == Ok::<
            TableTransitionRecordOutcome,
            TableTransitionError,
        >(TableTransitionRecordOutcome::Inserted),
        ({
            let same = {
                &&& stored.event_id == record.event_id
                &&& stored.topology_generation == record.fence.topology_generation
                &&& stored.action == record.action
                &&& same_plan
                &&& stored.barrier_lsn == record.barrier_lsn
                &&& stored.active_table_generation == record.active_table_generation
                &&& stored.pending_table_generation == record.pending_table_generation
            };
            let outcome = recording(Some(&stored), record, same_plan);
            &&& outcome is Ok <==> same && stored.fencing_token <= record.fence.fencing_token
            &&& outcome == Ok::<TableTransitionRecordOutcome, TableTransitionError>(
                TableTransitionRecordOutcome::Adopted,
            ) <==> same && stored.fencing_token < record.fence.fencing_token && stored.state
                != TableTransitionState::Completed
            &&& outcome != Ok::<TableTransitionRecordOutcome, TableTransitionError>(
                TableTransitionRecordOutcome::Inserted,
            )
        }),
{
}

/// A transition is advanced exactly where it belongs to the fence's token and topology, is in the
/// expected state, and that state leads to the next one.
pub proof fn law_which_transitions_advance(
    current: TableTransition,
    fence: PipelineFence,
    expected: TableTransitionState,
    next: TableTransitionState,
)
    ensures
        advance_fault(current, fence, expected, next) is None <==> {
            &&& current.fencing_token == fence.fencing_token
            &&& current.topology_generation == fence.topology_generation
            &&& current.state == expected
            &&& may_go(current.action, expected, next)
        },
{
}

/// A transition is looked up by a relation and a transaction number that can be stored, and only
/// under a fence of its own pipeline.
pub proof fn law_which_transitions_are_covered(fence: PipelineFence, key: TableTransitionKey)
    ensures
        coverage_fault(fence, key) is None <==> {
            &&& key.source_relation_id > 0
            &&& key.source_xid <= i64::MAX
            &&& key.pipeline_id == fence.pipeline_id
        },
        key_fault(key) is None <==> key.source_relation_id > 0 && key.source_xid <= i64::MAX,
{
}

/// A blocked transition has a reason, and no other one has.
pub proof fn law_blocked_transitions_have_a_reason(
    next: TableTransitionState,
    reason: Option<&str>,
)
    ensures
        next is Blocked ==> (reason_fault(next, reason) is None <==> (reason matches Some(text)
            && text@.len() > 0)),
        !(next is Blocked) ==> (reason_fault(next, reason) is None <==> reason is None),
{
}

/// A snapshot load starts exactly for a reload or an addition of the fence with a pending
/// generation, from the expected pending or blocked state without a group, or again with the very
/// group that it was started with.
pub proof fn law_which_snapshot_loads_start(
    current: TableTransition,
    fence: PipelineFence,
    expected: TableTransitionState,
    group: Uuid,
)
    ensures
        snapshot_fault(current, fence, expected, group) is None <==> {
            &&& current.fencing_token == fence.fencing_token
            &&& current.topology_generation == fence.topology_generation
            &&& current.action == TableTransitionAction::Reload || current.action
                == TableTransitionAction::Add
            &&& current.pending_table_generation is Some
            &&& {
                ||| current.state == TableTransitionState::Snapshotting
                    && current.snapshot_group_id == Some(group)
                ||| current.state == expected && current.snapshot_group_id is None && (expected
                    == TableTransitionState::Pending || expected == TableTransitionState::Blocked)
            }
        },
        ({
            let started = snapshotting(current, group);
            &&& started.state == TableTransitionState::Snapshotting
            &&& started.snapshot_group_id == Some(group)
            &&& started.failure_reason is None
            &&& started.event_id == current.event_id
            &&& started.key == current.key
            &&& started.topology_generation == current.topology_generation
            &&& started.action == current.action
            &&& started.plan == current.plan
            &&& started.barrier_lsn == current.barrier_lsn
            &&& started.active_table_generation == current.active_table_generation
            &&& started.pending_table_generation == current.pending_table_generation
            &&& started.fencing_token == current.fencing_token
        }),
{
}

/// The steps of each action, one by one.
pub proof fn law_the_steps_of_each_action(
    action: TableTransitionAction,
    from: TableTransitionState,
    to: TableTransitionState,
)
    ensures
        may_go(action, from, to) <==> {
            ||| to is Blocked && !(from is Blocked) && !(from is Completed)
            ||| (from is Pending || from is Blocked) && match action {
                TableTransitionAction::Noop => to is Completed,
                TableTransitionAction::Online => to is Applying,
                TableTransitionAction::Drop => to is CutoverPending,
                _ => to is Snapshotting,
            }
            ||| action is Online && from is Applying && to is Completed
            ||| (action is Reload || action is Add) && from is Snapshotting && to is CatchingUp
            ||| (action is Reload || action is Add) && from is CatchingUp && to is CutoverPending
            ||| (action is Reload || action is Add || action is Drop) && from is CutoverPending
                && to is Completed
        },
{
}

/// The texts of the actions and states, as the stored rows hold them.
pub proof fn law_transition_texts(action: TableTransitionAction, state: TableTransitionState)
    ensures
        action is Noop ==> action.name() == "noop",
        action is Online ==> action.name() == "online",
        action is Reload ==> action.name() == "reload",
        action is Drop ==> action.name() == "drop",
        action is Add ==> action.name() == "add",
        state is Pending ==> state.name() == "pending",
        state is Applying ==> state.name() == "applying",
        state is Snapshotting ==> state.name() == "snapshotting",
        state is CatchingUp ==> state.name() == "catching_up",
        state is CutoverPending ==> state.name() == "cutover_pending",
        state is Blocked ==> state.name() == "blocked",
        state is Completed ==> state.name() == "completed",
{
}

/// A stored row has a meaning exactly where each of its columns does.
pub proof fn law_which_transition_rows_have_a_meaning(row: TransitionRow)
    ensures
        row.fault() is None <==> {
            &&& parsed_lsn(row.source_lsn@) is Some
            &&& row.source_xid >= 0
            &&& 0 <= row.source_relation_id <= u32::MAX
            &&& row.snapshot_group_id matches Some(group) ==> group.value > 0
            &&& row.topology_generation >= 0
            &&& TableTransitionAction::named(row.action@) is Some
            &&& parsed_lsn(row.barrier_lsn@) is Some
            &&& row.active_table_generation matches Some(value) ==> value >= 0
            &&& row.pending_table_generation matches Some(value) ==> value >= 0
            &&& TableTransitionState::named(row.state@) is Some
        },
{
}

/// A recorded transition reads back: a row that holds the parameters of an accepted record has a
/// meaning, and what it holds has the record's fields.
pub proof fn law_recorded_transition_reads_back(
    record: TableTransitionRecord,
    parameters: TransitionParameters,
    row: TransitionRow,
    read: TableTransition,
)
    requires
        record_fault(record, false) is None,
        parameters_record(parameters, record),
        row.event_id == record.event_id,
        row.pipeline_id == record.fence.pipeline_id.uuid,
        row.topology_generation == parameters.topology_generation,
        row.source_lsn@ == parameters.source_lsn@,
        row.source_xid == parameters.source_xid,
        row.source_relation_id == parameters.source_relation_id,
        row.action@ == record.action.name()@,
        row.plan == record.plan,
        row.barrier_lsn@ == parameters.barrier_lsn@,
        row.active_table_generation == parameters.active_table_generation,
        row.pending_table_generation == parameters.pending_table_generation,
        row.snapshot_group_id is None,
        row.state@ == "pending"@,
        row.failure_reason is None,
        row.fencing_token == record.fence.fencing_token,
        row.holds(read),
    ensures
        row.fault() is None,
        read.state is Pending,
        read.fencing_token == record.fence.fencing_token,
        read.key.pipeline_id.uuid == record.fence.pipeline_id.uuid,
        read.key.source_lsn.value == record.source_lsn.value,
        read.key.source_xid == record.source_xid,
        read.key.source_relation_id == record.source_relation_id,
        replay_difference(read, record, true) is None,
{
    law_lsn_reads_back(record.source_lsn);
    law_lsn_reads_back(record.barrier_lsn);
    law_action_reads_back(record.action);
    law_state_reads_back(TableTransitionState::Pending);
}

/// What is decided about the start of a snapshot load: an exact retry finds it started, a load that
/// may start gets the group, and a transition that is not stored is not found.
pub proof fn law_decided_snapshot_starts(
    current: TableTransition,
    fence: PipelineFence,
    expected: TableTransitionState,
    group: Uuid,
    r: Result<SnapshotStart, TableTransitionError>,
    absent: Result<SnapshotStart, TableTransitionError>,
)
    requires
        call_ensures(judge_snapshot_start, (Some(current), fence, expected, group), r),
        call_ensures(judge_snapshot_start, (None, fence, expected, group), absent),
    ensures
        absent == Err::<SnapshotStart, TableTransitionError>(TableTransitionError::NotFound),
        r is Ok <==> snapshot_fault(current, fence, expected, group) is None,
        r matches Ok(SnapshotStart::AlreadyStarted(found)) ==> {
            &&& found == current
            &&& current.state is Snapshotting
            &&& current.snapshot_group_id == Some(group)
        },
        r matches Ok(SnapshotStart::Assign(next)) ==> {
            &&& current.snapshot_group_id is None
            &&& next.snapshot_group_id == Some(group)
            &&& next.state is Snapshotting
            &&& next.key == current.key
            &&& next.pending_table_generation == current.pending_table_generation
        },
{
}

/// What is checked before a transition is advanced or its load starts: a reason exactly where it is
/// blocked, a group that is given, and a key that the fence covers.
pub proof fn law_what_is_checked_before_a_step(
    fence: PipelineFence,
    key: TableTransitionKey,
    next: TableTransitionState,
    reason: Option<&str>,
    group: Uuid,
    advance: Result<(), TableTransitionError>,
    start: Result<(), TableTransitionError>,
)
    requires
        call_ensures(check_advance_request, (fence, key, next, reason), advance),
        call_ensures(check_snapshot_request, (fence, key, group), start),
    ensures
        ({
            let covered = key.source_relation_id > 0 && key.source_xid <= i64::MAX
                && key.pipeline_id == fence.pipeline_id;
            &&& advance is Ok <==> covered && (if next is Blocked {
                reason matches Some(text) && text@.len() > 0
            } else {
                reason is None
            })
            &&& start is Ok <==> covered && group.value > 0
        }),
{
}

/// What is told of a transition that cannot be recorded is so.
pub proof fn law_told_faults_of_transitions(record: TableTransitionRecord, plan_is_null: bool)
    ensures
        record_fault(record, plan_is_null) matches Some(e) ==> {
            ||| e is InvalidEventId && record.event_id.value == 0
            ||| e is InvalidSourceRelationId && record.source_relation_id == 0
            ||| e is InvalidPlan && plan_is_null
            ||| e is UnexpectedSnapshotGroupAssignment && record.snapshot_group_id is Some
            ||| (e matches TableTransitionError::ReplayMismatch(field) && field@
                == "table_generations"@ && !generations_fit(
                record.action,
                record.active_table_generation,
                record.pending_table_generation,
            ))
            ||| (e matches TableTransitionError::GenerationOutOfRange { field, value } && field@
                == "topology"@ && value == record.fence.topology_generation && value > i64::MAX)
            ||| (e matches TableTransitionError::GenerationOutOfRange { field, value } && field@
                == "active"@ && Some(value) == record.active_table_generation && value > i64::MAX)
            ||| (e matches TableTransitionError::GenerationOutOfRange { field, value } && field@
                == "pending"@ && Some(value) == record.pending_table_generation && value
                > i64::MAX)
            ||| e == TableTransitionError::XidOutOfRange(record.source_xid) && record.source_xid
                > i64::MAX
        },
{
}

/// What is told of a transition of another owner is so.
pub proof fn law_told_owners_of_transitions(current: TableTransition, fence: PipelineFence)
    ensures
        ownership_fault(current, fence) is None <==> current.fencing_token == fence.fencing_token
            && current.topology_generation == fence.topology_generation,
        ownership_fault(current, fence) matches Some(e) ==> {
            ||| e == (TableTransitionError::FenceMismatch {
                stored: current.fencing_token,
                active: fence.fencing_token,
            }) && current.fencing_token != fence.fencing_token
            ||| e == (TableTransitionError::TopologyMismatch {
                stored: current.topology_generation,
                active: fence.topology_generation,
            }) && current.topology_generation != fence.topology_generation
        },
{
}

/// Listed transitions are given out exactly where none of them is of a newer fence; one that is, is
/// told with both tokens.
pub proof fn law_listed_transitions(
    transitions: &[TableTransition],
    fence: PipelineFence,
    r: Result<(), TableTransitionError>,
)
    requires
        call_ensures(check_listed_fences, (transitions, fence), r),
    ensures
        r is Ok <==> forall|i: int|
            0 <= i < transitions@.len() ==> (#[trigger] transitions@[i]).fencing_token
                <= fence.fencing_token,
        r matches Err(e) ==> exists|i: int|
            {
                &&& 0 <= i < transitions@.len()
                &&& (#[trigger] transitions@[i]).fencing_token > fence.fencing_token
                &&& e == (TableTransitionError::NewerStoredFence {
                    stored: transitions@[i].fencing_token,
                    active: fence.fencing_token,
                })
            },
{
}

/// A named difference between a stored transition and a replayed one is one, and there is none
/// exactly where the replayed one is the same.
pub proof fn law_named_differences_of_transitions(
    stored: TableTransition,
    record: TableTransitionRecord,
    same_plan: bool,
)
    ensures
        replay_difference(stored, record, same_plan) is None <==> {
            &&& stored.event_id == record.event_id
            &&& stored.topology_generation == record.fence.topology_generation
            &&& stored.action == record.action
            &&& same_plan
            &&& stored.barrier_lsn == record.barrier_lsn
            &&& stored.active_table_generation == record.active_table_generation
            &&& stored.pending_table_generation == record.pending_table_generation
        },
        replay_difference(stored, record, same_plan) matches Some(field) ==> {
            ||| field@ == "event_id"@ && stored.event_id != record.event_id
            ||| field@ == "topology_generation"@ && stored.topology_generation
                != record.fence.topology_generation
            ||| field@ == "action"@ && stored.action != record.action
            ||| field@ == "plan"@ && !same_plan
            ||| field@ == "barrier_lsn"@ && stored.barrier_lsn != record.barrier_lsn
            ||| field@ == "active_table_generation"@ && stored.active_table_generation
                != record.active_table_generation
            ||| field@ == "pending_table_generation"@ && stored.pending_table_generation
                != record.pending_table_generation
        },
{
}

/// Two plans are the same where they are the same document; texts that are no documents are the
/// same only where they are equal.
pub proof fn law_when_plans_are_the_same(a: Seq<char>, b: Seq<char>)
    ensures
        json_same(a, b) is None ==> (plans_same(a, b) <==> a == b),
        json_same(a, b) is Some ==> plans_same(a, b) == json_same(a, b)->0,
{
}

} // verus!
