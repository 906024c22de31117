//! Cloudberry-side checkpoint rules.

use crate::ident::{PipelineId, Uuid};
use crate::lsn::{law_lsn_reads_back, parsed_lsn, PgLsn};
use crate::text::{
    contains_char, decimal, law_decimal_reads_back, parse_u64, render_decimal, render_signed,
    same_text, signed_decimal, unsigned_number,
};
use vstd::prelude::*;

verus! {

pub const LOAD_PIPELINE_FENCE_SQL: &'static str = "SELECT topology_generation, fencing_token FROM pg2cb_meta.pipeline_state WHERE pipeline_id = $1";

pub const LOCK_PIPELINE_FENCE_SQL: &'static str = "SELECT topology_generation, fencing_token FROM pg2cb_meta.pipeline_state WHERE pipeline_id = $1 FOR UPDATE";

pub const ACTIVATE_PIPELINE_FENCE_SQL: &'static str = r#"
INSERT INTO pg2cb_meta.pipeline_state (pipeline_id, topology_generation, fencing_token)
VALUES ($1, $2, $3)
ON CONFLICT (pipeline_id) DO UPDATE SET
    topology_generation = EXCLUDED.topology_generation,
    fencing_token = EXCLUDED.fencing_token,
    updated_at = clock_timestamp()
WHERE EXCLUDED.topology_generation >= pg2cb_meta.pipeline_state.topology_generation
  AND EXCLUDED.fencing_token >= pg2cb_meta.pipeline_state.fencing_token
RETURNING topology_generation, fencing_token
"#;

pub const LOAD_NODE_CHECKPOINT_SQL: &'static str = r#"
SELECT pipeline_id, topology_generation, node_id,
       system_identifier::text AS system_identifier,
       timeline, slot_name, applied_lsn::text AS applied_lsn, fencing_token
FROM pg2cb_meta.node_checkpoints
WHERE pipeline_id = $1 AND topology_generation = $2 AND node_id = $3
"#;

pub const LOCK_NODE_CHECKPOINT_SQL: &'static str = r#"
SELECT pipeline_id, topology_generation, node_id,
       system_identifier::text AS system_identifier,
       timeline, slot_name, applied_lsn::text AS applied_lsn, fencing_token
FROM pg2cb_meta.node_checkpoints
WHERE pipeline_id = $1 AND topology_generation = $2 AND node_id = $3
FOR UPDATE
"#;

pub const INSERT_NODE_CHECKPOINT_SQL: &'static str = r#"
INSERT INTO pg2cb_meta.node_checkpoints (
    pipeline_id, topology_generation, node_id, system_identifier,
    timeline, slot_name, applied_lsn, fencing_token
)
VALUES ($1, $2, $3, $4::numeric, $5, $6, $7::pg_lsn, $8)
"#;

pub const UPDATE_NODE_CHECKPOINT_SQL: &'static str = r#"
UPDATE pg2cb_meta.node_checkpoints
SET applied_lsn = $4::pg_lsn, fencing_token = $5, updated_at = clock_timestamp()
WHERE pipeline_id = $1 AND topology_generation = $2 AND node_id = $3
"#;

/// The right of one worker to change a pipeline's target.
#[derive(Debug, Clone, Copy, PartialEq, Eq, Structural)]
pub struct PipelineFence {
    pub pipeline_id: PipelineId,
    pub topology_generation: u64,
    pub fencing_token: i64,
}

#[derive(Debug, Clone, Copy, PartialEq, Eq, Structural)]
pub struct CheckpointKey {
    pub pipeline_id: PipelineId,
    pub topology_generation: u64,
    pub node_id: i32,
}

#[derive(Debug, PartialEq, Eq)]
pub struct NodeCheckpoint {
    pub key: CheckpointKey,
    pub system_identifier: u64,
    pub timeline: u32,
    pub slot_name: String,
    pub applied_lsn: PgLsn,
}

/// The model of a checkpoint.
pub struct CheckpointView {
    pub key: CheckpointKey,
    pub system_identifier: u64,
    pub timeline: u32,
    pub slot_name: Seq<char>,
    pub applied_lsn: PgLsn,
}

impl View for NodeCheckpoint {
    type V = CheckpointView;

    open spec fn view(&self) -> CheckpointView {
        CheckpointView {
            key: self.key,
            system_identifier: self.system_identifier,
            timeline: self.timeline,
            slot_name: self.slot_name@,
            applied_lsn: self.applied_lsn,
        }
    }
}

impl Clone for NodeCheckpoint {
    fn clone(&self) -> (r: Self)
        ensures
            r == *self,
    {
        NodeCheckpoint {
            key: self.key,
            system_identifier: self.system_identifier,
            timeline: self.timeline,
            slot_name: self.slot_name.clone(),
            applied_lsn: self.applied_lsn,
        }
    }
}

#[derive(Debug, PartialEq, Eq)]
pub struct StoredNodeCheckpoint {
    pub checkpoint: NodeCheckpoint,
    pub fencing_token: i64,
}

impl Clone for StoredNodeCheckpoint {
    fn clone(&self) -> (r: Self)
        ensures
            r == *self,
    {
        StoredNodeCheckpoint {
            checkpoint: self.checkpoint.clone(),
            fencing_token: self.fencing_token,
        }
    }
}

#[derive(Debug, Clone, Copy, PartialEq, Eq, Structural)]
pub enum AdvanceOutcome {
    Inserted,
    Unchanged,
    Advanced { previous_lsn: PgLsn },
}

#[derive(Debug, PartialEq, Eq)]
pub enum CheckpointError {
    /// The topology generation exceeds the target bigint range.
    GenerationOutOfRange(u64),
    /// A fencing token must be positive.
    InvalidFencingToken,
    /// A timeline must be non-zero.
    InvalidTimeline,
    /// A slot name cannot be empty or contain NUL.
    InvalidSlotName,
    /// The pipeline fence has not been initialized.
    MissingFence,
    StaleFence {
        expected_generation: u64,
        expected_token: i64,
        actual_generation: u64,
        actual_token: i64,
    },
    /// The proposed checkpoint key does not match the active pipeline fence.
    FenceKeyMismatch,
    InvalidPersistedValue { field: &'static str, value: String },
    /// The source node identity changed within one topology generation.
    SourceIdentityChanged,
    LsnRegression { current: PgLsn, proposed: PgLsn },
    /// A checkpoint write affected another number of rows than one.
    UnexpectedWriteCount(u64),
}

/// A generation fits the target's bigint.
pub open spec fn generation_fits(generation: u64) -> bool {
    generation <= i64::MAX
}

/// Converts a generation to the target's bigint.
pub fn database_generation(generation: u64) -> (r: Result<i64, CheckpointError>)
    ensures
        match r {
            Ok(value) => generation_fits(generation) && value == generation,
            Err(e) => !generation_fits(generation) && e == CheckpointError::GenerationOutOfRange(
                generation,
            ),
        },
{
    if generation <= i64::MAX as u64 {
        Ok(generation as i64)
    } else {
        Err(CheckpointError::GenerationOutOfRange(generation))
    }
}

/// Why a fence cannot be used, if it cannot.
pub open spec fn fence_fault(fence: PipelineFence) -> Option<CheckpointError> {
    if !generation_fits(fence.topology_generation) {
        Some(CheckpointError::GenerationOutOfRange(fence.topology_generation))
    } else if fence.fencing_token <= 0 {
        Some(CheckpointError::InvalidFencingToken)
    } else {
        None
    }
}

/// Checks a fence and gives its generation as the target stores it.
pub fn validate_fence(fence: PipelineFence) -> (r: Result<i64, CheckpointError>)
    ensures
        match r {
            Ok(generation) => fence_fault(fence) is None && generation
                == fence.topology_generation,
            Err(e) => fence_fault(fence) == Some(e),
        },
{
    let generation = match database_generation(fence.topology_generation) {
        Err(e) => return Err(e),
        Ok(generation) => generation,
    };
    if fence.fencing_token <= 0 {
        return Err(CheckpointError::InvalidFencingToken);
    }
    Ok(generation)
}

/// Why a checkpoint cannot be stored, if it cannot.
pub open spec fn checkpoint_fault(checkpoint: NodeCheckpoint) -> Option<CheckpointError> {
    boundary_fault(checkpoint@)
}

/// Why a checkpoint with this model cannot be stored, if it cannot.
pub open spec fn boundary_fault(checkpoint: CheckpointView) -> Option<CheckpointError> {
    if !generation_fits(checkpoint.key.topology_generation) {
        Some(CheckpointError::GenerationOutOfRange(checkpoint.key.topology_generation))
    } else if checkpoint.timeline == 0 {
        Some(CheckpointError::InvalidTimeline)
    } else if checkpoint.slot_name.len() == 0 || checkpoint.slot_name.contains('\0') {
        Some(CheckpointError::InvalidSlotName)
    } else {
        None
    }
}

pub fn validate_checkpoint(checkpoint: &NodeCheckpoint) -> (r: Result<(), CheckpointError>)
    ensures
        match r {
            Ok(()) => checkpoint_fault(*checkpoint) is None,
            Err(e) => checkpoint_fault(*checkpoint) == Some(e),
        },
{
    match database_generation(checkpoint.key.topology_generation) {
        Err(e) => return Err(e),
        Ok(_) => {},
    }
    if checkpoint.timeline == 0 {
        return Err(CheckpointError::InvalidTimeline);
    }
    if checkpoint.slot_name.as_str().is_empty() || contains_char(
        checkpoint.slot_name.as_str(),
        '\0',
    ) {
        return Err(CheckpointError::InvalidSlotName);
    }
    Ok(())
}

/// A stored value that has no meaning: its column and its text.
pub type PersistedFault = (&'static str, Seq<char>);

/// The error names the column and shows the stored value.
pub open spec fn reports_persisted(e: CheckpointError, fault: Option<PersistedFault>) -> bool {
    e matches CheckpointError::InvalidPersistedValue { field, value } && fault == Some(
        (field, value@),
    )
}

fn invalid_persisted_number(field: &'static str, value: i64) -> (r: CheckpointError)
    ensures
        reports_persisted(r, Some((field, signed_decimal(value as int)))),
{
    CheckpointError::InvalidPersistedValue { field, value: render_signed(value) }
}

/// Reads a stored generation.
pub fn generation_from_row(value: i64, column: &'static str) -> (r: Result<u64, CheckpointError>)
    ensures
        match r {
            Ok(generation) => value >= 0 && generation == value,
            Err(e) => value < 0 && reports_persisted(
                e,
                Some((column, signed_decimal(value as int))),
            ),
        },
{
    if value >= 0 {
        Ok(value as u64)
    } else {
        Err(invalid_persisted_number(column, value))
    }
}

/// A fence as the target stores it.
#[derive(Debug, Clone, Copy, PartialEq, Eq, Structural)]
pub struct FenceRow {
    pub topology_generation: i64,
    pub fencing_token: i64,
}

/// What is answered to a worker whose fence the target refused to activate, given the fence that
/// the target holds.
pub fn refused_fence(fence: PipelineFence, current: FenceRow) -> (r: CheckpointError)
    ensures
        if current.topology_generation < 0 {
            reports_persisted(
                r,
                Some(("topology_generation", signed_decimal(current.topology_generation as int))),
            )
        } else {
            r == (CheckpointError::StaleFence {
                expected_generation: fence.topology_generation,
                expected_token: fence.fencing_token,
                actual_generation: current.topology_generation as u64,
                actual_token: current.fencing_token,
            })
        },
{
    match generation_from_row(current.topology_generation, "topology_generation") {
        Err(e) => e,
        Ok(actual_generation) => CheckpointError::StaleFence {
            expected_generation: fence.topology_generation,
            expected_token: fence.fencing_token,
            actual_generation,
            actual_token: current.fencing_token,
        },
    }
}

/// The stored fence is exactly the expected one.
pub open spec fn fence_holds(expected: PipelineFence, stored: Option<FenceRow>) -> bool {
    stored matches Some(row) && row.topology_generation == expected.topology_generation
        && row.fencing_token == expected.fencing_token
}

/// Verifies the locked fence of a pipeline inside the caller's apply transaction.
///
/// `expected` has passed `validate_fence`.
pub fn verify_locked_fence(expected: PipelineFence, stored: Option<FenceRow>) -> (r: Result<
    (),
    CheckpointError,
>)
    ensures
        match r {
            Ok(()) => fence_holds(expected, stored),
            Err(e) => !fence_holds(expected, stored) && match stored {
                None => e == CheckpointError::MissingFence,
                Some(row) => if row.topology_generation < 0 {
                    reports_persisted(
                        e,
                        Some(
                            (
                                "topology_generation",
                                signed_decimal(row.topology_generation as int),
                            ),
                        ),
                    )
                } else {
                    e == (CheckpointError::StaleFence {
                        expected_generation: expected.topology_generation,
                        expected_token: expected.fencing_token,
                        actual_generation: row.topology_generation as u64,
                        actual_token: row.fencing_token,
                    })
                },
            },
        },
{
    match stored {
        None => Err(CheckpointError::MissingFence),
        Some(row) => {
            let actual_generation = match generation_from_row(
                row.topology_generation,
                "topology_generation",
            ) {
                Err(e) => return Err(e),
                Ok(generation) => generation,
            };
            if actual_generation == expected.topology_generation && row.fencing_token
                == expected.fencing_token {
                Ok(())
            } else {
                Err(refused_fence(expected, row))
            }
        },
    }
}

/// Both checkpoints speak of the same source node, timeline and slot.
pub open spec fn same_source(a: NodeCheckpoint, b: NodeCheckpoint) -> bool {
    &&& a.key == b.key
    &&& a.system_identifier == b.system_identifier
    &&& a.timeline == b.timeline
    &&& a.slot_name@ == b.slot_name@
}

fn is_same_source(a: &NodeCheckpoint, b: &NodeCheckpoint) -> (r: bool)
    ensures
        r == same_source(*a, *b),
{
    a.key == b.key && a.system_identifier == b.system_identifier && a.timeline == b.timeline
        && same_text(a.slot_name.as_str(), b.slot_name.as_str())
}

/// What proposing a checkpoint over the stored one leads to.
pub open spec fn advance_model(
    current: Option<StoredNodeCheckpoint>,
    proposed: NodeCheckpoint,
) -> Result<AdvanceOutcome, CheckpointError> {
    if checkpoint_fault(proposed) is Some {
        Err(checkpoint_fault(proposed)->0)
    } else {
        match current {
            None => Ok(AdvanceOutcome::Inserted),
            Some(stored) => if !same_source(stored.checkpoint, proposed) {
                Err(CheckpointError::SourceIdentityChanged)
            } else if proposed.applied_lsn.value < stored.checkpoint.applied_lsn.value {
                Err(
                    CheckpointError::LsnRegression {
                        current: stored.checkpoint.applied_lsn,
                        proposed: proposed.applied_lsn,
                    },
                )
            } else if proposed.applied_lsn.value == stored.checkpoint.applied_lsn.value {
                Ok(AdvanceOutcome::Unchanged)
            } else {
                Ok(AdvanceOutcome::Advanced { previous_lsn: stored.checkpoint.applied_lsn })
            },
        }
    }
}

/// The checkpoint behind an optional reference.
pub open spec fn stored_of(current: Option<&StoredNodeCheckpoint>) -> Option<StoredNodeCheckpoint> {
    match current {
        Some(stored) => Some(*stored),
        None => None,
    }
}

/// Pure monotonicity and source-identity check used before a checkpoint write.
pub fn check_advance(current: Option<&StoredNodeCheckpoint>, proposed: &NodeCheckpoint) -> (r: Result<
    AdvanceOutcome,
    CheckpointError,
>)
    ensures
        r == advance_model(stored_of(current), *proposed),
{
    match validate_checkpoint(proposed) {
        Err(e) => return Err(e),
        Ok(()) => {},
    }
    match current {
        None => Ok(AdvanceOutcome::Inserted),
        Some(stored) => {
            if !is_same_source(&stored.checkpoint, proposed) {
                return Err(CheckpointError::SourceIdentityChanged);
            }
            let held: u64 = stored.checkpoint.applied_lsn.as_u64();
            let asked: u64 = proposed.applied_lsn.as_u64();
            if asked < held {
                Err(
                    CheckpointError::LsnRegression {
                        current: stored.checkpoint.applied_lsn,
                        proposed: proposed.applied_lsn,
                    },
                )
            } else if asked == held {
                Ok(AdvanceOutcome::Unchanged)
            } else {
                Ok(AdvanceOutcome::Advanced { previous_lsn: stored.checkpoint.applied_lsn })
            }
        },
    }
}

/// Whether the stored checkpoint covers the required one.
pub open spec fn reached_model(
    current: Option<StoredNodeCheckpoint>,
    required: NodeCheckpoint,
) -> Result<bool, CheckpointError> {
    if checkpoint_fault(required) is Some {
        Err(checkpoint_fault(required)->0)
    } else {
        match current {
            None => Ok(false),
            Some(stored) => if !same_source(stored.checkpoint, required) {
                Err(CheckpointError::SourceIdentityChanged)
            } else {
                Ok(stored.checkpoint.applied_lsn.value >= required.applied_lsn.value)
            },
        }
    }
}

/// Whether the target-authoritative checkpoint is at or beyond the required one.
pub fn checkpoint_reached(
    current: Option<&StoredNodeCheckpoint>,
    required: &NodeCheckpoint,
) -> (r: Result<bool, CheckpointError>)
    ensures
        r == reached_model(stored_of(current), *required),
{
    match validate_checkpoint(required) {
        Err(e) => return Err(e),
        Ok(()) => {},
    }
    match current {
        None => Ok(false),
        Some(stored) => {
            if !is_same_source(&stored.checkpoint, required) {
                return Err(CheckpointError::SourceIdentityChanged);
            }
            Ok(stored.checkpoint.applied_lsn.as_u64() >= required.applied_lsn.as_u64())
        },
    }
}

/// The write that makes a checkpoint durable, with its statement parameters.
#[allow(inconsistent_fields)]
#[derive(Debug, PartialEq, Eq)]
pub enum CheckpointWrite {
    Insert {
        generation: i64,
        node_id: i32,
        system_identifier: String,
        timeline: i64,
        slot_name: String,
        applied_lsn: String,
        fencing_token: i64,
    },
    Update { generation: i64, node_id: i32, applied_lsn: String, fencing_token: i64 },
}

/// The write stores the proposed checkpoint under the fence.
pub open spec fn write_stores(
    write: CheckpointWrite,
    fence: PipelineFence,
    proposed: NodeCheckpoint,
    outcome: AdvanceOutcome,
) -> bool {
    match write {
        CheckpointWrite::Insert {
            generation,
            node_id,
            system_identifier,
            timeline,
            slot_name,
            applied_lsn,
            fencing_token,
        } => {
            &&& outcome is Inserted
            &&& generation == proposed.key.topology_generation
            &&& node_id == proposed.key.node_id
            &&& system_identifier@ == decimal(proposed.system_identifier as nat)
            &&& timeline == proposed.timeline
            &&& slot_name@ == proposed.slot_name@
            &&& applied_lsn@ == proposed.applied_lsn.text()
            &&& fencing_token == fence.fencing_token
        },
        CheckpointWrite::Update { generation, node_id, applied_lsn, fencing_token } => {
            &&& !(outcome is Inserted)
            &&& generation == proposed.key.topology_generation
            &&& node_id == proposed.key.node_id
            &&& applied_lsn@ == proposed.applied_lsn.text()
            &&& fencing_token == fence.fencing_token
        },
    }
}

/// Why a checkpoint cannot be proposed under a fence, if it cannot.
pub open spec fn proposal_fault(fence: PipelineFence, proposed: NodeCheckpoint) -> Option<
    CheckpointError,
> {
    if checkpoint_fault(proposed) is Some {
        checkpoint_fault(proposed)
    } else if proposed.key.pipeline_id != fence.pipeline_id || proposed.key.topology_generation
        != fence.topology_generation {
        Some(CheckpointError::FenceKeyMismatch)
    } else {
        None
    }
}

/// Checks a proposal before anything is locked.
pub fn check_proposal(fence: PipelineFence, proposed: &NodeCheckpoint) -> (r: Result<
    (),
    CheckpointError,
>)
    ensures
        match r {
            Ok(()) => proposal_fault(fence, *proposed) is None,
            Err(e) => proposal_fault(fence, *proposed) == Some(e),
        },
{
    match validate_checkpoint(proposed) {
        Err(e) => return Err(e),
        Ok(()) => {},
    }
    if proposed.key.pipeline_id != fence.pipeline_id || proposed.key.topology_generation
        != fence.topology_generation {
        return Err(CheckpointError::FenceKeyMismatch);
    }
    Ok(())
}

/// Decides how a locked checkpoint advances and which write makes that durable.
pub fn plan_advance(
    fence: PipelineFence,
    existing: Option<&StoredNodeCheckpoint>,
    proposed: &NodeCheckpoint,
) -> (r: Result<(AdvanceOutcome, CheckpointWrite), CheckpointError>)
    ensures
        match r {
            Ok((outcome, write)) => {
                &&& advance_model(stored_of(existing), *proposed) == Ok::<
                    AdvanceOutcome,
                    CheckpointError,
                >(outcome)
                &&& write_stores(write, fence, *proposed, outcome)
            },
            Err(e) => advance_model(stored_of(existing), *proposed) == Err::<
                AdvanceOutcome,
                CheckpointError,
            >(e),
        },
{
    let outcome = match check_advance(existing, proposed) {
        Err(e) => return Err(e),
        Ok(outcome) => outcome,
    };
    let generation = match database_generation(proposed.key.topology_generation) {
        Err(e) => return Err(e),
        Ok(generation) => generation,
    };
    let applied_lsn = proposed.applied_lsn.display();
    let write = match outcome {
        AdvanceOutcome::Inserted => CheckpointWrite::Insert {
            generation,
            node_id: proposed.key.node_id,
            system_identifier: render_decimal(proposed.system_identifier),
            timeline: proposed.timeline as i64,
            slot_name: proposed.slot_name.clone(),
            applied_lsn,
            fencing_token: fence.fencing_token,
        },
        _ => CheckpointWrite::Update {
            generation,
            node_id: proposed.key.node_id,
            applied_lsn,
            fencing_token: fence.fencing_token,
        },
    };
    Ok((outcome, write))
}

/// A node checkpoint as the target returns it.
#[derive(Debug, PartialEq, Eq)]
pub struct CheckpointRow {
    pub pipeline_id: Uuid,
    pub topology_generation: i64,
    pub node_id: i32,
    pub system_identifier: String,
    pub timeline: i64,
    pub slot_name: String,
    pub applied_lsn: String,
    pub fencing_token: i64,
}

/// The first column of a checkpoint row that has no meaning.
pub open spec fn checkpoint_row_fault(row: CheckpointRow) -> Option<PersistedFault> {
    if row.topology_generation < 0 {
        Some(("topology_generation", signed_decimal(row.topology_generation as int)))
    } else if unsigned_number(row.system_identifier@, u64::MAX as nat) is None {
        Some(("system_identifier", row.system_identifier@))
    } else if !(0 <= row.timeline <= u32::MAX) {
        Some(("timeline", signed_decimal(row.timeline as int)))
    } else if parsed_lsn(row.applied_lsn@) is None {
        Some(("applied_lsn", row.applied_lsn@))
    } else {
        None
    }
}

/// The checkpoint that a row without faults holds.
pub open spec fn row_holds(row: CheckpointRow, stored: StoredNodeCheckpoint) -> bool {
    &&& stored.checkpoint.key == (CheckpointKey {
        pipeline_id: PipelineId { uuid: row.pipeline_id },
        topology_generation: row.topology_generation as u64,
        node_id: row.node_id,
    })
    &&& unsigned_number(row.system_identifier@, u64::MAX as nat) == Some(
        stored.checkpoint.system_identifier as nat,
    )
    &&& stored.checkpoint.timeline == row.timeline
    &&& stored.checkpoint.slot_name == row.slot_name
    &&& parsed_lsn(row.applied_lsn@) == Some(stored.checkpoint.applied_lsn.value as nat)
    &&& stored.fencing_token == row.fencing_token
}

/// Reads a stored checkpoint.
pub fn checkpoint_from_row(row: CheckpointRow) -> (r: Result<StoredNodeCheckpoint, CheckpointError>)
    ensures
        match r {
            Ok(stored) => checkpoint_row_fault(row) is None && row_holds(row, stored),
            Err(e) => reports_persisted(e, checkpoint_row_fault(row)),
        },
{
    let generation = match generation_from_row(row.topology_generation, "topology_generation") {
        Err(e) => return Err(e),
        Ok(generation) => generation,
    };
    let system_identifier = match parse_u64(row.system_identifier.as_str()) {
        None => {
            return Err(
                CheckpointError::InvalidPersistedValue {
                    field: "system_identifier",
                    value: row.system_identifier,
                },
            );
        },
        Some(value) => value,
    };
    if row.timeline < 0 || row.timeline > u32::MAX as i64 {
        return Err(invalid_persisted_number("timeline", row.timeline));
    }
    let applied_lsn = match PgLsn::parse(row.applied_lsn.as_str()) {
        None => {
            return Err(
                CheckpointError::InvalidPersistedValue {
                    field: "applied_lsn",
                    value: row.applied_lsn,
                },
            );
        },
        Some(lsn) => lsn,
    };
    Ok(
        StoredNodeCheckpoint {
            checkpoint: NodeCheckpoint {
                key: CheckpointKey {
                    pipeline_id: PipelineId::from_uuid(row.pipeline_id),
                    topology_generation: generation,
                    node_id: row.node_id,
                },
                system_identifier,
                timeline: row.timeline as u32,
                slot_name: row.slot_name,
                applied_lsn,
            },
            fencing_token: row.fencing_token,
        },
    )
}

/// A checkpoint write must affect exactly one row.
pub fn ensure_one_row(written: u64) -> (r: Result<(), CheckpointError>)
    ensures
        match r {
            Ok(()) => written == 1,
            Err(e) => written != 1 && e == CheckpointError::UnexpectedWriteCount(written),
        },
{
    if written == 1 {
        Ok(())
    } else {
        Err(CheckpointError::UnexpectedWriteCount(written))
    }
}

// ---------------------------------------------------------------------------------------------
// Laws
// ---------------------------------------------------------------------------------------------

/// An accepted checkpoint never lies behind the stored one and never changes the source identity.
pub proof fn law_advance_is_monotonic(stored: StoredNodeCheckpoint, proposed: NodeCheckpoint)
    requires
        advance_model(Some(stored), proposed) is Ok,
    ensures
        stored.checkpoint.applied_lsn.value <= proposed.applied_lsn.value,
        same_source(stored.checkpoint, proposed),
{
}

/// Proposing an accepted checkpoint again changes nothing, and the stored checkpoint covers it.
pub proof fn law_accepted_checkpoint_is_idempotent(
    current: Option<StoredNodeCheckpoint>,
    proposed: NodeCheckpoint,
    fencing_token: i64,
)
    requires
        advance_model(current, proposed) is Ok,
    ensures
        ({
            let stored = StoredNodeCheckpoint { checkpoint: proposed, fencing_token };
            &&& advance_model(Some(stored), proposed) == Ok::<AdvanceOutcome, CheckpointError>(
                AdvanceOutcome::Unchanged,
            )
            &&& reached_model(Some(stored), proposed) == Ok::<bool, CheckpointError>(true)
        }),
{
}

/// What a checkpoint insert writes, a later read gives back: a row with the inserted values holds
/// the checkpoint that was proposed.
pub proof fn law_written_checkpoint_reads_back(
    row: CheckpointRow,
    fence: PipelineFence,
    proposed: NodeCheckpoint,
    write: CheckpointWrite,
)
    requires
        proposal_fault(fence, proposed) is None,
        write_stores(write, fence, proposed, AdvanceOutcome::Inserted),
        row.pipeline_id == proposed.key.pipeline_id.uuid,
        write matches CheckpointWrite::Insert {
            generation,
            node_id,
            system_identifier,
            timeline,
            slot_name,
            applied_lsn,
            fencing_token,
        } && row.topology_generation == generation && row.node_id == node_id
            && row.system_identifier@ == system_identifier@ && row.timeline == timeline
            && row.slot_name@ == slot_name@ && row.applied_lsn@ == applied_lsn@
            && row.fencing_token == fencing_token,
    ensures
        checkpoint_row_fault(row) is None,
        forall|stored: StoredNodeCheckpoint| #[trigger]
            row_holds(row, stored) ==> {
                &&& same_source(stored.checkpoint, proposed)
                &&& stored.checkpoint.applied_lsn == proposed.applied_lsn
                &&& stored.fencing_token == fence.fencing_token
            },
{
    law_decimal_reads_back(proposed.system_identifier as nat, u64::MAX as nat);
    law_lsn_reads_back(proposed.applied_lsn);
}

/// A fence that differs in generation or token from the stored one is never accepted, so at most
/// one fencing token can change a pipeline's target at a time.
pub proof fn law_one_fence_holds(a: PipelineFence, b: PipelineFence, stored: Option<FenceRow>)
    requires
        fence_holds(a, stored),
        fence_holds(b, stored),
    ensures
        a.topology_generation == b.topology_generation,
        a.fencing_token == b.fencing_token,
{
}

/// A checkpoint can be stored exactly where its generation fits, its timeline is given and its slot
/// has a name without NUL.
pub proof fn law_which_checkpoints_can_be_stored(checkpoint: NodeCheckpoint)
    ensures
        checkpoint_fault(checkpoint) is None <==> {
            &&& checkpoint.key.topology_generation <= i64::MAX
            &&& checkpoint.timeline > 0
            &&& checkpoint.slot_name@.len() > 0
            &&& !checkpoint.slot_name@.contains('\0')
        },
{
}

/// A fence can be used exactly where its generation fits and its token is positive.
pub proof fn law_which_fences_can_be_used(fence: PipelineFence)
    ensures
        fence_fault(fence) is None <==> fence.topology_generation <= i64::MAX
            && fence.fencing_token > 0,
{
}

/// A checkpoint that can be stored is inserted where none is stored; over one of the same source it
/// advances from the stored position, stays where it is the same, and never goes back; another
/// source is refused.
pub proof fn law_how_checkpoints_advance(stored: StoredNodeCheckpoint, proposed: NodeCheckpoint)
    requires
        checkpoint_fault(proposed) is None,
    ensures
        advance_model(None, proposed) == Ok::<AdvanceOutcome, CheckpointError>(
            AdvanceOutcome::Inserted,
        ),
        ({
            let same = {
                &&& stored.checkpoint.key.pipeline_id == proposed.key.pipeline_id
                &&& stored.checkpoint.key.topology_generation == proposed.key.topology_generation
                &&& stored.checkpoint.key.node_id == proposed.key.node_id
                &&& stored.checkpoint.system_identifier == proposed.system_identifier
                &&& stored.checkpoint.timeline == proposed.timeline
                &&& stored.checkpoint.slot_name@ == proposed.slot_name@
            };
            let held = stored.checkpoint.applied_lsn.value;
            let asked = proposed.applied_lsn.value;
            let outcome = advance_model(Some(stored), proposed);
            &&& !same <==> outcome == Err::<AdvanceOutcome, CheckpointError>(
                CheckpointError::SourceIdentityChanged,
            )
            &&& same && held < asked <==> outcome == Ok::<AdvanceOutcome, CheckpointError>(
                AdvanceOutcome::Advanced { previous_lsn: stored.checkpoint.applied_lsn },
            )
            &&& same && held == asked <==> outcome == Ok::<AdvanceOutcome, CheckpointError>(
                AdvanceOutcome::Unchanged,
            )
            &&& same && held > asked <==> outcome == Err::<AdvanceOutcome, CheckpointError>(
                CheckpointError::LsnRegression {
                    current: stored.checkpoint.applied_lsn,
                    proposed: proposed.applied_lsn,
                },
            )
        }),
{
}

/// A position is reached exactly where a checkpoint of the same source stands at it or beyond it;
/// without a checkpoint nothing is reached.
pub proof fn law_when_a_position_is_reached(
    stored: StoredNodeCheckpoint,
    required: NodeCheckpoint,
)
    requires
        checkpoint_fault(required) is None,
    ensures
        reached_model(None, required) == Ok::<bool, CheckpointError>(false),
        same_source(stored.checkpoint, required) ==> reached_model(Some(stored), required) == Ok::<
            bool,
            CheckpointError,
        >(required.applied_lsn.value <= stored.checkpoint.applied_lsn.value),
        !same_source(stored.checkpoint, required) ==> reached_model(Some(stored), required)
            is Err,
{
}

/// A checkpoint is proposed only under a fence of its own pipeline and topology.
pub proof fn law_which_checkpoints_are_proposed(fence: PipelineFence, proposed: NodeCheckpoint)
    ensures
        proposal_fault(fence, proposed) is None <==> {
            &&& checkpoint_fault(proposed) is None
            &&& proposed.key.pipeline_id == fence.pipeline_id
            &&& proposed.key.topology_generation == fence.topology_generation
        },
{
}

/// The fence holds exactly where the stored one has its generation and its token.
pub proof fn law_when_a_fence_holds(expected: PipelineFence, row: FenceRow)
    ensures
        fence_holds(expected, Some(row)) <==> row.topology_generation
            == expected.topology_generation && row.fencing_token == expected.fencing_token,
        !fence_holds(expected, None),
{
}

/// A stored checkpoint has a meaning exactly where each of its columns does.
pub proof fn law_which_checkpoint_rows_have_a_meaning(row: CheckpointRow)
    ensures
        checkpoint_row_fault(row) is None <==> {
            &&& row.topology_generation >= 0
            &&& unsigned_number(row.system_identifier@, u64::MAX as nat) is Some
            &&& 0 <= row.timeline <= u32::MAX
            &&& parsed_lsn(row.applied_lsn@) is Some
        },
{
}

/// How a locked checkpoint advances: the first one is inserted, a later position is an advance over
/// the stored one, the same position changes nothing, and an earlier one is refused.
pub proof fn law_planned_advances(
    fence: PipelineFence,
    stored: StoredNodeCheckpoint,
    proposed: NodeCheckpoint,
    first: Result<(AdvanceOutcome, CheckpointWrite), CheckpointError>,
    next: Result<(AdvanceOutcome, CheckpointWrite), CheckpointError>,
)
    requires
        checkpoint_fault(proposed) is None,
        stored.checkpoint.key == proposed.key,
        stored.checkpoint.system_identifier == proposed.system_identifier,
        stored.checkpoint.timeline == proposed.timeline,
        stored.checkpoint.slot_name@ == proposed.slot_name@,
        call_ensures(plan_advance, (fence, None::<&StoredNodeCheckpoint>, &proposed), first),
        call_ensures(plan_advance, (fence, Some(&stored), &proposed), next),
    ensures
        first matches Ok((outcome, write)) && outcome is Inserted && (
        write matches CheckpointWrite::Insert { applied_lsn, fencing_token, .. } && applied_lsn@
            == proposed.applied_lsn.text() && fencing_token == fence.fencing_token),
        stored.checkpoint.applied_lsn.value > proposed.applied_lsn.value <==> next is Err,
        stored.checkpoint.applied_lsn.value < proposed.applied_lsn.value ==> (
        next matches Ok((outcome, write)) && outcome == (AdvanceOutcome::Advanced {
            previous_lsn: stored.checkpoint.applied_lsn,
        }) && (write matches CheckpointWrite::Update { applied_lsn, fencing_token, .. }
            && applied_lsn@ == proposed.applied_lsn.text() && fencing_token
            == fence.fencing_token)),
        stored.checkpoint.applied_lsn.value == proposed.applied_lsn.value ==> (
        next matches Ok((outcome, write)) && outcome is Unchanged),
{
    law_how_checkpoints_advance(stored, proposed);
}

/// A locked fence is the expected one exactly where both its generation and its token are.
pub proof fn law_verified_fences(
    expected: PipelineFence,
    row: FenceRow,
    r: Result<(), CheckpointError>,
    missing: Result<(), CheckpointError>,
)
    requires
        call_ensures(verify_locked_fence, (expected, Some(row)), r),
        call_ensures(verify_locked_fence, (expected, None::<FenceRow>), missing),
    ensures
        missing == Err::<(), CheckpointError>(CheckpointError::MissingFence),
        r is Ok <==> row.topology_generation as int == expected.topology_generation as int
            && row.fencing_token == expected.fencing_token,
        r is Err && row.topology_generation >= 0 ==> r == Err::<(), CheckpointError>(
            CheckpointError::StaleFence {
                expected_generation: expected.topology_generation,
                expected_token: expected.fencing_token,
                actual_generation: row.topology_generation as u64,
                actual_token: row.fencing_token,
            },
        ),
{
}

/// What is told of a fence or a checkpoint that cannot be used is so.
pub proof fn law_told_faults_of_checkpoints(fence: PipelineFence, checkpoint: NodeCheckpoint)
    ensures
        fence_fault(fence) matches Some(e) ==> {
            ||| e == CheckpointError::GenerationOutOfRange(fence.topology_generation)
                && fence.topology_generation > i64::MAX
            ||| e is InvalidFencingToken && fence.fencing_token <= 0
        },
        checkpoint_fault(checkpoint) matches Some(e) ==> {
            ||| e == CheckpointError::GenerationOutOfRange(checkpoint.key.topology_generation)
                && checkpoint.key.topology_generation > i64::MAX
            ||| e is InvalidTimeline && checkpoint.timeline == 0
            ||| e is InvalidSlotName && (checkpoint.slot_name@.len() == 0
                || checkpoint.slot_name@.contains('\0'))
        },
        proposal_fault(fence, checkpoint) is Some && checkpoint_fault(checkpoint) is None ==> {
            &&& proposal_fault(fence, checkpoint) == Some(CheckpointError::FenceKeyMismatch)
            &&& checkpoint.key.pipeline_id != fence.pipeline_id
                || checkpoint.key.topology_generation != fence.topology_generation
        },
{
}

} // verus!
