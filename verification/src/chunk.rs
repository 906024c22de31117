//! Durable target-side progress for bounded source-transaction chunks.
//!
//! Sequence ranges are half-open: a chunk covering records 10 through 19 has
//! `start_seq = 10` and `end_seq = 20`.  The progress row and user-table DML must be committed in
//! the same caller-owned transaction.  The receipt of a chunk is recorded before its DML runs;
//! any later statement failure then rolls both changes back, while a successful commit cannot
//! publish the DML without its durable chunk identity.

use crate::checkpoint::{
    checkpoint_reached, reached_model, stored_of, CheckpointError, CheckpointKey, NodeCheckpoint,
    PersistedFault, PipelineFence, StoredNodeCheckpoint,
};
use crate::digest::{digest_from, same_digest};
use crate::ident::{PipelineId, Uuid};
use crate::lsn::{parsed_lsn, PgLsn};
use crate::text::{
    contains_char, decimal, parse_u64, render_decimal, render_signed, same_text, signed_decimal,
    unsigned_number,
};
use vstd::prelude::*;

verus! {

pub const LOCK_TRANSACTION_PROGRESS_SQL: &'static str = r#"
SELECT pipeline_id, topology_generation, node_id, end_lsn::text AS end_lsn,
       system_identifier::text AS system_identifier, timeline, slot_name, xid,
       manifest_version, record_count, manifest_digest, next_seq, fencing_token
FROM pg2cb_meta.transaction_chunk_progress
WHERE pipeline_id = $1 AND topology_generation = $2 AND node_id = $3
  AND end_lsn = $4::text::pg_lsn
FOR UPDATE
"#;

pub const INSERT_TRANSACTION_PROGRESS_SQL: &'static str = r#"
INSERT INTO pg2cb_meta.transaction_chunk_progress (
    pipeline_id, topology_generation, node_id, end_lsn, system_identifier,
    timeline, slot_name, xid, manifest_version, record_count, manifest_digest,
    next_seq, fencing_token
)
VALUES ($1, $2, $3, $4::text::pg_lsn, $5::text::numeric,
        $6, $7, $8, $9, $10, $11, 0, $12)
"#;

pub const LOCK_COMMITTED_CHUNK_SQL: &'static str = r#"
SELECT end_seq, chunk_digest
FROM pg2cb_meta.transaction_committed_chunks
WHERE pipeline_id = $1 AND topology_generation = $2 AND node_id = $3
  AND end_lsn = $4::text::pg_lsn AND start_seq = $5
FOR UPDATE
"#;

pub const ADVANCE_TRANSACTION_PROGRESS_SQL: &'static str = r#"
UPDATE pg2cb_meta.transaction_chunk_progress
SET next_seq = $6, fencing_token = $7, updated_at = clock_timestamp()
WHERE pipeline_id = $1 AND topology_generation = $2 AND node_id = $3
  AND end_lsn = $4::text::pg_lsn AND next_seq = $5
  AND manifest_digest = $8
"#;

pub const INSERT_COMMITTED_CHUNK_SQL: &'static str = r#"
INSERT INTO pg2cb_meta.transaction_committed_chunks (
    pipeline_id, topology_generation, node_id, end_lsn,
    start_seq, end_seq, chunk_digest, fencing_token
)
VALUES ($1, $2, $3, $4::text::pg_lsn, $5, $6, $7, $8)
"#;

pub const DELETE_TRANSACTION_COMMITTED_CHUNKS_SQL: &'static str = r#"
DELETE FROM pg2cb_meta.transaction_committed_chunks
WHERE pipeline_id = $1 AND topology_generation = $2 AND node_id = $3
  AND end_lsn = $4::text::pg_lsn
"#;

pub const DELETE_TRANSACTION_PROGRESS_SQL: &'static str = r#"
DELETE FROM pg2cb_meta.transaction_chunk_progress
WHERE pipeline_id = $1 AND topology_generation = $2 AND node_id = $3
  AND end_lsn = $4::text::pg_lsn
  AND system_identifier = $5::text::numeric AND timeline = $6 AND slot_name = $7
  AND xid = $8 AND manifest_version = $9 AND record_count = $10
  AND manifest_digest = $11 AND next_seq = $10 AND fencing_token = $12
"#;

pub const UPDATE_PROGRESS_FENCE_SQL: &'static str = r#"
UPDATE pg2cb_meta.transaction_chunk_progress
SET fencing_token = $5, updated_at = clock_timestamp()
WHERE pipeline_id = $1 AND topology_generation = $2 AND node_id = $3
  AND end_lsn = $4::text::pg_lsn
"#;

/// Durable key for one committed source transaction.
#[derive(Debug, Clone, Copy, PartialEq, Eq, Hash, Structural)]
pub struct TransactionChunkKey {
    pub pipeline_id: PipelineId,
    pub topology_generation: u64,
    pub node_id: i32,
    pub end_lsn: PgLsn,
}

/// Immutable identity of the spool manifest being applied.
#[derive(Debug, PartialEq, Eq)]
pub struct TransactionChunkManifest {
    pub key: TransactionChunkKey,
    pub system_identifier: u64,
    pub timeline: u32,
    pub slot_name: String,
    pub xid: u32,
    pub manifest_version: u16,
    pub record_count: u64,
    pub manifest_digest: [u8; 32],
}

impl Clone for TransactionChunkManifest {
    fn clone(&self) -> (r: Self)
        ensures
            r == *self,
    {
        TransactionChunkManifest {
            key: self.key,
            system_identifier: self.system_identifier,
            timeline: self.timeline,
            slot_name: self.slot_name.clone(),
            xid: self.xid,
            manifest_version: self.manifest_version,
            record_count: self.record_count,
            manifest_digest: self.manifest_digest,
        }
    }
}

impl TransactionChunkManifest {
    /// The only checkpoint that this manifest may publish.
    pub open spec fn checkpoint(self) -> NodeCheckpoint {
        NodeCheckpoint {
            key: CheckpointKey {
                pipeline_id: self.key.pipeline_id,
                topology_generation: self.key.topology_generation,
                node_id: self.key.node_id,
            },
            system_identifier: self.system_identifier,
            timeline: self.timeline,
            slot_name: self.slot_name,
            applied_lsn: self.key.end_lsn,
        }
    }

    /// Derives the only checkpoint that this immutable manifest may publish.
    ///
    /// Keeping this conversion beside the manifest prevents a caller from pairing a chunk
    /// receipt with a checkpoint for a different source transaction. Validation still happens at
    /// the completion boundary before any row is published.
    #[must_use]
    pub fn node_checkpoint(&self) -> (r: NodeCheckpoint)
        ensures
            r == self.checkpoint(),
    {
        NodeCheckpoint {
            key: CheckpointKey {
                pipeline_id: self.key.pipeline_id,
                topology_generation: self.key.topology_generation,
                node_id: self.key.node_id,
            },
            system_identifier: self.system_identifier,
            timeline: self.timeline,
            slot_name: self.slot_name.clone(),
            applied_lsn: self.key.end_lsn,
        }
    }
}

/// Identity of one half-open record range in an immutable transaction manifest.
#[derive(Debug, Clone, Copy, PartialEq, Eq)]
pub struct DataChunkIdentity {
    pub start_seq: u64,
    pub end_seq: u64,
    pub digest: [u8; 32],
}

#[derive(Debug, Clone, Copy, PartialEq, Eq, Structural)]
pub enum ProgressRegistration {
    Registered,
    Existing { next_seq: u64 },
    /// The target-authoritative checkpoint already covers this manifest.
    AlreadyCheckpointed { applied_lsn: PgLsn },
}

/// Result of locking the ledger before user-table DML starts.
#[derive(Debug)]
pub enum PrepareDataChunkOutcome {
    Apply(PreparedDataChunk),
    AlreadyCommitted { next_seq: u64 },
    ResumeAt { next_seq: u64 },
    /// The ledger was retired with a checkpoint at or beyond this manifest.
    AlreadyCheckpointed { applied_lsn: PgLsn },
}

/// Capability proving that a chunk is exactly the next range in a locked progress row.
///
/// It has no public constructor.
#[derive(Debug)]
pub struct PreparedDataChunk {
    fence: PipelineFence,
    manifest_digest: [u8; 32],
    key: TransactionChunkKey,
    chunk: DataChunkIdentity,
}

impl PreparedDataChunk {
    pub closed spec fn prepared_fence(self) -> PipelineFence {
        self.fence
    }

    pub closed spec fn prepared_key(self) -> TransactionChunkKey {
        self.key
    }

    pub closed spec fn prepared_digest(self) -> Seq<u8> {
        self.manifest_digest@
    }

    pub closed spec fn prepared_chunk(self) -> DataChunkIdentity {
        self.chunk
    }

    #[must_use]
    pub fn identity(&self) -> (r: DataChunkIdentity)
        ensures
            r == self.prepared_chunk(),
    {
        self.chunk
    }

    #[must_use]
    pub fn next_seq(&self) -> (r: u64)
        ensures
            r == self.prepared_chunk().end_seq,
    {
        self.chunk.end_seq
    }

    /// The fence under which the chunk was prepared.
    pub fn fence(&self) -> (r: PipelineFence)
        ensures
            r == self.prepared_fence(),
    {
        self.fence
    }
}

/// Capability proving that the locked manifest has no unapplied record.
///
/// It has no public constructor and is needed to publish the checkpoint of the transaction, which
/// also verifies that the checkpoint exactly identifies this source transaction.
#[derive(Debug)]
pub struct PreparedTransactionCompletion {
    fence: PipelineFence,
    manifest: TransactionChunkManifest,
}

impl PreparedTransactionCompletion {
    pub closed spec fn completed_fence(self) -> PipelineFence {
        self.fence
    }

    pub closed spec fn completed_manifest(self) -> TransactionChunkManifest {
        self.manifest
    }

    #[must_use]
    pub fn end_lsn(&self) -> (r: PgLsn)
        ensures
            r == self.completed_manifest().key.end_lsn,
    {
        self.manifest.key.end_lsn
    }

    /// The fence under which the completion was prepared.
    pub fn fence(&self) -> (r: PipelineFence)
        ensures
            r == self.completed_fence(),
    {
        self.fence
    }

    /// The manifest that is complete.
    pub fn manifest(&self) -> (r: &TransactionChunkManifest)
        ensures
            *r == self.completed_manifest(),
    {
        &self.manifest
    }
}

#[allow(inconsistent_fields)]
#[derive(Debug, PartialEq, Eq)]
pub enum ChunkLedgerError {
    Checkpoint(CheckpointError),
    /// The transaction manifest key does not match the active pipeline fence.
    FenceKeyMismatch,
    GenerationOutOfRange(u64),
    /// A transaction end LSN must be non-zero.
    InvalidEndLsn,
    InvalidTimeline,
    InvalidSlotName,
    InvalidXid,
    InvalidManifestVersion,
    SequenceOutOfRange { field: &'static str, value: u64 },
    /// A data chunk range must be non-empty.
    EmptyChunk,
    ChunkPastManifest { end_seq: u64, record_count: u64 },
    ManifestMismatch { field: &'static str },
    MissingProgress,
    SequenceGap { next_seq: u64, start_seq: u64 },
    ChunkIdentityMismatch { start_seq: u64 },
    /// Persisted chunk progress changed after it was prepared.
    ProgressChanged,
    IncompleteTransaction { next_seq: u64, record_count: u64 },
    CheckpointIdentityMismatch,
    CheckpointLsnMismatch { checkpoint_lsn: PgLsn, end_lsn: PgLsn },
    InvalidPersistedValue { field: &'static str, value: String },
    UnexpectedWriteCount(u64),
    UnexpectedProgressRetirementCount(u64),
    UnexpectedCommittedChunkRetirementCount { record_count: u64, deleted_chunks: u64 },
}

/// Progress of one manifest as the target holds it.
#[derive(Debug, Clone, PartialEq, Eq)]
pub struct StoredProgress {
    pub manifest: TransactionChunkManifest,
    pub next_seq: u64,
    pub fencing_token: i64,
}

/// The receipt of one committed chunk.
#[derive(Debug, Clone, Copy, PartialEq, Eq)]
pub struct StoredCommittedChunk {
    pub end_seq: u64,
    pub digest: [u8; 32],
}

#[derive(Debug, Clone, Copy, PartialEq, Eq, Structural)]
pub enum ChunkClassification {
    Apply,
    AlreadyCommitted,
    ResumeAt,
}

// ---------------------------------------------------------------------------------------------
// Validation
// ---------------------------------------------------------------------------------------------

pub fn database_generation(generation: u64) -> (r: Result<i64, ChunkLedgerError>)
    ensures
        match r {
            Ok(value) => generation <= i64::MAX && value == generation,
            Err(e) => generation > i64::MAX && e == ChunkLedgerError::GenerationOutOfRange(
                generation,
            ),
        },
{
    if generation <= i64::MAX as u64 {
        Ok(generation as i64)
    } else {
        Err(ChunkLedgerError::GenerationOutOfRange(generation))
    }
}

pub fn database_sequence(field: &'static str, value: u64) -> (r: Result<i64, ChunkLedgerError>)
    ensures
        match r {
            Ok(stored) => value <= i64::MAX && stored == value,
            Err(e) => value > i64::MAX && e == (ChunkLedgerError::SequenceOutOfRange {
                field,
                value,
            }),
        },
{
    if value <= i64::MAX as u64 {
        Ok(value as i64)
    } else {
        Err(ChunkLedgerError::SequenceOutOfRange { field, value })
    }
}

/// Why a manifest cannot be registered under a fence, if it cannot.
pub open spec fn manifest_fault(fence: PipelineFence, manifest: TransactionChunkManifest) -> Option<
    ChunkLedgerError,
> {
    if manifest.key.topology_generation > i64::MAX {
        Some(ChunkLedgerError::GenerationOutOfRange(manifest.key.topology_generation))
    } else if manifest.record_count > i64::MAX {
        Some(
            ChunkLedgerError::SequenceOutOfRange {
                field: "record_count",
                value: manifest.record_count,
            },
        )
    } else if manifest.key.pipeline_id != fence.pipeline_id || manifest.key.topology_generation
        != fence.topology_generation {
        Some(ChunkLedgerError::FenceKeyMismatch)
    } else if manifest.key.end_lsn.value == 0 {
        Some(ChunkLedgerError::InvalidEndLsn)
    } else if manifest.timeline == 0 {
        Some(ChunkLedgerError::InvalidTimeline)
    } else if manifest.slot_name@.len() == 0 || manifest.slot_name@.contains('\0') {
        Some(ChunkLedgerError::InvalidSlotName)
    } else if manifest.xid == 0 {
        Some(ChunkLedgerError::InvalidXid)
    } else if manifest.manifest_version == 0 {
        Some(ChunkLedgerError::InvalidManifestVersion)
    } else {
        None
    }
}

pub fn validate_manifest(fence: PipelineFence, manifest: &TransactionChunkManifest) -> (r: Result<
    (),
    ChunkLedgerError,
>)
    ensures
        match r {
            Ok(()) => manifest_fault(fence, *manifest) is None,
            Err(e) => manifest_fault(fence, *manifest) == Some(e),
        },
{
    match database_generation(manifest.key.topology_generation) {
        Err(e) => return Err(e),
        Ok(_) => {},
    }
    match database_sequence("record_count", manifest.record_count) {
        Err(e) => return Err(e),
        Ok(_) => {},
    }
    if manifest.key.pipeline_id != fence.pipeline_id || manifest.key.topology_generation
        != fence.topology_generation {
        return Err(ChunkLedgerError::FenceKeyMismatch);
    }
    if manifest.key.end_lsn.as_u64() == 0 {
        return Err(ChunkLedgerError::InvalidEndLsn);
    }
    if manifest.timeline == 0 {
        return Err(ChunkLedgerError::InvalidTimeline);
    }
    if manifest.slot_name.as_str().is_empty() || contains_char(manifest.slot_name.as_str(), '\0') {
        return Err(ChunkLedgerError::InvalidSlotName);
    }
    if manifest.xid == 0 {
        return Err(ChunkLedgerError::InvalidXid);
    }
    if manifest.manifest_version == 0 {
        return Err(ChunkLedgerError::InvalidManifestVersion);
    }
    Ok(())
}

/// Why a chunk does not fit a manifest with the given number of records, if it does not.
pub open spec fn chunk_fault(record_count: u64, chunk: DataChunkIdentity) -> Option<
    ChunkLedgerError,
> {
    if chunk.start_seq > i64::MAX {
        Some(
            ChunkLedgerError::SequenceOutOfRange { field: "start_seq", value: chunk.start_seq },
        )
    } else if chunk.end_seq > i64::MAX {
        Some(ChunkLedgerError::SequenceOutOfRange { field: "end_seq", value: chunk.end_seq })
    } else if chunk.start_seq >= chunk.end_seq {
        Some(ChunkLedgerError::EmptyChunk)
    } else if chunk.end_seq > record_count {
        Some(ChunkLedgerError::ChunkPastManifest { end_seq: chunk.end_seq, record_count })
    } else {
        None
    }
}

pub fn validate_chunk(record_count: u64, chunk: DataChunkIdentity) -> (r: Result<
    (),
    ChunkLedgerError,
>)
    ensures
        match r {
            Ok(()) => chunk_fault(record_count, chunk) is None,
            Err(e) => chunk_fault(record_count, chunk) == Some(e),
        },
{
    match database_sequence("start_seq", chunk.start_seq) {
        Err(e) => return Err(e),
        Ok(_) => {},
    }
    match database_sequence("end_seq", chunk.end_seq) {
        Err(e) => return Err(e),
        Ok(_) => {},
    }
    if chunk.start_seq >= chunk.end_seq {
        return Err(ChunkLedgerError::EmptyChunk);
    }
    if chunk.end_seq > record_count {
        return Err(ChunkLedgerError::ChunkPastManifest { end_seq: chunk.end_seq, record_count });
    }
    Ok(())
}

/// The first field in which two manifests differ.
pub open spec fn manifest_difference(
    current: TransactionChunkManifest,
    proposed: TransactionChunkManifest,
) -> Option<&'static str> {
    if current.key != proposed.key {
        Some("key")
    } else if current.system_identifier != proposed.system_identifier {
        Some("system_identifier")
    } else if current.timeline != proposed.timeline {
        Some("timeline")
    } else if current.slot_name@ != proposed.slot_name@ {
        Some("slot_name")
    } else if current.xid != proposed.xid {
        Some("xid")
    } else if current.manifest_version != proposed.manifest_version {
        Some("manifest_version")
    } else if current.record_count != proposed.record_count {
        Some("record_count")
    } else if current.manifest_digest@ != proposed.manifest_digest@ {
        Some("manifest_digest")
    } else {
        None
    }
}

/// Re-registration is allowed only for the exact same manifest.
pub fn ensure_same_manifest(
    current: &TransactionChunkManifest,
    proposed: &TransactionChunkManifest,
) -> (r: Result<(), ChunkLedgerError>)
    ensures
        match r {
            Ok(()) => manifest_difference(*current, *proposed) is None,
            Err(e) => manifest_difference(*current, *proposed) is Some && e == (
            ChunkLedgerError::ManifestMismatch {
                field: manifest_difference(*current, *proposed)->0,
            }),
        },
{
    let mismatch: Option<&'static str> = if current.key != proposed.key {
        Some("key")
    } else if current.system_identifier != proposed.system_identifier {
        Some("system_identifier")
    } else if current.timeline != proposed.timeline {
        Some("timeline")
    } else if !same_text(current.slot_name.as_str(), proposed.slot_name.as_str()) {
        Some("slot_name")
    } else if current.xid != proposed.xid {
        Some("xid")
    } else if current.manifest_version != proposed.manifest_version {
        Some("manifest_version")
    } else if current.record_count != proposed.record_count {
        Some("record_count")
    } else if !same_digest(&current.manifest_digest, &proposed.manifest_digest) {
        Some("manifest_digest")
    } else {
        None
    };
    match mismatch {
        Some(field) => Err(ChunkLedgerError::ManifestMismatch { field }),
        None => Ok(()),
    }
}

// ---------------------------------------------------------------------------------------------
// Classification
// ---------------------------------------------------------------------------------------------

/// How a chunk relates to the durable prefix of its transaction.
pub enum ChunkVerdict {
    /// It is exactly the next range.
    Apply,
    /// It was committed before, with the same end and digest.
    AlreadyCommitted,
    /// It starts inside the committed prefix but was cut differently.
    ResumeAt,
    /// It would leave a gap.
    Gap,
    /// Its receipt reaches beyond the committed prefix.
    ReceiptPastPrefix,
    /// It was committed before with another digest.
    IdentityMismatch,
}

pub open spec fn verdict(
    next_seq: u64,
    committed: Option<StoredCommittedChunk>,
    proposed: DataChunkIdentity,
) -> ChunkVerdict {
    if proposed.start_seq > next_seq {
        ChunkVerdict::Gap
    } else if proposed.start_seq == next_seq {
        ChunkVerdict::Apply
    } else {
        match committed {
            None => ChunkVerdict::ResumeAt,
            Some(receipt) => if receipt.end_seq > next_seq {
                ChunkVerdict::ReceiptPastPrefix
            } else if receipt.end_seq != proposed.end_seq {
                ChunkVerdict::ResumeAt
            } else if receipt.digest@ == proposed.digest@ {
                ChunkVerdict::AlreadyCommitted
            } else {
                ChunkVerdict::IdentityMismatch
            },
        }
    }
}

/// The receipt behind an optional reference.
pub open spec fn receipt_of(committed: Option<&StoredCommittedChunk>) -> Option<
    StoredCommittedChunk,
> {
    match committed {
        Some(receipt) => Some(*receipt),
        None => None,
    }
}

/// The error tells the verdict.
pub open spec fn refuses_chunk(
    e: ChunkLedgerError,
    next_seq: u64,
    committed: Option<StoredCommittedChunk>,
    proposed: DataChunkIdentity,
) -> bool {
    match verdict(next_seq, committed, proposed) {
        ChunkVerdict::Gap => e == (ChunkLedgerError::SequenceGap {
            next_seq,
            start_seq: proposed.start_seq,
        }),
        ChunkVerdict::ReceiptPastPrefix => ledger_reports(
            e,
            Some(("committed_chunk.end_seq", decimal(committed->0.end_seq as nat))),
        ),
        ChunkVerdict::IdentityMismatch => e == (ChunkLedgerError::ChunkIdentityMismatch {
            start_seq: proposed.start_seq,
        }),
        _ => false,
    }
}

/// The error names the column and shows the stored value.
pub open spec fn ledger_reports(e: ChunkLedgerError, fault: Option<PersistedFault>) -> bool {
    e matches ChunkLedgerError::InvalidPersistedValue { field, value } && fault == Some(
        (field, value@),
    )
}

/// Decides how a chunk relates to the durable prefix.
///
/// Chunk sizing is an execution detail, not part of the immutable transaction manifest. A
/// restarted worker may use different limits; it resumes at the durable prefix and rebuilds the
/// next chunk from there. A changed digest over the same range is corruption and fails closed.
pub fn classify_chunk(
    next_seq: u64,
    committed: Option<&StoredCommittedChunk>,
    proposed: DataChunkIdentity,
) -> (r: Result<ChunkClassification, ChunkLedgerError>)
    ensures
        match r {
            Ok(ChunkClassification::Apply) => verdict(next_seq, receipt_of(committed), proposed)
                is Apply,
            Ok(ChunkClassification::AlreadyCommitted) => verdict(
                next_seq,
                receipt_of(committed),
                proposed,
            ) is AlreadyCommitted,
            Ok(ChunkClassification::ResumeAt) => verdict(next_seq, receipt_of(committed), proposed)
                is ResumeAt,
            Err(e) => refuses_chunk(e, next_seq, receipt_of(committed), proposed),
        },
{
    if proposed.start_seq > next_seq {
        return Err(ChunkLedgerError::SequenceGap { next_seq, start_seq: proposed.start_seq });
    }
    if proposed.start_seq == next_seq {
        return Ok(ChunkClassification::Apply);
    }
    match committed {
        None => Ok(ChunkClassification::ResumeAt),
        Some(receipt) => {
            if receipt.end_seq > next_seq {
                return Err(
                    ChunkLedgerError::InvalidPersistedValue {
                        field: "committed_chunk.end_seq",
                        value: render_decimal(receipt.end_seq),
                    },
                );
            }
            if receipt.end_seq != proposed.end_seq {
                return Ok(ChunkClassification::ResumeAt);
            }
            if same_digest(&receipt.digest, &proposed.digest) {
                Ok(ChunkClassification::AlreadyCommitted)
            } else {
                Err(ChunkLedgerError::ChunkIdentityMismatch { start_seq: proposed.start_seq })
            }
        },
    }
}

/// Completion needs every record of the manifest.
pub fn ensure_complete(progress: &StoredProgress) -> (r: Result<(), ChunkLedgerError>)
    ensures
        match r {
            Ok(()) => progress.next_seq == progress.manifest.record_count,
            Err(e) => progress.next_seq != progress.manifest.record_count && e == (
            ChunkLedgerError::IncompleteTransaction {
                next_seq: progress.next_seq,
                record_count: progress.manifest.record_count,
            }),
        },
{
    if progress.next_seq == progress.manifest.record_count {
        Ok(())
    } else {
        Err(
            ChunkLedgerError::IncompleteTransaction {
                next_seq: progress.next_seq,
                record_count: progress.manifest.record_count,
            },
        )
    }
}

/// The checkpoint speaks of the manifest's source transaction.
pub open spec fn checkpoint_identifies(
    manifest: TransactionChunkManifest,
    checkpoint: NodeCheckpoint,
) -> bool {
    &&& checkpoint.key.pipeline_id == manifest.key.pipeline_id
    &&& checkpoint.key.topology_generation == manifest.key.topology_generation
    &&& checkpoint.key.node_id == manifest.key.node_id
    &&& checkpoint.system_identifier == manifest.system_identifier
    &&& checkpoint.timeline == manifest.timeline
    &&& checkpoint.slot_name@ == manifest.slot_name@
}

/// Why a checkpoint cannot be published for a manifest, if it cannot.
pub open spec fn publication_fault(
    manifest: TransactionChunkManifest,
    checkpoint: NodeCheckpoint,
) -> Option<ChunkLedgerError> {
    if !checkpoint_identifies(manifest, checkpoint) {
        Some(ChunkLedgerError::CheckpointIdentityMismatch)
    } else if checkpoint.applied_lsn != manifest.key.end_lsn {
        Some(
            ChunkLedgerError::CheckpointLsnMismatch {
                checkpoint_lsn: checkpoint.applied_lsn,
                end_lsn: manifest.key.end_lsn,
            },
        )
    } else {
        None
    }
}

pub fn ensure_checkpoint_matches(
    manifest: &TransactionChunkManifest,
    checkpoint: &NodeCheckpoint,
) -> (r: Result<(), ChunkLedgerError>)
    ensures
        match r {
            Ok(()) => publication_fault(*manifest, *checkpoint) is None,
            Err(e) => publication_fault(*manifest, *checkpoint) == Some(e),
        },
{
    if checkpoint.key.pipeline_id != manifest.key.pipeline_id || checkpoint.key.topology_generation
        != manifest.key.topology_generation || checkpoint.key.node_id != manifest.key.node_id
        || checkpoint.system_identifier != manifest.system_identifier || checkpoint.timeline
        != manifest.timeline || !same_text(
        checkpoint.slot_name.as_str(),
        manifest.slot_name.as_str(),
    ) {
        return Err(ChunkLedgerError::CheckpointIdentityMismatch);
    }
    if checkpoint.applied_lsn != manifest.key.end_lsn {
        return Err(
            ChunkLedgerError::CheckpointLsnMismatch {
                checkpoint_lsn: checkpoint.applied_lsn,
                end_lsn: manifest.key.end_lsn,
            },
        );
    }
    Ok(())
}

// ---------------------------------------------------------------------------------------------
// Decisions of the ledger protocol
// ---------------------------------------------------------------------------------------------

/// What to do once the progress row of a manifest is locked.
#[derive(Debug, Clone, Copy, PartialEq, Eq, Structural)]
pub enum ProgressStep {
    /// The manifest is registered; an older fencing token on its row is replaced first.
    Resume { next_seq: u64, adopt_fence: bool },
    /// The manifest is not registered; the node checkpoint decides whether it still has to be.
    ConsultCheckpoint,
}

/// The progress behind an optional reference.
pub open spec fn progress_of(stored: Option<&StoredProgress>) -> Option<StoredProgress> {
    match stored {
        Some(progress) => Some(*progress),
        None => None,
    }
}

/// Decides how to go on with a manifest whose fence is locked.
///
/// A newer active fencing owner may adopt an existing progress row, but it cannot change any
/// source or spool identity field.
pub fn judge_progress(
    fence: PipelineFence,
    manifest: &TransactionChunkManifest,
    stored: Option<&StoredProgress>,
) -> (r: Result<ProgressStep, ChunkLedgerError>)
    ensures
        match stored {
            None => r == Ok::<ProgressStep, ChunkLedgerError>(ProgressStep::ConsultCheckpoint),
            Some(progress) => match manifest_difference(progress.manifest, *manifest) {
                Some(field) => r == Err::<ProgressStep, ChunkLedgerError>(
                    ChunkLedgerError::ManifestMismatch { field },
                ),
                None => r == Ok::<ProgressStep, ChunkLedgerError>(
                    ProgressStep::Resume {
                        next_seq: progress.next_seq,
                        adopt_fence: progress.fencing_token != fence.fencing_token,
                    },
                ),
            },
        },
{
    match stored {
        None => Ok(ProgressStep::ConsultCheckpoint),
        Some(progress) => match ensure_same_manifest(&progress.manifest, manifest) {
            Err(e) => Err(e),
            Ok(()) => Ok(
                ProgressStep::Resume {
                    next_seq: progress.next_seq,
                    adopt_fence: progress.fencing_token != fence.fencing_token,
                },
            ),
        },
    }
}

/// The parameters that identify a transaction in every ledger statement.
#[derive(Debug, PartialEq, Eq)]
pub struct DatabaseKey {
    pub pipeline_id: Uuid,
    pub generation: i64,
    pub node_id: i32,
    pub end_lsn: String,
}

pub open spec fn key_stores(database: DatabaseKey, key: TransactionChunkKey) -> bool {
    &&& database.pipeline_id == key.pipeline_id.uuid
    &&& database.generation == key.topology_generation
    &&& database.node_id == key.node_id
    &&& database.end_lsn@ == key.end_lsn.text()
}

impl DatabaseKey {
    pub fn new(key: TransactionChunkKey) -> (r: Result<Self, ChunkLedgerError>)
        ensures
            match r {
                Ok(database) => key.topology_generation <= i64::MAX && key_stores(database, key),
                Err(e) => key.topology_generation > i64::MAX && e
                    == ChunkLedgerError::GenerationOutOfRange(key.topology_generation),
            },
    {
        match database_generation(key.topology_generation) {
            Err(e) => Err(e),
            Ok(generation) => Ok(
                DatabaseKey {
                    pipeline_id: key.pipeline_id.as_uuid(),
                    generation,
                    node_id: key.node_id,
                    end_lsn: key.end_lsn.display(),
                },
            ),
        }
    }
}

/// The parameters that store the identity of a manifest.
#[derive(Debug, PartialEq, Eq)]
pub struct ManifestParameters {
    pub key: DatabaseKey,
    pub system_identifier: String,
    pub timeline: i64,
    pub slot_name: String,
    pub xid: i64,
    pub manifest_version: i32,
    pub record_count: i64,
    pub manifest_digest: [u8; 32],
    pub fencing_token: i64,
}

pub open spec fn parameters_store(
    parameters: ManifestParameters,
    fence: PipelineFence,
    manifest: TransactionChunkManifest,
) -> bool {
    &&& key_stores(parameters.key, manifest.key)
    &&& parameters.system_identifier@ == decimal(manifest.system_identifier as nat)
    &&& parameters.timeline == manifest.timeline
    &&& parameters.slot_name@ == manifest.slot_name@
    &&& parameters.xid == manifest.xid
    &&& parameters.manifest_version == manifest.manifest_version
    &&& parameters.record_count == manifest.record_count
    &&& parameters.manifest_digest == manifest.manifest_digest
    &&& parameters.fencing_token == fence.fencing_token
}

/// The parameters that insert or retire the progress of a manifest.
pub fn manifest_parameters(fence: PipelineFence, manifest: &TransactionChunkManifest) -> (r: Result<
    ManifestParameters,
    ChunkLedgerError,
>)
    ensures
        match r {
            Ok(parameters) => {
                &&& manifest.key.topology_generation <= i64::MAX
                &&& manifest.record_count <= i64::MAX
                &&& parameters_store(parameters, fence, *manifest)
            },
            Err(e) => if manifest.key.topology_generation > i64::MAX {
                e == ChunkLedgerError::GenerationOutOfRange(manifest.key.topology_generation)
            } else {
                manifest.record_count > i64::MAX && e == (ChunkLedgerError::SequenceOutOfRange {
                    field: "record_count",
                    value: manifest.record_count,
                })
            },
        },
{
    let key = match DatabaseKey::new(manifest.key) {
        Err(e) => return Err(e),
        Ok(key) => key,
    };
    let record_count = match database_sequence("record_count", manifest.record_count) {
        Err(e) => return Err(e),
        Ok(count) => count,
    };
    Ok(
        ManifestParameters {
            key,
            system_identifier: render_decimal(manifest.system_identifier),
            timeline: manifest.timeline as i64,
            slot_name: manifest.slot_name.clone(),
            xid: manifest.xid as i64,
            manifest_version: manifest.manifest_version as i32,
            record_count,
            manifest_digest: manifest.manifest_digest,
            fencing_token: fence.fencing_token,
        },
    )
}

/// Decides whether an unregistered manifest is already covered by the locked node checkpoint.
///
/// The result is the covering position; without one the manifest has to be registered.
pub fn manifest_checkpoint_reached(
    manifest: &TransactionChunkManifest,
    current: Option<&StoredNodeCheckpoint>,
) -> (r: Result<Option<PgLsn>, ChunkLedgerError>)
    ensures
        match reached_model(stored_of(current), manifest.checkpoint()) {
            Err(e) => r == Err::<Option<PgLsn>, ChunkLedgerError>(ChunkLedgerError::Checkpoint(e)),
            Ok(true) => current is Some && r == Ok::<Option<PgLsn>, ChunkLedgerError>(
                Some(current->0.checkpoint.applied_lsn),
            ),
            Ok(false) => r == Ok::<Option<PgLsn>, ChunkLedgerError>(None),
        },
{
    let checkpoint = manifest.node_checkpoint();
    match checkpoint_reached(current, &checkpoint) {
        Err(e) => Err(ChunkLedgerError::Checkpoint(e)),
        Ok(false) => Ok(None),
        Ok(true) => match current {
            Some(stored) => Ok(Some(stored.checkpoint.applied_lsn)),
            None => Ok(None),
        },
    }
}

/// Decides whether a chunk may execute, given the locked progress and its receipt.
///
/// `Apply` carries the only value that records the chunk. An exact historical identity returns
/// `AlreadyCommitted`; a request starting inside or before a differently partitioned committed
/// prefix returns `ResumeAt` so the caller can discard it and read from the durable boundary.
pub fn decide_chunk(
    fence: PipelineFence,
    manifest: &TransactionChunkManifest,
    next_seq: u64,
    committed: Option<&StoredCommittedChunk>,
    chunk: DataChunkIdentity,
) -> (r: Result<PrepareDataChunkOutcome, ChunkLedgerError>)
    ensures
        match r {
            Ok(PrepareDataChunkOutcome::Apply(prepared)) => {
                &&& verdict(next_seq, receipt_of(committed), chunk) is Apply
                &&& prepared.prepared_fence() == fence
                &&& prepared.prepared_key() == manifest.key
                &&& prepared.prepared_digest() == manifest.manifest_digest@
                &&& prepared.prepared_chunk() == chunk
            },
            Ok(PrepareDataChunkOutcome::AlreadyCommitted { next_seq: at }) => at == next_seq
                && verdict(next_seq, receipt_of(committed), chunk) is AlreadyCommitted,
            Ok(PrepareDataChunkOutcome::ResumeAt { next_seq: at }) => at == next_seq && verdict(
                next_seq,
                receipt_of(committed),
                chunk,
            ) is ResumeAt,
            Ok(PrepareDataChunkOutcome::AlreadyCheckpointed { .. }) => false,
            Err(e) => refuses_chunk(e, next_seq, receipt_of(committed), chunk),
        },
{
    match classify_chunk(next_seq, committed, chunk) {
        Err(e) => Err(e),
        Ok(ChunkClassification::Apply) => Ok(
            PrepareDataChunkOutcome::Apply(
                PreparedDataChunk {
                    fence,
                    manifest_digest: manifest.manifest_digest,
                    key: manifest.key,
                    chunk,
                },
            ),
        ),
        Ok(ChunkClassification::AlreadyCommitted) => Ok(
            PrepareDataChunkOutcome::AlreadyCommitted { next_seq },
        ),
        Ok(ChunkClassification::ResumeAt) => Ok(PrepareDataChunkOutcome::ResumeAt { next_seq }),
    }
}

/// The parameters that record a prepared chunk.
#[derive(Debug, PartialEq, Eq)]
pub struct ChunkParameters {
    pub key: DatabaseKey,
    pub start_seq: i64,
    pub end_seq: i64,
    pub chunk_digest: [u8; 32],
    pub manifest_digest: [u8; 32],
    pub fencing_token: i64,
}

/// The statements that record a chunk advance the progress from its start to its end.
pub fn chunk_parameters(prepared: &PreparedDataChunk) -> (r: Result<
    ChunkParameters,
    ChunkLedgerError,
>)
    ensures
        ({
            let key = prepared.prepared_key();
            let chunk = prepared.prepared_chunk();
            match r {
                Ok(parameters) => {
                    &&& key_stores(parameters.key, key)
                    &&& parameters.start_seq == chunk.start_seq
                    &&& parameters.end_seq == chunk.end_seq
                    &&& parameters.chunk_digest == chunk.digest
                    &&& parameters.manifest_digest@ == prepared.prepared_digest()
                    &&& parameters.fencing_token == prepared.prepared_fence().fencing_token
                },
                Err(e) => if key.topology_generation > i64::MAX {
                    e == ChunkLedgerError::GenerationOutOfRange(key.topology_generation)
                } else if chunk.start_seq > i64::MAX {
                    e == (ChunkLedgerError::SequenceOutOfRange {
                        field: "start_seq",
                        value: chunk.start_seq,
                    })
                } else {
                    chunk.end_seq > i64::MAX && e == (ChunkLedgerError::SequenceOutOfRange {
                        field: "end_seq",
                        value: chunk.end_seq,
                    })
                },
            }
        }),
{
    let key = match DatabaseKey::new(prepared.key) {
        Err(e) => return Err(e),
        Ok(key) => key,
    };
    let start_seq = match database_sequence("start_seq", prepared.chunk.start_seq) {
        Err(e) => return Err(e),
        Ok(value) => value,
    };
    let end_seq = match database_sequence("end_seq", prepared.chunk.end_seq) {
        Err(e) => return Err(e),
        Ok(value) => value,
    };
    Ok(
        ChunkParameters {
            key,
            start_seq,
            end_seq,
            chunk_digest: prepared.chunk.digest,
            manifest_digest: prepared.manifest_digest,
            fencing_token: prepared.fence.fencing_token,
        },
    )
}

/// The progress row must still be where the chunk was prepared.
pub fn ensure_advanced(advanced: u64) -> (r: Result<(), ChunkLedgerError>)
    ensures
        match r {
            Ok(()) => advanced == 1,
            Err(e) => advanced != 1 && e == ChunkLedgerError::ProgressChanged,
        },
{
    if advanced == 1 {
        Ok(())
    } else {
        Err(ChunkLedgerError::ProgressChanged)
    }
}

pub fn ensure_one_row(written: u64) -> (r: Result<(), ChunkLedgerError>)
    ensures
        match r {
            Ok(()) => written == 1,
            Err(e) => written != 1 && e == ChunkLedgerError::UnexpectedWriteCount(written),
        },
{
    if written == 1 {
        Ok(())
    } else {
        Err(ChunkLedgerError::UnexpectedWriteCount(written))
    }
}

/// Why a locked progress row does not prove completion, if it does not.
pub open spec fn completion_fault(
    manifest: TransactionChunkManifest,
    stored: Option<StoredProgress>,
) -> Option<ChunkLedgerError> {
    match stored {
        None => Some(ChunkLedgerError::MissingProgress),
        Some(progress) => match manifest_difference(progress.manifest, manifest) {
            Some(field) => Some(ChunkLedgerError::ManifestMismatch { field }),
            None => if progress.next_seq != progress.manifest.record_count {
                Some(
                    ChunkLedgerError::IncompleteTransaction {
                        next_seq: progress.next_seq,
                        record_count: progress.manifest.record_count,
                    },
                )
            } else {
                None
            },
        },
    }
}

fn check_completion(manifest: &TransactionChunkManifest, stored: Option<&StoredProgress>) -> (r: Result<
    (),
    ChunkLedgerError,
>)
    ensures
        match r {
            Ok(()) => completion_fault(*manifest, progress_of(stored)) is None,
            Err(e) => completion_fault(*manifest, progress_of(stored)) == Some(e),
        },
{
    match stored {
        None => Err(ChunkLedgerError::MissingProgress),
        Some(progress) => match ensure_same_manifest(&progress.manifest, manifest) {
            Err(e) => Err(e),
            Ok(()) => ensure_complete(progress),
        },
    }
}

/// Turns a locked progress row into proof that every manifest record committed.
///
/// Progress is never created here. Empty transactions must first be explicitly registered,
/// preventing an empty apply request from inventing a completion and advancing a checkpoint on
/// its own.
pub fn prove_completion(
    fence: PipelineFence,
    manifest: &TransactionChunkManifest,
    stored: Option<&StoredProgress>,
) -> (r: Result<PreparedTransactionCompletion, ChunkLedgerError>)
    ensures
        match r {
            Ok(completion) => {
                &&& completion_fault(*manifest, progress_of(stored)) is None
                &&& completion.completed_fence() == fence
                &&& completion.completed_manifest() == *manifest
            },
            Err(e) => completion_fault(*manifest, progress_of(stored)) == Some(e),
        },
{
    match check_completion(manifest, stored) {
        Err(e) => Err(e),
        Ok(()) => Ok(PreparedTransactionCompletion { fence, manifest: manifest.clone() }),
    }
}

/// Decides whether a completed transaction may publish a checkpoint, given its progress row
/// locked again.
pub fn judge_publication(
    completion: &PreparedTransactionCompletion,
    checkpoint: &NodeCheckpoint,
    stored: Option<&StoredProgress>,
) -> (r: Result<(), ChunkLedgerError>)
    ensures
        ({
            let manifest = completion.completed_manifest();
            match r {
                Ok(()) => publication_fault(manifest, *checkpoint) is None && completion_fault(
                    manifest,
                    progress_of(stored),
                ) is None,
                Err(e) => if publication_fault(manifest, *checkpoint) is Some {
                    publication_fault(manifest, *checkpoint) == Some(e)
                } else {
                    completion_fault(manifest, progress_of(stored)) == Some(e)
                },
            }
        }),
{
    match ensure_checkpoint_matches(&completion.manifest, checkpoint) {
        Err(e) => Err(e),
        Ok(()) => check_completion(&completion.manifest, stored),
    }
}

/// Retirement must delete the progress row, and receipts exactly for a non-empty manifest.
pub fn ensure_retirement_counts(record_count: u64, deleted_chunks: u64, deleted_progress: u64) -> (r: Result<
    (),
    ChunkLedgerError,
>)
    ensures
        match r {
            Ok(()) => (record_count == 0 <==> deleted_chunks == 0) && deleted_progress == 1,
            Err(e) => if !(record_count == 0 <==> deleted_chunks == 0) {
                e == (ChunkLedgerError::UnexpectedCommittedChunkRetirementCount {
                    record_count,
                    deleted_chunks,
                })
            } else {
                deleted_progress != 1 && e
                    == ChunkLedgerError::UnexpectedProgressRetirementCount(deleted_progress)
            },
        },
{
    if (record_count == 0 && deleted_chunks != 0) || (record_count > 0 && deleted_chunks == 0) {
        return Err(
            ChunkLedgerError::UnexpectedCommittedChunkRetirementCount {
                record_count,
                deleted_chunks,
            },
        );
    }
    if deleted_progress != 1 {
        return Err(ChunkLedgerError::UnexpectedProgressRetirementCount(deleted_progress));
    }
    Ok(())
}

// ---------------------------------------------------------------------------------------------
// Stored rows
// ---------------------------------------------------------------------------------------------

/// A progress row as the target returns it.
#[derive(Debug, PartialEq, Eq)]
pub struct ProgressRow {
    pub pipeline_id: Uuid,
    pub topology_generation: i64,
    pub node_id: i32,
    pub end_lsn: String,
    pub system_identifier: String,
    pub timeline: i64,
    pub slot_name: String,
    pub xid: i64,
    pub manifest_version: i32,
    pub record_count: i64,
    pub manifest_digest: Vec<u8>,
    pub next_seq: i64,
    pub fencing_token: i64,
}

/// The text that stands for a digest of the wrong length.
pub open spec fn length_text(length: nat) -> Seq<char> {
    decimal(length) + " bytes"@
}

/// The first column of a progress row that has no meaning.
pub open spec fn progress_row_fault(row: ProgressRow) -> Option<PersistedFault> {
    if row.topology_generation < 0 {
        Some(("topology_generation", signed_decimal(row.topology_generation as int)))
    } else if parsed_lsn(row.end_lsn@) is None {
        Some(("end_lsn", row.end_lsn@))
    } else if unsigned_number(row.system_identifier@, u64::MAX as nat) is None {
        Some(("system_identifier", row.system_identifier@))
    } else if !(0 <= row.timeline <= u32::MAX) {
        Some(("timeline", signed_decimal(row.timeline as int)))
    } else if !(0 <= row.xid <= u32::MAX) {
        Some(("xid", signed_decimal(row.xid as int)))
    } else if !(0 <= row.manifest_version <= u16::MAX) {
        Some(("manifest_version", signed_decimal(row.manifest_version as int)))
    } else if row.record_count < 0 {
        Some(("record_count", signed_decimal(row.record_count as int)))
    } else if row.next_seq < 0 || row.next_seq > row.record_count {
        Some(("next_seq", signed_decimal(row.next_seq as int)))
    } else if row.manifest_digest@.len() != 32 {
        Some(("manifest_digest", length_text(row.manifest_digest@.len())))
    } else {
        None
    }
}

/// The progress that a row without faults holds.
pub open spec fn progress_row_holds(row: ProgressRow, stored: StoredProgress) -> bool {
    let manifest = stored.manifest;
    &&& manifest.key.pipeline_id.uuid == row.pipeline_id
    &&& manifest.key.topology_generation == row.topology_generation
    &&& manifest.key.node_id == row.node_id
    &&& parsed_lsn(row.end_lsn@) == Some(manifest.key.end_lsn.value as nat)
    &&& unsigned_number(row.system_identifier@, u64::MAX as nat) == Some(
        manifest.system_identifier as nat,
    )
    &&& manifest.timeline == row.timeline
    &&& manifest.slot_name == row.slot_name
    &&& manifest.xid == row.xid
    &&& manifest.manifest_version == row.manifest_version
    &&& manifest.record_count == row.record_count
    &&& manifest.manifest_digest@ == row.manifest_digest@
    &&& stored.next_seq == row.next_seq
    &&& stored.fencing_token == row.fencing_token
}

fn invalid_number(field: &'static str, value: i64) -> (r: ChunkLedgerError)
    ensures
        ledger_reports(r, Some((field, signed_decimal(value as int)))),
{
    ChunkLedgerError::InvalidPersistedValue { field, value: render_signed(value) }
}

pub fn persisted_u64(field: &'static str, value: i64) -> (r: Result<u64, ChunkLedgerError>)
    ensures
        match r {
            Ok(read) => value >= 0 && read == value,
            Err(e) => value < 0 && ledger_reports(e, Some((field, signed_decimal(value as int)))),
        },
{
    if value >= 0 {
        Ok(value as u64)
    } else {
        Err(invalid_number(field, value))
    }
}

pub fn persisted_u32(field: &'static str, value: i64) -> (r: Result<u32, ChunkLedgerError>)
    ensures
        match r {
            Ok(read) => read == value,
            Err(e) => !(0 <= value <= u32::MAX) && ledger_reports(
                e,
                Some((field, signed_decimal(value as int))),
            ),
        },
{
    if 0 <= value && value <= u32::MAX as i64 {
        Ok(value as u32)
    } else {
        Err(invalid_number(field, value))
    }
}

pub fn persisted_u16(field: &'static str, value: i32) -> (r: Result<u16, ChunkLedgerError>)
    ensures
        match r {
            Ok(read) => read == value,
            Err(e) => !(0 <= value <= u16::MAX) && ledger_reports(
                e,
                Some((field, signed_decimal(value as int))),
            ),
        },
{
    if 0 <= value && value <= u16::MAX as i32 {
        Ok(value as u16)
    } else {
        Err(invalid_number(field, value as i64))
    }
}

pub fn persisted_digest(field: &'static str, value: &Vec<u8>) -> (r: Result<
    [u8; 32],
    ChunkLedgerError,
>)
    ensures
        match r {
            Ok(digest) => digest@ == value@,
            Err(e) => value@.len() != 32 && ledger_reports(
                e,
                Some((field, length_text(value@.len()))),
            ),
        },
{
    match digest_from(value) {
        Some(digest) => Ok(digest),
        None => {
            let mut text = render_decimal(value.len() as u64);
            text.append(" bytes");
            Err(ChunkLedgerError::InvalidPersistedValue { field, value: text })
        },
    }
}

/// Reads a stored progress row.
pub fn progress_from_row(row: ProgressRow) -> (r: Result<StoredProgress, ChunkLedgerError>)
    ensures
        match r {
            Ok(stored) => progress_row_fault(row) is None && progress_row_holds(row, stored),
            Err(e) => ledger_reports(e, progress_row_fault(row)),
        },
{
    let generation = match persisted_u64("topology_generation", row.topology_generation) {
        Err(e) => return Err(e),
        Ok(value) => value,
    };
    let end_lsn = match PgLsn::parse(row.end_lsn.as_str()) {
        None => {
            return Err(
                ChunkLedgerError::InvalidPersistedValue { field: "end_lsn", value: row.end_lsn },
            );
        },
        Some(lsn) => lsn,
    };
    let system_identifier = match parse_u64(row.system_identifier.as_str()) {
        None => {
            return Err(
                ChunkLedgerError::InvalidPersistedValue {
                    field: "system_identifier",
                    value: row.system_identifier,
                },
            );
        },
        Some(value) => value,
    };
    let timeline = match persisted_u32("timeline", row.timeline) {
        Err(e) => return Err(e),
        Ok(value) => value,
    };
    let xid = match persisted_u32("xid", row.xid) {
        Err(e) => return Err(e),
        Ok(value) => value,
    };
    let manifest_version = match persisted_u16("manifest_version", row.manifest_version) {
        Err(e) => return Err(e),
        Ok(value) => value,
    };
    let record_count = match persisted_u64("record_count", row.record_count) {
        Err(e) => return Err(e),
        Ok(value) => value,
    };
    let next_seq = match persisted_u64("next_seq", row.next_seq) {
        Err(e) => return Err(e),
        Ok(value) => value,
    };
    if next_seq > record_count {
        return Err(invalid_number("next_seq", row.next_seq));
    }
    let manifest_digest = match persisted_digest("manifest_digest", &row.manifest_digest) {
        Err(e) => return Err(e),
        Ok(digest) => digest,
    };
    Ok(
        StoredProgress {
            manifest: TransactionChunkManifest {
                key: TransactionChunkKey {
                    pipeline_id: PipelineId::from_uuid(row.pipeline_id),
                    topology_generation: generation,
                    node_id: row.node_id,
                    end_lsn,
                },
                system_identifier,
                timeline,
                slot_name: row.slot_name,
                xid,
                manifest_version,
                record_count,
                manifest_digest,
            },
            next_seq,
            fencing_token: row.fencing_token,
        },
    )
}

/// Reads a stored chunk receipt.
pub fn committed_chunk_from_row(end_seq: i64, chunk_digest: &Vec<u8>) -> (r: Result<
    StoredCommittedChunk,
    ChunkLedgerError,
>)
    ensures
        match r {
            Ok(stored) => stored.end_seq == end_seq && stored.digest@ == chunk_digest@,
            Err(e) => if end_seq < 0 {
                ledger_reports(e, Some(("end_seq", signed_decimal(end_seq as int))))
            } else {
                chunk_digest@.len() != 32 && ledger_reports(
                    e,
                    Some(("chunk_digest", length_text(chunk_digest@.len()))),
                )
            },
        },
{
    match persisted_u64("end_seq", end_seq) {
        Err(e) => Err(e),
        Ok(end_seq) => match persisted_digest("chunk_digest", chunk_digest) {
            Err(e) => Err(e),
            Ok(digest) => Ok(StoredCommittedChunk { end_seq, digest }),
        },
    }
}

// ---------------------------------------------------------------------------------------------
// Laws
// ---------------------------------------------------------------------------------------------

/// The receipt of one chunk with its start.
pub struct Receipt {
    pub start: u64,
    pub stored: StoredCommittedChunk,
}

/// The ledger of one transaction: its receipts in commit order and the end of its prefix.
pub struct Ledger {
    pub receipts: Seq<Receipt>,
    pub next_seq: u64,
}

impl Ledger {
    /// The receipts cover the records from zero to the end of the prefix without gap or overlap.
    pub open spec fn contiguous(self) -> bool {
        let receipts = self.receipts;
        &&& receipts.len() == 0 ==> self.next_seq == 0
        &&& receipts.len() > 0 ==> receipts[0].start == 0 && receipts.last().stored.end_seq
            == self.next_seq
        &&& forall|i: int|
            0 <= i < receipts.len() ==> (#[trigger] receipts[i]).start < receipts[i].stored.end_seq
        &&& forall|i: int|
            #![trigger receipts[i]]
            0 < i < receipts.len() ==> receipts[i].start == receipts[i - 1].stored.end_seq
    }

    /// The receipt of the chunk that starts at `start`.
    pub open spec fn find(self, start: u64) -> Option<StoredCommittedChunk> {
        if exists|i: int| 0 <= i < self.receipts.len() && (#[trigger] self.receipts[i]).start
            == start {
            let i = choose|i: int|
                0 <= i < self.receipts.len() && (#[trigger] self.receipts[i]).start == start;
            Some(self.receipts[i].stored)
        } else {
            None
        }
    }

    /// The ledger behind a recorded chunk.
    pub open spec fn recorded(self, chunk: DataChunkIdentity) -> Ledger {
        Ledger {
            receipts: self.receipts.push(
                Receipt {
                    start: chunk.start_seq,
                    stored: StoredCommittedChunk { end_seq: chunk.end_seq, digest: chunk.digest },
                },
            ),
            next_seq: chunk.end_seq,
        }
    }
}

/// Receipts are ordered by their ranges.
proof fn lemma_receipts_ordered(ledger: Ledger, i: int, j: int)
    requires
        ledger.contiguous(),
        0 <= i < j < ledger.receipts.len(),
    ensures
        ledger.receipts[i].stored.end_seq <= ledger.receipts[j].start,
    decreases j - i,
{
    assert(ledger.receipts[j].start == ledger.receipts[j - 1].stored.end_seq);
    if i < j - 1 {
        lemma_receipts_ordered(ledger, i, j - 1);
        assert(ledger.receipts[j - 1].start < ledger.receipts[j - 1].stored.end_seq);
    }
}

/// A chunk that may be applied extends the committed prefix by at least one record, stays inside
/// the manifest and keeps the ledger free of gaps and overlaps.
pub proof fn law_applied_chunk_extends_the_prefix(
    ledger: Ledger,
    record_count: u64,
    chunk: DataChunkIdentity,
)
    requires
        ledger.contiguous(),
        chunk_fault(record_count, chunk) is None,
        verdict(ledger.next_seq, ledger.find(chunk.start_seq), chunk) is Apply,
    ensures
        ledger.recorded(chunk).contiguous(),
        ledger.next_seq < ledger.recorded(chunk).next_seq <= record_count,
{
    let after = ledger.recorded(chunk);
    assert forall|i: int|
        #![trigger after.receipts[i]]
        0 < i < after.receipts.len() implies after.receipts[i].start
        == after.receipts[i - 1].stored.end_seq by {
        if i < ledger.receipts.len() {
            assert(after.receipts[i] == ledger.receipts[i]);
            assert(after.receipts[i - 1] == ledger.receipts[i - 1]);
        } else {
            assert(after.receipts[i - 1] == ledger.receipts[i - 1]);
        }
    }
    assert forall|i: int| 0 <= i < after.receipts.len() implies (
    #[trigger] after.receipts[i]).start < after.receipts[i].stored.end_seq by {
        if i < ledger.receipts.len() {
            assert(after.receipts[i] == ledger.receipts[i]);
        }
    }
    if ledger.receipts.len() > 0 {
        assert(after.receipts[0] == ledger.receipts[0]);
    }
}

/// Replaying any committed chunk is recognized as such: nothing is applied a second time.
pub proof fn law_committed_chunk_replays(ledger: Ledger, at: int, digest: [u8; 32])
    requires
        ledger.contiguous(),
        0 <= at < ledger.receipts.len(),
        digest@ == ledger.receipts[at].stored.digest@,
    ensures
        ({
            let receipt = ledger.receipts[at];
            let chunk = DataChunkIdentity {
                start_seq: receipt.start,
                end_seq: receipt.stored.end_seq,
                digest,
            };
            verdict(ledger.next_seq, ledger.find(receipt.start), chunk) is AlreadyCommitted
        }),
{
    let receipt = ledger.receipts[at];
    let found = choose|i: int|
        0 <= i < ledger.receipts.len() && (#[trigger] ledger.receipts[i]).start == receipt.start;
    if found < at {
        lemma_receipts_ordered(ledger, found, at);
        assert(ledger.receipts[found].start < ledger.receipts[found].stored.end_seq);
    }
    if at < found {
        lemma_receipts_ordered(ledger, at, found);
        assert(ledger.receipts[at].start < ledger.receipts[at].stored.end_seq);
    }
    let last = ledger.receipts.len() - 1;
    if at < last {
        lemma_receipts_ordered(ledger, at, last);
        assert(ledger.receipts[last].start < ledger.receipts[last].stored.end_seq);
    }
}

/// Every record of the committed prefix belongs to exactly one receipt.
pub proof fn law_records_are_committed_once(ledger: Ledger, record: int)
    requires
        ledger.contiguous(),
        0 <= record < ledger.next_seq,
    ensures
        exists|i: int|
            0 <= i < ledger.receipts.len() && (#[trigger] ledger.receipts[i]).start <= record
                < ledger.receipts[i].stored.end_seq,
        forall|i: int, j: int|
            0 <= i < ledger.receipts.len() && 0 <= j < ledger.receipts.len() && (
            #[trigger] ledger.receipts[i]).start <= record < ledger.receipts[i].stored.end_seq && (
            #[trigger] ledger.receipts[j]).start <= record < ledger.receipts[j].stored.end_seq
                ==> i == j,
{
    lemma_record_has_receipt(ledger, ledger.receipts.len() - 1, record);
    assert forall|i: int, j: int|
        0 <= i < ledger.receipts.len() && 0 <= j < ledger.receipts.len() && (
        #[trigger] ledger.receipts[i]).start <= record < ledger.receipts[i].stored.end_seq && (
        #[trigger] ledger.receipts[j]).start <= record
            < ledger.receipts[j].stored.end_seq implies i == j by {
        if i < j {
            lemma_receipts_ordered(ledger, i, j);
        }
        if j < i {
            lemma_receipts_ordered(ledger, j, i);
        }
    }
}

proof fn lemma_record_has_receipt(ledger: Ledger, at: int, record: int)
    requires
        ledger.contiguous(),
        0 <= at < ledger.receipts.len(),
        0 <= record < ledger.receipts[at].stored.end_seq,
    ensures
        exists|i: int|
            0 <= i < ledger.receipts.len() && (#[trigger] ledger.receipts[i]).start <= record
                < ledger.receipts[i].stored.end_seq,
    decreases at,
{
    if ledger.receipts[at].start <= record {
    } else {
        assert(at > 0);
        assert(ledger.receipts[at].start == ledger.receipts[at - 1].stored.end_seq);
        lemma_record_has_receipt(ledger, at - 1, record);
    }
}

/// The checkpoint of a manifest always matches the manifest, so a completed transaction can
/// always publish it, and it can publish no other one.
pub proof fn law_manifest_publishes_its_own_checkpoint(
    manifest: TransactionChunkManifest,
    checkpoint: NodeCheckpoint,
)
    ensures
        publication_fault(manifest, manifest.checkpoint()) is None,
        publication_fault(manifest, checkpoint) is None ==> crate::checkpoint::same_source(
            checkpoint,
            manifest.checkpoint(),
        ) && checkpoint.applied_lsn == manifest.checkpoint().applied_lsn,
{
}

/// The checkpoint of a valid manifest is itself valid under the same fence.
pub proof fn law_valid_manifest_has_a_valid_checkpoint(
    fence: PipelineFence,
    manifest: TransactionChunkManifest,
)
    requires
        manifest_fault(fence, manifest) is None,
    ensures
        crate::checkpoint::proposal_fault(fence, manifest.checkpoint()) is None,
{
}

/// What registration writes, a later read gives back: a row with the inserted values holds a
/// manifest that does not differ from the registered one, with nothing applied yet.
pub proof fn law_registered_progress_reads_back(
    row: ProgressRow,
    fence: PipelineFence,
    manifest: TransactionChunkManifest,
    parameters: ManifestParameters,
    stored: StoredProgress,
)
    requires
        manifest_fault(fence, manifest) is None,
        parameters_store(parameters, fence, manifest),
        row.pipeline_id == parameters.key.pipeline_id,
        row.topology_generation == parameters.key.generation,
        row.node_id == parameters.key.node_id,
        row.end_lsn@ == parameters.key.end_lsn@,
        row.system_identifier@ == parameters.system_identifier@,
        row.timeline == parameters.timeline,
        row.slot_name@ == parameters.slot_name@,
        row.xid == parameters.xid,
        row.manifest_version == parameters.manifest_version,
        row.record_count == parameters.record_count,
        row.manifest_digest@ == parameters.manifest_digest@,
        row.next_seq == 0,
        row.fencing_token == parameters.fencing_token,
        progress_row_holds(row, stored),
    ensures
        progress_row_fault(row) is None,
        manifest_difference(stored.manifest, manifest) is None,
        stored.next_seq == 0,
        stored.fencing_token == fence.fencing_token,
{
    crate::text::law_decimal_reads_back(manifest.system_identifier as nat, u64::MAX as nat);
    crate::lsn::law_lsn_reads_back(manifest.key.end_lsn);
}

/// A manifest can be registered exactly where it belongs to the fence's pipeline and topology, its
/// numbers can be stored, and its position, timeline, transaction, version and slot are given.
pub proof fn law_which_manifests_can_be_registered(
    fence: PipelineFence,
    manifest: TransactionChunkManifest,
)
    ensures
        manifest_fault(fence, manifest) is None <==> {
            &&& manifest.key.topology_generation <= i64::MAX
            &&& manifest.record_count <= i64::MAX
            &&& manifest.key.pipeline_id == fence.pipeline_id
            &&& manifest.key.topology_generation == fence.topology_generation
            &&& manifest.key.end_lsn.value > 0
            &&& manifest.timeline > 0
            &&& manifest.slot_name@.len() > 0
            &&& !manifest.slot_name@.contains('\0')
            &&& manifest.xid > 0
            &&& manifest.manifest_version > 0
        },
{
}

/// A chunk fits its manifest exactly where it holds a record, none behind the last one, and its
/// bounds can be stored.
pub proof fn law_which_chunks_fit(record_count: u64, chunk: DataChunkIdentity)
    ensures
        chunk_fault(record_count, chunk) is None <==> {
            &&& chunk.start_seq < chunk.end_seq
            &&& chunk.end_seq <= record_count
            &&& chunk.end_seq <= i64::MAX
        },
{
}

/// Two manifests are the same exactly where each field is.
pub proof fn law_when_manifests_are_the_same(
    current: TransactionChunkManifest,
    proposed: TransactionChunkManifest,
)
    ensures
        manifest_difference(current, proposed) is None <==> {
            &&& current.key.pipeline_id == proposed.key.pipeline_id
            &&& current.key.topology_generation == proposed.key.topology_generation
            &&& current.key.node_id == proposed.key.node_id
            &&& current.key.end_lsn == proposed.key.end_lsn
            &&& current.system_identifier == proposed.system_identifier
            &&& current.timeline == proposed.timeline
            &&& current.slot_name@ == proposed.slot_name@
            &&& current.xid == proposed.xid
            &&& current.manifest_version == proposed.manifest_version
            &&& current.record_count == proposed.record_count
            &&& current.manifest_digest@ == proposed.manifest_digest@
        },
{
}

/// What becomes of a chunk: the one that starts where the committed prefix ends is applied, one
/// behind it would leave a gap, and one before it was committed with its end and digest, was cut
/// differently, or contradicts its receipt.
pub proof fn law_how_chunks_are_classified(
    next_seq: u64,
    receipt: StoredCommittedChunk,
    chunk: DataChunkIdentity,
)
    ensures
        forall|committed: Option<StoredCommittedChunk>|
            {
                &&& #[trigger] verdict(next_seq, committed, chunk) is Apply <==> chunk.start_seq
                    == next_seq
                &&& verdict(next_seq, committed, chunk) is Gap <==> chunk.start_seq > next_seq
            },
        chunk.start_seq < next_seq ==> verdict(next_seq, None, chunk) is ResumeAt,
        verdict(next_seq, Some(receipt), chunk) is AlreadyCommitted <==> {
            &&& chunk.start_seq < next_seq
            &&& receipt.end_seq <= next_seq
            &&& receipt.end_seq == chunk.end_seq
            &&& receipt.digest@ == chunk.digest@
        },
        verdict(next_seq, Some(receipt), chunk) is ResumeAt <==> {
            &&& chunk.start_seq < next_seq
            &&& receipt.end_seq <= next_seq
            &&& receipt.end_seq != chunk.end_seq
        },
        verdict(next_seq, Some(receipt), chunk) is IdentityMismatch <==> {
            &&& chunk.start_seq < next_seq
            &&& receipt.end_seq <= next_seq
            &&& receipt.end_seq == chunk.end_seq
            &&& receipt.digest@ != chunk.digest@
        },
        verdict(next_seq, Some(receipt), chunk) is ReceiptPastPrefix <==> chunk.start_seq < next_seq
            && receipt.end_seq > next_seq,
{
}

/// Every registered transaction can go on: whatever was committed, the chunk that starts at the end
/// of the prefix and ends inside the manifest is applied.
pub proof fn law_the_next_chunk_is_applied(
    ledger: Ledger,
    record_count: u64,
    chunk: DataChunkIdentity,
)
    requires
        ledger.contiguous(),
        ledger.next_seq < chunk.end_seq <= record_count,
        chunk.start_seq == ledger.next_seq,
        record_count <= i64::MAX,
    ensures
        chunk_fault(record_count, chunk) is None,
        verdict(ledger.next_seq, ledger.find(chunk.start_seq), chunk) is Apply,
{
}

/// A transaction is complete exactly where its registered manifest is the given one and every one
/// of its records is committed.
pub proof fn law_when_a_transaction_is_complete(
    manifest: TransactionChunkManifest,
    progress: StoredProgress,
)
    ensures
        completion_fault(manifest, Some(progress)) is None <==> {
            &&& manifest_difference(progress.manifest, manifest) is None
            &&& progress.next_seq == manifest.record_count
        },
        completion_fault(manifest, None) is Some,
{
}

/// A checkpoint is published for a manifest exactly where it speaks of the manifest's source and of
/// its end.
pub proof fn law_which_checkpoints_are_published(
    manifest: TransactionChunkManifest,
    checkpoint: NodeCheckpoint,
)
    ensures
        publication_fault(manifest, checkpoint) is None <==> {
            &&& checkpoint.key.pipeline_id == manifest.key.pipeline_id
            &&& checkpoint.key.topology_generation == manifest.key.topology_generation
            &&& checkpoint.key.node_id == manifest.key.node_id
            &&& checkpoint.system_identifier == manifest.system_identifier
            &&& checkpoint.timeline == manifest.timeline
            &&& checkpoint.slot_name@ == manifest.slot_name@
            &&& checkpoint.applied_lsn == manifest.key.end_lsn
        },
{
}

/// A stored progress row has a meaning exactly where each of its columns does and the prefix does
/// not reach beyond the records.
pub proof fn law_which_progress_rows_have_a_meaning(row: ProgressRow)
    ensures
        progress_row_fault(row) is None <==> {
            &&& row.topology_generation >= 0
            &&& parsed_lsn(row.end_lsn@) is Some
            &&& unsigned_number(row.system_identifier@, u64::MAX as nat) is Some
            &&& 0 <= row.timeline <= u32::MAX
            &&& 0 <= row.xid <= u32::MAX
            &&& 0 <= row.manifest_version <= u16::MAX
            &&& 0 <= row.next_seq <= row.record_count
            &&& row.manifest_digest@.len() == 32
        },
{
}

/// How a locked manifest goes on: a registered one with the same fields resumes at its position,
/// under the caller's token; one with other fields is refused; and for one that is not registered
/// the checkpoint decides.
pub proof fn law_how_a_manifest_goes_on(
    fence: PipelineFence,
    manifest: TransactionChunkManifest,
    progress: StoredProgress,
    r: Result<ProgressStep, ChunkLedgerError>,
    absent: Result<ProgressStep, ChunkLedgerError>,
)
    requires
        call_ensures(judge_progress, (fence, &manifest, Some(&progress)), r),
        call_ensures(judge_progress, (fence, &manifest, None), absent),
    ensures
        absent == Ok::<ProgressStep, ChunkLedgerError>(ProgressStep::ConsultCheckpoint),
        manifest_difference(progress.manifest, manifest) is None <==> r is Ok,
        r matches Ok(step) ==> step == (ProgressStep::Resume {
            next_seq: progress.next_seq,
            adopt_fence: progress.fencing_token != fence.fencing_token,
        }),
{
}

/// A manifest is covered exactly where the checkpoint of its source stands at its end or beyond.
pub proof fn law_which_manifests_are_covered(
    manifest: TransactionChunkManifest,
    current: StoredNodeCheckpoint,
    r: Result<Option<PgLsn>, ChunkLedgerError>,
    absent: Result<Option<PgLsn>, ChunkLedgerError>,
)
    requires
        call_ensures(manifest_checkpoint_reached, (&manifest, Some(&current)), r),
        call_ensures(manifest_checkpoint_reached, (&manifest, None), absent),
        crate::checkpoint::checkpoint_fault(manifest.checkpoint()) is None,
    ensures
        absent == Ok::<Option<PgLsn>, ChunkLedgerError>(None),
        ({
            let same = crate::checkpoint::same_source(current.checkpoint, manifest.checkpoint());
            let covered = manifest.key.end_lsn.value <= current.checkpoint.applied_lsn.value;
            &&& !same ==> r is Err
            &&& same && covered ==> r == Ok::<Option<PgLsn>, ChunkLedgerError>(
                Some(current.checkpoint.applied_lsn),
            )
            &&& same && !covered ==> r == Ok::<Option<PgLsn>, ChunkLedgerError>(None)
        }),
{
}

/// What is decided about a chunk: the one at the durable position is prepared as it is, a committed
/// one is recognised, one that was cut differently resumes at the durable position, and a gap, a
/// receipt behind the prefix or another digest is refused.
pub proof fn law_decided_chunks(
    fence: PipelineFence,
    manifest: TransactionChunkManifest,
    next_seq: u64,
    receipt: StoredCommittedChunk,
    chunk: DataChunkIdentity,
    r: Result<PrepareDataChunkOutcome, ChunkLedgerError>,
)
    requires
        call_ensures(decide_chunk, (fence, &manifest, next_seq, Some(&receipt), chunk), r),
    ensures
        chunk.start_seq == next_seq ==> (r matches Ok(PrepareDataChunkOutcome::Apply(prepared))
            && prepared.prepared_chunk() == chunk && prepared.prepared_key() == manifest.key
            && prepared.prepared_fence() == fence && prepared.prepared_digest()
            == manifest.manifest_digest@),
        chunk.start_seq > next_seq ==> r is Err,
        chunk.start_seq < next_seq && receipt.end_seq > next_seq ==> r is Err,
        chunk.start_seq < next_seq && receipt.end_seq <= next_seq && receipt.end_seq
            != chunk.end_seq ==> r == Ok::<PrepareDataChunkOutcome, ChunkLedgerError>(
            PrepareDataChunkOutcome::ResumeAt { next_seq },
        ),
        chunk.start_seq < next_seq && receipt.end_seq <= next_seq && receipt.end_seq
            == chunk.end_seq && receipt.digest@ == chunk.digest@ ==> r == Ok::<
            PrepareDataChunkOutcome,
            ChunkLedgerError,
        >(PrepareDataChunkOutcome::AlreadyCommitted { next_seq }),
        chunk.start_seq < next_seq && receipt.end_seq <= next_seq && receipt.end_seq
            == chunk.end_seq && receipt.digest@ != chunk.digest@ ==> r is Err,
{
}

/// A completion is proven exactly from a registered manifest that is the given one and whose
/// records are all committed, and it carries that manifest and the fence.
pub proof fn law_proven_completions(
    fence: PipelineFence,
    manifest: TransactionChunkManifest,
    progress: StoredProgress,
    r: Result<PreparedTransactionCompletion, ChunkLedgerError>,
    unregistered: Result<PreparedTransactionCompletion, ChunkLedgerError>,
)
    requires
        call_ensures(prove_completion, (fence, &manifest, Some(&progress)), r),
        call_ensures(prove_completion, (fence, &manifest, None::<&StoredProgress>), unregistered),
    ensures
        unregistered == Err::<PreparedTransactionCompletion, ChunkLedgerError>(
            ChunkLedgerError::MissingProgress,
        ),
        r is Ok <==> {
            &&& manifest_difference(progress.manifest, manifest) is None
            &&& progress.next_seq == manifest.record_count
        },
        r matches Ok(completion) ==> completion.completed_fence() == fence
            && completion.completed_manifest() == manifest,
        manifest_difference(progress.manifest, manifest) is None && progress.next_seq
            != manifest.record_count ==> r == Err::<
            PreparedTransactionCompletion,
            ChunkLedgerError,
        >(
            ChunkLedgerError::IncompleteTransaction {
                next_seq: progress.next_seq,
                record_count: manifest.record_count,
            },
        ),
{
}

/// A completed transaction publishes a checkpoint exactly where the checkpoint speaks of its
/// source and its end and the locked progress still holds all of its records.
pub proof fn law_decided_publications(
    completion: PreparedTransactionCompletion,
    checkpoint: NodeCheckpoint,
    progress: StoredProgress,
    r: Result<(), ChunkLedgerError>,
)
    requires
        call_ensures(judge_publication, (&completion, &checkpoint, Some(&progress)), r),
    ensures
        r is Ok <==> {
            &&& checkpoint.key.pipeline_id == completion.completed_manifest().key.pipeline_id
            &&& checkpoint.key.topology_generation
                == completion.completed_manifest().key.topology_generation
            &&& checkpoint.key.node_id == completion.completed_manifest().key.node_id
            &&& checkpoint.system_identifier == completion.completed_manifest().system_identifier
            &&& checkpoint.timeline == completion.completed_manifest().timeline
            &&& checkpoint.slot_name@ == completion.completed_manifest().slot_name@
            &&& checkpoint.applied_lsn == completion.completed_manifest().key.end_lsn
            &&& manifest_difference(progress.manifest, completion.completed_manifest()) is None
            &&& progress.next_seq == completion.completed_manifest().record_count
        },
{
}

/// A retired transaction leaves nothing behind: its one progress row is deleted, and receipts
/// exactly where it had records.
pub proof fn law_what_is_retired(
    record_count: u64,
    deleted_chunks: u64,
    deleted_progress: u64,
    r: Result<(), ChunkLedgerError>,
)
    requires
        call_ensures(ensure_retirement_counts, (record_count, deleted_chunks, deleted_progress), r),
    ensures
        r is Ok ==> deleted_progress == 1,
        r is Ok && record_count > 0 ==> deleted_chunks > 0,
        r is Ok && record_count == 0 ==> deleted_chunks == 0,
        deleted_progress == 1 && record_count > 0 && deleted_chunks > 0 ==> r is Ok,
        deleted_progress == 1 && record_count == 0 && deleted_chunks == 0 ==> r is Ok,
{
}

/// Sequence numbers are stored as they are, exactly where the database can hold them.
pub proof fn law_stored_sequences(field: &'static str, value: u64, r: Result<i64, ChunkLedgerError>)
    requires
        call_ensures(database_sequence, (field, value), r),
    ensures
        r is Ok <==> value <= i64::MAX,
        r matches Ok(stored) ==> stored as int == value as int,
{
}

/// The receipt of a prepared chunk stores its range, its digest and the digest of its manifest
/// under the fence that prepared it.
pub proof fn law_stored_receipts(
    prepared: PreparedDataChunk,
    r: Result<ChunkParameters, ChunkLedgerError>,
)
    requires
        call_ensures(chunk_parameters, (&prepared,), r),
        prepared.prepared_key().topology_generation <= i64::MAX,
        prepared.prepared_chunk().start_seq <= i64::MAX,
        prepared.prepared_chunk().end_seq <= i64::MAX,
    ensures
        r matches Ok(stored) && {
            &&& stored.start_seq as int == prepared.prepared_chunk().start_seq as int
            &&& stored.end_seq as int == prepared.prepared_chunk().end_seq as int
            &&& stored.chunk_digest == prepared.prepared_chunk().digest
            &&& stored.manifest_digest@ == prepared.prepared_digest()
            &&& stored.fencing_token == prepared.prepared_fence().fencing_token
        },
{
}

/// What is told of a manifest that cannot be registered is so.
pub proof fn law_told_faults_of_manifests(fence: PipelineFence, manifest: TransactionChunkManifest)
    ensures
        manifest_fault(fence, manifest) matches Some(e) ==> {
            ||| e == ChunkLedgerError::GenerationOutOfRange(manifest.key.topology_generation)
                && manifest.key.topology_generation > i64::MAX
            ||| (e matches ChunkLedgerError::SequenceOutOfRange { field, value } && field@
                == "record_count"@ && value == manifest.record_count && value > i64::MAX)
            ||| e is FenceKeyMismatch && (manifest.key.pipeline_id != fence.pipeline_id
                || manifest.key.topology_generation != fence.topology_generation)
            ||| e is InvalidEndLsn && manifest.key.end_lsn.value == 0
            ||| e is InvalidTimeline && manifest.timeline == 0
            ||| e is InvalidSlotName && (manifest.slot_name@.len() == 0
                || manifest.slot_name@.contains('\0'))
            ||| e is InvalidXid && manifest.xid == 0
            ||| e is InvalidManifestVersion && manifest.manifest_version == 0
        },
{
}

/// What is told of a chunk that does not fit its manifest is so.
pub proof fn law_told_faults_of_chunks(record_count: u64, chunk: DataChunkIdentity)
    ensures
        chunk_fault(record_count, chunk) matches Some(e) ==> {
            ||| (e matches ChunkLedgerError::SequenceOutOfRange { field, value } && field@
                == "start_seq"@ && value == chunk.start_seq && value > i64::MAX)
            ||| (e matches ChunkLedgerError::SequenceOutOfRange { field, value } && field@
                == "end_seq"@ && value == chunk.end_seq && value > i64::MAX)
            ||| e is EmptyChunk && chunk.start_seq >= chunk.end_seq
            ||| e == (ChunkLedgerError::ChunkPastManifest { end_seq: chunk.end_seq, record_count })
                && chunk.end_seq > record_count
        },
{
}

/// A named difference between two manifests is one.
pub proof fn law_named_differences_of_manifests(
    current: TransactionChunkManifest,
    proposed: TransactionChunkManifest,
)
    ensures
        manifest_difference(current, proposed) matches Some(field) ==> {
            ||| field@ == "key"@ && current.key != proposed.key
            ||| field@ == "system_identifier"@ && current.system_identifier
                != proposed.system_identifier
            ||| field@ == "timeline"@ && current.timeline != proposed.timeline
            ||| field@ == "slot_name"@ && current.slot_name@ != proposed.slot_name@
            ||| field@ == "xid"@ && current.xid != proposed.xid
            ||| field@ == "manifest_version"@ && current.manifest_version
                != proposed.manifest_version
            ||| field@ == "record_count"@ && current.record_count != proposed.record_count
            ||| field@ == "manifest_digest"@ && current.manifest_digest@ != proposed.manifest_digest@
        },
{
}

/// What is told of a checkpoint that is not published is so: it is of another source, or at another
/// position than the end of the transaction.
pub proof fn law_told_faults_of_publications(
    manifest: TransactionChunkManifest,
    checkpoint: NodeCheckpoint,
)
    ensures
        publication_fault(manifest, checkpoint) matches Some(e) ==> {
            ||| e is CheckpointIdentityMismatch && {
                ||| checkpoint.key.pipeline_id != manifest.key.pipeline_id
                ||| checkpoint.key.topology_generation != manifest.key.topology_generation
                ||| checkpoint.key.node_id != manifest.key.node_id
                ||| checkpoint.system_identifier != manifest.system_identifier
                ||| checkpoint.timeline != manifest.timeline
                ||| checkpoint.slot_name@ != manifest.slot_name@
            }
            ||| e == (ChunkLedgerError::CheckpointLsnMismatch {
                checkpoint_lsn: checkpoint.applied_lsn,
                end_lsn: manifest.key.end_lsn,
            }) && checkpoint.applied_lsn != manifest.key.end_lsn
        },
{
}

} // verus!
