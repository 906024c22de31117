//! Durable per-table progress for bounded snapshot COPY pages.
//!
//! A cursor is the source primary key in ordinal order, encoded with PostgreSQL's canonical text
//! output functions. A page's COPY and its progress update belong to one transaction, so committing
//! one without the other is impossible. Persisted progress may be reused only after the caller has
//! proved that its source snapshot and slot boundary are valid for the registered group.

use crate::checkpoint::{PersistedFault, PipelineFence};
use crate::digest::{
    be_bytes, digest_from, frameable, framed, law_framing_is_unambiguous, push_field, same_digest,
    sha256, sha256_digest,
};
use crate::ident::{big_endian, law_big_endian_differs, pow256, PipelineId, Uuid};
use crate::schema::SchemaError;
use crate::snapshot::manifest::{
    is_member, judge_shadow_load, refuses_member, SnapshotGroupStatus, StoredSnapshotGroup,
};
use crate::snapshot::{
    database_generation, identity_matches, is_group, refuses_fence, refuses_owner, refuses_target,
    target_loadable, validate_managed_fence, validate_managed_identity, validate_target_for_load,
    ManagedTableRecord, ManagedTableState, RelationState, SnapshotActivationTable,
    SnapshotOwnership, SnapshotTargetError, SnapshotTargetPlan,
};
use crate::source::{clone_texts, CoreError, NameView, QualifiedName};
use crate::text::{
    contains_char, decimal, render_decimal, render_signed, same_text, same_texts, signed_decimal,
    texts,
};
use vstd::prelude::*;
use vstd::utf8::{encode_utf8, encode_utf8_decode_utf8};

verus! {

pub const SNAPSHOT_CURSOR_FORMAT_VERSION: u16 = 1;

pub const SNAPSHOT_PROGRESS_VERSION: u16 = 1;

pub const LOCK_SNAPSHOT_TABLE_PROGRESS_SQL: &'static str = r#"
SELECT snapshot_group_id, target_schema, target_table, shadow_schema, shadow_table,
       pipeline_id, topology_generation, shadow_relation_oid, source_relation_id,
       table_generation, schema_fingerprint, cursor_format_version, primary_key_arity,
       cursor_values, cursor_digest, completed, pages_copied, rows_copied, fencing_token
FROM pg2cb_meta.snapshot_table_progress
WHERE snapshot_group_id = $1 AND target_schema = $2 AND target_table = $3
FOR UPDATE
"#;

pub const LOCK_SNAPSHOT_GROUP_PROGRESS_SQL: &'static str = r#"
SELECT snapshot_group_id, target_schema, target_table, shadow_schema, shadow_table,
       pipeline_id, topology_generation, shadow_relation_oid, source_relation_id,
       table_generation, schema_fingerprint, cursor_format_version, primary_key_arity,
       cursor_values, cursor_digest, completed, pages_copied, rows_copied, fencing_token
FROM pg2cb_meta.snapshot_table_progress
WHERE snapshot_group_id = $1
ORDER BY target_schema, target_table
FOR UPDATE
"#;

pub const INSERT_SNAPSHOT_TABLE_PROGRESS_SQL: &'static str = r#"
INSERT INTO pg2cb_meta.snapshot_table_progress (
    snapshot_group_id, target_schema, target_table, shadow_schema, shadow_table,
    pipeline_id, topology_generation, shadow_relation_oid, source_relation_id,
    table_generation, schema_fingerprint, cursor_format_version, primary_key_arity,
    cursor_values, cursor_digest, completed, pages_copied, rows_copied, fencing_token
)
VALUES ($1, $2, $3, $4, $5, $6, $7, $8, $9, $10, $11, $12, $13,
        $14, $15, false, 0, 0, $16)
"#;

pub const ADVANCE_SNAPSHOT_TABLE_PROGRESS_SQL: &'static str = r#"
UPDATE pg2cb_meta.snapshot_table_progress
SET cursor_values = $4,
    cursor_digest = $5,
    completed = $6,
    pages_copied = $7,
    rows_copied = $8,
    updated_at = clock_timestamp(),
    completed_at = CASE WHEN $6 THEN clock_timestamp() ELSE NULL END
WHERE snapshot_group_id = $1 AND target_schema = $2 AND target_table = $3
  AND shadow_relation_oid = $9
  AND cursor_values = $10 AND cursor_digest = $11
  AND completed = false AND pages_copied = $12 AND rows_copied = $13
  AND fencing_token = $14
"#;

pub const DELETE_SNAPSHOT_PROGRESS_FOR_SHADOW_SQL: &'static str = r#"
DELETE FROM pg2cb_meta.snapshot_table_progress
WHERE snapshot_group_id = $1 AND shadow_relation_oid = $2
"#;

pub const DELETE_SNAPSHOT_GROUP_PROGRESS_SQL: &'static str = r#"
DELETE FROM pg2cb_meta.snapshot_table_progress
WHERE snapshot_group_id = $1
"#;

/// Reads the number of primary-key columns of the relation `$1`.
pub const PHYSICAL_PRIMARY_KEY_ARITY_SQL: &'static str =
    "SELECT i.indnkeyatts::integer AS primary_key_arity
               FROM pg_catalog.pg_index AS i
              WHERE i.indrelid = $1::bigint::oid
                AND i.indisprimary";

/// Durable state for one table in a registered snapshot group.
#[derive(Debug, PartialEq, Eq)]
pub struct SnapshotTableProgress {
    pub fence: PipelineFence,
    pub snapshot_group_id: Uuid,
    pub target: QualifiedName,
    pub shadow: QualifiedName,
    pub shadow_relation_oid: i64,
    pub source_relation_id: u32,
    pub table_generation: u64,
    pub schema_fingerprint: String,
    pub cursor_format_version: u16,
    pub primary_key_arity: usize,
    pub cursor: Vec<String>,
    pub cursor_digest: [u8; 32],
    pub completed: bool,
    pub pages_copied: u64,
    pub rows_copied: u64,
}

/// The model of the progress of one table.
pub struct ProgressView {
    pub fence: PipelineFence,
    pub snapshot_group_id: Uuid,
    pub target: NameView,
    pub shadow: NameView,
    pub shadow_relation_oid: i64,
    pub source_relation_id: u32,
    pub table_generation: u64,
    pub schema_fingerprint: Seq<char>,
    pub cursor_format_version: u16,
    pub primary_key_arity: usize,
    pub cursor: Seq<Seq<char>>,
    pub cursor_digest: Seq<u8>,
    pub completed: bool,
    pub pages_copied: u64,
    pub rows_copied: u64,
}

impl View for SnapshotTableProgress {
    type V = ProgressView;

    open spec fn view(&self) -> ProgressView {
        ProgressView {
            fence: self.fence,
            snapshot_group_id: self.snapshot_group_id,
            target: self.target@,
            shadow: self.shadow@,
            shadow_relation_oid: self.shadow_relation_oid,
            source_relation_id: self.source_relation_id,
            table_generation: self.table_generation,
            schema_fingerprint: self.schema_fingerprint@,
            cursor_format_version: self.cursor_format_version,
            primary_key_arity: self.primary_key_arity,
            cursor: texts(self.cursor@),
            cursor_digest: self.cursor_digest@,
            completed: self.completed,
            pages_copied: self.pages_copied,
            rows_copied: self.rows_copied,
        }
    }
}

impl Clone for SnapshotTableProgress {
    fn clone(&self) -> (r: Self)
        ensures
            r@ == self@,
    {
        SnapshotTableProgress {
            fence: self.fence,
            snapshot_group_id: self.snapshot_group_id,
            target: self.target.clone(),
            shadow: self.shadow.clone(),
            shadow_relation_oid: self.shadow_relation_oid,
            source_relation_id: self.source_relation_id,
            table_generation: self.table_generation,
            schema_fingerprint: self.schema_fingerprint.clone(),
            cursor_format_version: self.cursor_format_version,
            primary_key_arity: self.primary_key_arity,
            cursor: clone_texts(self.cursor.as_slice()),
            cursor_digest: self.cursor_digest,
            completed: self.completed,
            pages_copied: self.pages_copied,
            rows_copied: self.rows_copied,
        }
    }
}

#[derive(Debug, Clone, PartialEq, Eq)]
pub enum SnapshotPageApplyOutcome {
    Applied(SnapshotTableProgress),
    ResumeAt(SnapshotTableProgress),
    AlreadyCompleted(SnapshotTableProgress),
}

impl SnapshotPageApplyOutcome {
    /// The progress that is durable after the page.
    pub open spec fn committed(self) -> SnapshotTableProgress {
        match self {
            SnapshotPageApplyOutcome::Applied(progress) => progress,
            SnapshotPageApplyOutcome::ResumeAt(progress) => progress,
            SnapshotPageApplyOutcome::AlreadyCompleted(progress) => progress,
        }
    }

    /// The progress that is durable after the page.
    pub fn progress(&self) -> (r: &SnapshotTableProgress)
        ensures
            *r == self.committed(),
    {
        match self {
            SnapshotPageApplyOutcome::Applied(progress) => progress,
            SnapshotPageApplyOutcome::ResumeAt(progress) => progress,
            SnapshotPageApplyOutcome::AlreadyCompleted(progress) => progress,
        }
    }
}

/// What the progress of a table must be bound to.
#[derive(Debug, Clone, PartialEq, Eq)]
pub struct SnapshotProgressIdentity {
    pub fence: PipelineFence,
    pub snapshot_group_id: Uuid,
    pub target: QualifiedName,
    pub shadow: QualifiedName,
    pub shadow_relation_oid: i64,
    pub source_relation_id: u32,
    pub table_generation: u64,
    pub schema_fingerprint: String,
    pub primary_key_arity: usize,
}

#[derive(Debug, Clone, PartialEq, Eq)]
pub struct CompletedSnapshotTableIdentity {
    pub table: SnapshotActivationTable,
    pub shadow_relation_oid: i64,
}

// ---------------------------------------------------------------------------------------------
// Cursors
// ---------------------------------------------------------------------------------------------

/// Every value can be stored as text.
pub open spec fn cursor_storable(cursor: Seq<Seq<char>>) -> bool {
    forall|i: int| 0 <= i < cursor.len() ==> !(#[trigger] cursor[i]).contains('\0')
}

/// Why a cursor does not fit the primary key, if it does not.
pub open spec fn cursor_fault(primary_key_arity: usize, cursor: Seq<Seq<char>>) -> Option<
    SnapshotTargetError,
> {
    if !cursor_storable(cursor) {
        Some(SnapshotTargetError::InvalidSnapshotCursorValue)
    } else if cursor.len() != 0 && cursor.len() != primary_key_arity {
        Some(
            SnapshotTargetError::SnapshotCursorArityMismatch {
                expected: primary_key_arity,
                actual: cursor.len() as usize,
            },
        )
    } else {
        None
    }
}

pub fn validate_cursor_values(cursor: &[String]) -> (r: Result<(), SnapshotTargetError>)
    ensures
        match r {
            Ok(()) => cursor_storable(texts(cursor@)),
            Err(e) => !cursor_storable(texts(cursor@)) && e
                == SnapshotTargetError::InvalidSnapshotCursorValue,
        },
{
    let ghost values = texts(cursor@);
    let mut i: usize = 0;
    while i < cursor.len()
        invariant
            i <= cursor.len(),
            values == texts(cursor@),
            forall|k: int| 0 <= k < i ==> !(#[trigger] values[k]).contains('\0'),
        decreases cursor.len() - i,
    {
        if contains_char(cursor[i].as_str(), '\0') {
            proof {
                assert(values[i as int].contains('\0'));
            }
            return Err(SnapshotTargetError::InvalidSnapshotCursorValue);
        }
        i = i + 1;
    }
    Ok(())
}

pub fn validate_cursor_arity(primary_key_arity: usize, cursor: &[String]) -> (r: Result<
    (),
    SnapshotTargetError,
>)
    ensures
        match r {
            Ok(()) => cursor_fault(primary_key_arity, texts(cursor@)) is None,
            Err(e) => cursor_fault(primary_key_arity, texts(cursor@)) == Some(e),
        },
{
    match validate_cursor_values(cursor) {
        Err(e) => return Err(e),
        Ok(()) => {},
    }
    if cursor.len() == 0 || cursor.len() == primary_key_arity {
        Ok(())
    } else {
        Err(
            SnapshotTargetError::SnapshotCursorArityMismatch {
                expected: primary_key_arity,
                actual: cursor.len(),
            },
        )
    }
}

/// What the digest covers before the values of the cursor.
pub open spec fn cursor_header(primary_key_arity: usize, schema_fingerprint: Seq<char>) -> Seq<
    Seq<u8>,
> {
    seq![
        encode_utf8("pg2cb-snapshot-cursor-v1"@),
        big_endian(SNAPSHOT_CURSOR_FORMAT_VERSION as nat, 2),
        big_endian(primary_key_arity as nat, 8),
        encode_utf8(schema_fingerprint),
    ]
}

/// What the digest covers of the values of the cursor.
pub open spec fn cursor_values(cursor: Seq<Seq<char>>) -> Seq<Seq<u8>> {
    Seq::new(cursor.len(), |i: int| encode_utf8(cursor[i]))
}

/// What the digest of a cursor covers, in order.
pub open spec fn cursor_fields(
    primary_key_arity: usize,
    schema_fingerprint: Seq<char>,
    cursor: Seq<Seq<char>>,
) -> Seq<Seq<u8>> {
    cursor_header(primary_key_arity, schema_fingerprint) + cursor_values(cursor)
}

/// The digest that binds a cursor to its format, key and schema.
pub open spec fn cursor_binding(
    primary_key_arity: usize,
    schema_fingerprint: Seq<char>,
    cursor: Seq<Seq<char>>,
) -> Seq<u8> {
    sha256(framed(cursor_fields(primary_key_arity, schema_fingerprint, cursor)))
}

fn bind_cursor(primary_key_arity: usize, schema_fingerprint: &str, cursor: &[String]) -> (r: [u8; 32])
    ensures
        r@ == cursor_binding(primary_key_arity, schema_fingerprint@, texts(cursor@)),
{
    let ghost header = cursor_header(primary_key_arity, schema_fingerprint@);
    let ghost values = texts(cursor@);
    let tag = "pg2cb-snapshot-cursor-v1".as_bytes();
    let version = be_bytes(SNAPSHOT_CURSOR_FORMAT_VERSION as u64, 2);
    let arity = be_bytes(primary_key_arity as u64, 8);
    let fingerprint = schema_fingerprint.as_bytes();
    let mut out: Vec<u8> = Vec::new();
    let ghost f0 = Seq::<Seq<u8>>::empty();
    let ghost f1 = f0.push(tag@);
    let ghost f2 = f1.push(version@);
    let ghost f3 = f2.push(arity@);
    push_field(&mut out, tag, Ghost(f0));
    push_field(&mut out, version.as_slice(), Ghost(f1));
    push_field(&mut out, arity.as_slice(), Ghost(f2));
    push_field(&mut out, fingerprint, Ghost(f3));
    proof {
        assert(f3.push(fingerprint@) =~= header);
        assert(header + cursor_values(values.take(0)) =~= header);
    }
    let mut i: usize = 0;
    while i < cursor.len()
        invariant
            i <= cursor.len(),
            values == texts(cursor@),
            out@ == framed(header + cursor_values(values.take(i as int))),
        decreases cursor.len() - i,
    {
        let ghost before = header + cursor_values(values.take(i as int));
        let value = cursor[i].as_str().as_bytes();
        push_field(&mut out, value, Ghost(before));
        proof {
            assert(before.push(value@) =~= header + cursor_values(values.take(i + 1)));
        }
        i = i + 1;
    }
    proof {
        assert(values.take(i as int) =~= values);
    }
    sha256_digest(out.as_slice())
}

/// The digest of a cursor that fits the primary key.
pub fn cursor_digest(primary_key_arity: usize, schema_fingerprint: &str, cursor: &[String]) -> (r:
    Result<[u8; 32], SnapshotTargetError>)
    ensures
        match r {
            Ok(digest) => {
                &&& cursor_fault(primary_key_arity, texts(cursor@)) is None
                &&& digest@ == cursor_binding(
                    primary_key_arity,
                    schema_fingerprint@,
                    texts(cursor@),
                )
            },
            Err(e) => cursor_fault(primary_key_arity, texts(cursor@)) == Some(e),
        },
{
    match validate_cursor_arity(primary_key_arity, cursor) {
        Err(e) => Err(e),
        Ok(()) => Ok(bind_cursor(primary_key_arity, schema_fingerprint, cursor)),
    }
}

// ---------------------------------------------------------------------------------------------
// The contract of stored progress
// ---------------------------------------------------------------------------------------------

/// The error names the table and the column and shows the value.
pub open spec fn progress_reports(
    e: SnapshotTargetError,
    table: NameView,
    fault: Option<PersistedFault>,
) -> bool {
    e matches SnapshotTargetError::InvalidSnapshotProgressValue { table: t, field, value } && t@
        == table.text() && fault == Some((field, value@))
}

fn invalid_progress_value(table: &QualifiedName, field: &'static str, value: String) -> (r:
    SnapshotTargetError)
    ensures
        progress_reports(r, table@, Some((field, value@))),
{
    SnapshotTargetError::InvalidSnapshotProgressValue { table: table.display(), field, value }
}

/// The progress is one that this library writes.
pub open spec fn contract_holds(progress: ProgressView) -> bool {
    &&& progress.cursor_format_version == SNAPSHOT_CURSOR_FORMAT_VERSION
    &&& cursor_fault(progress.primary_key_arity, progress.cursor) is None
    &&& progress.cursor_digest == cursor_binding(
        progress.primary_key_arity,
        progress.schema_fingerprint,
        progress.cursor,
    )
    &&& progress.completed ==> progress.pages_copied > 0
}

/// The error tells why the progress is not one that this library writes.
pub open spec fn refuses_contract(e: SnapshotTargetError, progress: ProgressView) -> bool {
    if progress.cursor_format_version != SNAPSHOT_CURSOR_FORMAT_VERSION {
        progress_reports(
            e,
            progress.target,
            Some(("cursor_format_version", decimal(progress.cursor_format_version as nat))),
        )
    } else if cursor_fault(progress.primary_key_arity, progress.cursor) is Some {
        cursor_fault(progress.primary_key_arity, progress.cursor) == Some(e)
    } else if progress.cursor_digest != cursor_binding(
        progress.primary_key_arity,
        progress.schema_fingerprint,
        progress.cursor,
    ) {
        e matches SnapshotTargetError::SnapshotCursorDigestMismatch(t) && t@
            == progress.target.text()
    } else {
        progress_reports(
            e,
            progress.target,
            Some(("completed_pages_copied", decimal(progress.pages_copied as nat))),
        )
    }
}

pub fn validate_progress_contract(progress: &SnapshotTableProgress) -> (r: Result<
    (),
    SnapshotTargetError,
>)
    ensures
        match r {
            Ok(()) => contract_holds(progress@),
            Err(e) => !contract_holds(progress@) && refuses_contract(e, progress@),
        },
{
    if progress.cursor_format_version != SNAPSHOT_CURSOR_FORMAT_VERSION {
        return Err(
            invalid_progress_value(
                &progress.target,
                "cursor_format_version",
                render_decimal(progress.cursor_format_version as u64),
            ),
        );
    }
    let expected = match cursor_digest(
        progress.primary_key_arity,
        progress.schema_fingerprint.as_str(),
        progress.cursor.as_slice(),
    ) {
        Err(e) => return Err(e),
        Ok(digest) => digest,
    };
    if !same_digest(&progress.cursor_digest, &expected) {
        return Err(
            SnapshotTargetError::SnapshotCursorDigestMismatch(progress.target.display()),
        );
    }
    if progress.completed && progress.pages_copied == 0 {
        return Err(
            invalid_progress_value(
                &progress.target,
                "completed_pages_copied",
                render_decimal(progress.pages_copied),
            ),
        );
    }
    Ok(())
}

/// The page may follow the current progress.
pub open spec fn page_follows(
    current: ProgressView,
    next_cursor: Seq<Seq<char>>,
    completed: bool,
) -> bool {
    &&& cursor_fault(current.primary_key_arity, next_cursor) is None
    &&& completed || (current.primary_key_arity != 0 && current.cursor != next_cursor)
}

/// The error tells why the page may not follow.
pub open spec fn refuses_page(
    e: SnapshotTargetError,
    current: ProgressView,
    next_cursor: Seq<Seq<char>>,
    completed: bool,
) -> bool {
    if cursor_fault(current.primary_key_arity, next_cursor) is Some {
        cursor_fault(current.primary_key_arity, next_cursor) == Some(e)
    } else if current.primary_key_arity == 0 {
        e matches SnapshotTargetError::SnapshotPaginationRequiresPrimaryKey(t) && t@
            == current.target.text()
    } else {
        e matches SnapshotTargetError::SnapshotCursorDidNotAdvance(t) && t@
            == current.target.text()
    }
}

pub fn validate_page_intent(
    current: &SnapshotTableProgress,
    next_cursor: &[String],
    completed: bool,
) -> (r: Result<(), SnapshotTargetError>)
    ensures
        match r {
            Ok(()) => page_follows(current@, texts(next_cursor@), completed),
            Err(e) => !page_follows(current@, texts(next_cursor@), completed) && refuses_page(
                e,
                current@,
                texts(next_cursor@),
                completed,
            ),
        },
{
    match validate_cursor_arity(current.primary_key_arity, next_cursor) {
        Err(e) => return Err(e),
        Ok(()) => {},
    }
    if !completed && current.primary_key_arity == 0 {
        return Err(
            SnapshotTargetError::SnapshotPaginationRequiresPrimaryKey(current.target.display()),
        );
    }
    if !completed && same_texts(current.cursor.as_slice(), next_cursor) {
        return Err(SnapshotTargetError::SnapshotCursorDidNotAdvance(current.target.display()));
    }
    Ok(())
}

/// The copied page may be recorded.
pub open spec fn advance_allowed(
    current: ProgressView,
    next_cursor: Seq<Seq<char>>,
    copied_rows: u64,
    completed: bool,
) -> bool {
    &&& page_follows(current, next_cursor, completed)
    &&& copied_rows == 0 ==> completed && current.cursor == next_cursor
    &&& current.pages_copied + 1 <= i64::MAX
    &&& current.rows_copied + copied_rows <= i64::MAX
}

/// The error tells why the copied page may not be recorded.
pub open spec fn refuses_advance(
    e: SnapshotTargetError,
    current: ProgressView,
    next_cursor: Seq<Seq<char>>,
    copied_rows: u64,
    completed: bool,
) -> bool {
    let pages = current.pages_copied + 1;
    let rows = current.rows_copied + copied_rows;
    if !page_follows(current, next_cursor, completed) {
        refuses_page(e, current, next_cursor, completed)
    } else if copied_rows == 0 && !completed {
        e matches SnapshotTargetError::EmptyIncompleteSnapshotPage(t) && t@
            == current.target.text()
    } else if copied_rows == 0 && current.cursor != next_cursor {
        e matches SnapshotTargetError::SnapshotCursorAdvancedWithoutRows(t) && t@
            == current.target.text()
    } else if pages > u64::MAX || rows > u64::MAX {
        e matches SnapshotTargetError::SnapshotProgressCounterOverflow(t) && t@
            == current.target.text()
    } else if pages > i64::MAX {
        e == (SnapshotTargetError::SnapshotProgressValueOutOfRange {
            field: "pages_copied",
            value: pages as u64,
        })
    } else {
        e == (SnapshotTargetError::SnapshotProgressValueOutOfRange {
            field: "rows_copied",
            value: rows as u64,
        })
    }
}

/// The progress after the page.
pub open spec fn advanced(
    current: ProgressView,
    next_cursor: Seq<Seq<char>>,
    copied_rows: u64,
    completed: bool,
) -> ProgressView {
    ProgressView {
        cursor: next_cursor,
        cursor_digest: cursor_binding(
            current.primary_key_arity,
            current.schema_fingerprint,
            next_cursor,
        ),
        completed,
        pages_copied: (current.pages_copied + 1) as u64,
        rows_copied: (current.rows_copied + copied_rows) as u64,
        ..current
    }
}

pub fn database_count(field: &'static str, value: u64) -> (r: Result<i64, SnapshotTargetError>)
    ensures
        match r {
            Ok(count) => value <= i64::MAX && count == value,
            Err(e) => value > i64::MAX && e
                == (SnapshotTargetError::SnapshotProgressValueOutOfRange { field, value }),
        },
{
    if value <= i64::MAX as u64 {
        Ok(value as i64)
    } else {
        Err(SnapshotTargetError::SnapshotProgressValueOutOfRange { field, value })
    }
}

pub fn database_arity(value: usize) -> (r: Result<i32, SnapshotTargetError>)
    ensures
        match r {
            Ok(arity) => value <= i32::MAX && arity == value,
            Err(e) => value > i32::MAX && e == SnapshotTargetError::SnapshotCursorArityOutOfRange(
                value,
            ),
        },
{
    if value <= i32::MAX as usize {
        Ok(value as i32)
    } else {
        Err(SnapshotTargetError::SnapshotCursorArityOutOfRange(value))
    }
}

/// Records a copied page in the progress of its table.
pub fn advance_progress(
    current: &SnapshotTableProgress,
    next_cursor: Vec<String>,
    copied_rows: u64,
    completed: bool,
) -> (r: Result<SnapshotTableProgress, SnapshotTargetError>)
    ensures
        match r {
            Ok(next) => {
                &&& advance_allowed(current@, texts(next_cursor@), copied_rows, completed)
                &&& next@ == advanced(current@, texts(next_cursor@), copied_rows, completed)
            },
            Err(e) => {
                &&& !advance_allowed(current@, texts(next_cursor@), copied_rows, completed)
                &&& refuses_advance(e, current@, texts(next_cursor@), copied_rows, completed)
            },
        },
{
    match validate_page_intent(current, next_cursor.as_slice(), completed) {
        Err(e) => return Err(e),
        Ok(()) => {},
    }
    if copied_rows == 0 && !completed {
        return Err(SnapshotTargetError::EmptyIncompleteSnapshotPage(current.target.display()));
    }
    if copied_rows == 0 && !same_texts(current.cursor.as_slice(), next_cursor.as_slice()) {
        return Err(
            SnapshotTargetError::SnapshotCursorAdvancedWithoutRows(current.target.display()),
        );
    }
    let pages_copied = match current.pages_copied.checked_add(1) {
        None => {
            return Err(
                SnapshotTargetError::SnapshotProgressCounterOverflow(current.target.display()),
            );
        },
        Some(pages) => pages,
    };
    let rows_copied = match current.rows_copied.checked_add(copied_rows) {
        None => {
            return Err(
                SnapshotTargetError::SnapshotProgressCounterOverflow(current.target.display()),
            );
        },
        Some(rows) => rows,
    };
    match database_count("pages_copied", pages_copied) {
        Err(e) => return Err(e),
        Ok(_) => {},
    }
    match database_count("rows_copied", rows_copied) {
        Err(e) => return Err(e),
        Ok(_) => {},
    }
    let mut next = current.clone();
    next.cursor_digest = match cursor_digest(
        next.primary_key_arity,
        next.schema_fingerprint.as_str(),
        next_cursor.as_slice(),
    ) {
        Err(e) => return Err(e),
        Ok(digest) => digest,
    };
    next.cursor = next_cursor;
    next.completed = completed;
    next.pages_copied = pages_copied;
    next.rows_copied = rows_copied;
    Ok(next)
}

/// The parameters of the statement that advances stored progress: the new counters, and those
/// that the row must still have.
#[derive(Debug, Clone, Copy, PartialEq, Eq, Structural)]
pub struct AdvanceParameters {
    pub pages_copied: i64,
    pub rows_copied: i64,
    pub previous_pages: i64,
    pub previous_rows: i64,
}

/// Why progress cannot be stored, if it cannot.
pub open spec fn counter_fault(next: ProgressView, previous: ProgressView) -> Option<
    SnapshotTargetError,
> {
    if next.pages_copied > i64::MAX {
        Some(
            SnapshotTargetError::SnapshotProgressValueOutOfRange {
                field: "pages_copied",
                value: next.pages_copied,
            },
        )
    } else if next.rows_copied > i64::MAX {
        Some(
            SnapshotTargetError::SnapshotProgressValueOutOfRange {
                field: "rows_copied",
                value: next.rows_copied,
            },
        )
    } else if previous.pages_copied > i64::MAX {
        Some(
            SnapshotTargetError::SnapshotProgressValueOutOfRange {
                field: "pages_copied",
                value: previous.pages_copied,
            },
        )
    } else if previous.rows_copied > i64::MAX {
        Some(
            SnapshotTargetError::SnapshotProgressValueOutOfRange {
                field: "rows_copied",
                value: previous.rows_copied,
            },
        )
    } else {
        None
    }
}

/// Gives the parameters that advance stored progress.
pub fn advance_parameters(previous: &SnapshotTableProgress, next: &SnapshotTableProgress) -> (r:
    Result<AdvanceParameters, SnapshotTargetError>)
    ensures
        match r {
            Ok(parameters) => {
                &&& counter_fault(next@, previous@) is None
                &&& parameters.pages_copied == next.pages_copied
                &&& parameters.rows_copied == next.rows_copied
                &&& parameters.previous_pages == previous.pages_copied
                &&& parameters.previous_rows == previous.rows_copied
            },
            Err(e) => counter_fault(next@, previous@) == Some(e),
        },
{
    let pages_copied = match database_count("pages_copied", next.pages_copied) {
        Err(e) => return Err(e),
        Ok(count) => count,
    };
    let rows_copied = match database_count("rows_copied", next.rows_copied) {
        Err(e) => return Err(e),
        Ok(count) => count,
    };
    let previous_pages = match database_count("pages_copied", previous.pages_copied) {
        Err(e) => return Err(e),
        Ok(count) => count,
    };
    let previous_rows = match database_count("rows_copied", previous.rows_copied) {
        Err(e) => return Err(e),
        Ok(count) => count,
    };
    Ok(AdvanceParameters { pages_copied, rows_copied, previous_pages, previous_rows })
}

/// Progress that another worker changed meanwhile is not advanced.
pub fn ensure_progress_advanced(table: &QualifiedName, written: u64) -> (r: Result<
    (),
    SnapshotTargetError,
>)
    ensures
        match r {
            Ok(()) => written == 1,
            Err(e) => written != 1 && (e matches SnapshotTargetError::SnapshotProgressChanged(t)
                && t@ == table@.text()),
        },
{
    if written == 1 {
        Ok(())
    } else {
        Err(SnapshotTargetError::SnapshotProgressChanged(table.display()))
    }
}

// ---------------------------------------------------------------------------------------------
// Pages
// ---------------------------------------------------------------------------------------------

/// What is done about a page.
#[derive(Debug, Clone, Copy, PartialEq, Eq, Structural)]
pub enum PageStep {
    /// The table is complete.
    AlreadyCompleted,
    /// The durable cursor is elsewhere: the caller resumes there, nothing is copied.
    ResumeAt,
    Copy,
}

/// What is done about a page that was derived from the expected cursor.
pub open spec fn page_step(current: ProgressView, expected: Seq<Seq<char>>) -> PageStep {
    if current.completed {
        PageStep::AlreadyCompleted
    } else if current.cursor != expected {
        PageStep::ResumeAt
    } else {
        PageStep::Copy
    }
}

/// Checks the cursors of a page before anything is locked.
pub fn check_page_cursors(expected_cursor: &[String], next_cursor: &[String]) -> (r: Result<
    (),
    SnapshotTargetError,
>)
    ensures
        match r {
            Ok(()) => cursor_storable(texts(expected_cursor@)) && cursor_storable(
                texts(next_cursor@),
            ),
            Err(e) => {
                &&& !cursor_storable(texts(expected_cursor@)) || !cursor_storable(
                    texts(next_cursor@),
                )
                &&& e == SnapshotTargetError::InvalidSnapshotCursorValue
            },
        },
{
    match validate_cursor_values(expected_cursor) {
        Err(e) => return Err(e),
        Ok(()) => {},
    }
    validate_cursor_values(next_cursor)
}

/// Decides what is done about a page, given the locked progress of its table.
///
/// A lost commit response is resolved before COPY: progress that has already advanced makes the
/// caller resume without sending any bytes.
pub fn judge_page(
    current: &SnapshotTableProgress,
    expected_cursor: &[String],
    next_cursor: &[String],
    completed: bool,
) -> (r: Result<PageStep, SnapshotTargetError>)
    ensures
        match r {
            Ok(step) => {
                &&& contract_holds(current@)
                &&& step == page_step(current@, texts(expected_cursor@))
                &&& step == PageStep::Copy ==> page_follows(
                    current@,
                    texts(next_cursor@),
                    completed,
                )
            },
            Err(e) => if !contract_holds(current@) {
                refuses_contract(e, current@)
            } else {
                &&& page_step(current@, texts(expected_cursor@)) == PageStep::Copy
                &&& !page_follows(current@, texts(next_cursor@), completed)
                &&& refuses_page(e, current@, texts(next_cursor@), completed)
            },
        },
{
    match validate_progress_contract(current) {
        Err(e) => return Err(e),
        Ok(()) => {},
    }
    if current.completed {
        return Ok(PageStep::AlreadyCompleted);
    }
    if !same_texts(current.cursor.as_slice(), expected_cursor) {
        return Ok(PageStep::ResumeAt);
    }
    match validate_page_intent(current, next_cursor, completed) {
        Err(e) => Err(e),
        Ok(()) => Ok(PageStep::Copy),
    }
}

/// Nothing was copied yet.
pub open spec fn is_fresh(progress: ProgressView) -> bool {
    &&& !progress.completed
    &&& progress.pages_copied == 0
    &&& progress.rows_copied == 0
    &&& progress.cursor.len() == 0
}

/// Records a COPY of the whole table at once, which only fresh progress admits.
pub fn complete_full_copy(current: &SnapshotTableProgress, copied_rows: u64) -> (r: Result<
    SnapshotTableProgress,
    SnapshotTargetError,
>)
    ensures
        match r {
            Ok(next) => {
                &&& contract_holds(current@)
                &&& is_fresh(current@)
                &&& copied_rows <= i64::MAX
                &&& next@ == advanced(current@, Seq::empty(), copied_rows, true)
            },
            Err(e) => if !contract_holds(current@) {
                refuses_contract(e, current@)
            } else if !is_fresh(current@) {
                e matches SnapshotTargetError::SnapshotProgressNotFresh(t) && t@
                    == current@.target.text()
            } else {
                copied_rows > i64::MAX && e
                    == (SnapshotTargetError::SnapshotProgressValueOutOfRange {
                    field: "rows_copied",
                    value: copied_rows,
                })
            },
        },
{
    match validate_progress_contract(current) {
        Err(e) => return Err(e),
        Ok(()) => {},
    }
    if current.completed || current.pages_copied != 0 || current.rows_copied != 0
        || current.cursor.len() != 0 {
        return Err(SnapshotTargetError::SnapshotProgressNotFresh(current.target.display()));
    }
    let start: Vec<String> = Vec::new();
    proof {
        assert(texts(start@) =~= Seq::empty());
        assert(current@.cursor =~= Seq::empty());
    }
    advance_progress(current, start, copied_rows, true)
}

// ---------------------------------------------------------------------------------------------
// Identity
// ---------------------------------------------------------------------------------------------

/// The first field in which stored progress is bound to something else.
pub open spec fn identity_difference(
    stored: ProgressView,
    expected: SnapshotProgressIdentity,
    validate_arity: bool,
) -> Option<&'static str> {
    if stored.snapshot_group_id != expected.snapshot_group_id {
        Some("snapshot_group_id")
    } else if stored.target != expected.target@ {
        Some("target")
    } else if stored.shadow != expected.shadow@ {
        Some("shadow")
    } else if stored.fence.pipeline_id != expected.fence.pipeline_id {
        Some("pipeline_id")
    } else if stored.fence.topology_generation != expected.fence.topology_generation {
        Some("topology_generation")
    } else if stored.shadow_relation_oid != expected.shadow_relation_oid {
        Some("shadow_relation_oid")
    } else if stored.source_relation_id != expected.source_relation_id {
        Some("source_relation_id")
    } else if stored.table_generation != expected.table_generation {
        Some("table_generation")
    } else if stored.schema_fingerprint != expected.schema_fingerprint@ {
        Some("schema_fingerprint")
    } else if stored.fence.fencing_token != expected.fence.fencing_token {
        Some("fencing_token")
    } else if validate_arity && stored.primary_key_arity != expected.primary_key_arity {
        Some("primary_key_arity")
    } else {
        None
    }
}

/// The error names the table and the field.
pub open spec fn tells_identity(
    e: SnapshotTargetError,
    table: NameView,
    difference: Option<&'static str>,
) -> bool {
    e matches SnapshotTargetError::SnapshotProgressIdentityMismatch { table: t, field } && t@
        == table.text() && difference == Some(field)
}

pub fn validate_stored_identity(
    stored: &SnapshotTableProgress,
    expected: &SnapshotProgressIdentity,
    validate_arity: bool,
) -> (r: Result<(), SnapshotTargetError>)
    ensures
        match r {
            Ok(()) => identity_difference(stored@, *expected, validate_arity) is None,
            Err(e) => tells_identity(
                e,
                expected.target@,
                identity_difference(stored@, *expected, validate_arity),
            ),
        },
{
    let mismatch: Option<&'static str> = if stored.snapshot_group_id
        != expected.snapshot_group_id {
        Some("snapshot_group_id")
    } else if !stored.target.same(&expected.target) {
        Some("target")
    } else if !stored.shadow.same(&expected.shadow) {
        Some("shadow")
    } else if stored.fence.pipeline_id != expected.fence.pipeline_id {
        Some("pipeline_id")
    } else if stored.fence.topology_generation != expected.fence.topology_generation {
        Some("topology_generation")
    } else if stored.shadow_relation_oid != expected.shadow_relation_oid {
        Some("shadow_relation_oid")
    } else if stored.source_relation_id != expected.source_relation_id {
        Some("source_relation_id")
    } else if stored.table_generation != expected.table_generation {
        Some("table_generation")
    } else if !same_text(
        stored.schema_fingerprint.as_str(),
        expected.schema_fingerprint.as_str(),
    ) {
        Some("schema_fingerprint")
    } else if stored.fence.fencing_token != expected.fence.fencing_token {
        Some("fencing_token")
    } else if validate_arity && stored.primary_key_arity != expected.primary_key_arity {
        Some("primary_key_arity")
    } else {
        None
    };
    match mismatch {
        Some(field) => Err(
            SnapshotTargetError::SnapshotProgressIdentityMismatch {
                table: expected.target.display(),
                field,
            },
        ),
        None => Ok(()),
    }
}

/// Progress of the given identity where nothing was copied yet.
pub open spec fn initial_view(identity: SnapshotProgressIdentity) -> ProgressView {
    ProgressView {
        fence: identity.fence,
        snapshot_group_id: identity.snapshot_group_id,
        target: identity.target@,
        shadow: identity.shadow@,
        shadow_relation_oid: identity.shadow_relation_oid,
        source_relation_id: identity.source_relation_id,
        table_generation: identity.table_generation,
        schema_fingerprint: identity.schema_fingerprint@,
        cursor_format_version: SNAPSHOT_CURSOR_FORMAT_VERSION,
        primary_key_arity: identity.primary_key_arity,
        cursor: Seq::empty(),
        cursor_digest: cursor_binding(
            identity.primary_key_arity,
            identity.schema_fingerprint@,
            Seq::empty(),
        ),
        completed: false,
        pages_copied: 0,
        rows_copied: 0,
    }
}

pub fn initial_progress(identity: SnapshotProgressIdentity) -> (r: SnapshotTableProgress)
    ensures
        r@ == initial_view(identity),
{
    let cursor: Vec<String> = Vec::new();
    proof {
        assert(texts(cursor@) =~= Seq::empty());
    }
    let cursor_digest = bind_cursor(
        identity.primary_key_arity,
        identity.schema_fingerprint.as_str(),
        cursor.as_slice(),
    );
    SnapshotTableProgress {
        fence: identity.fence,
        snapshot_group_id: identity.snapshot_group_id,
        target: identity.target,
        shadow: identity.shadow,
        shadow_relation_oid: identity.shadow_relation_oid,
        source_relation_id: identity.source_relation_id,
        table_generation: identity.table_generation,
        schema_fingerprint: identity.schema_fingerprint,
        cursor_format_version: SNAPSHOT_CURSOR_FORMAT_VERSION,
        primary_key_arity: identity.primary_key_arity,
        cursor,
        cursor_digest,
        completed: false,
        pages_copied: 0,
        rows_copied: 0,
    }
}

/// Checks that the stored group admits progress of the planned load.
pub fn judge_progress_group(
    stored: &StoredSnapshotGroup,
    plan: &SnapshotTargetPlan,
    ownership: &SnapshotOwnership,
) -> (r: Result<(), SnapshotTargetError>)
    ensures
        match r {
            Ok(()) => {
                &&& stored.snapshot_progress_version == SNAPSHOT_PROGRESS_VERSION
                &&& is_member(stored.request@, *plan, *ownership)
                &&& stored.state == SnapshotGroupStatus::Loading
            },
            Err(e) => if stored.snapshot_progress_version != SNAPSHOT_PROGRESS_VERSION {
                e == (SnapshotTargetError::UnsupportedSnapshotProgressVersion {
                    group: ownership.snapshot_group_id,
                    version: stored.snapshot_progress_version,
                })
            } else if !is_member(stored.request@, *plan, *ownership) {
                refuses_member(e, stored.request@, *plan, *ownership)
            } else {
                stored.state == SnapshotGroupStatus::Active && e
                    == SnapshotTargetError::SnapshotGroupAlreadyActive(ownership.snapshot_group_id)
            },
        },
{
    if stored.snapshot_progress_version != SNAPSHOT_PROGRESS_VERSION {
        return Err(
            SnapshotTargetError::UnsupportedSnapshotProgressVersion {
                group: ownership.snapshot_group_id,
                version: stored.snapshot_progress_version,
            },
        );
    }
    judge_shadow_load(stored, plan, ownership)
}

/// The record is that of the shadow which the planned load fills.
pub open spec fn shadow_loadable(
    record: ManagedTableRecord,
    plan: SnapshotTargetPlan,
    ownership: SnapshotOwnership,
) -> bool {
    &&& record.state == ManagedTableState::Shadow
    &&& record.snapshot_group_id == Some(ownership.snapshot_group_id)
    &&& record.table_generation == plan.source_generation
    &&& record.schema_fingerprint@ == ownership.schema_fingerprint@
    &&& record.fencing_token == ownership.fence.fencing_token
}

/// The error tells why no progress belongs to the shadow.
pub open spec fn refuses_loaded_shadow(
    e: SnapshotTargetError,
    shadow: RelationState,
    plan: SnapshotTargetPlan,
    ownership: SnapshotOwnership,
) -> bool {
    match shadow {
        RelationState::Managed(record) => if !identity_matches(
            record,
            ownership.fence.pipeline_id,
            plan.source_relation_id,
        ) {
            refuses_owner(
                e,
                plan.shadow.target@,
                record,
                ownership.fence.pipeline_id,
                plan.source_relation_id,
            )
        } else if record.fencing_token > ownership.fence.fencing_token {
            refuses_fence(
                e,
                plan.shadow.target@,
                ownership.fence.fencing_token,
                record.fencing_token,
            )
        } else if !shadow_loadable(record, plan, ownership) {
            tells_identity(e, plan.target@, Some("managed_shadow"))
        } else {
            record.relation_oid is None && (
            e matches SnapshotTargetError::MissingRelationIdentity(t) && t@
                == plan.shadow.target@.text())
        },
        _ => e matches SnapshotTargetError::IncompleteShadow(t) && t@
            == plan.shadow.target@.text(),
    }
}

/// Checks the shadow of the planned load and gives its registered catalog identity.
pub fn judge_progress_shadow(
    shadow: &RelationState,
    plan: &SnapshotTargetPlan,
    ownership: &SnapshotOwnership,
) -> (r: Result<i64, SnapshotTargetError>)
    ensures
        match r {
            Ok(oid) => *shadow matches RelationState::Managed(record) && identity_matches(
                record,
                ownership.fence.pipeline_id,
                plan.source_relation_id,
            ) && shadow_loadable(record, *plan, *ownership) && record.relation_oid == Some(oid),
            Err(e) => refuses_loaded_shadow(e, *shadow, *plan, *ownership),
        },
{
    let record = match shadow {
        RelationState::Managed(record) => record,
        _ => {
            return Err(SnapshotTargetError::IncompleteShadow(plan.shadow.target.display()));
        },
    };
    match validate_managed_identity(
        &plan.shadow.target,
        record,
        ownership.fence.pipeline_id,
        plan.source_relation_id,
    ) {
        Err(e) => return Err(e),
        Ok(()) => {},
    }
    match validate_managed_fence(&plan.shadow.target, record, ownership.fence.fencing_token) {
        Err(e) => return Err(e),
        Ok(()) => {},
    }
    if record.state != ManagedTableState::Shadow || !is_group(
        record.snapshot_group_id,
        ownership.snapshot_group_id,
    ) || record.table_generation != plan.source_generation || !same_text(
        record.schema_fingerprint.as_str(),
        ownership.schema_fingerprint.as_str(),
    ) || record.fencing_token != ownership.fence.fencing_token {
        return Err(
            SnapshotTargetError::SnapshotProgressIdentityMismatch {
                table: plan.target.display(),
                field: "managed_shadow",
            },
        );
    }
    match record.relation_oid {
        None => Err(SnapshotTargetError::MissingRelationIdentity(plan.shadow.target.display())),
        Some(oid) => Ok(oid),
    }
}

/// The catalog identity that was found, or zero.
pub open spec fn found_oid(actual: Option<i64>) -> i64 {
    match actual {
        Some(oid) => oid,
        None => 0,
    }
}

/// Binds progress to the planned load, given the registered and the actual catalog identity of
/// its shadow.
pub fn progress_identity(
    plan: &SnapshotTargetPlan,
    ownership: &SnapshotOwnership,
    shadow_relation_oid: i64,
    actual: Option<i64>,
) -> (r: Result<SnapshotProgressIdentity, SnapshotTargetError>)
    ensures
        match r {
            Ok(identity) => {
                &&& shadow_relation_oid > 0
                &&& actual == Some(shadow_relation_oid)
                &&& identity.fence == ownership.fence
                &&& identity.snapshot_group_id == ownership.snapshot_group_id
                &&& identity.target@ == plan.target@
                &&& identity.shadow@ == plan.shadow.target@
                &&& identity.shadow_relation_oid == shadow_relation_oid
                &&& identity.source_relation_id == plan.source_relation_id
                &&& identity.table_generation == plan.source_generation
                &&& identity.schema_fingerprint@ == ownership.schema_fingerprint@
                &&& identity.primary_key_arity == plan.shadow.primary_key@.len()
            },
            Err(e) => {
                &&& shadow_relation_oid <= 0 || found_oid(actual) != shadow_relation_oid
                &&& (e matches SnapshotTargetError::RelationIdentityMismatch {
                    table,
                    expected,
                    actual: a,
                } && table@ == plan.shadow.target@.text() && expected == shadow_relation_oid && a
                    == found_oid(actual))
            },
        },
{
    let found: i64 = match actual {
        Some(oid) => oid,
        None => 0,
    };
    if shadow_relation_oid <= 0 || found != shadow_relation_oid {
        return Err(
            SnapshotTargetError::RelationIdentityMismatch {
                table: plan.shadow.target.display(),
                expected: shadow_relation_oid,
                actual: found,
            },
        );
    }
    Ok(
        SnapshotProgressIdentity {
            fence: ownership.fence,
            snapshot_group_id: ownership.snapshot_group_id,
            target: plan.target.clone(),
            shadow: plan.shadow.target.clone(),
            shadow_relation_oid,
            source_relation_id: plan.source_relation_id,
            table_generation: plan.source_generation,
            schema_fingerprint: ownership.schema_fingerprint.clone(),
            primary_key_arity: plan.shadow.primary_key.len(),
        },
    )
}

/// Progress of the planned load may be kept: the group is loading it, the target admits a new
/// snapshot, and the shadow is the one that was registered for it.
pub open spec fn progress_bound(
    stored: StoredSnapshotGroup,
    plan: SnapshotTargetPlan,
    ownership: SnapshotOwnership,
    target: RelationState,
    shadow: RelationState,
    actual: Option<i64>,
) -> bool {
    &&& stored.snapshot_progress_version == SNAPSHOT_PROGRESS_VERSION
    &&& is_member(stored.request@, plan, ownership)
    &&& stored.state == SnapshotGroupStatus::Loading
    &&& target_loadable(target, plan, ownership)
    &&& shadow matches RelationState::Managed(record) && identity_matches(
        record,
        ownership.fence.pipeline_id,
        plan.source_relation_id,
    ) && shadow_loadable(record, plan, ownership) && record.relation_oid is Some
        && record.relation_oid->0 > 0 && actual == record.relation_oid
}

/// The error tells why no progress of the planned load may be kept: the group is asked first, then
/// the target, then the shadow's metadata, then the catalog.
pub open spec fn refuses_progress(
    e: SnapshotTargetError,
    stored: StoredSnapshotGroup,
    plan: SnapshotTargetPlan,
    ownership: SnapshotOwnership,
    target: RelationState,
    shadow: RelationState,
    actual: Option<i64>,
) -> bool {
    if stored.snapshot_progress_version != SNAPSHOT_PROGRESS_VERSION {
        e == (SnapshotTargetError::UnsupportedSnapshotProgressVersion {
            group: ownership.snapshot_group_id,
            version: stored.snapshot_progress_version,
        })
    } else if !is_member(stored.request@, plan, ownership) {
        refuses_member(e, stored.request@, plan, ownership)
    } else if stored.state != SnapshotGroupStatus::Loading {
        e == SnapshotTargetError::SnapshotGroupAlreadyActive(ownership.snapshot_group_id)
    } else if !target_loadable(target, plan, ownership) {
        refuses_target(e, target, plan, ownership)
    } else {
        match shadow {
            RelationState::Managed(record) => if identity_matches(
                record,
                ownership.fence.pipeline_id,
                plan.source_relation_id,
            ) && shadow_loadable(record, plan, ownership) && record.relation_oid is Some {
                e matches SnapshotTargetError::RelationIdentityMismatch {
                    table,
                    expected,
                    actual: a,
                } && table@ == plan.shadow.target@.text() && Some(expected) == record.relation_oid
                    && a == found_oid(actual)
            } else {
                refuses_loaded_shadow(e, shadow, plan, ownership)
            },
            _ => refuses_loaded_shadow(e, shadow, plan, ownership),
        }
    }
}

/// Decides what the progress of a planned load is bound to, given the stored group and what the
/// target holds under the names of the table and of its shadow.
pub fn bind_progress(
    stored: &StoredSnapshotGroup,
    plan: &SnapshotTargetPlan,
    ownership: &SnapshotOwnership,
    target: &RelationState,
    shadow: &RelationState,
    actual: Option<i64>,
) -> (r: Result<SnapshotProgressIdentity, SnapshotTargetError>)
    ensures
        match r {
            Ok(identity) => {
                &&& progress_bound(*stored, *plan, *ownership, *target, *shadow, actual)
                &&& identity.fence == ownership.fence
                &&& identity.snapshot_group_id == ownership.snapshot_group_id
                &&& identity.target@ == plan.target@
                &&& identity.shadow@ == plan.shadow.target@
                &&& Some(identity.shadow_relation_oid) == actual
                &&& identity.source_relation_id == plan.source_relation_id
                &&& identity.table_generation == plan.source_generation
                &&& identity.schema_fingerprint@ == ownership.schema_fingerprint@
                &&& identity.primary_key_arity == plan.shadow.primary_key@.len()
            },
            Err(e) => {
                &&& !progress_bound(*stored, *plan, *ownership, *target, *shadow, actual)
                &&& refuses_progress(e, *stored, *plan, *ownership, *target, *shadow, actual)
            },
        },
{
    match judge_progress_group(stored, plan, ownership) {
        Err(e) => return Err(e),
        Ok(()) => {},
    }
    match validate_target_for_load(target, plan, ownership) {
        Err(e) => return Err(e),
        Ok(()) => {},
    }
    match judge_progress_shadow(shadow, plan, ownership) {
        Err(e) => Err(e),
        Ok(shadow_relation_oid) => progress_identity(plan, ownership, shadow_relation_oid, actual),
    }
}

/// Confirms progress that is stored for the planned load.
pub fn confirm_progress(stored: &SnapshotTableProgress, identity: &SnapshotProgressIdentity) -> (r:
    Result<(), SnapshotTargetError>)
    ensures
        match r {
            Ok(()) => identity_difference(stored@, *identity, true) is None && contract_holds(
                stored@,
            ),
            Err(e) => if identity_difference(stored@, *identity, true) is Some {
                tells_identity(e, identity.target@, identity_difference(stored@, *identity, true))
            } else {
                !contract_holds(stored@) && refuses_contract(e, stored@)
            },
        },
{
    match validate_stored_identity(stored, identity, true) {
        Err(e) => return Err(e),
        Ok(()) => {},
    }
    validate_progress_contract(stored)
}

/// The numeric parameters of the statement that registers progress.
#[derive(Debug, Clone, Copy, PartialEq, Eq, Structural)]
pub struct ProgressRegistration {
    pub topology_generation: i64,
    pub source_relation_id: i64,
    pub table_generation: i64,
    pub cursor_format_version: i32,
    pub primary_key_arity: i32,
}

/// Why progress cannot be registered, if it cannot.
pub open spec fn registration_fault(progress: ProgressView) -> Option<SnapshotTargetError> {
    if progress.fence.topology_generation > i64::MAX {
        Some(SnapshotTargetError::GenerationOutOfRange(progress.fence.topology_generation))
    } else if progress.table_generation > i64::MAX {
        Some(SnapshotTargetError::GenerationOutOfRange(progress.table_generation))
    } else if progress.primary_key_arity > i32::MAX {
        Some(SnapshotTargetError::SnapshotCursorArityOutOfRange(progress.primary_key_arity))
    } else {
        None
    }
}

/// Gives the numeric parameters that register progress.
pub fn progress_registration(progress: &SnapshotTableProgress) -> (r: Result<
    ProgressRegistration,
    SnapshotTargetError,
>)
    ensures
        match r {
            Ok(parameters) => {
                &&& registration_fault(progress@) is None
                &&& parameters.topology_generation == progress.fence.topology_generation
                &&& parameters.source_relation_id == progress.source_relation_id
                &&& parameters.table_generation == progress.table_generation
                &&& parameters.cursor_format_version == progress.cursor_format_version
                &&& parameters.primary_key_arity == progress.primary_key_arity
            },
            Err(e) => registration_fault(progress@) == Some(e),
        },
{
    let topology_generation = match database_generation(progress.fence.topology_generation) {
        Err(e) => return Err(e),
        Ok(generation) => generation,
    };
    let table_generation = match database_generation(progress.table_generation) {
        Err(e) => return Err(e),
        Ok(generation) => generation,
    };
    let primary_key_arity = match database_arity(progress.primary_key_arity) {
        Err(e) => return Err(e),
        Ok(arity) => arity,
    };
    Ok(
        ProgressRegistration {
            topology_generation,
            source_relation_id: progress.source_relation_id as i64,
            table_generation,
            cursor_format_version: progress.cursor_format_version as i32,
            primary_key_arity,
        },
    )
}

/// Which stored progress goes away with a shadow.
pub fn progress_removal(snapshot_group_id: Option<Uuid>, shadow_relation_oid: Option<i64>) -> (r:
    Result<Option<(Uuid, i64)>, SnapshotTargetError>)
    ensures
        match (snapshot_group_id, shadow_relation_oid) {
            (Some(group), Some(oid)) => if oid > 0 {
                r == Ok::<Option<(Uuid, i64)>, SnapshotTargetError>(Some((group, oid)))
            } else {
                r matches Err(SnapshotTargetError::MissingRelationIdentity(t)) && t@
                    == signed_decimal(oid as int)
            },
            _ => r == Ok::<Option<(Uuid, i64)>, SnapshotTargetError>(None),
        },
{
    match snapshot_group_id {
        None => Ok(None),
        Some(group) => match shadow_relation_oid {
            None => Ok(None),
            Some(oid) => {
                if oid <= 0 {
                    Err(SnapshotTargetError::MissingRelationIdentity(render_signed(oid)))
                } else {
                    Ok(Some((group, oid)))
                }
            },
        },
    }
}

/// A shadow has at most one progress row.
pub fn ensure_progress_removed(deleted: u64) -> (r: Result<(), SnapshotTargetError>)
    ensures
        match r {
            Ok(()) => deleted <= 1,
            Err(e) => deleted > 1 && e == SnapshotTargetError::UnexpectedMetadataWriteCount(deleted),
        },
{
    if deleted <= 1 {
        Ok(())
    } else {
        Err(SnapshotTargetError::UnexpectedMetadataWriteCount(deleted))
    }
}

// ---------------------------------------------------------------------------------------------
// Rows
// ---------------------------------------------------------------------------------------------

/// A progress row as the target returns it.
#[derive(Debug, PartialEq, Eq)]
pub struct ProgressRow {
    pub snapshot_group_id: Uuid,
    pub target_schema: String,
    pub target_table: String,
    pub shadow_schema: String,
    pub shadow_table: String,
    pub pipeline_id: Uuid,
    pub topology_generation: i64,
    pub shadow_relation_oid: i64,
    pub source_relation_id: i64,
    pub table_generation: i64,
    pub schema_fingerprint: String,
    pub cursor_format_version: i32,
    pub primary_key_arity: i32,
    pub cursor_values: Vec<String>,
    pub cursor_digest: Vec<u8>,
    pub completed: bool,
    pub pages_copied: i64,
    pub rows_copied: i64,
    pub fencing_token: i64,
}

impl ProgressRow {
    pub open spec fn target(self) -> NameView {
        NameView { schema: self.target_schema@, name: self.target_table@ }
    }

    pub open spec fn shadow(self) -> NameView {
        NameView { schema: self.shadow_schema@, name: self.shadow_table@ }
    }

    /// Why the row names no relations, if it does not.
    pub open spec fn name_fault(self) -> Option<CoreError> {
        if self.target().fault() is Some {
            self.target().fault()
        } else {
            self.shadow().fault()
        }
    }

    /// The first column that has no meaning.
    pub open spec fn fault(self) -> Option<PersistedFault> {
        if self.topology_generation < 0 {
            Some(("topology_generation", signed_decimal(self.topology_generation as int)))
        } else if !(0 <= self.source_relation_id <= u32::MAX) {
            Some(("source_relation_id", signed_decimal(self.source_relation_id as int)))
        } else if self.table_generation < 0 {
            Some(("table_generation", signed_decimal(self.table_generation as int)))
        } else if !(0 <= self.cursor_format_version <= u16::MAX) {
            Some(("cursor_format_version", signed_decimal(self.cursor_format_version as int)))
        } else if self.primary_key_arity < 0 {
            Some(("primary_key_arity", signed_decimal(self.primary_key_arity as int)))
        } else if self.cursor_digest@.len() != 32 {
            Some(("cursor_digest_length", decimal(self.cursor_digest@.len())))
        } else if self.pages_copied < 0 {
            Some(("pages_copied", signed_decimal(self.pages_copied as int)))
        } else if self.rows_copied < 0 {
            Some(("rows_copied", signed_decimal(self.rows_copied as int)))
        } else if self.fencing_token <= 0 {
            Some(("fencing_token", signed_decimal(self.fencing_token as int)))
        } else if self.shadow_relation_oid <= 0 {
            Some(("shadow_relation_oid", signed_decimal(self.shadow_relation_oid as int)))
        } else {
            None
        }
    }

    /// The row holds the progress.
    pub open spec fn holds(self, progress: ProgressView) -> bool {
        &&& progress.fence.pipeline_id.uuid == self.pipeline_id
        &&& progress.fence.topology_generation == self.topology_generation
        &&& progress.fence.fencing_token == self.fencing_token
        &&& progress.snapshot_group_id == self.snapshot_group_id
        &&& progress.target == self.target()
        &&& progress.shadow == self.shadow()
        &&& progress.shadow_relation_oid == self.shadow_relation_oid
        &&& progress.source_relation_id == self.source_relation_id
        &&& progress.table_generation == self.table_generation
        &&& progress.schema_fingerprint == self.schema_fingerprint@
        &&& progress.cursor_format_version == self.cursor_format_version
        &&& progress.primary_key_arity == self.primary_key_arity
        &&& progress.cursor == texts(self.cursor_values@)
        &&& progress.cursor_digest == self.cursor_digest@
        &&& progress.completed == self.completed
        &&& progress.pages_copied == self.pages_copied
        &&& progress.rows_copied == self.rows_copied
    }
}

fn check_progress_row(row: &ProgressRow, target: &QualifiedName) -> (r: Result<
    [u8; 32],
    SnapshotTargetError,
>)
    ensures
        match r {
            Ok(digest) => row.fault() is None && digest@ == row.cursor_digest@,
            Err(e) => progress_reports(e, target@, row.fault()),
        },
{
    if row.topology_generation < 0 {
        return Err(
            invalid_progress_value(
                target,
                "topology_generation",
                render_signed(row.topology_generation),
            ),
        );
    }
    if row.source_relation_id < 0 || row.source_relation_id > u32::MAX as i64 {
        return Err(
            invalid_progress_value(
                target,
                "source_relation_id",
                render_signed(row.source_relation_id),
            ),
        );
    }
    if row.table_generation < 0 {
        return Err(
            invalid_progress_value(target, "table_generation", render_signed(row.table_generation)),
        );
    }
    if row.cursor_format_version < 0 || row.cursor_format_version > u16::MAX as i32 {
        return Err(
            invalid_progress_value(
                target,
                "cursor_format_version",
                render_signed(row.cursor_format_version as i64),
            ),
        );
    }
    if row.primary_key_arity < 0 {
        return Err(
            invalid_progress_value(
                target,
                "primary_key_arity",
                render_signed(row.primary_key_arity as i64),
            ),
        );
    }
    let digest = match digest_from(&row.cursor_digest) {
        None => {
            return Err(
                invalid_progress_value(
                    target,
                    "cursor_digest_length",
                    render_decimal(row.cursor_digest.len() as u64),
                ),
            );
        },
        Some(digest) => digest,
    };
    if row.pages_copied < 0 {
        return Err(invalid_progress_value(target, "pages_copied", render_signed(row.pages_copied)));
    }
    if row.rows_copied < 0 {
        return Err(invalid_progress_value(target, "rows_copied", render_signed(row.rows_copied)));
    }
    if row.fencing_token <= 0 {
        return Err(
            invalid_progress_value(target, "fencing_token", render_signed(row.fencing_token)),
        );
    }
    if row.shadow_relation_oid <= 0 {
        return Err(
            invalid_progress_value(
                target,
                "shadow_relation_oid",
                render_signed(row.shadow_relation_oid),
            ),
        );
    }
    Ok(digest)
}

/// Reads a progress row.
pub fn progress_from_row(row: ProgressRow) -> (r: Result<SnapshotTableProgress, SnapshotTargetError>)
    ensures
        match r {
            Ok(progress) => row.name_fault() is None && row.fault() is None && row.holds(progress@),
            Err(e) => match row.name_fault() {
                Some(fault) => e == SnapshotTargetError::Schema(SchemaError::Core(fault)),
                None => progress_reports(e, row.target(), row.fault()),
            },
        },
{
    let target = match QualifiedName::new(row.target_schema.as_str(), row.target_table.as_str()) {
        Err(e) => return Err(SnapshotTargetError::Schema(SchemaError::Core(e))),
        Ok(name) => name,
    };
    let shadow = match QualifiedName::new(row.shadow_schema.as_str(), row.shadow_table.as_str()) {
        Err(e) => return Err(SnapshotTargetError::Schema(SchemaError::Core(e))),
        Ok(name) => name,
    };
    let cursor_digest = match check_progress_row(&row, &target) {
        Err(e) => return Err(e),
        Ok(digest) => digest,
    };
    Ok(
        SnapshotTableProgress {
            fence: PipelineFence {
                pipeline_id: PipelineId::from_uuid(row.pipeline_id),
                topology_generation: row.topology_generation as u64,
                fencing_token: row.fencing_token,
            },
            snapshot_group_id: row.snapshot_group_id,
            target,
            shadow,
            shadow_relation_oid: row.shadow_relation_oid,
            source_relation_id: row.source_relation_id as u32,
            table_generation: row.table_generation as u64,
            schema_fingerprint: row.schema_fingerprint,
            cursor_format_version: row.cursor_format_version as u16,
            primary_key_arity: row.primary_key_arity as usize,
            cursor: row.cursor_values,
            cursor_digest,
            completed: row.completed,
            pages_copied: row.pages_copied as u64,
            rows_copied: row.rows_copied as u64,
        },
    )
}

// ---------------------------------------------------------------------------------------------
// The progress of a whole group
// ---------------------------------------------------------------------------------------------

/// Every expected table has one progress row, and none is left over.
pub fn check_group_progress_count(
    group: Uuid,
    manifest_tables: usize,
    expected: usize,
    rows: usize,
) -> (r: Result<(), SnapshotTargetError>)
    ensures
        match r {
            Ok(()) => expected <= manifest_tables && rows == expected,
            Err(e) => !(expected <= manifest_tables && rows == expected) && e
                == SnapshotTargetError::IncompleteSnapshotProgress(group),
        },
{
    if expected > manifest_tables || rows != expected {
        Err(SnapshotTargetError::IncompleteSnapshotProgress(group))
    } else {
        Ok(())
    }
}

/// What the progress of a manifest table must be bound to. The number of key columns is checked
/// against the catalog instead.
pub open spec fn manifest_identity(
    fence: PipelineFence,
    group: Uuid,
    expected: CompletedSnapshotTableIdentity,
    identity: SnapshotProgressIdentity,
) -> bool {
    &&& identity.fence == fence
    &&& identity.snapshot_group_id == group
    &&& identity.target@ == expected.table.target@
    &&& identity.shadow@ == expected.table.shadow@
    &&& identity.shadow_relation_oid == expected.shadow_relation_oid
    &&& identity.source_relation_id == expected.table.source_relation_id
    &&& identity.table_generation == expected.table.table_generation
    &&& identity.schema_fingerprint@ == expected.table.schema_fingerprint@
}

/// The progress belongs to the manifest table and is one that this library writes.
pub open spec fn group_progress_holds(
    fence: PipelineFence,
    group: Uuid,
    expected: CompletedSnapshotTableIdentity,
    progress: ProgressView,
) -> bool {
    &&& progress.fence == fence
    &&& progress.snapshot_group_id == group
    &&& progress.target == expected.table.target@
    &&& progress.shadow == expected.table.shadow@
    &&& progress.shadow_relation_oid == expected.shadow_relation_oid
    &&& progress.source_relation_id == expected.table.source_relation_id
    &&& progress.table_generation == expected.table.table_generation
    &&& progress.schema_fingerprint == expected.table.schema_fingerprint@
    &&& contract_holds(progress)
}

/// Checks the progress row of one manifest table.
pub fn validate_group_progress(
    fence: PipelineFence,
    group: Uuid,
    expected: &CompletedSnapshotTableIdentity,
    progress: &SnapshotTableProgress,
) -> (r: Result<(), SnapshotTargetError>)
    ensures
        match r {
            Ok(()) => group_progress_holds(fence, group, *expected, progress@),
            Err(e) => {
                &&& !group_progress_holds(fence, group, *expected, progress@)
                &&& refuses_group_progress(e, fence, group, *expected, progress@)
            },
        },
{
    let identity = SnapshotProgressIdentity {
        fence,
        snapshot_group_id: group,
        target: expected.table.target.clone(),
        shadow: expected.table.shadow.clone(),
        shadow_relation_oid: expected.shadow_relation_oid,
        source_relation_id: expected.table.source_relation_id,
        table_generation: expected.table.table_generation,
        schema_fingerprint: expected.table.schema_fingerprint.clone(),
        primary_key_arity: 0,
    };
    proof {
        assert(manifest_identity(fence, group, *expected, identity));
    }
    match validate_stored_identity(progress, &identity, false) {
        Err(e) => return Err(e),
        Ok(()) => {},
    }
    validate_progress_contract(progress)
}

/// The number of key columns that the catalog shows for a shadow; a shadow without a primary key
/// has none.
pub fn physical_primary_key_arity(shadow_relation_oid: i64, arity: Option<i32>) -> (r: Result<
    usize,
    SnapshotTargetError,
>)
    ensures
        match arity {
            None => r == Ok::<usize, SnapshotTargetError>(0),
            Some(arity) => match r {
                Ok(value) => arity >= 0 && value == arity,
                Err(e) => arity < 0 && (
                e matches SnapshotTargetError::InvalidSnapshotProgressValue { table, field, value }
                    && table@ == signed_decimal(shadow_relation_oid as int) && field
                    == "physical_primary_key_arity" && value@ == signed_decimal(arity as int)),
            },
        },
{
    match arity {
        None => Ok(0),
        Some(arity) => {
            if arity >= 0 {
                Ok(arity as usize)
            } else {
                Err(
                    SnapshotTargetError::InvalidSnapshotProgressValue {
                        table: render_signed(shadow_relation_oid),
                        field: "physical_primary_key_arity",
                        value: render_signed(arity as i64),
                    },
                )
            }
        },
    }
}

/// The progress must count as many key columns as its shadow has.
pub fn check_physical_arity(progress: &SnapshotTableProgress, physical: usize) -> (r: Result<
    (),
    SnapshotTargetError,
>)
    ensures
        match r {
            Ok(()) => progress.primary_key_arity == physical,
            Err(e) => progress.primary_key_arity != physical && tells_identity(
                e,
                progress.target@,
                Some("physical_primary_key_arity"),
            ),
        },
{
    if progress.primary_key_arity == physical {
        Ok(())
    } else {
        Err(
            SnapshotTargetError::SnapshotProgressIdentityMismatch {
                table: progress.target.display(),
                field: "physical_primary_key_arity",
            },
        )
    }
}

/// The error tells why stored progress is not that of the manifest table.
pub open spec fn refuses_group_progress(
    e: SnapshotTargetError,
    fence: PipelineFence,
    group: Uuid,
    expected: CompletedSnapshotTableIdentity,
    progress: ProgressView,
) -> bool {
    exists|identity: SnapshotProgressIdentity| #[trigger]
        manifest_identity(fence, group, expected, identity) && (if identity_difference(
            progress,
            identity,
            false,
        ) is Some {
            tells_identity(
                e,
                expected.table.target@,
                identity_difference(progress, identity, false),
            )
        } else {
            refuses_contract(e, progress)
        })
}

/// The catalog shows as many key columns for the shadow as the progress counts.
pub open spec fn arity_holds(progress: ProgressView, arity: Option<i32>) -> bool {
    match arity {
        None => progress.primary_key_arity == 0,
        Some(count) => progress.primary_key_arity == count,
    }
}

/// The error tells why the key columns of the shadow are not those of the progress.
pub open spec fn refuses_arity(
    e: SnapshotTargetError,
    expected: CompletedSnapshotTableIdentity,
    arity: Option<i32>,
) -> bool {
    if arity matches Some(count) && count < 0 {
        e matches SnapshotTargetError::InvalidSnapshotProgressValue { table, field, value }
            && table@ == signed_decimal(expected.shadow_relation_oid as int) && field
            == "physical_primary_key_arity" && value@ == signed_decimal(arity->0 as int)
    } else {
        tells_identity(e, expected.table.target@, Some("physical_primary_key_arity"))
    }
}

/// Reads the progress row of one manifest table and checks it against the manifest, against what
/// this library writes, and against the key columns that the catalog shows.
pub fn group_progress_from_row(
    fence: PipelineFence,
    group: Uuid,
    expected: &CompletedSnapshotTableIdentity,
    row: ProgressRow,
    arity: Option<i32>,
) -> (r: Result<SnapshotTableProgress, SnapshotTargetError>)
    ensures
        match r {
            Ok(progress) => {
                &&& row.name_fault() is None
                &&& row.fault() is None
                &&& row.holds(progress@)
                &&& group_progress_holds(fence, group, *expected, progress@)
                &&& arity_holds(progress@, arity)
            },
            Err(e) => if row.name_fault() is Some {
                e == SnapshotTargetError::Schema(SchemaError::Core(row.name_fault()->0))
            } else if row.fault() is Some {
                progress_reports(e, row.target(), row.fault())
            } else {
                exists|progress: ProgressView| #[trigger]
                    row.holds(progress) && if !group_progress_holds(
                        fence,
                        group,
                        *expected,
                        progress,
                    ) {
                        refuses_group_progress(e, fence, group, *expected, progress)
                    } else {
                        !arity_holds(progress, arity) && refuses_arity(e, *expected, arity)
                    }
            },
        },
{
    let progress = match progress_from_row(row) {
        Err(e) => return Err(e),
        Ok(progress) => progress,
    };
    proof {
        assert(row.holds(progress@));
    }
    match validate_group_progress(fence, group, expected, &progress) {
        Err(e) => return Err(e),
        Ok(()) => {},
    }
    let physical: usize = match physical_primary_key_arity(expected.shadow_relation_oid, arity) {
        Err(e) => return Err(e),
        Ok(physical) => physical,
    };
    match check_physical_arity(&progress, physical) {
        Err(e) => Err(e),
        Ok(()) => Ok(progress),
    }
}

/// Every table is complete.
pub open spec fn all_completed(progress: Seq<SnapshotTableProgress>) -> bool {
    forall|i: int| 0 <= i < progress.len() ==> (#[trigger] progress[i]).completed
}

/// A group may be activated only when every table is complete.
pub fn ensure_all_completed(progress: &Vec<SnapshotTableProgress>) -> (r: Result<
    (),
    SnapshotTargetError,
>)
    ensures
        match r {
            Ok(()) => all_completed(progress@),
            Err(e) => exists|i: int|
                {
                    &&& 0 <= i < progress@.len()
                    &&& all_completed(progress@.take(i))
                    &&& !(#[trigger] progress@[i]).completed
                    &&& (e matches SnapshotTargetError::SnapshotProgressIncomplete(t) && t@
                        == progress@[i].target@.text())
                },
        },
{
    let mut i: usize = 0;
    while i < progress.len()
        invariant
            i <= progress.len(),
            forall|k: int| 0 <= k < i ==> (#[trigger] progress@[k]).completed,
        decreases progress.len() - i,
    {
        if !progress[i].completed {
            let e = SnapshotTargetError::SnapshotProgressIncomplete(progress[i].target.display());
            proof {
                let before = progress@.take(i as int);
                assert forall|k: int| 0 <= k < before.len() implies (
                #[trigger] before[k]).completed by {
                    assert(before[k] == progress@[k]);
                }
                assert(!progress@[i as int].completed);
            }
            return Err(e);
        }
        i = i + 1;
    }
    Ok(())
}

/// As many progress rows go away as the group has loaded tables.
pub fn ensure_group_progress_removed(deleted: u64, expected: usize) -> (r: Result<
    (),
    SnapshotTargetError,
>)
    ensures
        match r {
            Ok(()) => deleted == expected,
            Err(e) => deleted != expected && e == SnapshotTargetError::UnexpectedMetadataWriteCount(
                deleted,
            ),
        },
{
    if deleted == expected as u64 {
        Ok(())
    } else {
        Err(SnapshotTargetError::UnexpectedMetadataWriteCount(deleted))
    }
}

// ---------------------------------------------------------------------------------------------
// Laws
// ---------------------------------------------------------------------------------------------

/// Fresh progress is one that this library writes.
pub proof fn law_initial_progress_is_valid(identity: SnapshotProgressIdentity)
    ensures
        contract_holds(initial_view(identity)),
        is_fresh(initial_view(identity)),
        identity_difference(initial_view(identity), identity, true) is None,
{
}

/// Recording a page keeps the contract of stored progress and what it is bound to.
pub proof fn law_recorded_page_keeps_the_contract(
    current: ProgressView,
    next_cursor: Seq<Seq<char>>,
    copied_rows: u64,
    completed: bool,
    identity: SnapshotProgressIdentity,
)
    requires
        contract_holds(current),
        advance_allowed(current, next_cursor, copied_rows, completed),
    ensures
        contract_holds(advanced(current, next_cursor, copied_rows, completed)),
        identity_difference(advanced(current, next_cursor, copied_rows, completed), identity, true)
            == identity_difference(current, identity, true),
{
}

/// Progress only grows: each page counts, no rows are lost, and a page that does not complete the
/// table moves the cursor.
pub proof fn law_progress_only_grows(
    current: ProgressView,
    next_cursor: Seq<Seq<char>>,
    copied_rows: u64,
    completed: bool,
)
    requires
        advance_allowed(current, next_cursor, copied_rows, completed),
    ensures
        ({
            let next = advanced(current, next_cursor, copied_rows, completed);
            &&& next.pages_copied == current.pages_copied + 1
            &&& next.rows_copied == current.rows_copied + copied_rows
            &&& !completed ==> next.cursor != current.cursor
        }),
{
}

/// No page is copied twice: once a page is recorded, the same page is answered without a copy.
pub proof fn law_recorded_page_is_not_copied_again(
    current: ProgressView,
    next_cursor: Seq<Seq<char>>,
    copied_rows: u64,
    completed: bool,
)
    requires
        advance_allowed(current, next_cursor, copied_rows, completed),
    ensures
        page_step(advanced(current, next_cursor, copied_rows, completed), current.cursor)
            != PageStep::Copy,
{
}

/// A completed table stays as it is, whatever page is asked for.
pub proof fn law_completed_table_is_final(current: ProgressView, expected: Seq<Seq<char>>)
    requires
        current.completed,
    ensures
        page_step(current, expected) == PageStep::AlreadyCompleted,
        !is_fresh(current),
{
}

/// Stored progress reads back: a row that holds the progress is read as that progress.
pub proof fn law_stored_progress_reads_back(row: ProgressRow, progress: ProgressView, read: ProgressView)
    requires
        row.holds(progress),
        progress.target.fault() is None,
        progress.shadow.fault() is None,
        progress.fence.fencing_token > 0,
        progress.shadow_relation_oid > 0,
        progress.cursor_digest.len() == 32,
        row.holds(read),
    ensures
        row.name_fault() is None,
        row.fault() is None,
        read == progress,
{
}

/// The digest binds the number of key columns, the schema and each value: digested bytes are the
/// same only where all of these are.
pub proof fn law_cursor_digest_binds_every_value(
    arity_a: usize,
    fingerprint_a: Seq<char>,
    cursor_a: Seq<Seq<char>>,
    arity_b: usize,
    fingerprint_b: Seq<char>,
    cursor_b: Seq<Seq<char>>,
)
    requires
        frameable(cursor_fields(arity_a, fingerprint_a, cursor_a)),
        frameable(cursor_fields(arity_b, fingerprint_b, cursor_b)),
        framed(cursor_fields(arity_a, fingerprint_a, cursor_a)) == framed(
            cursor_fields(arity_b, fingerprint_b, cursor_b),
        ),
    ensures
        arity_a == arity_b,
        fingerprint_a == fingerprint_b,
        cursor_a == cursor_b,
{
    let x = cursor_fields(arity_a, fingerprint_a, cursor_a);
    let y = cursor_fields(arity_b, fingerprint_b, cursor_b);
    law_framing_is_unambiguous(x, y);
    assert(x[2] == y[2] && x[3] == y[3]);
    reveal_with_fuel(pow256, 9);
    law_big_endian_differs(arity_a as nat, arity_b as nat, 8);
    encode_utf8_decode_utf8(fingerprint_a);
    encode_utf8_decode_utf8(fingerprint_b);
    assert(cursor_a.len() == cursor_b.len());
    assert forall|i: int| 0 <= i < cursor_a.len() implies cursor_a[i] == cursor_b[i] by {
        assert(x[4 + i] == encode_utf8(cursor_a[i]));
        assert(y[4 + i] == encode_utf8(cursor_b[i]));
        encode_utf8_decode_utf8(cursor_a[i]);
        encode_utf8_decode_utf8(cursor_b[i]);
    }
    assert(cursor_a =~= cursor_b);
}

/// A page is copied whenever the table is not complete and the durable cursor is the one that the
/// page was derived from, and in no other case; progress that moved on is resumed from, and a
/// complete table is left alone.
pub proof fn law_a_page_is_copied_at_its_cursor(current: ProgressView, expected: Seq<Seq<char>>)
    ensures
        !current.completed && current.cursor == expected ==> page_step(current, expected)
            == PageStep::Copy,
        !current.completed && current.cursor != expected ==> page_step(current, expected)
            == PageStep::ResumeAt,
        current.completed ==> page_step(current, expected) == PageStep::AlreadyCompleted,
{
}

/// The first page of every table is copied: fresh progress expects the empty cursor.
pub proof fn law_the_first_page_is_copied(identity: SnapshotProgressIdentity)
    ensures
        page_step(initial_view(identity), Seq::empty()) == PageStep::Copy,
        forall|expected: Seq<Seq<char>>|
            expected.len() > 0 ==> #[trigger] page_step(initial_view(identity), expected)
                == PageStep::ResumeAt,
{
    assert(initial_view(identity).cursor == Seq::<Seq<char>>::empty());
}

/// The pages of a table follow one another: after a page that does not complete the table, the page
/// that starts at its cursor is copied and no other; after one that completes it, none is.
pub proof fn law_pages_follow_one_another(
    current: ProgressView,
    next_cursor: Seq<Seq<char>>,
    copied_rows: u64,
    completed: bool,
    expected: Seq<Seq<char>>,
)
    requires
        advance_allowed(current, next_cursor, copied_rows, completed),
    ensures
        page_step(advanced(current, next_cursor, copied_rows, completed), expected)
            == PageStep::Copy <==> !completed && expected == next_cursor,
        page_step(advanced(current, next_cursor, copied_rows, completed), expected)
            == PageStep::AlreadyCompleted <==> completed,
{
}

/// A page may follow exactly where its cursor can be stored and has one value for each key column
/// (or none at all) and, unless it completes the table, the table has a key and the cursor moves.
pub proof fn law_a_page_may_follow(
    current: ProgressView,
    next_cursor: Seq<Seq<char>>,
    completed: bool,
)
    ensures
        page_follows(current, next_cursor, completed) <==> {
            &&& forall|i: int|
                0 <= i < next_cursor.len() ==> !(#[trigger] next_cursor[i]).contains('\0')
            &&& next_cursor.len() == 0 || next_cursor.len() == current.primary_key_arity
            &&& completed || (current.primary_key_arity > 0 && next_cursor != current.cursor)
        },
{
}

/// A page that may follow is recorded wherever it copied rows, or copied none and completes the
/// table at the cursor where it stands, as long as the counts can be stored.
pub proof fn law_a_copied_page_is_recorded(
    current: ProgressView,
    next_cursor: Seq<Seq<char>>,
    copied_rows: u64,
    completed: bool,
)
    requires
        page_follows(current, next_cursor, completed),
        current.pages_copied < i64::MAX,
        current.rows_copied + copied_rows <= i64::MAX,
    ensures
        copied_rows > 0 ==> advance_allowed(current, next_cursor, copied_rows, completed),
        copied_rows == 0 ==> (advance_allowed(current, next_cursor, copied_rows, completed) <==> (
        completed && next_cursor == current.cursor)),
{
}

/// A recorded page changes the cursor and its digest, the counts and the completion, and nothing
/// that the progress is bound to.
pub proof fn law_a_recorded_page_keeps_the_rest(
    current: ProgressView,
    next_cursor: Seq<Seq<char>>,
    copied_rows: u64,
    completed: bool,
)
    requires
        advance_allowed(current, next_cursor, copied_rows, completed),
    ensures
        ({
            let next = advanced(current, next_cursor, copied_rows, completed);
            &&& next.cursor == next_cursor
            &&& next.completed == completed
            &&& next.cursor_digest == cursor_binding(
                current.primary_key_arity,
                current.schema_fingerprint,
                next_cursor,
            )
            &&& next.fence == current.fence
            &&& next.snapshot_group_id == current.snapshot_group_id
            &&& next.target == current.target
            &&& next.shadow == current.shadow
            &&& next.shadow_relation_oid == current.shadow_relation_oid
            &&& next.source_relation_id == current.source_relation_id
            &&& next.table_generation == current.table_generation
            &&& next.schema_fingerprint == current.schema_fingerprint
            &&& next.cursor_format_version == current.cursor_format_version
            &&& next.primary_key_arity == current.primary_key_arity
        }),
{
}

/// Only progress that has copied nothing can be filled by one copy of the whole table, and it then
/// stands complete with one page at the empty cursor.
pub proof fn law_a_full_copy_is_one_page(identity: SnapshotProgressIdentity, copied_rows: u64)
    requires
        copied_rows <= i64::MAX,
    ensures
        ({
            let next = advanced(initial_view(identity), Seq::empty(), copied_rows, true);
            &&& next.completed
            &&& next.pages_copied == 1
            &&& next.rows_copied == copied_rows
            &&& next.cursor.len() == 0
            &&& contract_holds(next)
            &&& !is_fresh(next)
        }),
{
}

/// Progress is bound to an identity exactly where each part of it is the same; the number of key
/// columns counts where it is asked for.
pub proof fn law_what_progress_is_bound_to(
    stored: ProgressView,
    expected: SnapshotProgressIdentity,
    validate_arity: bool,
)
    ensures
        identity_difference(stored, expected, validate_arity) is None <==> {
            &&& stored.snapshot_group_id == expected.snapshot_group_id
            &&& stored.target == expected.target@
            &&& stored.shadow == expected.shadow@
            &&& stored.fence.pipeline_id == expected.fence.pipeline_id
            &&& stored.fence.topology_generation == expected.fence.topology_generation
            &&& stored.fence.fencing_token == expected.fence.fencing_token
            &&& stored.shadow_relation_oid == expected.shadow_relation_oid
            &&& stored.source_relation_id == expected.source_relation_id
            &&& stored.table_generation == expected.table_generation
            &&& stored.schema_fingerprint == expected.schema_fingerprint@
            &&& validate_arity ==> stored.primary_key_arity == expected.primary_key_arity
        },
{
}

/// Fresh progress has the identity that it was made for and has copied nothing.
pub proof fn law_fresh_progress(identity: SnapshotProgressIdentity)
    ensures
        ({
            let fresh = initial_view(identity);
            &&& fresh.fence == identity.fence
            &&& fresh.snapshot_group_id == identity.snapshot_group_id
            &&& fresh.target == identity.target@
            &&& fresh.shadow == identity.shadow@
            &&& fresh.shadow_relation_oid == identity.shadow_relation_oid
            &&& fresh.source_relation_id == identity.source_relation_id
            &&& fresh.table_generation == identity.table_generation
            &&& fresh.schema_fingerprint == identity.schema_fingerprint@
            &&& fresh.primary_key_arity == identity.primary_key_arity
            &&& fresh.cursor_format_version == 1
            &&& fresh.cursor.len() == 0
            &&& !fresh.completed
            &&& fresh.pages_copied == 0
            &&& fresh.rows_copied == 0
        }),
        forall|progress: ProgressView|
            #[trigger] is_fresh(progress) <==> !progress.completed && progress.pages_copied == 0
                && progress.rows_copied == 0 && progress.cursor.len() == 0,
{
}

/// Stored progress is one that this library writes exactly where it has the current cursor format,
/// its cursor can be stored and has one value for each key column or none, its digest is that of the
/// cursor, and a complete table has a page.
pub proof fn law_which_progress_is_written(progress: ProgressView)
    ensures
        contract_holds(progress) <==> {
            &&& progress.cursor_format_version == 1
            &&& forall|i: int|
                0 <= i < progress.cursor.len() ==> !(#[trigger] progress.cursor[i]).contains('\0')
            &&& progress.cursor.len() == 0 || progress.cursor.len() == progress.primary_key_arity
            &&& progress.cursor_digest == cursor_binding(
                progress.primary_key_arity,
                progress.schema_fingerprint,
                progress.cursor,
            )
            &&& progress.completed ==> progress.pages_copied >= 1
        },
{
}

/// What the digest of a cursor covers: the format, its version, the number of key columns, the
/// fingerprint of the schema and each value in order.
pub proof fn law_what_a_cursor_digest_covers(
    arity: usize,
    fingerprint: Seq<char>,
    cursor: Seq<Seq<char>>,
    i: int,
)
    ensures
        cursor_fields(arity, fingerprint, cursor).len() == 4 + cursor.len(),
        cursor_fields(arity, fingerprint, cursor)[0] == encode_utf8("pg2cb-snapshot-cursor-v1"@),
        cursor_fields(arity, fingerprint, cursor)[1] == big_endian(1, 2),
        cursor_fields(arity, fingerprint, cursor)[2] == big_endian(arity as nat, 8),
        cursor_fields(arity, fingerprint, cursor)[3] == encode_utf8(fingerprint),
        0 <= i < cursor.len() ==> cursor_fields(arity, fingerprint, cursor)[4 + i] == encode_utf8(
            cursor[i],
        ),
{
}

/// A shadow is filled exactly where its record is a shadow of the same group, generation,
/// fingerprint and token.
pub proof fn law_which_shadows_are_filled(
    record: ManagedTableRecord,
    plan: SnapshotTargetPlan,
    ownership: SnapshotOwnership,
)
    ensures
        shadow_loadable(record, plan, ownership) <==> {
            &&& record.state is Shadow
            &&& record.snapshot_group_id == Some(ownership.snapshot_group_id)
            &&& record.table_generation == plan.source_generation
            &&& record.schema_fingerprint@ == ownership.schema_fingerprint@
            &&& record.fencing_token == ownership.fence.fencing_token
        },
{
}

/// Progress of a load is kept exactly where its group is loading it in the current format, the
/// target admits it, and the shadow is the registered one of this pipeline and relation, with a
/// positive catalog identity that the catalog still shows.
pub proof fn law_which_progress_is_kept(
    stored: StoredSnapshotGroup,
    plan: SnapshotTargetPlan,
    ownership: SnapshotOwnership,
    target: RelationState,
    record: ManagedTableRecord,
    actual: Option<i64>,
)
    ensures
        progress_bound(
            stored,
            plan,
            ownership,
            target,
            RelationState::Managed(record),
            actual,
        ) <==> {
            &&& stored.snapshot_progress_version == 1
            &&& stored.state is Loading
            &&& is_member(stored.request@, plan, ownership)
            &&& target_loadable(target, plan, ownership)
            &&& record.pipeline_id == ownership.fence.pipeline_id
            &&& record.source_relation_id == plan.source_relation_id
            &&& record.state is Shadow
            &&& record.snapshot_group_id == Some(ownership.snapshot_group_id)
            &&& record.table_generation == plan.source_generation
            &&& record.schema_fingerprint@ == ownership.schema_fingerprint@
            &&& record.fencing_token == ownership.fence.fencing_token
            &&& actual matches Some(oid) && oid > 0 && record.relation_oid == Some(oid)
        },
        forall|shadow: RelationState|
            !(shadow is Managed) ==> !#[trigger] progress_bound(
                stored,
                plan,
                ownership,
                target,
                shadow,
                actual,
            ),
{
}

/// Progress can be registered exactly where its generations and its number of key columns can be
/// stored.
pub proof fn law_which_progress_can_be_registered(progress: ProgressView)
    ensures
        registration_fault(progress) is None <==> {
            &&& progress.fence.topology_generation <= i64::MAX
            &&& progress.table_generation <= i64::MAX
            &&& progress.primary_key_arity <= i32::MAX
        },
{
}

/// A stored row has a meaning exactly where each of its columns does.
pub proof fn law_which_snapshot_rows_have_a_meaning(row: ProgressRow)
    ensures
        row.fault() is None <==> {
            &&& row.topology_generation >= 0
            &&& 0 <= row.source_relation_id <= u32::MAX
            &&& row.table_generation >= 0
            &&& 0 <= row.cursor_format_version <= u16::MAX
            &&& row.primary_key_arity >= 0
            &&& row.cursor_digest@.len() == 32
            &&& row.pages_copied >= 0
            &&& row.rows_copied >= 0
            &&& row.fencing_token > 0
            &&& row.shadow_relation_oid > 0
        },
{
}

/// The catalog agrees with the progress exactly where it shows as many key columns, none being as
/// good as zero; and a group is complete exactly where each of its tables is.
pub proof fn law_when_a_group_is_complete(
    progress: ProgressView,
    arity: Option<i32>,
    tables: Seq<SnapshotTableProgress>,
)
    ensures
        arity_holds(progress, arity) <==> progress.primary_key_arity == (match arity {
            Some(count) => count as int,
            None => 0,
        }),
        all_completed(tables) <==> !exists|i: int|
            0 <= i < tables.len() && !(#[trigger] tables[i]).completed,
{
}

/// What is decided about a page of valid progress: one that continues an unfinished table from its
/// durable cursor is copied, whatever the cursor is, and nothing else is.
pub proof fn law_decided_pages(
    current: SnapshotTableProgress,
    expected: &[String],
    next: &[String],
    completed: bool,
    r: Result<PageStep, SnapshotTargetError>,
)
    requires
        call_ensures(judge_page, (&current, expected, next, completed), r),
        contract_holds(current@),
    ensures
        current.completed ==> r == Ok::<PageStep, SnapshotTargetError>(PageStep::AlreadyCompleted),
        !current.completed && texts(current.cursor@) != texts(expected@) ==> r == Ok::<
            PageStep,
            SnapshotTargetError,
        >(PageStep::ResumeAt),
        !current.completed && texts(current.cursor@) == texts(expected@) && page_follows(
            current@,
            texts(next@),
            completed,
        ) ==> r == Ok::<PageStep, SnapshotTargetError>(PageStep::Copy),
        !current.completed && texts(current.cursor@) == texts(expected@) && !page_follows(
            current@,
            texts(next@),
            completed,
        ) ==> r is Err,
{
}

/// A whole table is recorded at once exactly on valid fresh progress: it is then complete, with one
/// page, the copied rows and the empty cursor.
pub proof fn law_recorded_full_copies(
    current: SnapshotTableProgress,
    copied_rows: u64,
    r: Result<SnapshotTableProgress, SnapshotTargetError>,
)
    requires
        call_ensures(complete_full_copy, (&current, copied_rows), r),
    ensures
        r is Ok <==> {
            &&& contract_holds(current@)
            &&& !current.completed
            &&& current.pages_copied == 0
            &&& current.rows_copied == 0
            &&& current.cursor@.len() == 0
            &&& copied_rows <= i64::MAX
        },
        r matches Ok(next) ==> {
            &&& next.completed
            &&& next.pages_copied == 1
            &&& next.rows_copied == copied_rows
            &&& next@.cursor.len() == 0
            &&& next@.target == current@.target
            &&& next@.shadow == current@.shadow
            &&& next.fence == current.fence
        },
{
    assert(current@.cursor.len() == current.cursor@.len());
}

/// A copied page is recorded exactly where it may follow and its counts fit: the cursor is then its
/// own, the page counts one, its rows are added, and the table is complete if the page says so.
pub proof fn law_recorded_pages(
    current: SnapshotTableProgress,
    next_cursor: Vec<String>,
    copied_rows: u64,
    completed: bool,
    r: Result<SnapshotTableProgress, SnapshotTargetError>,
)
    requires
        call_ensures(advance_progress, (&current, next_cursor, copied_rows, completed), r),
    ensures
        r is Ok <==> {
            &&& page_follows(current@, texts(next_cursor@), completed)
            &&& copied_rows > 0 || (completed && texts(next_cursor@) == texts(current.cursor@))
            &&& current.pages_copied < i64::MAX
            &&& current.rows_copied + copied_rows <= i64::MAX
        },
        r matches Ok(next) ==> {
            &&& next@.cursor == texts(next_cursor@)
            &&& next.completed == completed
            &&& next.pages_copied == current.pages_copied + 1
            &&& next.rows_copied == current.rows_copied + copied_rows
            &&& next@.target == current@.target
            &&& next@.shadow == current@.shadow
            &&& next.fence == current.fence
            &&& next.snapshot_group_id == current.snapshot_group_id
        },
{
}

/// Progress is found for every table that it is expected of, and for no other one.
pub proof fn law_counted_progress(
    group: Uuid,
    manifest_tables: usize,
    expected: usize,
    rows: usize,
    r: Result<(), SnapshotTargetError>,
)
    requires
        call_ensures(check_group_progress_count, (group, manifest_tables, expected, rows), r),
    ensures
        r is Ok <==> rows == expected && expected <= manifest_tables,
{
}

/// A group is activated only where the copy of each of its tables is complete.
pub proof fn law_activated_groups_are_complete(
    progress: Vec<SnapshotTableProgress>,
    r: Result<(), SnapshotTargetError>,
)
    requires
        call_ensures(ensure_all_completed, (&progress,), r),
    ensures
        r is Ok <==> forall|i: int| 0 <= i < progress@.len() ==> #[trigger] progress@[i].completed,
        r is Err ==> exists|i: int|
            {
                &&& 0 <= i < progress@.len()
                &&& !(#[trigger] progress@[i]).completed
                &&& r matches Err(SnapshotTargetError::SnapshotProgressIncomplete(name)) && name@
                    == progress@[i].target@.text()
            },
{
}

/// Progress is registered as it stands.
pub proof fn law_registered_progress(
    progress: SnapshotTableProgress,
    r: Result<ProgressRegistration, SnapshotTargetError>,
)
    requires
        call_ensures(progress_registration, (&progress,), r),
    ensures
        r matches Ok(stored) ==> {
            &&& stored.topology_generation as int == progress.fence.topology_generation as int
            &&& stored.source_relation_id as int == progress.source_relation_id as int
            &&& stored.table_generation as int == progress.table_generation as int
            &&& stored.cursor_format_version as int == progress.cursor_format_version as int
            &&& stored.primary_key_arity as int == progress.primary_key_arity as int
        },
        registration_fault(progress@) is None ==> r is Ok,
{
}

/// The progress of a planned load is bound to its group, its target, its shadow and the catalog
/// identity of the shadow, under the fence that loads it.
pub proof fn law_bound_progress(
    stored: StoredSnapshotGroup,
    plan: SnapshotTargetPlan,
    ownership: SnapshotOwnership,
    target: RelationState,
    shadow: RelationState,
    actual: Option<i64>,
    r: Result<SnapshotProgressIdentity, SnapshotTargetError>,
)
    requires
        call_ensures(bind_progress, (&stored, &plan, &ownership, &target, &shadow, actual), r),
    ensures
        r matches Ok(identity) ==> {
            &&& identity.fence == ownership.fence
            &&& identity.snapshot_group_id == ownership.snapshot_group_id
            &&& identity.target@ == plan.target@
            &&& identity.shadow@ == plan.shadow.target@
            &&& actual == Some(identity.shadow_relation_oid)
            &&& identity.source_relation_id == plan.source_relation_id
            &&& identity.table_generation == plan.source_generation
            &&& identity.schema_fingerprint@ == ownership.schema_fingerprint@
            &&& identity.primary_key_arity as int == plan.shadow.primary_key@.len() as int
        },
        stored.state is Active || actual is None ==> r is Err,
{
}

/// The progress of a load is kept only in a loading group of the current version that the load
/// belongs to.
pub proof fn law_which_groups_keep_progress(
    stored: StoredSnapshotGroup,
    plan: SnapshotTargetPlan,
    ownership: SnapshotOwnership,
    r: Result<(), SnapshotTargetError>,
)
    requires
        call_ensures(judge_progress_group, (&stored, &plan, &ownership), r),
    ensures
        r is Ok <==> {
            &&& stored.snapshot_progress_version == SNAPSHOT_PROGRESS_VERSION
            &&& is_member(stored.request@, plan, ownership)
            &&& stored.state is Loading
        },
        stored.snapshot_progress_version != SNAPSHOT_PROGRESS_VERSION ==> r == Err::<
            (),
            SnapshotTargetError,
        >(
            SnapshotTargetError::UnsupportedSnapshotProgressVersion {
                group: ownership.snapshot_group_id,
                version: stored.snapshot_progress_version,
            },
        ),
{
}

/// What is told of a cursor or of counters that cannot be stored is so.
pub proof fn law_told_faults_of_progress(
    primary_key_arity: usize,
    cursor: Seq<Seq<char>>,
    next: ProgressView,
    previous: ProgressView,
)
    ensures
        cursor_fault(primary_key_arity, cursor) matches Some(e) ==> {
            ||| e is InvalidSnapshotCursorValue && exists|i: int|
                0 <= i < cursor.len() && (#[trigger] cursor[i]).contains('\0')
            ||| (e matches SnapshotTargetError::SnapshotCursorArityMismatch { expected, actual }
                && expected == primary_key_arity && actual == cursor.len() as usize && cursor.len()
                != primary_key_arity)
        },
        counter_fault(next, previous) matches Some(e) ==> (
        e matches SnapshotTargetError::SnapshotProgressValueOutOfRange { field, value } && value
            > i64::MAX && {
            ||| field@ == "pages_copied"@ && (value == next.pages_copied || value
                == previous.pages_copied)
            ||| field@ == "rows_copied"@ && (value == next.rows_copied || value
                == previous.rows_copied)
        }),
{
}

/// A named difference between stored progress and the load that it is expected of is one.
pub proof fn law_named_differences_of_progress(
    stored: ProgressView,
    expected: SnapshotProgressIdentity,
)
    ensures
        identity_difference(stored, expected, true) matches Some(field) ==> {
            ||| field@ == "snapshot_group_id"@ && stored.snapshot_group_id
                != expected.snapshot_group_id
            ||| field@ == "target"@ && stored.target != expected.target@
            ||| field@ == "shadow"@ && stored.shadow != expected.shadow@
            ||| field@ == "pipeline_id"@ && stored.fence.pipeline_id != expected.fence.pipeline_id
            ||| field@ == "topology_generation"@ && stored.fence.topology_generation
                != expected.fence.topology_generation
            ||| field@ == "shadow_relation_oid"@ && stored.shadow_relation_oid
                != expected.shadow_relation_oid
            ||| field@ == "source_relation_id"@ && stored.source_relation_id
                != expected.source_relation_id
            ||| field@ == "table_generation"@ && stored.table_generation != expected.table_generation
            ||| field@ == "schema_fingerprint"@ && stored.schema_fingerprint
                != expected.schema_fingerprint@
            ||| field@ == "fencing_token"@ && stored.fence.fencing_token
                != expected.fence.fencing_token
            ||| field@ == "primary_key_arity"@ && stored.primary_key_arity
                != expected.primary_key_arity
        },
{
}

/// The progress of a group counts for a table of its manifest exactly where it is of the same
/// group, fence, target, shadow, source and generation, has the same fingerprint, and keeps the
/// contract of stored progress.
pub proof fn law_which_progress_counts_for_a_group(
    fence: PipelineFence,
    group: Uuid,
    expected: CompletedSnapshotTableIdentity,
    progress: SnapshotTableProgress,
    r: Result<(), SnapshotTargetError>,
)
    requires
        call_ensures(validate_group_progress, (fence, group, &expected, &progress), r),
    ensures
        r is Ok <==> {
            &&& progress.snapshot_group_id == group
            &&& progress.fence == fence
            &&& progress.target@ == expected.table.target@
            &&& progress.shadow@ == expected.table.shadow@
            &&& progress.shadow_relation_oid == expected.shadow_relation_oid
            &&& progress.source_relation_id == expected.table.source_relation_id
            &&& progress.table_generation == expected.table.table_generation
            &&& progress.schema_fingerprint@ == expected.table.schema_fingerprint@
            &&& contract_holds(progress@)
        },
{
}

/// What is told of progress that does not count for a table of the group is so: the named field is
/// another one than the manifest's.
pub proof fn law_told_differences_of_group_progress(
    fence: PipelineFence,
    group: Uuid,
    expected: CompletedSnapshotTableIdentity,
    progress: SnapshotTableProgress,
    r: Result<(), SnapshotTargetError>,
)
    requires
        call_ensures(validate_group_progress, (fence, group, &expected, &progress), r),
    ensures
        r matches Err(SnapshotTargetError::SnapshotProgressIdentityMismatch { table, field }) ==> {
            &&& table@ == expected.table.target@.text()
            &&& {
                ||| field@ == "snapshot_group_id"@ && progress.snapshot_group_id != group
                ||| field@ == "target"@ && progress.target@ != expected.table.target@
                ||| field@ == "shadow"@ && progress.shadow@ != expected.table.shadow@
                ||| field@ == "pipeline_id"@ && progress.fence.pipeline_id != fence.pipeline_id
                ||| field@ == "topology_generation"@ && progress.fence.topology_generation
                    != fence.topology_generation
                ||| field@ == "shadow_relation_oid"@ && progress.shadow_relation_oid
                    != expected.shadow_relation_oid
                ||| field@ == "source_relation_id"@ && progress.source_relation_id
                    != expected.table.source_relation_id
                ||| field@ == "table_generation"@ && progress.table_generation
                    != expected.table.table_generation
                ||| field@ == "schema_fingerprint"@ && progress.schema_fingerprint@
                    != expected.table.schema_fingerprint@
                ||| field@ == "fencing_token"@ && progress.fence.fencing_token
                    != fence.fencing_token
            }
        },
{
}

} // verus!
