//! Shared target managed-table identity checks for data-changing transactions.

use crate::checkpoint::{CheckpointError, PersistedFault, PipelineFence};
use crate::ident::{PipelineId, Uuid};
use crate::order::{
    ascending, is_arrangement, lemma_name_asymmetric, lemma_name_irreflexive, lemma_name_total,
    lemma_name_transitive, name_less, names_of, never_descending, order_by_name,
};
use crate::source::{NameView, QualifiedName};
use crate::sql::{name_render_fault, quote_qualified_name, quoted, quoted_name, SqlRenderError};
use crate::text::{contains_char, render_signed, same_text, signed_decimal};
use vstd::prelude::*;

verus! {

pub const LOCK_MANAGED_TABLE_SQL: &'static str = r#"
SELECT pipeline_id, relation_oid, source_relation_id, table_generation,
       schema_fingerprint, state, fencing_token
FROM pg2cb_meta.managed_tables
WHERE target_schema = $1 AND target_table = $2
FOR UPDATE
"#;

pub const LOAD_RELATION_OID_SQL: &'static str = r#"
SELECT c.oid::bigint AS relation_oid
FROM pg_catalog.pg_class AS c
JOIN pg_catalog.pg_namespace AS n ON n.oid = c.relnamespace
WHERE n.nspname = $1 AND c.relname = $2
  AND c.relkind IN ('r', 'p')
"#;

/// Immutable table identity expected by one target apply plan.
///
/// `table_generation` is the persisted relation incarnation. It is deliberately independent from
/// the pgoutput connection's relation-cache generation.
#[derive(Debug, PartialEq, Eq)]
pub struct TableApplyIdentity {
    pub target: QualifiedName,
    pub source_relation_id: u32,
    pub table_generation: u64,
    pub schema_fingerprint: String,
}

impl Clone for TableApplyIdentity {
    fn clone(&self) -> (r: Self)
        ensures
            r == *self,
    {
        TableApplyIdentity {
            target: self.target.clone(),
            source_relation_id: self.source_relation_id,
            table_generation: self.table_generation,
            schema_fingerprint: self.schema_fingerprint.clone(),
        }
    }
}

#[allow(inconsistent_fields)]
#[derive(Debug, PartialEq, Eq)]
pub enum ManagedTableError {
    Checkpoint(CheckpointError),
    Sql(SqlRenderError),
    /// The apply identity has a zero source relation ID.
    InvalidSourceRelationId(String),
    /// The apply identity has an empty or invalid schema fingerprint.
    InvalidSchemaFingerprint(String),
    GenerationOutOfRange { table: String, generation: u64 },
    /// A target table occurs more than once in one apply transaction.
    DuplicateTarget(String),
    /// A target table has no managed-table metadata.
    MissingMetadata(String),
    PipelineMismatch { table: String, expected: PipelineId, actual: PipelineId },
    SourceRelationMismatch { table: String, expected: u32, actual: u32 },
    GenerationMismatch { table: String, expected: u64, actual: u64 },
    SchemaFingerprintMismatch(String),
    StateMismatch { table: String, actual: String },
    NewerFence { table: String, current: i64, actual: i64 },
    /// A target table has no persisted physical relation identity.
    MissingRelationIdentity(String),
    PhysicalRelationMissing(String),
    RelationIdentityMismatch { table: String, expected: i64, actual: i64 },
    InvalidPersistedValue { table: String, field: &'static str, value: String },
}

/// Target metadata can store the identity.
pub open spec fn identity_valid(identity: TableApplyIdentity) -> bool {
    &&& name_render_fault(identity.target@) is None
    &&& identity.source_relation_id != 0
    &&& identity.schema_fingerprint@.len() > 0
    &&& !identity.schema_fingerprint@.contains('\0')
    &&& identity.table_generation <= i64::MAX
}

/// The error tells why target metadata cannot store the identity.
pub open spec fn refuses_identity(e: ManagedTableError, identity: TableApplyIdentity) -> bool {
    let table = identity.target@.text();
    if name_render_fault(identity.target@) is Some {
        e == ManagedTableError::Sql(name_render_fault(identity.target@)->0)
    } else if identity.source_relation_id == 0 {
        e matches ManagedTableError::InvalidSourceRelationId(t) && t@ == table
    } else if identity.schema_fingerprint@.len() == 0 || identity.schema_fingerprint@.contains(
        '\0',
    ) {
        e matches ManagedTableError::InvalidSchemaFingerprint(t) && t@ == table
    } else if identity.table_generation > i64::MAX {
        e matches ManagedTableError::GenerationOutOfRange { table: t, generation } && t@ == table
            && generation == identity.table_generation
    } else {
        false
    }
}

pub fn validate_input_identity(identity: &TableApplyIdentity) -> (r: Result<(), ManagedTableError>)
    ensures
        match r {
            Ok(()) => identity_valid(*identity),
            Err(e) => !identity_valid(*identity) && refuses_identity(e, *identity),
        },
{
    match quote_qualified_name(&identity.target) {
        Err(e) => return Err(ManagedTableError::Sql(e)),
        Ok(_) => {},
    }
    if identity.source_relation_id == 0 {
        return Err(ManagedTableError::InvalidSourceRelationId(identity.target.display()));
    }
    if identity.schema_fingerprint.as_str().is_empty() || contains_char(
        identity.schema_fingerprint.as_str(),
        '\0',
    ) {
        return Err(ManagedTableError::InvalidSchemaFingerprint(identity.target.display()));
    }
    if identity.table_generation > i64::MAX as u64 {
        return Err(
            ManagedTableError::GenerationOutOfRange {
                table: identity.target.display(),
                generation: identity.table_generation,
            },
        );
    }
    Ok(())
}

/// The targets of a list of identities.
pub open spec fn target_names(identities: Seq<&TableApplyIdentity>) -> Seq<NameView> {
    Seq::new(identities.len(), |i: int| identities[i].target@)
}

/// The first position of an identity that cannot be stored.
pub open spec fn is_first_invalid(identities: Seq<&TableApplyIdentity>, at: int) -> bool {
    &&& 0 <= at < identities.len()
    &&& !identity_valid(*identities[at])
    &&& forall|k: int| 0 <= k < at ==> identity_valid(*(#[trigger] identities[k]))
}

/// The name occurs at two positions.
pub open spec fn occurs_twice(names: Seq<NameView>, name: NameView) -> bool {
    exists|i: int, j: int|
        0 <= i < j < names.len() && #[trigger] names[i] == name && #[trigger] names[j] == name
}

/// The members of one list in another order.
pub open spec fn rearranged(
    ordered: Seq<&TableApplyIdentity>,
    identities: Seq<&TableApplyIdentity>,
    order: Seq<usize>,
) -> bool {
    &&& is_arrangement(order, identities.len() as int)
    &&& ordered.len() == identities.len()
    &&& forall|i: int|
        0 <= i < ordered.len() ==> #[trigger] ordered[i] == identities[order[i] as int]
}

/// Checks apply identities and puts them in ascending target order.
///
/// Locks are taken in this order, which prevents multi-table apply transactions from acquiring
/// them in conflicting orders.
pub fn validate_and_order_identities<'a>(identities: &[&'a TableApplyIdentity]) -> (r: Result<
    Vec<&'a TableApplyIdentity>,
    ManagedTableError,
>)
    ensures
        match r {
            Ok(ordered) => {
                &&& forall|i: int|
                    0 <= i < identities@.len() ==> identity_valid(*(#[trigger] identities@[i]))
                &&& exists|order: Seq<usize>| rearranged(ordered@, identities@, order)
                &&& ascending(target_names(ordered@))
            },
            Err(e) => if exists|at: int| is_first_invalid(identities@, at) {
                exists|at: int| #[trigger]
                    is_first_invalid(identities@, at) && refuses_identity(e, *identities@[at])
            } else {
                exists|name: NameView| #[trigger]
                    occurs_twice(target_names(identities@), name) && (
                    e matches ManagedTableError::DuplicateTarget(t) && t@ == name.text()) && (
                    forall|other: NameView| #[trigger]
                        occurs_twice(target_names(identities@), other) ==> !name_less(other, name))
            },
        },
{
    let mut i: usize = 0;
    let mut targets: Vec<&QualifiedName> = Vec::new();
    while i < identities.len()
        invariant
            i <= identities.len(),
            targets@.len() == i,
            forall|k: int| 0 <= k < i ==> identity_valid(*(#[trigger] identities@[k])),
            forall|k: int| 0 <= k < i ==> #[trigger] targets@[k]@ == identities@[k].target@,
        decreases identities.len() - i,
    {
        match validate_input_identity(identities[i]) {
            Err(e) => {
                proof {
                    assert(is_first_invalid(identities@, i as int));
                }
                return Err(e);
            },
            Ok(()) => {},
        }
        targets.push(&identities[i].target);
        i = i + 1;
    }
    let ghost names = target_names(identities@);
    let order = order_by_name(&targets);
    proof {
        assert(names_of(targets@) =~= names);
    }
    let mut ordered: Vec<&'a TableApplyIdentity> = Vec::new();
    let mut j: usize = 0;
    while j < order.len()
        invariant
            j <= order.len(),
            is_arrangement(order@, identities@.len() as int),
            ordered@.len() == j,
            forall|k: int| 0 <= k < j ==> #[trigger] ordered@[k] == identities@[order@[k] as int],
        decreases order.len() - j,
    {
        ordered.push(identities[order[j]]);
        j = j + 1;
    }
    let ghost sorted = target_names(ordered@);
    proof {
        assert(rearranged(ordered@, identities@, order@));
        assert(sorted =~= crate::order::arranged(names, order@));
        assert forall|at: int| !is_first_invalid(identities@, at) by {
            if is_first_invalid(identities@, at) {
                assert(identity_valid(*identities@[at]));
            }
        }
    }
    let mut k: usize = 1;
    while k < ordered.len()
        invariant
            1 <= k,
            ordered.len() == identities.len(),
            names == target_names(identities@),
            sorted == target_names(ordered@),
            never_descending(sorted),
            rearranged(ordered@, identities@, order@),
            sorted == crate::order::arranged(names, order@),
            forall|at: int| !is_first_invalid(identities@, at),
            k <= ordered.len() || ordered.len() == 0,
            forall|m: int| 0 < m < k ==> name_less(sorted[m - 1], #[trigger] sorted[m]),
        decreases ordered.len() - k,
    {
        if ordered[k - 1].target.same(&ordered[k].target) {
            proof {
                lemma_duplicate_is_least(names, sorted, order@, k as int);
            }
            return Err(ManagedTableError::DuplicateTarget(ordered[k - 1].target.display()));
        }
        proof {
            lemma_name_total(sorted[k - 1], sorted[k as int]);
        }
        k = k + 1;
    }
    proof {
        assert(ascending(sorted)) by {
            assert forall|a: int, b: int| 0 <= a < b < sorted.len() implies name_less(
                #[trigger] sorted[a],
                #[trigger] sorted[b],
            ) by {
                lemma_chain(sorted, a, b);
            }
        }
    }
    Ok(ordered)
}

/// Neighbours in ascending order make the whole list ascending.
proof fn lemma_chain(sorted: Seq<NameView>, a: int, b: int)
    requires
        0 <= a < b < sorted.len(),
        forall|m: int| a < m <= b ==> name_less(sorted[m - 1], #[trigger] sorted[m]),
    ensures
        name_less(sorted[a], sorted[b]),
    decreases b - a,
{
    assert(name_less(sorted[b - 1], sorted[b]));
    if a < b - 1 {
        lemma_chain(sorted, a, b - 1);
        lemma_name_transitive(sorted[a], sorted[b - 1], sorted[b]);
    }
}

/// The first repeated neighbour in sorted order is the smallest repeated name.
proof fn lemma_duplicate_is_least(
    names: Seq<NameView>,
    sorted: Seq<NameView>,
    order: Seq<usize>,
    k: int,
)
    requires
        is_arrangement(order, names.len() as int),
        sorted == crate::order::arranged(names, order),
        never_descending(sorted),
        0 < k < sorted.len(),
        sorted[k - 1] == sorted[k],
        forall|m: int| 0 < m < k ==> name_less(sorted[m - 1], #[trigger] sorted[m]),
    ensures
        occurs_twice(names, sorted[k - 1]),
        forall|other: NameView| #[trigger]
            occurs_twice(names, other) ==> !name_less(other, sorted[k - 1]),
{
    let name = sorted[k - 1];
    let p = order[k - 1] as int;
    let q = order[k] as int;
    assert(p != q);
    assert(names[p] == name && names[q] == name);
    if p < q {
        assert(occurs_twice(names, name));
    } else {
        assert(occurs_twice(names, name));
    }
    assert forall|other: NameView| #[trigger] occurs_twice(names, other) implies !name_less(
        other,
        name,
    ) by {
        let (i, j) = choose|i: int, j: int|
            0 <= i < j < names.len() && #[trigger] names[i] == other && #[trigger] names[j]
                == other;
        crate::order::lemma_arrangement_covers(order, names.len() as int, i);
        crate::order::lemma_arrangement_covers(order, names.len() as int, j);
        let x = choose|x: int| 0 <= x < order.len() && #[trigger] order[x] == i;
        let y = choose|y: int| 0 <= y < order.len() && #[trigger] order[y] == j;
        assert(sorted[x] == other && sorted[y] == other);
        if name_less(other, name) {
            let low = if x < y { x } else { y };
            let high = if x < y { y } else { x };
            if high >= k - 1 {
                if high > k - 1 {
                    assert(!name_less(sorted[high], sorted[k - 1]));
                } else {
                    lemma_name_irreflexive(name);
                }
            } else {
                lemma_chain(sorted, low, high);
                lemma_name_irreflexive(other);
            }
        }
    }
}

/// Two transactions take the locks of the tables that they share in one order.
pub proof fn law_shared_tables_lock_in_one_order(
    a: Seq<NameView>,
    b: Seq<NameView>,
    i: int,
    j: int,
    p: int,
    q: int,
)
    requires
        ascending(a),
        ascending(b),
        0 <= i < j < a.len(),
        0 <= p < b.len(),
        0 <= q < b.len(),
        a[i] == b[p],
        a[j] == b[q],
    ensures
        p < q,
{
    assert(name_less(a[i], a[j]));
    if q < p {
        assert(name_less(b[q], b[p]));
        lemma_name_asymmetric(a[i], a[j]);
    }
    if p == q {
        lemma_name_irreflexive(a[i]);
    }
}

/// Managed-table metadata as the target holds it.
#[derive(Debug, PartialEq, Eq)]
pub struct StoredManagedTableIdentity {
    pub pipeline_id: PipelineId,
    pub relation_oid: Option<i64>,
    pub source_relation_id: u32,
    pub table_generation: u64,
    pub schema_fingerprint: String,
    pub state: String,
    pub fencing_token: i64,
}

impl Clone for StoredManagedTableIdentity {
    fn clone(&self) -> (r: Self)
        ensures
            r == *self,
    {
        StoredManagedTableIdentity {
            pipeline_id: self.pipeline_id,
            relation_oid: self.relation_oid,
            source_relation_id: self.source_relation_id,
            table_generation: self.table_generation,
            schema_fingerprint: self.schema_fingerprint.clone(),
            state: self.state.clone(),
            fencing_token: self.fencing_token,
        }
    }
}

/// A managed-table row as the target returns it.
#[derive(Debug, PartialEq, Eq)]
pub struct ManagedTableRow {
    pub pipeline_id: Uuid,
    pub relation_oid: Option<i64>,
    pub source_relation_id: i64,
    pub table_generation: i64,
    pub schema_fingerprint: String,
    pub state: String,
    pub fencing_token: i64,
}

/// The first column of a managed-table row that has no meaning.
pub open spec fn managed_row_fault(row: ManagedTableRow) -> Option<PersistedFault> {
    if !(0 < row.source_relation_id <= u32::MAX) {
        Some(("source_relation_id", signed_decimal(row.source_relation_id as int)))
    } else if row.table_generation < 0 {
        Some(("table_generation", signed_decimal(row.table_generation as int)))
    } else if row.fencing_token <= 0 {
        Some(("fencing_token", signed_decimal(row.fencing_token as int)))
    } else if row.relation_oid is Some && row.relation_oid->0 <= 0 {
        Some(("relation_oid", signed_decimal(row.relation_oid->0 as int)))
    } else if row.schema_fingerprint@.len() == 0 {
        Some(("schema_fingerprint", ""@))
    } else {
        None
    }
}

/// The error names the table and the column and shows the stored value.
pub open spec fn table_reports(
    e: ManagedTableError,
    table: NameView,
    fault: Option<PersistedFault>,
) -> bool {
    e matches ManagedTableError::InvalidPersistedValue { table: t, field, value } && t@
        == table.text() && fault == Some((field, value@))
}

fn invalid_persisted(table: &QualifiedName, field: &'static str, value: String) -> (r: ManagedTableError)
    ensures
        table_reports(r, table@, Some((field, value@))),
{
    ManagedTableError::InvalidPersistedValue { table: table.display(), field, value }
}

/// Reads a managed-table row.
pub fn stored_identity_from_row(table: &QualifiedName, row: ManagedTableRow) -> (r: Result<
    StoredManagedTableIdentity,
    ManagedTableError,
>)
    ensures
        match r {
            Ok(stored) => {
                &&& managed_row_fault(row) is None
                &&& stored.pipeline_id.uuid == row.pipeline_id
                &&& stored.relation_oid == row.relation_oid
                &&& stored.source_relation_id == row.source_relation_id
                &&& stored.table_generation == row.table_generation
                &&& stored.schema_fingerprint == row.schema_fingerprint
                &&& stored.state == row.state
                &&& stored.fencing_token == row.fencing_token
            },
            Err(e) => table_reports(e, table@, managed_row_fault(row)),
        },
{
    if row.source_relation_id <= 0 || row.source_relation_id > u32::MAX as i64 {
        return Err(
            invalid_persisted(table, "source_relation_id", render_signed(row.source_relation_id)),
        );
    }
    if row.table_generation < 0 {
        return Err(
            invalid_persisted(table, "table_generation", render_signed(row.table_generation)),
        );
    }
    if row.fencing_token <= 0 {
        return Err(invalid_persisted(table, "fencing_token", render_signed(row.fencing_token)));
    }
    match row.relation_oid {
        Some(oid) => {
            if oid <= 0 {
                return Err(invalid_persisted(table, "relation_oid", render_signed(oid)));
            }
        },
        None => {},
    }
    if row.schema_fingerprint.as_str().is_empty() {
        return Err(invalid_persisted(table, "schema_fingerprint", "".to_string()));
    }
    Ok(
        StoredManagedTableIdentity {
            pipeline_id: PipelineId::from_uuid(row.pipeline_id),
            relation_oid: row.relation_oid,
            source_relation_id: row.source_relation_id as u32,
            table_generation: row.table_generation as u64,
            schema_fingerprint: row.schema_fingerprint,
            state: row.state,
            fencing_token: row.fencing_token,
        },
    )
}

/// The stored metadata belongs to the expected active table, under no newer fence.
pub open spec fn identity_holds(
    fence: PipelineFence,
    expected: TableApplyIdentity,
    actual: StoredManagedTableIdentity,
) -> bool {
    &&& actual.pipeline_id == fence.pipeline_id
    &&& actual.source_relation_id == expected.source_relation_id
    &&& actual.table_generation == expected.table_generation
    &&& actual.schema_fingerprint@ == expected.schema_fingerprint@
    &&& actual.state@ == "active"@
    &&& actual.fencing_token <= fence.fencing_token
    &&& actual.relation_oid is Some
}

/// The error tells the first difference between expected and stored metadata.
pub open spec fn refuses_stored(
    e: ManagedTableError,
    fence: PipelineFence,
    expected: TableApplyIdentity,
    actual: StoredManagedTableIdentity,
) -> bool {
    let name = expected.target@.text();
    if actual.pipeline_id != fence.pipeline_id {
        e matches ManagedTableError::PipelineMismatch { table, expected: x, actual: y } && table@
            == name && x == fence.pipeline_id && y == actual.pipeline_id
    } else if actual.source_relation_id != expected.source_relation_id {
        e matches ManagedTableError::SourceRelationMismatch { table, expected: x, actual: y }
            && table@ == name && x == expected.source_relation_id && y == actual.source_relation_id
    } else if actual.table_generation != expected.table_generation {
        e matches ManagedTableError::GenerationMismatch { table, expected: x, actual: y } && table@
            == name && x == expected.table_generation && y == actual.table_generation
    } else if actual.schema_fingerprint@ != expected.schema_fingerprint@ {
        e matches ManagedTableError::SchemaFingerprintMismatch(table) && table@ == name
    } else if actual.state@ != "active"@ {
        e matches ManagedTableError::StateMismatch { table, actual: y } && table@ == name && y
            == actual.state
    } else if actual.fencing_token > fence.fencing_token {
        e matches ManagedTableError::NewerFence { table, current: x, actual: y } && table@ == name
            && x == fence.fencing_token && y == actual.fencing_token
    } else {
        e matches ManagedTableError::MissingRelationIdentity(table) && table@ == name
    }
}

/// Checks stored metadata against the expected table and gives its relation.
pub fn validate_stored_identity(
    fence: PipelineFence,
    expected: &TableApplyIdentity,
    actual: &StoredManagedTableIdentity,
) -> (r: Result<i64, ManagedTableError>)
    ensures
        match r {
            Ok(oid) => identity_holds(fence, *expected, *actual) && actual.relation_oid == Some(
                oid,
            ),
            Err(e) => !identity_holds(fence, *expected, *actual) && refuses_stored(
                e,
                fence,
                *expected,
                *actual,
            ),
        },
{
    let table = expected.target.display();
    if actual.pipeline_id != fence.pipeline_id {
        return Err(
            ManagedTableError::PipelineMismatch {
                table,
                expected: fence.pipeline_id,
                actual: actual.pipeline_id,
            },
        );
    }
    if actual.source_relation_id != expected.source_relation_id {
        return Err(
            ManagedTableError::SourceRelationMismatch {
                table,
                expected: expected.source_relation_id,
                actual: actual.source_relation_id,
            },
        );
    }
    if actual.table_generation != expected.table_generation {
        return Err(
            ManagedTableError::GenerationMismatch {
                table,
                expected: expected.table_generation,
                actual: actual.table_generation,
            },
        );
    }
    if !same_text(actual.schema_fingerprint.as_str(), expected.schema_fingerprint.as_str()) {
        return Err(ManagedTableError::SchemaFingerprintMismatch(table));
    }
    if !same_text(actual.state.as_str(), "active") {
        return Err(ManagedTableError::StateMismatch { table, actual: actual.state.clone() });
    }
    if actual.fencing_token > fence.fencing_token {
        return Err(
            ManagedTableError::NewerFence {
                table,
                current: fence.fencing_token,
                actual: actual.fencing_token,
            },
        );
    }
    match actual.relation_oid {
        Some(oid) => Ok(oid),
        None => Err(ManagedTableError::MissingRelationIdentity(table)),
    }
}

/// What to do with a table whose metadata is valid: the lock to take and the relation to expect.
#[derive(Debug, PartialEq, Eq)]
pub struct TableLock {
    pub lock_sql: String,
    pub relation_oid: i64,
}

/// The lock that keeps a table's schema still while its rows change.
pub open spec fn row_exclusive_lock(target: NameView) -> Seq<char> {
    "LOCK TABLE "@ + quoted_name(target) + " IN ROW EXCLUSIVE MODE"@
}

/// Decides from a table's locked metadata row whether the table may be changed.
pub fn judge_managed_row(
    fence: PipelineFence,
    identity: &TableApplyIdentity,
    row: Option<ManagedTableRow>,
) -> (r: Result<TableLock, ManagedTableError>)
    ensures
        match (r, row) {
            (Err(e), None) => e matches ManagedTableError::MissingMetadata(table) && table@
                == identity.target@.text(),
            (Ok(_), None) => false,
            (Err(e), Some(row)) => if managed_row_fault(row) is Some {
                table_reports(e, identity.target@, managed_row_fault(row))
            } else {
                exists|stored: StoredManagedTableIdentity|
                    {
                        &&& #[trigger] row_is(row, stored)
                        &&& if identity_holds(fence, *identity, stored) {
                            name_render_fault(identity.target@) is Some && e
                                == ManagedTableError::Sql(name_render_fault(identity.target@)->0)
                        } else {
                            refuses_stored(e, fence, *identity, stored)
                        }
                    }
            },
            (Ok(lock), Some(row)) => {
                &&& managed_row_fault(row) is None
                &&& name_render_fault(identity.target@) is None
                &&& lock.lock_sql@ == row_exclusive_lock(identity.target@)
                &&& row.relation_oid == Some(lock.relation_oid)
                &&& exists|stored: StoredManagedTableIdentity| #[trigger]
                    row_is(row, stored) && identity_holds(fence, *identity, stored)
            },
        },
{
    let row = match row {
        None => return Err(ManagedTableError::MissingMetadata(identity.target.display())),
        Some(row) => row,
    };
    let ghost given = row;
    let stored = match stored_identity_from_row(&identity.target, row) {
        Err(e) => return Err(e),
        Ok(stored) => stored,
    };
    proof {
        assert(row_is(given, stored));
    }
    let relation_oid = match validate_stored_identity(fence, identity, &stored) {
        Err(e) => return Err(e),
        Ok(oid) => oid,
    };
    match quote_qualified_name(&identity.target) {
        Err(e) => Err(ManagedTableError::Sql(e)),
        Ok(target) => {
            let mut lock_sql = "LOCK TABLE ".to_string();
            lock_sql.append(target.as_str());
            lock_sql.append(" IN ROW EXCLUSIVE MODE");
            Ok(TableLock { lock_sql, relation_oid })
        },
    }
}

/// The metadata holds the values of the row.
pub open spec fn row_is(row: ManagedTableRow, stored: StoredManagedTableIdentity) -> bool {
    &&& stored.pipeline_id.uuid == row.pipeline_id
    &&& stored.relation_oid == row.relation_oid
    &&& stored.source_relation_id == row.source_relation_id
    &&& stored.table_generation == row.table_generation
    &&& stored.schema_fingerprint == row.schema_fingerprint
    &&& stored.state == row.state
    &&& stored.fencing_token == row.fencing_token
}

pub fn validate_relation_identity(table: &QualifiedName, expected: i64, actual: i64) -> (r: Result<
    (),
    ManagedTableError,
>)
    ensures
        match r {
            Ok(()) => actual == expected,
            Err(e) => actual != expected && (e matches ManagedTableError::RelationIdentityMismatch {
                table: t,
                expected: x,
                actual: y,
            } && t@ == table@.text() && x == expected && y == actual),
        },
{
    if actual == expected {
        Ok(())
    } else {
        Err(
            ManagedTableError::RelationIdentityMismatch {
                table: table.display(),
                expected,
                actual,
            },
        )
    }
}

/// Decides from the catalog whether the locked relation is the one in the metadata.
pub fn judge_relation(table: &QualifiedName, expected: i64, actual: Option<i64>) -> (r: Result<
    (),
    ManagedTableError,
>)
    ensures
        match r {
            Ok(()) => actual == Some(expected),
            Err(e) => match actual {
                None => e matches ManagedTableError::PhysicalRelationMissing(t) && t@
                    == table@.text(),
                Some(oid) => oid != expected && (
                e matches ManagedTableError::RelationIdentityMismatch {
                    table: t,
                    expected: x,
                    actual: y,
                } && t@ == table@.text() && x == expected && y == oid),
            },
        },
{
    match actual {
        None => Err(ManagedTableError::PhysicalRelationMissing(table.display())),
        Some(oid) => validate_relation_identity(table, expected, oid),
    }
}

/// A table under a newer fence is never changed; one under an older fence can be adopted.
pub proof fn law_newer_fences_win(
    fence: PipelineFence,
    expected: TableApplyIdentity,
    actual: StoredManagedTableIdentity,
)
    requires
        identity_holds(fence, expected, actual),
    ensures
        actual.fencing_token <= fence.fencing_token,
        forall|older: PipelineFence|
            older.fencing_token < actual.fencing_token ==> !#[trigger] identity_holds(
                older,
                expected,
                actual,
            ),
{
}

/// An identity can be stored exactly where its name can be written, its relation and fingerprint
/// are given without NUL, and its generation fits.
pub proof fn law_which_identities_can_be_stored(identity: TableApplyIdentity)
    ensures
        identity_valid(identity) <==> {
            &&& name_render_fault(identity.target@) is None
            &&& identity.source_relation_id > 0
            &&& identity.schema_fingerprint@.len() > 0
            &&& !identity.schema_fingerprint@.contains('\0')
            &&& identity.table_generation <= i64::MAX
        },
{
}

/// Rows are applied to a table exactly where it is the active one of the pipeline, with the expected
/// relation, generation and fingerprint and a catalog identity, under no newer fence.
pub proof fn law_which_tables_are_applied_to(
    fence: PipelineFence,
    expected: TableApplyIdentity,
    actual: StoredManagedTableIdentity,
)
    ensures
        identity_holds(fence, expected, actual) <==> {
            &&& actual.pipeline_id == fence.pipeline_id
            &&& actual.source_relation_id == expected.source_relation_id
            &&& actual.table_generation == expected.table_generation
            &&& actual.schema_fingerprint@ == expected.schema_fingerprint@
            &&& actual.state@ == "active"@
            &&& actual.fencing_token <= fence.fencing_token
            &&& actual.relation_oid is Some
        },
{
}

/// A stored row has a meaning exactly where its relation, token and catalog identity are positive,
/// its generation is not negative, and it has a fingerprint.
pub proof fn law_which_stored_tables_have_a_meaning(row: ManagedTableRow)
    ensures
        managed_row_fault(row) is None <==> {
            &&& 0 < row.source_relation_id <= u32::MAX
            &&& row.table_generation >= 0
            &&& row.fencing_token > 0
            &&& row.relation_oid matches Some(oid) ==> oid > 0
            &&& row.schema_fingerprint@.len() > 0
        },
{
}

/// A table is locked by its quoted name, in the mode that lets rows change and the schema not.
pub proof fn law_lock_text(target: NameView)
    ensures
        row_exclusive_lock(target) == "LOCK TABLE "@ + quoted(target.schema) + "."@ + quoted(
            target.name,
        ) + " IN ROW EXCLUSIVE MODE"@,
{
    assert("LOCK TABLE "@ + (quoted(target.schema) + "."@ + quoted(target.name))
        + " IN ROW EXCLUSIVE MODE"@ =~= "LOCK TABLE "@ + quoted(target.schema) + "."@ + quoted(
        target.name,
    ) + " IN ROW EXCLUSIVE MODE"@);
}

/// The locked relation is the registered one exactly where the catalog gives the registered
/// identity under its name.
pub proof fn law_which_relations_are_confirmed(
    table: QualifiedName,
    expected: i64,
    found: i64,
    r: Result<(), ManagedTableError>,
    missing: Result<(), ManagedTableError>,
)
    requires
        call_ensures(judge_relation, (&table, expected, Some(found)), r),
        call_ensures(judge_relation, (&table, expected, None::<i64>), missing),
    ensures
        missing matches Err(ManagedTableError::PhysicalRelationMissing(name)) && name@
            == table@.text(),
        r is Ok <==> found == expected,
        found != expected ==> (r matches Err(
            ManagedTableError::RelationIdentityMismatch { table: name, expected: wanted, actual },
        ) && name@ == table@.text() && wanted == expected && actual == found),
{
}

/// A stored table is the one that a batch is for exactly where its owner, its source, its
/// generation and its fingerprint are the expected ones, it is active, and no newer fence owns it;
/// what an error says of the difference is so.
pub proof fn law_refused_tables(
    fence: PipelineFence,
    expected: TableApplyIdentity,
    stored: StoredManagedTableIdentity,
    r: Result<i64, ManagedTableError>,
)
    requires
        call_ensures(validate_stored_identity, (fence, &expected, &stored), r),
    ensures
        r is Ok <==> {
            &&& stored.pipeline_id == fence.pipeline_id
            &&& stored.source_relation_id == expected.source_relation_id
            &&& stored.table_generation == expected.table_generation
            &&& stored.schema_fingerprint@ == expected.schema_fingerprint@
            &&& stored.state@ == "active"@
            &&& stored.fencing_token <= fence.fencing_token
            &&& stored.relation_oid is Some
        },
        r matches Ok(oid) ==> stored.relation_oid == Some(oid),
        r matches Err(ManagedTableError::PipelineMismatch { table, expected: wanted, actual }) ==> {
            &&& table@ == expected.target@.text()
            &&& wanted == fence.pipeline_id
            &&& actual == stored.pipeline_id
            &&& wanted != actual
        },
        r matches Err(
            ManagedTableError::SourceRelationMismatch { table, expected: wanted, actual },
        ) ==> {
            &&& table@ == expected.target@.text()
            &&& wanted == expected.source_relation_id
            &&& actual == stored.source_relation_id
            &&& wanted != actual
        },
        r matches Err(ManagedTableError::GenerationMismatch { table, expected: wanted, actual })
            ==> {
            &&& table@ == expected.target@.text()
            &&& wanted == expected.table_generation
            &&& actual == stored.table_generation
            &&& wanted != actual
        },
        r matches Err(ManagedTableError::SchemaFingerprintMismatch(table)) ==> {
            &&& table@ == expected.target@.text()
            &&& stored.schema_fingerprint@ != expected.schema_fingerprint@
        },
        r matches Err(ManagedTableError::StateMismatch { table, actual }) ==> {
            &&& table@ == expected.target@.text()
            &&& actual == stored.state
            &&& actual@ != "active"@
        },
        r matches Err(ManagedTableError::NewerFence { table, current, actual }) ==> {
            &&& table@ == expected.target@.text()
            &&& current == fence.fencing_token
            &&& actual == stored.fencing_token
            &&& current < actual
        },
        r matches Err(ManagedTableError::MissingRelationIdentity(table)) ==> {
            &&& table@ == expected.target@.text()
            &&& stored.relation_oid is None
        },
        r matches Err(e) ==> {
            ||| e is PipelineMismatch
            ||| e is SourceRelationMismatch
            ||| e is GenerationMismatch
            ||| e is SchemaFingerprintMismatch
            ||| e is StateMismatch
            ||| e is NewerFence
            ||| e is MissingRelationIdentity
        },
{
}

/// An identity that is read from a row holds what the row holds.
pub proof fn law_identities_hold_their_rows(
    table: QualifiedName,
    row: ManagedTableRow,
    r: Result<StoredManagedTableIdentity, ManagedTableError>,
)
    requires
        call_ensures(stored_identity_from_row, (&table, row), r),
    ensures
        r matches Ok(stored) ==> {
            &&& stored.pipeline_id.uuid == row.pipeline_id
            &&& stored.relation_oid == row.relation_oid
            &&& stored.source_relation_id as int == row.source_relation_id as int
            &&& stored.table_generation as int == row.table_generation as int
            &&& stored.schema_fingerprint@ == row.schema_fingerprint@
            &&& stored.state@ == row.state@
            &&& stored.fencing_token == row.fencing_token
        },
        r matches Err(e) ==> (e matches ManagedTableError::InvalidPersistedValue {
            table: name,
            field,
            value,
        } && name@ == table@.text() && {
            ||| field@ == "source_relation_id"@ && value@ == signed_decimal(
                row.source_relation_id as int,
            ) && !(0 < row.source_relation_id <= u32::MAX)
            ||| field@ == "table_generation"@ && value@ == signed_decimal(
                row.table_generation as int,
            ) && row.table_generation < 0
            ||| field@ == "fencing_token"@ && value@ == signed_decimal(row.fencing_token as int)
                && row.fencing_token <= 0
            ||| field@ == "relation_oid"@ && row.relation_oid is Some && value@ == signed_decimal(
                row.relation_oid->0 as int,
            ) && row.relation_oid->0 <= 0
            ||| field@ == "schema_fingerprint"@ && value@ == ""@ && row.schema_fingerprint@.len()
                == 0
        }),
{
}

} // verus!
