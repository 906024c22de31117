//! Validation-gated Cloudberry COPY reader for whole-table reconciliation.
//!
//! A reader owns one repeatable-read target transaction from fence acquisition through COPY. It
//! never advances reconciliation state, apply checkpoints, or business rows. The decisions that it
//! takes on the way stand here, over what the target's catalogs returned.

use crate::checkpoint::{CheckpointError, CheckpointKey, StoredNodeCheckpoint};
use crate::digest::sha256;
use crate::ident::PipelineId;
use crate::managed::{ManagedTableError, TableApplyIdentity};
use crate::order::{arranged, is_arrangement, names_of, never_descending, order_by_name};
use crate::reconciliation::{
    run_difference, validate_same_run, ReconciliationRunIdentity, ReconciliationState,
    ReconciliationStateError, StoredReconciliationState,
};
use crate::schema::{
    collation_model, column_names, column_views, key_names, law_planned_table,
    plan_create_table_with_storage, plan_type, table_model, type_model, ColumnView, CreateTablePlan,
    SchemaError, SchemaFault, TableView, UserTypePlan, UserTypeView,
};
use crate::snapshot::types::{definition_checksum, same_octets};
use crate::source::{
    key_order, law_key_order, law_ranked_order, positions, rank_positions, ranked, ColumnSchema,
    NameView, PgTypeKind, QualifiedName, TableSchema,
};
use crate::sql::{
    all_quotable, lemma_list_renders, list_render_fault, name_render_fault, quote_identifier_list,
    quote_qualified_name, quoted, quoted_list, quoted_name, SqlRenderError,
};
use crate::storage::TargetStorage;
use crate::text::{
    contains_char, debug_numbers, debug_option, debug_optional_number, debug_optional_text,
    debug_text, debug_texts, decimal, render_decimal, render_signed, same_text, same_texts,
    show_numbers, show_option, show_optional_number, show_optional_text, show_text, show_texts,
    show_truth, signed_decimal, texts, truth_text,
};
use vstd::prelude::*;
use vstd::utf8::encode_utf8;

verus! {

/// The longest wait that may be asked for: one day.
pub const MAX_TIMEOUT_NANOSECONDS: u128 = 86_400_000_000_000;

/// Asks the server what a type text stands for.
pub const NORMALIZE_TYPE_SQL: &'static str =
    "SELECT pg_catalog.to_regtype($1)::oid::bigint AS type_oid, pg_catalog.format_type(pg_catalog.to_regtype($1)::oid, -1) AS formatted_type";

pub const LOAD_RELATION_SQL: &'static str = r#"
SELECT c.oid::bigint AS relation_oid,
       c.relkind::text AS relation_kind,
       c.relpersistence::text AS persistence,
       c.relispartition,
       c.relrowsecurity,
       c.relforcerowsecurity,
       am.amname AS access_method
FROM pg_catalog.pg_class AS c
JOIN pg_catalog.pg_namespace AS n ON n.oid = c.relnamespace
LEFT JOIN pg_catalog.pg_am AS am ON am.oid = c.relam
WHERE n.nspname = $1 AND c.relname = $2
"#;

pub const LOAD_COLUMNS_SQL: &'static str = r#"
SELECT a.attnum::integer AS attnum,
       a.attname,
       pg_catalog.format_type(a.atttypid, a.atttypmod) AS formatted_type,
       a.atttypid::bigint AS type_oid,
       a.atttypmod::bigint AS type_modifier,
       a.attnotnull,
       a.attisdropped,
       a.atthasdef,
       a.attgenerated::text AS generated,
       a.attidentity::text AS identity,
       (t.typcollation <> 0::oid) AS type_is_collatable,
       cn.nspname AS collation_schema,
       co.collname AS collation_name
FROM pg_catalog.pg_attribute AS a
JOIN pg_catalog.pg_type AS t ON t.oid = a.atttypid
LEFT JOIN pg_catalog.pg_collation AS co ON co.oid = a.attcollation AND a.attcollation <> 0::oid
LEFT JOIN pg_catalog.pg_namespace AS cn ON cn.oid = co.collnamespace
WHERE a.attrelid = $1::bigint::oid AND a.attnum > 0
ORDER BY a.attnum
"#;

pub const LOAD_PRIMARY_KEY_SQL: &'static str = r#"
SELECT i.indexrelid::bigint AS index_oid,
       i.indisunique,
       i.indisvalid,
       i.indisready,
       i.indimmediate,
       i.indnkeyatts::integer AS key_attribute_count,
       i.indnatts::integer AS total_attribute_count,
       (i.indpred IS NULL) AS has_no_predicate,
       (i.indexprs IS NULL) AS has_no_expressions,
       ARRAY(
           SELECT key.attnum::integer
           FROM unnest(i.indkey::smallint[]) WITH ORDINALITY AS key(attnum, ordinal)
           WHERE key.ordinal <= i.indnkeyatts
           ORDER BY key.ordinal
       ) AS key_attnums,
       ARRAY(
           SELECT a.attname::text
           FROM unnest(i.indkey::smallint[]) WITH ORDINALITY AS key(attnum, ordinal)
           LEFT JOIN pg_catalog.pg_attribute AS a
             ON a.attrelid = i.indrelid AND a.attnum = key.attnum
           WHERE key.ordinal <= i.indnkeyatts
           ORDER BY key.ordinal
       ) AS key_names
FROM pg_catalog.pg_index AS i
WHERE i.indrelid = $1::bigint::oid AND i.indisprimary
ORDER BY i.indexrelid
"#;

pub const LOAD_DISTRIBUTION_SQL: &'static str = r#"
SELECT p.policytype::text AS policy_type,
       p.numsegments,
       ARRAY(
           SELECT key.attnum::integer
           FROM unnest(p.distkey::smallint[]) WITH ORDINALITY AS key(attnum, ordinal)
           ORDER BY key.ordinal
       ) AS key_attnums,
       ARRAY(
           SELECT a.attname::text
           FROM unnest(p.distkey::smallint[]) WITH ORDINALITY AS key(attnum, ordinal)
           LEFT JOIN pg_catalog.pg_attribute AS a
             ON a.attrelid = p.localoid AND a.attnum = key.attnum
           ORDER BY key.ordinal
       ) AS key_names
FROM pg_catalog.gp_distribution_policy AS p
WHERE p.localoid = $1::bigint::oid
"#;

pub const LOCK_MANAGED_TYPE_SQL: &'static str = r#"
SELECT pipeline_id, definition_checksum, fencing_token
FROM pg2cb_meta.managed_types
WHERE type_schema = $1 AND type_name = $2
FOR UPDATE
"#;

pub const LOAD_TYPE_KIND_SQL: &'static str = r#"
SELECT t.typtype::text AS type_kind
FROM pg_catalog.pg_type AS t
JOIN pg_catalog.pg_namespace AS n ON n.oid = t.typnamespace
WHERE n.nspname = $1 AND t.typname = $2
"#;

pub const LOAD_ENUM_LABELS_SQL: &'static str = r#"
SELECT e.enumlabel
FROM pg_catalog.pg_type AS t
JOIN pg_catalog.pg_namespace AS n ON n.oid = t.typnamespace
JOIN pg_catalog.pg_enum AS e ON e.enumtypid = t.oid
WHERE n.nspname = $1 AND t.typname = $2
ORDER BY e.enumsortorder
"#;

pub const LOAD_DOMAIN_SQL: &'static str = r#"
SELECT t.typtype::text AS type_kind,
       t.typbasetype::bigint AS base_type_oid,
       t.typtypmod::bigint AS base_type_modifier,
       pg_catalog.format_type(t.typbasetype, t.typtypmod) AS formatted_base_type,
       t.typnotnull,
       t.typdefault,
       (SELECT count(*)::bigint
        FROM pg_catalog.pg_constraint AS c
        WHERE c.contypid = t.oid) AS constraint_count
FROM pg_catalog.pg_type AS t
JOIN pg_catalog.pg_namespace AS n ON n.oid = t.typnamespace
WHERE n.nspname = $1 AND t.typname = $2
"#;

/// A length of time.
#[derive(Debug, Clone, Copy, PartialEq, Eq, Structural)]
pub struct Timeout {
    pub nanoseconds: u128,
}

impl Timeout {
    pub fn from_secs(seconds: u64) -> (r: Self)
        ensures
            r.nanoseconds == seconds * 1_000_000_000,
    {
        Timeout { nanoseconds: seconds as u128 * 1_000_000_000 }
    }

    /// The whole milliseconds of the time.
    pub open spec fn millis(self) -> nat {
        (self.nanoseconds / 1_000_000) as nat
    }
}

/// Bounded target-side waits for a reconciliation scan.
#[derive(Debug, Clone, Copy, PartialEq, Eq, Structural)]
pub struct ReconciliationReaderTimeouts {
    pub lock_timeout: Timeout,
    pub statement_timeout: Timeout,
    pub idle_in_transaction_timeout: Timeout,
}

impl Default for ReconciliationReaderTimeouts {
    fn default() -> (r: Self)
        ensures
            r.lock_timeout.nanoseconds == 5_000_000_000,
            r.statement_timeout.nanoseconds == 21_600_000_000_000,
            r.idle_in_transaction_timeout.nanoseconds == 300_000_000_000,
    {
        ReconciliationReaderTimeouts {
            lock_timeout: Timeout::from_secs(5),
            statement_timeout: Timeout::from_secs(21_600),
            idle_in_transaction_timeout: Timeout::from_secs(300),
        }
    }
}

#[allow(inconsistent_fields)]
#[derive(Debug, PartialEq, Eq)]
pub enum ReconciliationReaderError {
    ManagedTable(ManagedTableError),
    Checkpoint(CheckpointError),
    ReconciliationState(ReconciliationStateError),
    Schema(SchemaError),
    Sql(SqlRenderError),
    /// A timeout must be between 1 millisecond and 24 hours.
    InvalidTimeout { name: &'static str },
    InvalidIdentity(String),
    /// The caller's plan is not the canonical plan of its schema.
    NonCanonicalPlan(String),
    Alignment(String),
    CatalogMismatch { table: String, detail: String },
}

/// The error says that the request is inconsistent in the given way.
pub open spec fn is_identity_error(e: ReconciliationReaderError, detail: Seq<char>) -> bool {
    e matches ReconciliationReaderError::InvalidIdentity(text) && text@ == detail
}

/// The error says that the snapshot is not aligned in the given way.
pub open spec fn is_alignment_error(e: ReconciliationReaderError, detail: Seq<char>) -> bool {
    e matches ReconciliationReaderError::Alignment(text) && text@ == detail
}

/// The error says in which way the catalog differs for the table.
pub open spec fn is_mismatch(
    e: ReconciliationReaderError,
    target: NameView,
    expected: Seq<char>,
) -> bool {
    e matches ReconciliationReaderError::CatalogMismatch { table, detail } && table@
        == target.text() && detail@ == expected
}

/// The outcome tells the fault in the catalog of the table, or that there is none.
pub open spec fn tells_mismatch(
    r: Result<(), ReconciliationReaderError>,
    target: NameView,
    fault: Option<Seq<char>>,
) -> bool {
    match r {
        Ok(()) => fault is None,
        Err(e) => fault matches Some(detail) && is_mismatch(e, target, detail),
    }
}

fn invalid_identity(detail: &str) -> (r: ReconciliationReaderError)
    ensures
        is_identity_error(r, detail@),
{
    ReconciliationReaderError::InvalidIdentity(detail.to_string())
}

fn alignment(detail: String) -> (r: ReconciliationReaderError)
    ensures
        is_alignment_error(r, detail@),
{
    ReconciliationReaderError::Alignment(detail)
}

fn mismatch(target: &QualifiedName, detail: String) -> (r: ReconciliationReaderError)
    ensures
        is_mismatch(r, target@, detail@),
{
    ReconciliationReaderError::CatalogMismatch { table: target.display(), detail }
}

/// The detail about a type that the table needs.
pub open spec fn type_detail(prerequisite: UserTypeView, detail: Seq<char>) -> Seq<char> {
    "prerequisite type `"@ + prerequisite.name.text() + "`: "@ + detail
}

fn type_mismatch(
    run: &ReconciliationRunIdentity,
    prerequisite: &UserTypePlan,
    detail: &str,
) -> (r: ReconciliationReaderError)
    ensures
        is_mismatch(r, run.target@, type_detail(prerequisite@, detail@)),
{
    let mut text = "prerequisite type `".to_string();
    text.append(prerequisite.name.display().as_str());
    text.append("`: ");
    text.append(detail);
    mismatch(&run.target, text)
}

/// The detail about the column at a position.
pub open spec fn column_detail(index: int, detail: Seq<char>) -> Seq<char> {
    "column "@ + decimal((index + 1) as nat) + ": "@ + detail
}

fn column_mismatch(table: &CreateTablePlan, index: usize, detail: &str) -> (r:
    ReconciliationReaderError)
    requires
        index < u64::MAX,
    ensures
        is_mismatch(r, table.target@, column_detail(index as int, detail@)),
{
    let mut text = "column ".to_string();
    text.append(render_decimal(index as u64 + 1).as_str());
    text.append(": ");
    text.append(detail);
    mismatch(&table.target, text)
}

// ---------------------------------------------------------------------------------------------
// The request
// ---------------------------------------------------------------------------------------------

/// The attribute numbers of the columns are positive and unique.
pub open spec fn attnums_valid(columns: Seq<ColumnSchema>) -> bool {
    &&& forall|i: int| 0 <= i < columns.len() ==> (#[trigger] columns[i]).attnum > 0
    &&& forall|i: int, j: int|
        0 <= i < j < columns.len() ==> (#[trigger] columns[i]).attnum != (
        #[trigger] columns[j]).attnum
}

/// Why the request is inconsistent by itself, if it is.
pub open spec fn identity_fault(
    run: ReconciliationRunIdentity,
    schema: TableSchema,
    table: TableView,
) -> Option<&'static str> {
    if run.target@ != table.target {
        Some("run target differs from CreateTablePlan target")
    } else if run.source_relation_id == 0 || run.source_relation_id != schema.relation_id {
        Some("run source relation differs from TableSchema relation")
    } else if run.table_generation == 0 {
        Some("run table generation must be positive")
    } else if schema.generation == 0 {
        Some("TableSchema catalog generation must be positive")
    } else if run.target_relation_oid == 0 {
        Some("run target relation OID must be positive")
    } else if run.schema_fingerprint@.len() == 0 || run.schema_fingerprint@.contains('\0') {
        Some("run schema fingerprint is invalid")
    } else if !attnums_valid(schema.columns@) {
        Some("TableSchema column attribute numbers must be positive and unique")
    } else {
        None
    }
}

/// The run, the schema and the plan fit together.
pub open spec fn request_valid(
    run: ReconciliationRunIdentity,
    schema: TableSchema,
    table: TableView,
) -> bool {
    &&& identity_fault(run, schema, table) is None
    &&& table_model(schema, table.target, table.storage) == Ok::<TableView, SchemaFault>(table)
}

/// The error tells why the request is refused.
pub open spec fn refuses_request(
    e: ReconciliationReaderError,
    run: ReconciliationRunIdentity,
    schema: TableSchema,
    table: TableView,
) -> bool {
    match identity_fault(run, schema, table) {
        Some(detail) => is_identity_error(e, detail@),
        None => match table_model(schema, table.target, table.storage) {
            Err(fault) => e matches ReconciliationReaderError::Schema(inner) && inner@ == fault,
            Ok(canonical) => canonical != table && (
            e matches ReconciliationReaderError::NonCanonicalPlan(name) && name@
                == table.target.text()),
        },
    }
}

fn check_attnums(columns: &Vec<ColumnSchema>) -> (r: bool)
    ensures
        r == attnums_valid(columns@),
{
    let mut i: usize = 0;
    while i < columns.len()
        invariant
            i <= columns.len(),
            forall|k: int| 0 <= k < i ==> (#[trigger] columns@[k]).attnum > 0,
            forall|k: int, l: int|
                0 <= k < l < i ==> (#[trigger] columns@[k]).attnum != (
                #[trigger] columns@[l]).attnum,
        decreases columns.len() - i,
    {
        if columns[i].attnum <= 0 {
            return false;
        }
        let mut j: usize = 0;
        while j < i
            invariant
                j <= i < columns.len(),
                forall|k: int|
                    0 <= k < j ==> (#[trigger] columns@[k]).attnum != columns@[i as int].attnum,
            decreases i - j,
        {
            if columns[j].attnum == columns[i].attnum {
                return false;
            }
            j = j + 1;
        }
        i = i + 1;
    }
    true
}

fn check_identity(
    run: &ReconciliationRunIdentity,
    schema: &TableSchema,
    table: &CreateTablePlan,
) -> (r: Option<&'static str>)
    ensures
        r == identity_fault(*run, *schema, table@),
{
    if !run.target.same(&table.target) {
        Some("run target differs from CreateTablePlan target")
    } else if run.source_relation_id == 0 || run.source_relation_id != schema.relation_id {
        Some("run source relation differs from TableSchema relation")
    } else if run.table_generation == 0 {
        Some("run table generation must be positive")
    } else if schema.generation == 0 {
        Some("TableSchema catalog generation must be positive")
    } else if run.target_relation_oid == 0 {
        Some("run target relation OID must be positive")
    } else if run.schema_fingerprint.as_str().is_empty() || contains_char(
        run.schema_fingerprint.as_str(),
        '\0',
    ) {
        Some("run schema fingerprint is invalid")
    } else if !check_attnums(&schema.columns) {
        Some("TableSchema column attribute numbers must be positive and unique")
    } else {
        None
    }
}

/// Checks that the run, the schema and the plan fit together. The generation of the managed table
/// and that of the source catalog are independent.
pub fn validate_request(
    run: &ReconciliationRunIdentity,
    schema: &TableSchema,
    table: &CreateTablePlan,
) -> (r: Result<(), ReconciliationReaderError>)
    ensures
        match r {
            Ok(()) => request_valid(*run, *schema, table@),
            Err(e) => !request_valid(*run, *schema, table@) && refuses_request(
                e,
                *run,
                *schema,
                table@,
            ),
        },
{
    match check_identity(run, schema, table) {
        Some(detail) => return Err(invalid_identity(detail)),
        None => {},
    }
    match plan_create_table_with_storage(schema, table.target.clone(), table.storage) {
        Err(e) => Err(ReconciliationReaderError::Schema(e)),
        Ok(canonical) => {
            if canonical.same(table) {
                Ok(())
            } else {
                Err(ReconciliationReaderError::NonCanonicalPlan(table.target.display()))
            }
        },
    }
}

/// The identity under which the target of the run is locked.
pub fn reader_identity(run: &ReconciliationRunIdentity) -> (r: TableApplyIdentity)
    ensures
        r.target == run.target,
        r.source_relation_id == run.source_relation_id,
        r.table_generation == run.table_generation,
        r.schema_fingerprint == run.schema_fingerprint,
{
    TableApplyIdentity {
        target: run.target.clone(),
        source_relation_id: run.source_relation_id,
        table_generation: run.table_generation,
        schema_fingerprint: run.schema_fingerprint.clone(),
    }
}

/// What a validated target snapshot reads.
#[derive(Debug, PartialEq, Eq)]
pub struct ReconciliationReader {
    target: QualifiedName,
    relation_oid: i64,
    copy_sql: String,
}

impl ReconciliationReader {
    pub closed spec fn table_name(self) -> NameView {
        self.target@
    }

    pub closed spec fn table_oid(self) -> i64 {
        self.relation_oid
    }

    pub closed spec fn statement(self) -> Seq<char> {
        self.copy_sql@
    }

    pub fn new(run: &ReconciliationRunIdentity, relation_oid: i64, copy_sql: String) -> (r: Self)
        ensures
            r.table_name() == run.target@,
            r.table_oid() == relation_oid,
            r.statement() == copy_sql@,
    {
        ReconciliationReader { target: run.target.clone(), relation_oid, copy_sql }
    }

    #[must_use]
    pub fn relation_oid(&self) -> (r: i64)
        ensures
            r == self.table_oid(),
    {
        self.relation_oid
    }

    #[must_use]
    pub fn target(&self) -> (r: &QualifiedName)
        ensures
            r@ == self.table_name(),
    {
        &self.target
    }

    #[must_use]
    pub fn copy_sql(&self) -> (r: &str)
        ensures
            r@ == self.statement(),
    {
        self.copy_sql.as_str()
    }
}

// ---------------------------------------------------------------------------------------------
// The session
// ---------------------------------------------------------------------------------------------

/// The wait is at least one millisecond and at most one day long.
pub open spec fn timeout_bounded(timeout: Timeout) -> bool {
    1_000_000 <= timeout.nanoseconds <= MAX_TIMEOUT_NANOSECONDS
}

/// Gives a wait in milliseconds.
pub fn timeout_millis(name: &'static str, timeout: Timeout) -> (r: Result<
    u64,
    ReconciliationReaderError,
>)
    ensures
        match r {
            Ok(millis) => timeout_bounded(timeout) && millis == timeout.millis(),
            Err(e) => !timeout_bounded(timeout) && e
                == (ReconciliationReaderError::InvalidTimeout { name }),
        },
{
    if timeout.nanoseconds < 1_000_000 || timeout.nanoseconds > MAX_TIMEOUT_NANOSECONDS {
        return Err(ReconciliationReaderError::InvalidTimeout { name });
    }
    Ok((timeout.nanoseconds / 1_000_000) as u64)
}

/// Why the waits are refused, if they are.
pub open spec fn timeouts_fault(timeouts: ReconciliationReaderTimeouts) -> Option<
    ReconciliationReaderError,
> {
    if !timeout_bounded(timeouts.lock_timeout) {
        Some(ReconciliationReaderError::InvalidTimeout { name: "lock_timeout" })
    } else if !timeout_bounded(timeouts.statement_timeout) {
        Some(ReconciliationReaderError::InvalidTimeout { name: "statement_timeout" })
    } else if !timeout_bounded(timeouts.idle_in_transaction_timeout) {
        Some(
            ReconciliationReaderError::InvalidTimeout {
                name: "idle_in_transaction_session_timeout",
            },
        )
    } else {
        None
    }
}

/// The settings that make the text of every value the same in every session.
pub const CANONICAL_SETTINGS_SQL: &'static str = "SET LOCAL client_encoding = 'UTF8';
SET LOCAL DateStyle = 'ISO, YMD';
SET LOCAL IntervalStyle = 'postgres';
SET LOCAL TimeZone = 'UTC';
SET LOCAL extra_float_digits = 3;
SET LOCAL bytea_output = 'hex';
SET LOCAL search_path = pg_catalog;
";

/// The settings of a scan.
pub open spec fn settings_text(timeouts: ReconciliationReaderTimeouts) -> Seq<char> {
    CANONICAL_SETTINGS_SQL@ + "SET LOCAL lock_timeout = '"@ + decimal(
        timeouts.lock_timeout.millis(),
    ) + "ms';\nSET LOCAL statement_timeout = '"@ + decimal(timeouts.statement_timeout.millis())
        + "ms';\nSET LOCAL idle_in_transaction_session_timeout = '"@ + decimal(
        timeouts.idle_in_transaction_timeout.millis(),
    ) + "ms';"@
}

/// Renders the settings of a scan.
pub fn canonical_settings_sql(timeouts: ReconciliationReaderTimeouts) -> (r: Result<
    String,
    ReconciliationReaderError,
>)
    ensures
        match r {
            Ok(sql) => timeouts_fault(timeouts) is None && sql@ == settings_text(timeouts),
            Err(e) => timeouts_fault(timeouts) == Some(e),
        },
{
    let lock = match timeout_millis("lock_timeout", timeouts.lock_timeout) {
        Err(e) => return Err(e),
        Ok(millis) => millis,
    };
    let statement = match timeout_millis("statement_timeout", timeouts.statement_timeout) {
        Err(e) => return Err(e),
        Ok(millis) => millis,
    };
    let idle = match timeout_millis(
        "idle_in_transaction_session_timeout",
        timeouts.idle_in_transaction_timeout,
    ) {
        Err(e) => return Err(e),
        Ok(millis) => millis,
    };
    let mut out = CANONICAL_SETTINGS_SQL.to_string();
    out.append("SET LOCAL lock_timeout = '");
    out.append(render_decimal(lock).as_str());
    out.append("ms';\nSET LOCAL statement_timeout = '");
    out.append(render_decimal(statement).as_str());
    out.append("ms';\nSET LOCAL idle_in_transaction_session_timeout = '");
    out.append(render_decimal(idle).as_str());
    out.append("ms';");
    Ok(out)
}

// ---------------------------------------------------------------------------------------------
// The projection
// ---------------------------------------------------------------------------------------------

/// Why the key column at a position of the key is refused, if it is.
pub open spec fn key_fault_at(columns: Seq<ColumnSchema>, at: int) -> Option<&'static str> {
    let column = columns[key_order(columns)[at]];
    if at + 1 > u16::MAX {
        Some("primary-key ordinal exceeds u16")
    } else if column.primary_key_ordinal != Some((at + 1) as u16) || column.nullable {
        Some("primary-key ordinals must be contiguous and key columns non-nullable")
    } else {
        None
    }
}

/// Why the first `count` key columns are refused, if they are; the first one decides.
pub open spec fn key_fault(columns: Seq<ColumnSchema>, count: int) -> Option<&'static str>
    decreases count,
{
    if count <= 0 {
        None
    } else if key_fault(columns, count - 1) is Some {
        key_fault(columns, count - 1)
    } else {
        key_fault_at(columns, count - 1)
    }
}

/// The positions of columns whose names are not in the key.
pub open spec fn outside_key(columns: Seq<ColumnSchema>) -> spec_fn(int) -> bool {
    |p: int| !key_names(columns).contains(columns[p].name@)
}

/// The attribute numbers of the columns, by position.
pub open spec fn attnums(columns: Seq<ColumnSchema>) -> spec_fn(int) -> int {
    |p: int| columns[p].attnum as int
}

/// The positions of the columns outside the key, by ascending attribute number.
pub open spec fn value_order(columns: Seq<ColumnSchema>) -> Seq<int> {
    ranked(outside_key(columns), attnums(columns), columns.len() as int)
}

/// The names of the columns at the given positions.
pub open spec fn names_at(columns: Seq<ColumnSchema>, order: Seq<int>) -> Seq<Seq<char>> {
    Seq::new(order.len(), |i: int| columns[order[i]].name@)
}

/// The columns that a scan reads, in its order: the key first, then all others as the source
/// numbers them.
pub open spec fn projection(columns: Seq<ColumnSchema>) -> Seq<Seq<char>> {
    key_names(columns) + names_at(columns, value_order(columns))
}

/// The statement of a scan. Rows are intentionally not sorted because the reconciliation digest is
/// order independent.
pub open spec fn copy_text(columns: Seq<Seq<char>>, target: NameView) -> Seq<char> {
    "COPY (SELECT "@ + quoted_list(columns) + " FROM "@ + quoted_name(target)
        + ") TO STDOUT WITH (FORMAT text, HEADER false, DELIMITER E'\\t', NULL E'\\\\N')"@
}

/// A scan of the table can be rendered.
pub open spec fn copy_valid(columns: Seq<ColumnSchema>, target: NameView) -> bool {
    &&& key_fault(columns, key_order(columns).len() as int) is None
    &&& list_render_fault(projection(columns)) is None
    &&& projection(columns).len() > 0
    &&& name_render_fault(target) is None
}

/// The error tells why no scan of the table can be rendered.
pub open spec fn refuses_copy(
    e: ReconciliationReaderError,
    columns: Seq<ColumnSchema>,
    target: NameView,
) -> bool {
    match key_fault(columns, key_order(columns).len() as int) {
        Some(detail) => is_identity_error(e, detail@),
        None => if list_render_fault(projection(columns)) is Some {
            e == ReconciliationReaderError::Sql(list_render_fault(projection(columns))->0)
        } else if projection(columns).len() == 0 {
            is_identity_error(e, "reconciliation COPY has no columns"@)
        } else {
            name_render_fault(target) is Some && e == ReconciliationReaderError::Sql(
                name_render_fault(target)->0,
            )
        },
    }
}

/// A fault found early stays the outcome.
proof fn lemma_first_key_fault(columns: Seq<ColumnSchema>, count: int, more: int)
    requires
        0 <= count <= more,
        key_fault(columns, count) is Some,
    ensures
        key_fault(columns, more) == key_fault(columns, count),
    decreases more,
{
    if count < more {
        lemma_first_key_fault(columns, count, more - 1);
    }
}

fn check_key(schema: &TableSchema, order: &Vec<usize>) -> (r: Option<&'static str>)
    requires
        positions(order@) == key_order(schema.columns@),
        forall|i: int| 0 <= i < order@.len() ==> #[trigger] order@[i] < schema.columns@.len(),
    ensures
        r == key_fault(schema.columns@, key_order(schema.columns@).len() as int),
{
    let ghost columns = schema.columns@;
    let mut i: usize = 0;
    while i < order.len()
        invariant
            i <= order.len(),
            columns == schema.columns@,
            positions(order@) == key_order(columns),
            forall|k: int| 0 <= k < order@.len() ==> #[trigger] order@[k] < columns.len(),
            key_fault(columns, i as int) is None,
        decreases order.len() - i,
    {
        let column = &schema.columns[order[i]];
        proof {
            assert(positions(order@)[i as int] == order@[i as int]);
            if key_fault_at(columns, i as int) is Some {
                lemma_first_key_fault(columns, i + 1, order@.len() as int);
            }
        }
        if i >= u16::MAX as usize {
            return Some("primary-key ordinal exceeds u16");
        }
        let expected: u16 = i as u16 + 1;
        let contiguous = match column.primary_key_ordinal {
            None => false,
            Some(ordinal) => ordinal == expected,
        };
        if !contiguous || column.nullable {
            return Some("primary-key ordinals must be contiguous and key columns non-nullable");
        }
        i = i + 1;
    }
    None
}

/// The names of the columns that a scan reads, in its order.
fn projected_names(schema: &TableSchema, order: &Vec<usize>) -> (r: Vec<String>)
    requires
        positions(order@) == key_order(schema.columns@),
        forall|i: int| 0 <= i < order@.len() ==> #[trigger] order@[i] < schema.columns@.len(),
    ensures
        texts(r@) == projection(schema.columns@),
{
    let ghost columns = schema.columns@;
    let mut names: Vec<String> = Vec::new();
    let mut i: usize = 0;
    while i < order.len()
        invariant
            i <= order.len(),
            columns == schema.columns@,
            names@.len() == i,
            forall|k: int| 0 <= k < order@.len() ==> #[trigger] order@[k] < columns.len(),
            forall|k: int|
                0 <= k < i ==> (#[trigger] names@[k])@ == columns[positions(order@)[k]].name@,
        decreases order.len() - i,
    {
        names.push(schema.columns[order[i]].name.clone());
        i = i + 1;
    }
    let key_count: usize = names.len();
    proof {
        assert(texts(names@) =~= key_names(columns));
    }
    let mut keep: Vec<bool> = Vec::new();
    let mut ranks: Vec<i64> = Vec::new();
    let mut j: usize = 0;
    while j < schema.columns.len()
        invariant
            j <= schema.columns.len(),
            columns == schema.columns@,
            texts(names@) == key_names(columns),
            key_count == names.len(),
            keep@.len() == j,
            ranks@.len() == j,
            forall|k: int| 0 <= k < j ==> #[trigger] keep@[k] == outside_key(columns)(k),
            forall|k: int| 0 <= k < j ==> #[trigger] ranks@[k] == attnums(columns)(k),
        decreases schema.columns.len() - j,
    {
        proof {
            assert(texts(names@).take(key_count as int) =~= texts(names@));
        }
        keep.push(
            !crate::schema::contains_before(&names, key_count, schema.columns[j].name.as_str()),
        );
        ranks.push(schema.columns[j].attnum as i64);
        j = j + 1;
    }
    let values = rank_positions(
        &keep,
        &ranks,
        Ghost(outside_key(columns)),
        Ghost(attnums(columns)),
    );
    let ghost key = key_names(columns);
    let mut k: usize = 0;
    while k < values.len()
        invariant
            k <= values.len(),
            columns == schema.columns@,
            positions(values@) == value_order(columns),
            forall|i: int| 0 <= i < values@.len() ==> #[trigger] values@[i] < columns.len(),
            texts(names@) == key + names_at(columns, value_order(columns)).take(k as int),
        decreases values.len() - k,
    {
        let ghost before = texts(names@);
        names.push(schema.columns[values[k]].name.clone());
        proof {
            let rest = names_at(columns, value_order(columns));
            assert(positions(values@)[k as int] == values@[k as int]);
            assert(texts(names@) =~= before.push(rest[k as int]));
            assert(texts(names@) =~= key + rest.take(k + 1));
        }
        k = k + 1;
    }
    proof {
        let rest = names_at(columns, value_order(columns));
        assert(rest.take(k as int) =~= rest);
    }
    names
}

/// Renders the explicit-column, key-first scan of a table.
pub fn reconciliation_copy_sql(schema: &TableSchema, target: &QualifiedName) -> (r: Result<
    String,
    ReconciliationReaderError,
>)
    ensures
        match r {
            Ok(sql) => copy_valid(schema.columns@, target@) && sql@ == copy_text(
                projection(schema.columns@),
                target@,
            ),
            Err(e) => !copy_valid(schema.columns@, target@) && refuses_copy(
                e,
                schema.columns@,
                target@,
            ),
        },
{
    let order = schema.key_positions();
    match check_key(schema, &order) {
        Some(detail) => return Err(invalid_identity(detail)),
        None => {},
    }
    let names = projected_names(schema, &order);
    proof {
        lemma_list_renders(texts(names@));
    }
    let list = match quote_identifier_list(&names) {
        Err(e) => return Err(ReconciliationReaderError::Sql(e)),
        Ok(list) => list,
    };
    if names.len() == 0 {
        return Err(invalid_identity("reconciliation COPY has no columns"));
    }
    let quoted_target = match quote_qualified_name(target) {
        Err(e) => return Err(ReconciliationReaderError::Sql(e)),
        Ok(text) => text,
    };
    let mut out = "COPY (SELECT ".to_string();
    out.append(list.as_str());
    out.append(" FROM ");
    out.append(quoted_target.as_str());
    out.append(
        ") TO STDOUT WITH (FORMAT text, HEADER false, DELIMITER E'\\t', NULL E'\\\\N')",
    );
    Ok(out)
}

// ---------------------------------------------------------------------------------------------
// Alignment
// ---------------------------------------------------------------------------------------------

impl ReconciliationState {
    /// The state as Rust's `Debug` shows it.
    pub open spec fn debug_name(self) -> &'static str {
        match self {
            ReconciliationState::Aligning => "Aligning",
            ReconciliationState::Scanning => "Scanning",
            ReconciliationState::Matched => "Matched",
            ReconciliationState::ReloadPending => "ReloadPending",
            ReconciliationState::Reloaded => "Reloaded",
            ReconciliationState::Failed => "Failed",
            ReconciliationState::Superseded => "Superseded",
        }
    }

    fn shown(self) -> (r: &'static str)
        ensures
            r == self.debug_name(),
    {
        match self {
            ReconciliationState::Aligning => "Aligning",
            ReconciliationState::Scanning => "Scanning",
            ReconciliationState::Matched => "Matched",
            ReconciliationState::ReloadPending => "ReloadPending",
            ReconciliationState::Reloaded => "Reloaded",
            ReconciliationState::Failed => "Failed",
            ReconciliationState::Superseded => "Superseded",
        }
    }
}

/// Both runs agree in every field.
pub open spec fn same_run(a: ReconciliationRunIdentity, b: ReconciliationRunIdentity) -> bool {
    a.run_id == b.run_id && run_difference(a, b) is None && a.fence.fencing_token
        == b.fence.fencing_token
}

/// The checkpoint of the source node of the run.
pub open spec fn checkpoint_key(run: ReconciliationRunIdentity) -> CheckpointKey {
    CheckpointKey {
        pipeline_id: run.fence.pipeline_id,
        topology_generation: run.fence.topology_generation,
        node_id: run.source_node_id,
    }
}

/// The checkpoint that a scan of the run has to see.
pub fn reader_checkpoint_key(run: &ReconciliationRunIdentity) -> (r: CheckpointKey)
    ensures
        r == checkpoint_key(*run),
{
    CheckpointKey {
        pipeline_id: run.fence.pipeline_id,
        topology_generation: run.fence.topology_generation,
        node_id: run.source_node_id,
    }
}

/// Why the snapshot does not see the run's marked checkpoint, if it does not.
pub open spec fn alignment_fault(
    run: ReconciliationRunIdentity,
    state: Option<&StoredReconciliationState>,
    checkpoint: Option<&StoredNodeCheckpoint>,
) -> Option<Seq<char>> {
    match state {
        None => Some("V10 reconciliation state is missing"@),
        Some(state) => if !same_run(state.run, run) {
            Some("persisted V10 reconciliation run identity differs from the requested run"@)
        } else if !(state.state is Scanning) {
            Some(
                "V10 reconciliation state is "@ + state.state.debug_name()@
                    + ", expected Scanning"@,
            )
        } else if state.target_checkpoint_lsn is None {
            Some("Scanning state has no target checkpoint LSN"@)
        } else {
            match checkpoint {
                None => Some("source-node checkpoint is missing"@),
                Some(stored) => checkpoint_misfit(
                    run,
                    state.target_checkpoint_lsn->0.text(),
                    state.target_checkpoint_lsn->0.value,
                    *stored,
                ),
            }
        },
    }
}

/// Why the stored checkpoint is not the one that the scan was marked at, if it is not.
pub open spec fn checkpoint_misfit(
    run: ReconciliationRunIdentity,
    marked_text: Seq<char>,
    marked: u64,
    stored: StoredNodeCheckpoint,
) -> Option<Seq<char>> {
    if stored.checkpoint.key != checkpoint_key(run) {
        Some("loaded source-node checkpoint key differs from the requested run"@)
    } else if stored.checkpoint.applied_lsn.value != marked {
        Some(
            "source-node checkpoint is "@ + stored.checkpoint.applied_lsn.text()
                + ", but Scanning was marked at "@ + marked_text,
        )
    } else if stored.checkpoint.system_identifier != run.source_system_identifier
        || stored.checkpoint.timeline != run.source_timeline {
        Some("source-node checkpoint system identifier or timeline differs from the run"@)
    } else if stored.fencing_token <= 0 || stored.fencing_token > run.fence.fencing_token {
        Some(
            "source-node checkpoint fencing token is "@ + signed_decimal(
                stored.fencing_token as int,
            ) + ", current token is "@ + signed_decimal(run.fence.fencing_token as int),
        )
    } else {
        None
    }
}

/// Checks that one snapshot sees the scanning run and the checkpoint that it was marked at.
pub fn validate_alignment_catalog(
    run: &ReconciliationRunIdentity,
    state: Option<&StoredReconciliationState>,
    checkpoint: Option<&StoredNodeCheckpoint>,
) -> (r: Result<(), ReconciliationReaderError>)
    ensures
        match r {
            Ok(()) => alignment_fault(*run, state, checkpoint) is None,
            Err(e) => alignment_fault(*run, state, checkpoint) matches Some(detail)
                && is_alignment_error(e, detail),
        },
{
    let state = match state {
        None => return Err(alignment("V10 reconciliation state is missing".to_string())),
        Some(state) => state,
    };
    let same = match validate_same_run(state, run) {
        Err(_) => false,
        Ok(()) => state.run.fence.fencing_token == run.fence.fencing_token,
    };
    if !same {
        return Err(
            alignment(
                "persisted V10 reconciliation run identity differs from the requested run".to_string(),
            ),
        );
    }
    if state.state != ReconciliationState::Scanning {
        let mut text = "V10 reconciliation state is ".to_string();
        text.append(state.state.shown());
        text.append(", expected Scanning");
        return Err(alignment(text));
    }
    let marked = match state.target_checkpoint_lsn {
        None => {
            return Err(
                alignment("Scanning state has no target checkpoint LSN".to_string()),
            );
        },
        Some(lsn) => lsn,
    };
    let stored = match checkpoint {
        None => return Err(alignment("source-node checkpoint is missing".to_string())),
        Some(stored) => stored,
    };
    if stored.checkpoint.key != reader_checkpoint_key(run) {
        return Err(
            alignment(
                "loaded source-node checkpoint key differs from the requested run".to_string(),
            ),
        );
    }
    if stored.checkpoint.applied_lsn.as_u64() != marked.as_u64() {
        let mut text = "source-node checkpoint is ".to_string();
        text.append(stored.checkpoint.applied_lsn.display().as_str());
        text.append(", but Scanning was marked at ");
        text.append(marked.display().as_str());
        return Err(alignment(text));
    }
    if stored.checkpoint.system_identifier != run.source_system_identifier
        || stored.checkpoint.timeline != run.source_timeline {
        return Err(
            alignment(
                "source-node checkpoint system identifier or timeline differs from the run".to_string(),
            ),
        );
    }
    if stored.fencing_token <= 0 || stored.fencing_token > run.fence.fencing_token {
        let mut text = "source-node checkpoint fencing token is ".to_string();
        text.append(render_signed(stored.fencing_token).as_str());
        text.append(", current token is ");
        text.append(render_signed(run.fence.fencing_token).as_str());
        return Err(alignment(text));
    }
    Ok(())
}

// ---------------------------------------------------------------------------------------------
// Types that the table needs
// ---------------------------------------------------------------------------------------------

/// A managed-type row.
#[derive(Debug, Clone, PartialEq, Eq)]
pub struct ManagedTypeCatalog {
    pub pipeline_id: PipelineId,
    pub definition_checksum: Vec<u8>,
    pub fencing_token: i64,
}

/// The names of the types that a table needs.
pub open spec fn prerequisite_names(list: Seq<UserTypePlan>) -> Seq<NameView> {
    Seq::new(list.len(), |i: int| list[i].name@)
}

/// The positions of the types that a table needs, in the order in which they are locked.
pub fn prerequisite_order(table: &CreateTablePlan) -> (r: Vec<usize>)
    ensures
        is_arrangement(r@, table.prerequisites@.len() as int),
        never_descending(arranged(prerequisite_names(table.prerequisites@), r@)),
{
    let mut names: Vec<&QualifiedName> = Vec::new();
    let mut i: usize = 0;
    while i < table.prerequisites.len()
        invariant
            i <= table.prerequisites.len(),
            names@.len() == i,
            forall|k: int| 0 <= k < i ==> #[trigger] names@[k]@ == table.prerequisites@[k].name@,
        decreases table.prerequisites.len() - i,
    {
        names.push(&table.prerequisites[i].name);
        i = i + 1;
    }
    proof {
        assert(names_of(names@) =~= prerequisite_names(table.prerequisites@));
    }
    order_by_name(&names)
}

/// Why the type is not the run's own in the planned definition, if it is not.
pub open spec fn managed_type_fault(
    run: ReconciliationRunIdentity,
    prerequisite: UserTypeView,
    actual: Option<&ManagedTypeCatalog>,
) -> Option<Seq<char>> {
    match actual {
        None => Some("has no pg2cb_meta.managed_types ownership record"@),
        Some(actual) => if actual.pipeline_id != run.fence.pipeline_id {
            Some(
                "is owned by pipeline "@ + actual.pipeline_id.uuid.text() + ", expected "@
                    + run.fence.pipeline_id.uuid.text(),
            )
        } else if actual.definition_checksum@ != sha256(encode_utf8(prerequisite.create_sql)) {
            Some("managed definition checksum differs from CreateTablePlan"@)
        } else if actual.fencing_token <= 0 || actual.fencing_token > run.fence.fencing_token {
            Some(
                "managed fencing token is "@ + signed_decimal(actual.fencing_token as int)
                    + ", current token is "@ + signed_decimal(run.fence.fencing_token as int),
            )
        } else {
            None
        },
    }
}

/// The detail about a type, where there is one.
pub open spec fn about_type(prerequisite: UserTypeView, fault: Option<Seq<char>>) -> Option<
    Seq<char>,
> {
    match fault {
        None => None,
        Some(detail) => Some(type_detail(prerequisite, detail)),
    }
}

/// Checks that the pipeline of the run owns the type and has defined it as planned.
pub fn validate_managed_type(
    run: &ReconciliationRunIdentity,
    prerequisite: &UserTypePlan,
    actual: Option<&ManagedTypeCatalog>,
) -> (r: Result<(), ReconciliationReaderError>)
    ensures
        tells_mismatch(
            r,
            run.target@,
            about_type(prerequisite@, managed_type_fault(*run, prerequisite@, actual)),
        ),
{
    let actual = match actual {
        None => {
            return Err(
                type_mismatch(
                    run,
                    prerequisite,
                    "has no pg2cb_meta.managed_types ownership record",
                ),
            );
        },
        Some(actual) => actual,
    };
    let expected = definition_checksum(prerequisite.create_sql.as_str());
    if actual.pipeline_id != run.fence.pipeline_id {
        let mut text = "is owned by pipeline ".to_string();
        text.append(actual.pipeline_id.as_uuid().display().as_str());
        text.append(", expected ");
        text.append(run.fence.pipeline_id.as_uuid().display().as_str());
        return Err(type_mismatch(run, prerequisite, text.as_str()));
    }
    if !same_octets(actual.definition_checksum.as_slice(), expected.as_slice()) {
        return Err(
            type_mismatch(
                run,
                prerequisite,
                "managed definition checksum differs from CreateTablePlan",
            ),
        );
    }
    if actual.fencing_token <= 0 || actual.fencing_token > run.fence.fencing_token {
        let mut text = "managed fencing token is ".to_string();
        text.append(render_signed(actual.fencing_token).as_str());
        text.append(", current token is ");
        text.append(render_signed(run.fence.fencing_token).as_str());
        return Err(type_mismatch(run, prerequisite, text.as_str()));
    }
    Ok(())
}

/// Checks that the catalog holds one type of the name; `what` says what is looked for.
pub fn check_type_count(
    run: &ReconciliationRunIdentity,
    prerequisite: &UserTypePlan,
    what: &'static str,
    rows: usize,
) -> (r: Result<(), ReconciliationReaderError>)
    ensures
        match r {
            Ok(()) => rows == 1,
            Err(e) => rows != 1 && is_mismatch(
                e,
                run.target@,
                type_detail(
                    prerequisite@,
                    "expected one "@ + what@ + ", found "@ + decimal(rows as nat),
                ),
            ),
        },
{
    if rows == 1 {
        return Ok(());
    }
    let mut text = "expected one ".to_string();
    text.append(what);
    text.append(", found ");
    text.append(render_decimal(rows as u64).as_str());
    Err(type_mismatch(run, prerequisite, text.as_str()))
}

/// Why the catalog's type is not the planned enum, if it is not.
pub open spec fn enum_fault(
    kind: Seq<char>,
    actual: Seq<Seq<char>>,
    expected: Seq<Seq<char>>,
) -> Option<Seq<char>> {
    if kind != "e"@ {
        Some("physical type kind is `"@ + kind + "`, expected enum"@)
    } else if actual != expected {
        Some(
            "enum labels/order are "@ + debug_texts(actual) + ", expected "@ + debug_texts(
                expected,
            ),
        )
    } else {
        None
    }
}

pub fn validate_enum_catalog(
    run: &ReconciliationRunIdentity,
    prerequisite: &UserTypePlan,
    kind: &str,
    actual_labels: &[String],
    expected_labels: &[String],
) -> (r: Result<(), ReconciliationReaderError>)
    ensures
        tells_mismatch(
            r,
            run.target@,
            about_type(
                prerequisite@,
                enum_fault(kind@, texts(actual_labels@), texts(expected_labels@)),
            ),
        ),
{
    if !same_text(kind, "e") {
        let mut text = "physical type kind is `".to_string();
        text.append(kind);
        text.append("`, expected enum");
        return Err(type_mismatch(run, prerequisite, text.as_str()));
    }
    if !same_texts(actual_labels, expected_labels) {
        let mut text = "enum labels/order are ".to_string();
        text.append(show_texts(actual_labels).as_str());
        text.append(", expected ");
        text.append(show_texts(expected_labels).as_str());
        return Err(type_mismatch(run, prerequisite, text.as_str()));
    }
    Ok(())
}

/// A domain as the catalog holds it.
#[derive(Debug, Clone, PartialEq, Eq)]
pub struct DomainCatalog {
    pub kind: String,
    pub base_type_oid: i64,
    pub base_type_modifier: i64,
    pub formatted_base_type: String,
    pub not_null: bool,
    pub default: Option<String>,
    pub constraint_count: i64,
}

/// Why the catalog's type is not a plain domain, if it is not.
pub open spec fn domain_shape_fault(actual: DomainCatalog) -> Option<Seq<char>> {
    if actual.kind@ != "d"@ {
        Some("physical type kind is `"@ + actual.kind@ + "`, expected domain"@)
    } else if actual.base_type_oid <= 0 {
        Some("domain has no valid base type OID"@)
    } else if actual.not_null || actual.default is Some || actual.constraint_count != 0 {
        Some("domain has an external NOT NULL, DEFAULT, or pg_constraint definition"@)
    } else {
        None
    }
}

pub fn validate_domain_shape(
    run: &ReconciliationRunIdentity,
    prerequisite: &UserTypePlan,
    actual: &DomainCatalog,
) -> (r: Result<(), ReconciliationReaderError>)
    ensures
        tells_mismatch(
            r,
            run.target@,
            about_type(prerequisite@, domain_shape_fault(*actual)),
        ),
{
    if !same_text(actual.kind.as_str(), "d") {
        let mut text = "physical type kind is `".to_string();
        text.append(actual.kind.as_str());
        text.append("`, expected domain");
        return Err(type_mismatch(run, prerequisite, text.as_str()));
    }
    if actual.base_type_oid <= 0 {
        return Err(type_mismatch(run, prerequisite, "domain has no valid base type OID"));
    }
    if actual.not_null || actual.default.is_some() || actual.constraint_count != 0 {
        return Err(
            type_mismatch(
                run,
                prerequisite,
                "domain has an external NOT NULL, DEFAULT, or pg_constraint definition",
            ),
        );
    }
    Ok(())
}

/// Tells whether the base of a domain has to be compared by what the server makes of its text.
///
/// Built-in types with modifiers use one spelling on both sides and must match; only a type without
/// a modifier can be spelled in two ways.
pub fn domain_base_requires_normalization(
    run: &ReconciliationRunIdentity,
    prerequisite: &UserTypePlan,
    actual: &DomainCatalog,
    expected_base_sql: &str,
) -> (r: Result<bool, ReconciliationReaderError>)
    ensures
        match r {
            Ok(false) => actual.formatted_base_type@ == expected_base_sql@,
            Ok(true) => actual.formatted_base_type@ != expected_base_sql@
                && actual.base_type_modifier == -1,
            Err(e) => {
                &&& actual.formatted_base_type@ != expected_base_sql@
                &&& actual.base_type_modifier != -1
                &&& is_mismatch(
                    e,
                    run.target@,
                    type_detail(
                        prerequisite@,
                        "domain base format is `"@ + actual.formatted_base_type@
                            + "`, expected `"@ + expected_base_sql@ + "`"@,
                    ),
                )
            },
        },
{
    if same_text(actual.formatted_base_type.as_str(), expected_base_sql) {
        return Ok(false);
    }
    if actual.base_type_modifier != -1 {
        let mut text = "domain base format is `".to_string();
        text.append(actual.formatted_base_type.as_str());
        text.append("`, expected `");
        text.append(expected_base_sql);
        text.append("`");
        return Err(type_mismatch(run, prerequisite, text.as_str()));
    }
    Ok(true)
}

/// What the server makes of a type text.
#[derive(Debug, PartialEq, Eq)]
pub struct NormalizedType {
    pub oid: Option<i64>,
    pub formatted: Option<String>,
}

/// The text of an optional text.
pub open spec fn optional_text(value: Option<String>) -> Option<Seq<char>> {
    match value {
        None => None,
        Some(text) => Some(text@),
    }
}

impl NormalizedType {
    /// The type is the one with the number and the text.
    pub open spec fn matches_type(self, oid: i64, formatted: Seq<char>) -> bool {
        self.oid == Some(oid) && optional_text(self.formatted) == Some(formatted)
    }

    fn is_type(&self, oid: i64, formatted: &str) -> (r: bool)
        ensures
            r == self.matches_type(oid, formatted@),
    {
        let same_oid = match self.oid {
            None => false,
            Some(number) => number == oid,
        };
        same_oid && match &self.formatted {
            None => false,
            Some(text) => same_text(text.as_str(), formatted),
        }
    }

    fn shown_format(&self) -> (r: String)
        ensures
            r@ == debug_optional_text(optional_text(self.formatted)),
    {
        match &self.formatted {
            None => show_optional_text(None),
            Some(text) => show_optional_text(Some(text.as_str())),
        }
    }
}

/// Why the base of a domain is not the planned one, if it is not.
pub open spec fn domain_base_fault(actual: DomainCatalog, expected: NormalizedType) -> Option<
    Seq<char>,
> {
    if expected.matches_type(actual.base_type_oid, actual.formatted_base_type@) {
        None
    } else {
        Some(
            "domain base is OID "@ + signed_decimal(actual.base_type_oid as int) + " format `"@
                + actual.formatted_base_type@ + "`, expected OID "@ + debug_optional_number(
                expected.oid,
            ) + " format "@ + debug_optional_text(optional_text(expected.formatted)),
        )
    }
}

pub fn validate_domain_base(
    run: &ReconciliationRunIdentity,
    prerequisite: &UserTypePlan,
    actual: &DomainCatalog,
    expected: &NormalizedType,
) -> (r: Result<(), ReconciliationReaderError>)
    ensures
        tells_mismatch(
            r,
            run.target@,
            about_type(prerequisite@, domain_base_fault(*actual, *expected)),
        ),
{
    if expected.is_type(actual.base_type_oid, actual.formatted_base_type.as_str()) {
        return Ok(());
    }
    let mut text = "domain base is OID ".to_string();
    text.append(render_signed(actual.base_type_oid).as_str());
    text.append(" format `");
    text.append(actual.formatted_base_type.as_str());
    text.append("`, expected OID ");
    text.append(show_optional_number(expected.oid).as_str());
    text.append(" format ");
    text.append(expected.shown_format().as_str());
    Err(type_mismatch(run, prerequisite, text.as_str()))
}

// ---------------------------------------------------------------------------------------------
// The relation
// ---------------------------------------------------------------------------------------------

/// A relation as the catalog holds it.
#[derive(Debug, Clone, PartialEq, Eq)]
pub struct RelationCatalog {
    pub oid: i64,
    pub kind: String,
    pub persistence: String,
    pub is_partition: bool,
    pub row_security: bool,
    pub force_row_security: bool,
    pub access_method: Option<String>,
}

/// Checks that the catalog holds one relation of the name.
pub fn check_relation_count(target: &QualifiedName, rows: usize) -> (r: Result<
    (),
    ReconciliationReaderError,
>)
    ensures
        match r {
            Ok(()) => rows == 1,
            Err(e) => rows != 1 && is_mismatch(
                e,
                target@,
                "expected one physical relation, found "@ + decimal(rows as nat),
            ),
        },
{
    if rows == 1 {
        return Ok(());
    }
    let mut text = "expected one physical relation, found ".to_string();
    text.append(render_decimal(rows as u64).as_str());
    Err(mismatch(target, text))
}

/// Why the relation is not the managed table, if it is not.
pub open spec fn relation_fault(
    run: ReconciliationRunIdentity,
    storage: TargetStorage,
    actual: RelationCatalog,
) -> Option<Seq<char>> {
    if actual.oid != run.target_relation_oid {
        Some(
            "relation OID is "@ + signed_decimal(actual.oid as int) + ", expected "@ + decimal(
                run.target_relation_oid as nat,
            ),
        )
    } else if actual.kind@ != "r"@ || actual.persistence@ != "p"@ || actual.is_partition {
        Some("relation is not a persistent ordinary non-partition table"@)
    } else if actual.row_security || actual.force_row_security {
        Some("row security would make a whole-table digest role dependent"@)
    } else if optional_text(actual.access_method) != Some(storage.method_name()@) {
        Some(
            "access method is "@ + debug_optional_text(optional_text(actual.access_method))
                + ", expected `"@ + storage.method_name()@ + "`"@,
        )
    } else {
        None
    }
}

pub fn validate_relation(
    run: &ReconciliationRunIdentity,
    table: &CreateTablePlan,
    actual: &RelationCatalog,
) -> (r: Result<(), ReconciliationReaderError>)
    ensures
        tells_mismatch(r, run.target@, relation_fault(*run, table.storage, *actual)),
{
    if actual.oid != run.target_relation_oid as i64 {
        let mut text = "relation OID is ".to_string();
        text.append(render_signed(actual.oid).as_str());
        text.append(", expected ");
        text.append(render_decimal(run.target_relation_oid as u64).as_str());
        return Err(mismatch(&run.target, text));
    }
    if !same_text(actual.kind.as_str(), "r") || !same_text(actual.persistence.as_str(), "p")
        || actual.is_partition {
        return Err(
            mismatch(
                &run.target,
                "relation is not a persistent ordinary non-partition table".to_string(),
            ),
        );
    }
    if actual.row_security || actual.force_row_security {
        return Err(
            mismatch(
                &run.target,
                "row security would make a whole-table digest role dependent".to_string(),
            ),
        );
    }
    let same_method = match &actual.access_method {
        None => false,
        Some(method) => same_text(method.as_str(), table.storage.access_method()),
    };
    if !same_method {
        let mut text = "access method is ".to_string();
        let shown = match &actual.access_method {
            None => show_optional_text(None),
            Some(method) => show_optional_text(Some(method.as_str())),
        };
        text.append(shown.as_str());
        text.append(", expected `");
        text.append(table.storage.access_method());
        text.append("`");
        return Err(mismatch(&run.target, text));
    }
    Ok(())
}

// ---------------------------------------------------------------------------------------------
// Columns
// ---------------------------------------------------------------------------------------------

/// A column as the catalog holds it.
#[derive(Debug, Clone, PartialEq, Eq)]
pub struct ColumnCatalog {
    pub attnum: i32,
    pub name: String,
    pub formatted_type: String,
    pub type_oid: i64,
    pub type_modifier: i64,
    pub not_null: bool,
    pub dropped: bool,
    pub has_default: bool,
    pub generated: String,
    pub identity: String,
    pub type_is_collatable: bool,
    pub collation: Option<QualifiedName>,
}

/// A collation as the catalog holds it: none where a part of its name is missing.
pub fn collation_from_row(schema: Option<String>, name: Option<String>) -> (r: Option<
    QualifiedName,
>)
    ensures
        match r {
            Some(collation) => {
                &&& schema matches Some(s) && collation@.schema == s@
                &&& name matches Some(n) && collation@.name == n@
            },
            None => schema is None || name is None,
        },
{
    match (schema, name) {
        (Some(schema), Some(name)) => Some(QualifiedName { schema, name }),
        _ => None,
    }
}

/// Checks the number of columns, those that were dropped among them.
pub fn validate_column_count(schema: &TableSchema, table: &CreateTablePlan, actual: usize) -> (r:
    Result<(), ReconciliationReaderError>)
    ensures
        ({
            let expected = table.columns@.len();
            tells_mismatch(
                r,
                table.target@,
                if actual == expected && schema.columns@.len() == expected {
                    None
                } else {
                    Some(
                        "visible/dropped pg_attribute row count is "@ + decimal(actual as nat)
                            + ", expected "@ + decimal(expected),
                    )
                },
            )
        }),
{
    if actual == table.columns.len() && schema.columns.len() == table.columns.len() {
        return Ok(());
    }
    let mut text = "visible/dropped pg_attribute row count is ".to_string();
    text.append(render_decimal(actual as u64).as_str());
    text.append(", expected ");
    text.append(render_decimal(table.columns.len() as u64).as_str());
    Err(mismatch(&table.target, text))
}

/// The type is an enum or a domain, or an array of such.
pub open spec fn user_typed(kind: PgTypeKind) -> bool
    decreases kind,
{
    match kind {
        PgTypeKind::Enum { .. } | PgTypeKind::Domain { .. } => true,
        PgTypeKind::Array { element } => user_typed(element.kind),
        _ => false,
    }
}

pub fn has_user_type(kind: &PgTypeKind) -> (r: bool)
    ensures
        r == user_typed(*kind),
    decreases *kind,
{
    match kind {
        PgTypeKind::Enum { .. } | PgTypeKind::Domain { .. } => true,
        PgTypeKind::Array { element } => has_user_type(&element.kind),
        _ => false,
    }
}

/// Why the column does not stand at its place under its name, if it does not.
pub open spec fn column_place_fault(
    index: int,
    source: ColumnSchema,
    planned: ColumnView,
    actual: ColumnCatalog,
) -> Option<Seq<char>> {
    if actual.attnum != index + 1 || actual.dropped {
        Some(
            "attribute number/dropped state is "@ + signed_decimal(actual.attnum as int) + "/"@
                + truth_text(actual.dropped) + ", expected "@ + decimal((index + 1) as nat)
                + "/false"@,
        )
    } else if actual.name@ != planned.name || source.name@ != planned.name {
        Some("name is `"@ + actual.name@ + "`, expected `"@ + planned.name + "`"@)
    } else {
        None
    }
}

/// What comparing a column up to its type comes to.
pub enum ColumnStart {
    OrdinalTooLarge,
    Mismatch { detail: Seq<char> },
    Unplannable { fault: SchemaFault },
    Builtin,
    /// The server has to be asked what the type text stands for.
    Asked { sql: Seq<char> },
}

/// Compares a column up to its type.
pub open spec fn column_start(
    index: int,
    source: ColumnSchema,
    table: TableView,
    actual: ColumnCatalog,
) -> ColumnStart {
    if index + 1 > i32::MAX {
        ColumnStart::OrdinalTooLarge
    } else {
        match column_place_fault(index, source, table.columns[index], actual) {
            Some(detail) => ColumnStart::Mismatch { detail },
            None => match type_model(source.data_type, table.target.schema) {
                Err(fault) => ColumnStart::Unplannable { fault },
                Ok(plan) => if user_typed(source.data_type.kind) {
                    ColumnStart::Asked { sql: plan.sql }
                } else if actual.formatted_type@ == plan.sql {
                    ColumnStart::Builtin
                } else {
                    ColumnStart::Mismatch {
                        detail: "format_type is `"@ + actual.formatted_type@ + "`, expected `"@
                            + plan.sql + "`"@,
                    }
                },
            },
        }
    }
}

/// The error for a column that was refused up to its type.
pub open spec fn refuses_column(
    e: ReconciliationReaderError,
    index: int,
    target: NameView,
    start: ColumnStart,
) -> bool {
    match start {
        ColumnStart::OrdinalTooLarge => is_identity_error(
            e,
            "target column ordinal exceeds i32"@,
        ),
        ColumnStart::Mismatch { detail } => is_mismatch(e, target, column_detail(index, detail)),
        ColumnStart::Unplannable { fault } => e matches ReconciliationReaderError::Schema(inner)
            && inner@ == fault,
        _ => false,
    }
}

/// Compares a column up to its type. For a type of the user it gives the type text that the server
/// has to be asked about.
pub fn column_lookup(
    schema: &TableSchema,
    table: &CreateTablePlan,
    index: usize,
    actual: &ColumnCatalog,
) -> (r: Result<Option<String>, ReconciliationReaderError>)
    requires
        index < schema.columns@.len(),
        index < table.columns@.len(),
    ensures
        ({
            let start = column_start(
                index as int,
                schema.columns@[index as int],
                table@,
                *actual,
            );
            match r {
                Ok(None) => start is Builtin,
                Ok(Some(asked)) => start == (ColumnStart::Asked { sql: asked@ }),
                Err(e) => refuses_column(e, index as int, table.target@, start),
            }
        }),
{
    if index >= i32::MAX as usize {
        return Err(invalid_identity("target column ordinal exceeds i32"));
    }
    let source = &schema.columns[index];
    let planned = &table.columns[index];
    let expected_attnum: i32 = index as i32 + 1;
    if actual.attnum != expected_attnum || actual.dropped {
        let mut text = "attribute number/dropped state is ".to_string();
        text.append(render_signed(actual.attnum as i64).as_str());
        text.append("/");
        text.append(show_truth(actual.dropped));
        text.append(", expected ");
        text.append(render_decimal(expected_attnum as u64).as_str());
        text.append("/false");
        return Err(column_mismatch(table, index, text.as_str()));
    }
    if !same_text(actual.name.as_str(), planned.name.as_str()) || !same_text(
        source.name.as_str(),
        planned.name.as_str(),
    ) {
        let mut text = "name is `".to_string();
        text.append(actual.name.as_str());
        text.append("`, expected `");
        text.append(planned.name.as_str());
        text.append("`");
        return Err(column_mismatch(table, index, text.as_str()));
    }
    let expected = match plan_type(&source.data_type, table.target.schema.as_str()) {
        Err(e) => return Err(ReconciliationReaderError::Schema(e)),
        Ok(plan) => plan.sql,
    };
    if has_user_type(&source.data_type.kind) {
        return Ok(Some(expected));
    }
    if !same_text(actual.formatted_type.as_str(), expected.as_str()) {
        let mut text = "format_type is `".to_string();
        text.append(actual.formatted_type.as_str());
        text.append("`, expected `");
        text.append(expected.as_str());
        text.append("`");
        return Err(column_mismatch(table, index, text.as_str()));
    }
    Ok(None)
}

/// The collation of the source column stands for a name that is valid on the target.
pub open spec fn collation_mappable(source: ColumnSchema, schema: Seq<char>) -> bool {
    source.collation matches Some(collation) ==> collation.schema@ == "pg_catalog"@ || (
    NameView { schema, name: collation.name@ }).fault() is None
}

/// The collation that a column of the target has. Collations of the system catalog keep their
/// schema; all others are expected in the target schema.
pub open spec fn target_collation(
    source: ColumnSchema,
    schema: Seq<char>,
    type_is_collatable: bool,
) -> Option<NameView> {
    match source.collation {
        None => if type_is_collatable {
            Some(NameView { schema: "pg_catalog"@, name: "default"@ })
        } else {
            None
        },
        Some(collation) => if collation.schema@ == "pg_catalog"@ {
            Some(collation@)
        } else {
            Some(NameView { schema, name: collation.name@ })
        },
    }
}

/// The name of an optional name.
pub open spec fn optional_name(name: Option<QualifiedName>) -> Option<NameView> {
    match name {
        None => None,
        Some(name) => Some(name@),
    }
}

pub fn expected_collation(
    source: &ColumnSchema,
    table: &CreateTablePlan,
    type_is_collatable: bool,
) -> (r: Option<QualifiedName>)
    requires
        collation_mappable(*source, table.target.schema@),
    ensures
        optional_name(r) == target_collation(*source, table.target.schema@, type_is_collatable),
{
    match &source.collation {
        None => {
            if type_is_collatable {
                Some(
                    QualifiedName {
                        schema: "pg_catalog".to_string(),
                        name: "default".to_string(),
                    },
                )
            } else {
                None
            }
        },
        Some(collation) => {
            if same_text(collation.schema.as_str(), "pg_catalog") {
                Some(collation.clone())
            } else {
                Some(
                    QualifiedName {
                        schema: table.target.schema.clone(),
                        name: collation.name.clone(),
                    },
                )
            }
        },
    }
}

/// A name as Rust's `Debug` shows it.
pub open spec fn debug_name(name: NameView) -> Seq<char> {
    "QualifiedName { schema: "@ + debug_text(name.schema) + ", name: "@ + debug_text(name.name)
        + " }"@
}

/// An optional name as Rust's `Debug` shows it.
pub open spec fn debug_optional_name(name: Option<NameView>) -> Seq<char> {
    debug_option(
        match name {
            None => None,
            Some(name) => Some(debug_name(name)),
        },
    )
}

fn show_optional_name(name: &Option<QualifiedName>) -> (r: String)
    ensures
        r@ == debug_optional_name(optional_name(*name)),
{
    match name {
        None => show_option(None),
        Some(name) => {
            let mut text = "QualifiedName { schema: ".to_string();
            text.append(show_text(name.schema.as_str()).as_str());
            text.append(", name: ");
            text.append(show_text(name.name.as_str()).as_str());
            text.append(" }");
            show_option(Some(text))
        },
    }
}

fn same_optional_name(a: &Option<QualifiedName>, b: &Option<QualifiedName>) -> (r: bool)
    ensures
        r == (optional_name(*a) == optional_name(*b)),
{
    match (a, b) {
        (None, None) => true,
        (Some(a), Some(b)) => a.same(b),
        _ => false,
    }
}

/// The number of a type that the server may know.
pub open spec fn known_number(known: Option<&NormalizedType>) -> Option<i64> {
    match known {
        None => None,
        Some(known) => known.oid,
    }
}

/// The text of a type that the server may know.
pub open spec fn known_text(known: Option<&NormalizedType>) -> Option<Seq<char>> {
    match known {
        None => None,
        Some(known) => optional_text(known.formatted),
    }
}

/// Why the type of a column is not the user type that was asked about, if it is not.
pub open spec fn user_type_fault(
    actual: ColumnCatalog,
    known: Option<&NormalizedType>,
) -> Option<Seq<char>> {
    if known_number(known) == Some(actual.type_oid) && actual.type_modifier == -1 && known_text(
        known,
    ) == Some(actual.formatted_type@) {
        None
    } else {
        Some(
            "user type is OID "@ + signed_decimal(actual.type_oid as int) + "/"@ + signed_decimal(
                actual.type_modifier as int,
            ) + ", format `"@ + actual.formatted_type@ + "`; expected OID "@
                + debug_optional_number(known_number(known)) + ", typmod -1, format "@
                + debug_optional_text(known_text(known)),
        )
    }
}

/// Why a column of the planned type is not the planned one, if it is not.
pub open spec fn property_fault(
    source: ColumnSchema,
    planned: ColumnView,
    schema: Seq<char>,
    actual: ColumnCatalog,
) -> Option<Seq<char>> {
    if actual.not_null == planned.nullable {
        Some(
            "nullability is nullable="@ + truth_text(!actual.not_null) + ", expected "@
                + truth_text(planned.nullable),
        )
    } else if actual.has_default || actual.generated@.len() > 0 || actual.identity@.len() > 0 {
        Some("default, generated, or identity metadata was added externally"@)
    } else {
        let expected = target_collation(source, schema, actual.type_is_collatable);
        if optional_name(actual.collation) != expected {
            Some(
                "collation is "@ + debug_optional_name(optional_name(actual.collation))
                    + ", expected "@ + debug_optional_name(expected),
            )
        } else {
            None
        }
    }
}

/// Why a column is not the planned one behind its type text, if it is not. What the server made of
/// the text counts for user types only.
pub open spec fn column_fault(
    start: ColumnStart,
    source: ColumnSchema,
    planned: ColumnView,
    schema: Seq<char>,
    actual: ColumnCatalog,
    known: Option<&NormalizedType>,
) -> Option<Seq<char>> {
    if start is Asked && user_type_fault(actual, known) is Some {
        user_type_fault(actual, known)
    } else {
        property_fault(source, planned, schema, actual)
    }
}

/// The detail about a column, where there is one.
pub open spec fn about_column(index: int, fault: Option<Seq<char>>) -> Option<Seq<char>> {
    match fault {
        None => None,
        Some(detail) => Some(column_detail(index, detail)),
    }
}

fn is_known_type(known: Option<&NormalizedType>, actual: &ColumnCatalog) -> (r: bool)
    ensures
        r == (user_type_fault(*actual, known) is None),
{
    match known {
        None => false,
        Some(known) => actual.type_modifier == -1 && known.is_type(
            actual.type_oid,
            actual.formatted_type.as_str(),
        ),
    }
}

/// Compares a column with the planned one, given what the server made of its type text where
/// `column_lookup` asks about it; a type that the server was not asked about is unknown.
pub fn validate_column(
    schema: &TableSchema,
    table: &CreateTablePlan,
    index: usize,
    actual: &ColumnCatalog,
    known: Option<&NormalizedType>,
) -> (r: Result<(), ReconciliationReaderError>)
    requires
        index < schema.columns@.len(),
        index < table.columns@.len(),
        collation_mappable(schema.columns@[index as int], table.target.schema@),
    ensures
        ({
            let source = schema.columns@[index as int];
            let start = column_start(index as int, source, table@, *actual);
            if start is Builtin || start is Asked {
                tells_mismatch(
                    r,
                    table.target@,
                    about_column(
                        index as int,
                        column_fault(
                            start,
                            source,
                            table@.columns[index as int],
                            table.target.schema@,
                            *actual,
                            known,
                        ),
                    ),
                )
            } else {
                r matches Err(e) && refuses_column(e, index as int, table.target@, start)
            }
        }),
{
    let source = &schema.columns[index];
    let planned = &table.columns[index];
    proof {
        assert(index < schema.columns.len());
    }
    let asked = match column_lookup(schema, table, index, actual) {
        Err(e) => return Err(e),
        Ok(asked) => asked.is_some(),
    };
    if asked && !is_known_type(known, actual) {
        let mut text = "user type is OID ".to_string();
        text.append(render_signed(actual.type_oid).as_str());
        text.append("/");
        text.append(render_signed(actual.type_modifier).as_str());
        text.append(", format `");
        text.append(actual.formatted_type.as_str());
        text.append("`; expected OID ");
        match known {
            None => {
                text.append(show_optional_number(None).as_str());
                text.append(", typmod -1, format ");
                text.append(show_optional_text(None).as_str());
            },
            Some(known) => {
                text.append(show_optional_number(known.oid).as_str());
                text.append(", typmod -1, format ");
                text.append(known.shown_format().as_str());
            },
        }
        return Err(column_mismatch(table, index, text.as_str()));
    }
    if actual.not_null == planned.nullable {
        let mut text = "nullability is nullable=".to_string();
        text.append(show_truth(!actual.not_null));
        text.append(", expected ");
        text.append(show_truth(planned.nullable));
        return Err(column_mismatch(table, index, text.as_str()));
    }
    if actual.has_default || !actual.generated.as_str().is_empty()
        || !actual.identity.as_str().is_empty() {
        return Err(
            column_mismatch(
                table,
                index,
                "default, generated, or identity metadata was added externally",
            ),
        );
    }
    let expected = expected_collation(source, table, actual.type_is_collatable);
    if !same_optional_name(&actual.collation, &expected) {
        let mut text = "collation is ".to_string();
        text.append(show_optional_name(&actual.collation).as_str());
        text.append(", expected ");
        text.append(show_optional_name(&expected).as_str());
        return Err(column_mismatch(table, index, text.as_str()));
    }
    Ok(())
}

// ---------------------------------------------------------------------------------------------
// Keys
// ---------------------------------------------------------------------------------------------

/// The position of the first text that is `name`, at or behind `from`.
pub open spec fn position_from(names: Seq<Seq<char>>, name: Seq<char>, from: int) -> Option<int>
    decreases names.len() - from,
{
    if from < 0 || from >= names.len() {
        None
    } else if names[from] == name {
        Some(from)
    } else {
        position_from(names, name, from + 1)
    }
}

/// The attribute number of the column of that name in a table with these columns.
pub open spec fn attnum_of(names: Seq<Seq<char>>, name: Seq<char>) -> Option<i32> {
    match position_from(names, name, 0) {
        Some(at) => if at + 1 <= i32::MAX {
            Some((at + 1) as i32)
        } else {
            None
        },
        None => None,
    }
}

/// The attribute numbers of the columns of these names.
pub open spec fn attnums_of(names: Seq<Seq<char>>, key: Seq<Seq<char>>) -> Option<Seq<i32>>
    decreases key.len(),
{
    if key.len() == 0 {
        Some(Seq::empty())
    } else {
        match (attnums_of(names, key.drop_last()), attnum_of(names, key.last())) {
            (Some(list), Some(attnum)) => Some(list.push(attnum)),
            _ => None,
        }
    }
}

fn column_attnum(table: &CreateTablePlan, name: &str) -> (r: Option<i32>)
    ensures
        r == attnum_of(column_names(column_views(table.columns@)), name@),
{
    let ghost names = column_names(column_views(table.columns@));
    let mut i: usize = 0;
    while i < table.columns.len()
        invariant
            i <= table.columns.len(),
            names == column_names(column_views(table.columns@)),
            position_from(names, name@, 0) == position_from(names, name@, i as int),
        decreases table.columns.len() - i,
    {
        if same_text(table.columns[i].name.as_str(), name) {
            return if i < i32::MAX as usize {
                Some(i as i32 + 1)
            } else {
                None
            };
        }
        i = i + 1;
    }
    None
}

/// A name that is unknown makes the whole list unknown.
proof fn lemma_unknown_attnum(names: Seq<Seq<char>>, key: Seq<Seq<char>>, at: int)
    requires
        0 <= at < key.len(),
        attnum_of(names, key[at]) is None,
    ensures
        attnums_of(names, key) is None,
    decreases key.len(),
{
    if at < key.len() - 1 {
        lemma_unknown_attnum(names, key.drop_last(), at);
    }
}

fn key_attnums(table: &CreateTablePlan, key: &[String]) -> (r: Option<Vec<i32>>)
    ensures
        match r {
            Some(list) => attnums_of(column_names(column_views(table.columns@)), texts(key@))
                == Some(list@),
            None => attnums_of(column_names(column_views(table.columns@)), texts(key@)) is None,
        },
{
    let ghost names = column_names(column_views(table.columns@));
    let ghost all = texts(key@);
    let mut out: Vec<i32> = Vec::new();
    let mut i: usize = 0;
    while i < key.len()
        invariant
            i <= key.len(),
            names == column_names(column_views(table.columns@)),
            all == texts(key@),
            attnums_of(names, all.take(i as int)) == Some(out@),
        decreases key.len() - i,
    {
        match column_attnum(table, key[i].as_str()) {
            None => {
                proof {
                    lemma_unknown_attnum(names, all, i as int);
                }
                return None;
            },
            Some(attnum) => {
                out.push(attnum);
                proof {
                    assert(all.take(i + 1).drop_last() =~= all.take(i as int));
                    assert(all.take(i + 1).last() == all[i as int]);
                }
            },
        }
        i = i + 1;
    }
    proof {
        assert(all.take(i as int) =~= all);
    }
    Some(out)
}

/// The names of a list in which none is missing.
pub open spec fn known_names(list: Seq<Option<String>>) -> Option<Seq<Seq<char>>> {
    if forall|i: int| 0 <= i < list.len() ==> (#[trigger] list[i]) is Some {
        Some(Seq::new(list.len(), |i: int| list[i]->0@))
    } else {
        None
    }
}

fn collect_names(list: &Vec<Option<String>>) -> (r: Option<Vec<String>>)
    ensures
        match r {
            Some(names) => known_names(list@) == Some(texts(names@)),
            None => known_names(list@) is None,
        },
{
    let mut out: Vec<String> = Vec::new();
    let mut i: usize = 0;
    while i < list.len()
        invariant
            i <= list.len(),
            out@.len() == i,
            forall|k: int|
                0 <= k < i ==> (#[trigger] list@[k]) is Some && list@[k]->0@ == out@[k]@,
        decreases list.len() - i,
    {
        match &list[i] {
            None => {
                proof {
                    assert(list@[i as int] is None);
                }
                return None;
            },
            Some(name) => out.push(name.clone()),
        }
        i = i + 1;
    }
    proof {
        assert(texts(out@) =~= Seq::new(list@.len(), |i: int| list@[i]->0@));
    }
    Some(out)
}

/// An optional list of names as Rust's `Debug` shows it.
pub open spec fn debug_optional_names(names: Option<Seq<Seq<char>>>) -> Seq<char> {
    debug_option(
        match names {
            None => None,
            Some(list) => Some(debug_texts(list)),
        },
    )
}

fn show_optional_names(names: &Option<Vec<String>>) -> (r: String)
    ensures
        r@ == debug_optional_names(
            match *names {
                None => None,
                Some(list) => Some(texts(list@)),
            },
        ),
{
    match names {
        None => show_option(None),
        Some(list) => show_option(Some(show_texts(list.as_slice()))),
    }
}

fn same_numbers(a: &Vec<i32>, b: &Vec<i32>) -> (r: bool)
    ensures
        r == (a@ == b@),
{
    if a.len() != b.len() {
        return false;
    }
    let mut i: usize = 0;
    while i < a.len()
        invariant
            i <= a.len(),
            a.len() == b.len(),
            forall|k: int| 0 <= k < i ==> a@[k] == b@[k],
        decreases a.len() - i,
    {
        if a[i] != b[i] {
            return false;
        }
        i = i + 1;
    }
    proof {
        assert(a@ =~= b@);
    }
    true
}

/// A primary-key index as the catalog holds it.
#[derive(Debug, Clone, PartialEq, Eq)]
pub struct PrimaryKeyCatalog {
    pub index_oid: i64,
    pub unique: bool,
    pub valid: bool,
    pub ready: bool,
    pub immediate: bool,
    pub key_attribute_count: i32,
    pub total_attribute_count: i32,
    pub has_no_predicate: bool,
    pub has_no_expressions: bool,
    pub key_attnums: Vec<i32>,
    pub key_names: Vec<Option<String>>,
}

/// The index enforces exactly the planned primary key.
pub open spec fn enforces_key(
    table: TableView,
    attnums: Seq<i32>,
    actual: PrimaryKeyCatalog,
) -> bool {
    &&& actual.index_oid > 0
    &&& actual.unique
    &&& actual.valid
    &&& actual.ready
    &&& actual.immediate
    &&& actual.has_no_predicate
    &&& actual.has_no_expressions
    &&& actual.key_attribute_count == table.primary_key.len()
    &&& actual.total_attribute_count == table.primary_key.len()
    &&& actual.key_attnums@ == attnums
    &&& known_names(actual.key_names@) == Some(table.primary_key)
}

/// The outcome of comparing the primary key.
pub open spec fn primary_key_judged(
    r: Result<(), ReconciliationReaderError>,
    table: TableView,
    rows: Seq<PrimaryKeyCatalog>,
) -> bool {
    if rows.len() != 1 {
        r matches Err(e) && is_mismatch(
            e,
            table.target,
            "expected one primary-key index, found "@ + decimal(rows.len()),
        )
    } else if table.primary_key.len() > i32::MAX {
        r matches Err(e) && is_identity_error(e, "primary key arity exceeds i32"@)
    } else {
        match attnums_of(column_names(table.columns), table.primary_key) {
            None => r matches Err(e) && is_identity_error(
                e,
                "primary key references an unknown target column"@,
            ),
            Some(attnums) => if enforces_key(table, attnums, rows[0]) {
                r is Ok
            } else {
                r matches Err(e) && is_mismatch(
                    e,
                    table.target,
                    "primary-key catalog contract differs (names="@ + debug_optional_names(
                        known_names(rows[0].key_names@),
                    ) + ", attnums="@ + debug_numbers(rows[0].key_attnums@) + ")"@,
                )
            },
        }
    }
}

/// Whether the names are known and the expected ones.
fn are_names(names: &Option<Vec<String>>, expected: &Vec<String>) -> (r: bool)
    ensures
        r == (*names matches Some(list) && texts(list@) == texts(expected@)),
{
    match names {
        None => false,
        Some(list) => same_texts(list.as_slice(), expected.as_slice()),
    }
}

pub fn validate_primary_key(table: &CreateTablePlan, rows: &[PrimaryKeyCatalog]) -> (r: Result<
    (),
    ReconciliationReaderError,
>)
    ensures
        primary_key_judged(r, table@, rows@),
{
    if rows.len() != 1 {
        let mut text = "expected one primary-key index, found ".to_string();
        text.append(render_decimal(rows.len() as u64).as_str());
        return Err(mismatch(&table.target, text));
    }
    let actual = &rows[0];
    if table.primary_key.len() > i32::MAX as usize {
        return Err(invalid_identity("primary key arity exceeds i32"));
    }
    let expected_count: i32 = table.primary_key.len() as i32;
    let expected_attnums = match key_attnums(table, table.primary_key.as_slice()) {
        None => {
            return Err(invalid_identity("primary key references an unknown target column"));
        },
        Some(list) => list,
    };
    let actual_names = collect_names(&actual.key_names);
    if actual.index_oid <= 0 || !actual.unique || !actual.valid || !actual.ready
        || !actual.immediate || !actual.has_no_predicate || !actual.has_no_expressions
        || actual.key_attribute_count != expected_count || actual.total_attribute_count
        != expected_count || !same_numbers(&actual.key_attnums, &expected_attnums) || !are_names(
        &actual_names,
        &table.primary_key,
    ) {
        let mut text = "primary-key catalog contract differs (names=".to_string();
        text.append(show_optional_names(&actual_names).as_str());
        text.append(", attnums=");
        text.append(show_numbers(actual.key_attnums.as_slice()).as_str());
        text.append(")");
        return Err(mismatch(&table.target, text));
    }
    Ok(())
}

/// A distribution policy as the catalog holds it.
#[derive(Debug, Clone, PartialEq, Eq)]
pub struct DistributionCatalog {
    pub policy_type: String,
    pub num_segments: i32,
    pub key_attnums: Vec<i32>,
    pub key_names: Vec<Option<String>>,
}

/// The policy distributes by exactly the planned key.
pub open spec fn distributes_by_key(
    table: TableView,
    attnums: Seq<i32>,
    actual: DistributionCatalog,
) -> bool {
    &&& actual.policy_type@ == "p"@
    &&& actual.num_segments > 0
    &&& actual.key_attnums@ == attnums
    &&& known_names(actual.key_names@) == Some(table.distribution_key)
}

/// The outcome of comparing the distribution policy.
pub open spec fn distribution_judged(
    r: Result<(), ReconciliationReaderError>,
    table: TableView,
    rows: Seq<DistributionCatalog>,
) -> bool {
    if rows.len() != 1 {
        r matches Err(e) && is_mismatch(
            e,
            table.target,
            "expected one Cloudberry distribution policy, found "@ + decimal(rows.len()),
        )
    } else {
        match attnums_of(column_names(table.columns), table.distribution_key) {
            None => r matches Err(e) && is_identity_error(
                e,
                "distribution key references an unknown target column"@,
            ),
            Some(attnums) => if distributes_by_key(table, attnums, rows[0]) {
                r is Ok
            } else {
                r matches Err(e) && is_mismatch(
                    e,
                    table.target,
                    "distribution contract differs (policy="@ + rows[0].policy_type@
                        + ", segments="@ + signed_decimal(rows[0].num_segments as int)
                        + ", names="@ + debug_optional_names(known_names(rows[0].key_names@))
                        + ", attnums="@ + debug_numbers(rows[0].key_attnums@) + ")"@,
                )
            },
        }
    }
}

pub fn validate_distribution(table: &CreateTablePlan, rows: &[DistributionCatalog]) -> (r: Result<
    (),
    ReconciliationReaderError,
>)
    ensures
        distribution_judged(r, table@, rows@),
{
    if rows.len() != 1 {
        let mut text = "expected one Cloudberry distribution policy, found ".to_string();
        text.append(render_decimal(rows.len() as u64).as_str());
        return Err(mismatch(&table.target, text));
    }
    let actual = &rows[0];
    let expected_attnums = match key_attnums(table, table.distribution_key.as_slice()) {
        None => {
            return Err(
                invalid_identity("distribution key references an unknown target column"),
            );
        },
        Some(list) => list,
    };
    let actual_names = collect_names(&actual.key_names);
    if !same_text(actual.policy_type.as_str(), "p") || actual.num_segments <= 0 || !same_numbers(
        &actual.key_attnums,
        &expected_attnums,
    ) || !are_names(&actual_names, &table.distribution_key) {
        let mut text = "distribution contract differs (policy=".to_string();
        text.append(actual.policy_type.as_str());
        text.append(", segments=");
        text.append(render_signed(actual.num_segments as i64).as_str());
        text.append(", names=");
        text.append(show_optional_names(&actual_names).as_str());
        text.append(", attnums=");
        text.append(show_numbers(actual.key_attnums.as_slice()).as_str());
        text.append(")");
        return Err(mismatch(&table.target, text));
    }
    Ok(())
}

// ---------------------------------------------------------------------------------------------
// Laws
// ---------------------------------------------------------------------------------------------

/// A scan of a valid request reads every column exactly once, the complete key before all others.
pub proof fn law_scan_reads_every_column_once(
    run: ReconciliationRunIdentity,
    schema: TableSchema,
    table: TableView,
)
    requires
        request_valid(run, schema, table),
    ensures
        projection(schema.columns@).no_duplicates(),
        forall|name: Seq<char>| #[trigger]
            projection(schema.columns@).contains(name) <==> column_names(table.columns).contains(
                name,
            ),
        projection(schema.columns@).take(table.primary_key.len() as int) == table.primary_key,
{
    let columns = schema.columns@;
    let order = value_order(columns);
    let key = key_names(columns);
    let values = names_at(columns, order);
    let all = projection(columns);
    let names = column_names(table.columns);
    law_planned_table(schema, table.target, table.storage);
    law_ranked_order(outside_key(columns), attnums(columns), columns.len() as int);
    assert(all.take(key.len() as int) =~= key);
    assert forall|i: int| 0 <= i < values.len() implies 0 <= order[i] < columns.len()
        && !key.contains(#[trigger] values[i]) && names.contains(values[i]) by {
        assert(order.contains(order[i]));
        assert(outside_key(columns)(order[i]));
        assert(names[order[i]] == values[i]);
    }
    assert forall|i: int, j: int|
        0 <= i < all.len() && 0 <= j < all.len() && i != j implies all[i] != all[j] by {
        let k = key.len();
        if i < k && j < k {
            assert(key[i] != key[j]);
        } else if i < k {
            assert(!key.contains(values[j - k]));
            assert(key.contains(key[i]));
        } else if j < k {
            assert(!key.contains(values[i - k]));
            assert(key.contains(key[j]));
        } else {
            let a = order[i - k];
            let b = order[j - k];
            assert(order.contains(a) && order.contains(b));
            assert(a != b);
            assert(names[a] != names[b]);
        }
    }
    assert forall|name: Seq<char>| #[trigger] all.contains(name) <==> names.contains(name) by {
        if all.contains(name) {
            let i = choose|i: int| 0 <= i < all.len() && all[i] == name;
            if i < key.len() {
                assert(names.contains(key[i]));
            } else {
                assert(names.contains(values[i - key.len()]));
            }
        }
        if names.contains(name) {
            let p = choose|p: int| 0 <= p < names.len() && names[p] == name;
            if key.contains(name) {
                let i = choose|i: int| 0 <= i < key.len() && key[i] == name;
                assert(all[i] == name);
            } else {
                assert(outside_key(columns)(p));
                assert(order.contains(p));
                let i = choose|i: int| 0 <= i < order.len() && order[i] == p;
                assert(all[key.len() + i] == name);
            }
        }
    }
}

/// A valid request whose key ordinals are contiguous and whose key columns hold no nulls can be
/// scanned.
pub proof fn law_valid_request_can_be_scanned(
    run: ReconciliationRunIdentity,
    schema: TableSchema,
    table: TableView,
)
    requires
        request_valid(run, schema, table),
        forall|i: int|
            0 <= i < schema.columns@.len() && (
            #[trigger] schema.columns@[i]).primary_key_ordinal is Some
                ==> !schema.columns@[i].nullable,
        forall|i: int|
            0 <= i < key_order(schema.columns@).len() ==> schema.columns@[#[trigger] key_order(
                schema.columns@,
            )[i]].primary_key_ordinal == Some((i + 1) as u16),
        key_order(schema.columns@).len() <= u16::MAX,
    ensures
        copy_valid(schema.columns@, table.target),
{
    let columns = schema.columns@;
    let all = projection(columns);
    let names = column_names(table.columns);
    law_planned_table(schema, table.target, table.storage);
    law_scan_reads_every_column_once(run, schema, table);
    law_key_order(columns, columns.len() as int);
    lemma_contiguous_key(columns, key_order(columns).len() as int);
    assert forall|i: int| 0 <= i < all.len() implies crate::sql::quotable(#[trigger] all[i]) by {
        assert(all.contains(all[i]));
        assert(names.contains(all[i]));
        let p = choose|p: int| 0 <= p < names.len() && names[p] == all[i];
        assert(crate::sql::quotable(names[p]));
    }
    lemma_list_renders(all);
    assert(all.len() >= table.primary_key.len());
}

proof fn lemma_contiguous_key(columns: Seq<ColumnSchema>, count: int)
    requires
        0 <= count <= key_order(columns).len() <= u16::MAX,
        forall|i: int|
            0 <= i < columns.len() && (#[trigger] columns[i]).primary_key_ordinal is Some
                ==> !columns[i].nullable,
        forall|i: int|
            0 <= i < key_order(columns).len() ==> columns[#[trigger] key_order(
                columns,
            )[i]].primary_key_ordinal == Some((i + 1) as u16),
        forall|p: int| #[trigger]
            key_order(columns).contains(p) <==> 0 <= p < columns.len()
                && columns[p].primary_key_ordinal is Some,
    ensures
        key_fault(columns, count) is None,
    decreases count,
{
    if count > 0 {
        lemma_contiguous_key(columns, count - 1);
        assert(key_order(columns).contains(key_order(columns)[count - 1]));
    }
}

/// Every collation of a valid request stands for a valid name on the target.
pub proof fn law_valid_request_maps_collations(
    run: ReconciliationRunIdentity,
    schema: TableSchema,
    table: TableView,
    at: int,
)
    requires
        request_valid(run, schema, table),
        0 <= at < schema.columns@.len(),
    ensures
        collation_mappable(schema.columns@[at], table.target.schema),
{
    lemma_planned_collation(
        schema.columns@,
        schema.columns@.len() as int,
        at,
        table.target.schema,
    );
}

proof fn lemma_planned_collation(
    columns: Seq<ColumnSchema>,
    count: int,
    at: int,
    schema: Seq<char>,
)
    requires
        0 <= at < count,
        crate::schema::columns_model(columns, count, schema) is Ok,
    ensures
        collation_model(columns[at], schema) is Ok,
    decreases count,
{
    if at < count - 1 {
        lemma_planned_collation(columns, count - 1, at, schema);
    }
}

/// One marked scan is aligned with one position only: checkpoints at two positions never both pass.
pub proof fn law_alignment_fixes_the_position(
    run: ReconciliationRunIdentity,
    state: StoredReconciliationState,
    a: StoredNodeCheckpoint,
    b: StoredNodeCheckpoint,
)
    requires
        alignment_fault(run, Some(&state), Some(&a)) is None,
        alignment_fault(run, Some(&state), Some(&b)) is None,
    ensures
        a.checkpoint.applied_lsn == b.checkpoint.applied_lsn,
        state.target_checkpoint_lsn == Some(a.checkpoint.applied_lsn),
        state.state is Scanning,
{
}

/// Settings that are rendered bound every wait: none is zero, which would wait without end, and
/// none is longer than one day.
pub proof fn law_every_wait_is_bounded(timeouts: ReconciliationReaderTimeouts)
    requires
        timeouts_fault(timeouts) is None,
    ensures
        1 <= timeouts.lock_timeout.millis() <= 86_400_000,
        1 <= timeouts.statement_timeout.millis() <= 86_400_000,
        1 <= timeouts.idle_in_transaction_timeout.millis() <= 86_400_000,
{
}

/// A request is consistent exactly where run, schema and plan speak of one target and one relation,
/// the generations and the catalog identity are given, the fingerprint is a text without NUL, the
/// columns have positive numbers of their own, and the plan is the one that the schema gives.
pub proof fn law_which_requests_are_consistent(
    run: ReconciliationRunIdentity,
    schema: TableSchema,
    table: TableView,
)
    ensures
        request_valid(run, schema, table) <==> {
            let columns = schema.columns@;
            &&& run.target@ == table.target
            &&& run.source_relation_id > 0
            &&& run.source_relation_id == schema.relation_id
            &&& run.table_generation > 0
            &&& schema.generation > 0
            &&& run.target_relation_oid > 0
            &&& run.schema_fingerprint@.len() > 0
            &&& !run.schema_fingerprint@.contains('\0')
            &&& forall|i: int| 0 <= i < columns.len() ==> (#[trigger] columns[i]).attnum > 0
            &&& forall|i: int, j: int|
                0 <= i < j < columns.len() ==> (#[trigger] columns[i]).attnum != (
                #[trigger] columns[j]).attnum
            &&& table_model(schema, table.target, table.storage) == Ok::<TableView, SchemaFault>(
                table,
            )
        },
{
}

/// Waits are accepted exactly where each lasts at least a millisecond and at most a day.
pub proof fn law_which_waits_are_accepted(timeouts: ReconciliationReaderTimeouts)
    ensures
        timeouts_fault(timeouts) is None <==> {
            &&& 1_000_000 <= timeouts.lock_timeout.nanoseconds <= 86_400_000_000_000
            &&& 1_000_000 <= timeouts.statement_timeout.nanoseconds <= 86_400_000_000_000
            &&& 1_000_000 <= timeouts.idle_in_transaction_timeout.nanoseconds
                <= 86_400_000_000_000
        },
        forall|timeout: Timeout| #![trigger timeout.millis()]
            timeout.millis() * 1_000_000 <= timeout.nanoseconds < (timeout.millis() + 1)
                * 1_000_000,
{
}

/// The settings of a scan: the canonical ones, then each wait in milliseconds.
pub proof fn law_settings_text(timeouts: ReconciliationReaderTimeouts)
    ensures
        settings_text(timeouts) == CANONICAL_SETTINGS_SQL@ + "SET LOCAL lock_timeout = '"@ + decimal(
            timeouts.lock_timeout.millis(),
        ) + "ms';\nSET LOCAL statement_timeout = '"@ + decimal(
            timeouts.statement_timeout.millis(),
        ) + "ms';\nSET LOCAL idle_in_transaction_session_timeout = '"@ + decimal(
            timeouts.idle_in_transaction_timeout.millis(),
        ) + "ms';"@,
{
}

/// A table can be scanned exactly where its key ordinals count from one without a gap, no key column
/// is nullable, and all names can be written.
pub proof fn law_which_tables_can_be_scanned(columns: Seq<ColumnSchema>, target: NameView)
    ensures
        copy_valid(columns, target) <==> {
            let order = key_order(columns);
            &&& order.len() <= u16::MAX
            &&& forall|i: int|
                0 <= i < order.len() ==> {
                    &&& columns[#[trigger] order[i]].primary_key_ordinal matches Some(ordinal)
                        && ordinal == i + 1
                    &&& !columns[order[i]].nullable
                }
            &&& projection(columns).len() > 0
            &&& all_quotable(projection(columns))
            &&& name_render_fault(target) is None
        },
{
    lemma_list_renders(projection(columns));
    lemma_key_fault(columns, key_order(columns).len() as int);
}

proof fn lemma_key_fault(columns: Seq<ColumnSchema>, count: int)
    requires
        0 <= count <= key_order(columns).len(),
    ensures
        key_fault(columns, count) is None <==> {
            &&& count <= u16::MAX
            &&& forall|i: int|
                0 <= i < count ==> {
                    &&& columns[#[trigger] key_order(columns)[i]].primary_key_ordinal matches Some(
                        ordinal,
                    ) && ordinal == i + 1
                    &&& !columns[key_order(columns)[i]].nullable
                }
        },
    decreases count,
{
    if count > 0 {
        lemma_key_fault(columns, count - 1);
        let order = key_order(columns);
        if key_fault(columns, count) is None {
            assert(key_fault_at(columns, count - 1) is None);
            assert forall|i: int| 0 <= i < count implies (
            columns[#[trigger] order[i]].primary_key_ordinal matches Some(ordinal) && ordinal == i
                + 1) && !columns[order[i]].nullable by {
                if i == count - 1 {
                    assert(columns[order[i]].primary_key_ordinal == Some((i + 1) as u16));
                }
            }
        } else if key_fault(columns, count - 1) is None {
            assert(key_fault_at(columns, count - 1) is Some);
            if count <= u16::MAX {
                let column = columns[order[count - 1]];
                if column.primary_key_ordinal matches Some(ordinal) && ordinal == count {
                    assert(column.primary_key_ordinal == Some(count as u16));
                }
            }
        }
    }
}

/// The statement of a scan selects the columns in order from the target and copies them out as text
/// without a header, with tabs between the fields and `\N` for NULL.
pub proof fn law_scan_text(columns: Seq<Seq<char>>, target: NameView)
    ensures
        copy_text(columns, target) == "COPY (SELECT "@ + crate::text::joined(
            Seq::new(columns.len(), |i: int| quoted(columns[i])),
            ", "@,
        ) + " FROM "@ + quoted_name(target)
            + ") TO STDOUT WITH (FORMAT text, HEADER false, DELIMITER E'\\t', NULL E'\\\\N')"@,
{
    reveal_strlit("");
    let bare = Seq::new(columns.len(), |i: int| quoted(columns[i]));
    let plain = Seq::new(columns.len(), |i: int| ""@ + quoted(columns[i]) + ""@);
    assert forall|i: int| 0 <= i < columns.len() implies plain[i] == bare[i] by {
        assert(""@ + quoted(columns[i]) + ""@ =~= quoted(columns[i]));
    }
    assert(plain =~= bare);
}

/// The columns outside the key are read by ascending number.
pub proof fn law_values_are_read_in_order(columns: Seq<ColumnSchema>, i: int, j: int)
    requires
        0 <= i < j < value_order(columns).len(),
    ensures
        columns[value_order(columns)[i]].attnum <= columns[value_order(columns)[j]].attnum,
{
    law_ranked_order(outside_key(columns), attnums(columns), columns.len() as int);
    let order = value_order(columns);
    assert(attnums(columns)(order[i]) <= attnums(columns)(order[j]));
}

/// A snapshot is aligned exactly where the run is stored as scanning with every field of the request
/// and a marked position, and the node's checkpoint stands at that position for the run's node,
/// system and timeline, under a positive token that is not newer.
pub proof fn law_when_a_snapshot_is_aligned(
    run: ReconciliationRunIdentity,
    state: StoredReconciliationState,
    checkpoint: StoredNodeCheckpoint,
)
    ensures
        alignment_fault(run, Some(&state), Some(&checkpoint)) is None <==> {
            &&& same_run(state.run, run)
            &&& state.state is Scanning
            &&& state.target_checkpoint_lsn == Some(checkpoint.checkpoint.applied_lsn)
            &&& checkpoint.checkpoint.key.pipeline_id == run.fence.pipeline_id
            &&& checkpoint.checkpoint.key.topology_generation == run.fence.topology_generation
            &&& checkpoint.checkpoint.key.node_id == run.source_node_id
            &&& checkpoint.checkpoint.system_identifier == run.source_system_identifier
            &&& checkpoint.checkpoint.timeline == run.source_timeline
            &&& 0 < checkpoint.fencing_token <= run.fence.fencing_token
        },
        alignment_fault(run, None, Some(&checkpoint)) is Some,
        alignment_fault(run, Some(&state), None) is Some,
        same_run(state.run, run) <==> {
            &&& state.run.run_id == run.run_id
            &&& state.run.fence.fencing_token == run.fence.fencing_token
            &&& run_difference(state.run, run) is None
        },
{
}

/// A user type is the run's own exactly where it is registered for the pipeline, with the checksum
/// of the planned definition, under a positive token that is not newer.
pub proof fn law_which_types_are_the_runs_own(
    run: ReconciliationRunIdentity,
    prerequisite: UserTypeView,
    actual: ManagedTypeCatalog,
)
    ensures
        managed_type_fault(run, prerequisite, Some(&actual)) is None <==> {
            &&& actual.pipeline_id == run.fence.pipeline_id
            &&& actual.definition_checksum@ == sha256(encode_utf8(prerequisite.create_sql))
            &&& 0 < actual.fencing_token <= run.fence.fencing_token
        },
        managed_type_fault(run, prerequisite, None) is Some,
{
}

/// The catalog shows the planned enum exactly where it is an enum with the same labels in the same
/// order, and a plain domain exactly where it is one over a base without any constraint of its own;
/// the base is the planned one exactly where number and text are.
pub proof fn law_which_catalog_types_are_planned(
    kind: Seq<char>,
    actual: Seq<Seq<char>>,
    expected: Seq<Seq<char>>,
    domain: DomainCatalog,
    base: NormalizedType,
)
    ensures
        enum_fault(kind, actual, expected) is None <==> kind == "e"@ && actual == expected,
        domain_shape_fault(domain) is None <==> {
            &&& domain.kind@ == "d"@
            &&& domain.base_type_oid > 0
            &&& !domain.not_null
            &&& domain.default is None
            &&& domain.constraint_count == 0
        },
        domain_base_fault(domain, base) is None <==> {
            &&& base.oid == Some(domain.base_type_oid)
            &&& base.formatted matches Some(text) && text@ == domain.formatted_base_type@
        },
{
}

/// The relation is the managed table exactly where it has the run's identity, is a persistent
/// ordinary table without partitions and row security, and uses the planned access method.
pub proof fn law_which_relations_are_scanned(
    run: ReconciliationRunIdentity,
    storage: TargetStorage,
    actual: RelationCatalog,
)
    ensures
        relation_fault(run, storage, actual) is None <==> {
            &&& actual.oid == run.target_relation_oid
            &&& actual.kind@ == "r"@
            &&& actual.persistence@ == "p"@
            &&& !actual.is_partition
            &&& !actual.row_security
            &&& !actual.force_row_security
            &&& actual.access_method matches Some(method) && method@ == storage.method_name()@
        },
{
}

/// A column stands at its place exactly where its number is its position counted from one, it is not
/// dropped, and it has the planned name; beyond its type it is the planned one exactly where its
/// nullability and collation are and nothing was added to it.
pub proof fn law_which_columns_are_planned(
    index: int,
    source: ColumnSchema,
    planned: ColumnView,
    schema: Seq<char>,
    actual: ColumnCatalog,
)
    ensures
        column_place_fault(index, source, planned, actual) is None <==> {
            &&& actual.attnum == index + 1
            &&& !actual.dropped
            &&& actual.name@ == planned.name
            &&& source.name@ == planned.name
        },
        property_fault(source, planned, schema, actual) is None <==> {
            &&& actual.not_null <==> !planned.nullable
            &&& !actual.has_default
            &&& actual.generated@.len() == 0
            &&& actual.identity@.len() == 0
            &&& optional_name(actual.collation) == target_collation(
                source,
                schema,
                actual.type_is_collatable,
            )
        },
{
}

/// The collation of a column on the target: the source's own where it is one of the system catalog,
/// one of that name in the target's schema otherwise, and the default one for a type that can have
/// one and names none.
pub proof fn law_collations_on_the_target(
    source: ColumnSchema,
    schema: Seq<char>,
    collatable: bool,
)
    ensures
        source.collation is None && collatable ==> target_collation(source, schema, collatable)
            == Some(NameView { schema: "pg_catalog"@, name: "default"@ }),
        source.collation is None && !collatable ==> target_collation(source, schema, collatable)
            is None,
        source.collation matches Some(collation) ==> {
            &&& collation.schema@ == "pg_catalog"@ ==> target_collation(source, schema, collatable)
                == Some(collation@)
            &&& collation.schema@ != "pg_catalog"@ ==> target_collation(source, schema, collatable)
                == Some(NameView { schema, name: collation.name@ })
        },
{
}

/// The type of a column is compared by its text where it is built in, and asked of the server where
/// it is a user type; a user type is the planned one exactly where number and text are those that
/// the server gives, without a modifier.
pub proof fn law_how_column_types_are_compared(
    index: int,
    source: ColumnSchema,
    table: TableView,
    actual: ColumnCatalog,
    known: NormalizedType,
)
    requires
        index + 1 <= i32::MAX,
        column_place_fault(index, source, table.columns[index], actual) is None,
        type_model(source.data_type, table.target.schema) is Ok,
    ensures
        ({
            let sql = type_model(source.data_type, table.target.schema)->Ok_0.sql;
            let start = column_start(index, source, table, actual);
            &&& user_typed(source.data_type.kind) ==> start == (ColumnStart::Asked { sql })
            &&& !user_typed(source.data_type.kind) ==> (start == ColumnStart::Builtin
                <==> actual.formatted_type@ == sql)
        }),
        user_type_fault(actual, Some(&known)) is None <==> {
            &&& known.oid == Some(actual.type_oid)
            &&& actual.type_modifier == -1
            &&& known.formatted matches Some(text) && text@ == actual.formatted_type@
        },
        user_type_fault(actual, None) is Some,
        !(source.data_type.kind is Enum || source.data_type.kind is Domain || source.data_type.kind
            is Array) ==> !user_typed(source.data_type.kind),
        source.data_type.kind is Enum || source.data_type.kind is Domain ==> user_typed(
            source.data_type.kind,
        ),
        source.data_type.kind matches PgTypeKind::Array { element } ==> user_typed(
            source.data_type.kind,
        ) == user_typed(element.kind),
{
}

/// The number of a column is its first position counted from one.
pub proof fn law_numbers_of_columns(names: Seq<Seq<char>>, at: int)
    requires
        names.no_duplicates(),
        0 <= at < names.len(),
        names.len() <= i32::MAX,
    ensures
        attnum_of(names, names[at]) == Some((at + 1) as i32),
        forall|name: Seq<char>| !names.contains(name) ==> (#[trigger] attnum_of(names, name)) is None,
{
    lemma_position_from(names, names[at], 0, at);
    assert forall|name: Seq<char>| !names.contains(name) implies (#[trigger] attnum_of(names, name))
        is None by {
        lemma_no_position(names, name, 0);
    }
}

proof fn lemma_position_from(names: Seq<Seq<char>>, name: Seq<char>, from: int, at: int)
    requires
        0 <= from <= at < names.len(),
        names[at] == name,
        names.no_duplicates(),
    ensures
        position_from(names, name, from) == Some(at),
    decreases at - from,
{
    if from < at {
        assert(names[from] != names[at]);
        lemma_position_from(names, name, from + 1, at);
    }
}

proof fn lemma_no_position(names: Seq<Seq<char>>, name: Seq<char>, from: int)
    requires
        0 <= from <= names.len(),
        !names.contains(name),
    ensures
        position_from(names, name, from) is None,
    decreases names.len() - from,
{
    if from < names.len() {
        assert(names[from] != name);
        lemma_no_position(names, name, from + 1);
    }
}

/// An index enforces the planned key exactly where it is a usable unique index that is checked at
/// once, without predicate and expressions, over exactly the key's columns in order; a policy
/// distributes by the key exactly where it hashes over segments by exactly its columns in order.
pub proof fn law_which_keys_are_enforced(
    table: TableView,
    attnums: Seq<i32>,
    index: PrimaryKeyCatalog,
    policy: DistributionCatalog,
)
    ensures
        enforces_key(table, attnums, index) <==> {
            &&& index.index_oid > 0
            &&& index.unique && index.valid && index.ready && index.immediate
            &&& index.has_no_predicate && index.has_no_expressions
            &&& index.key_attribute_count == table.primary_key.len()
            &&& index.total_attribute_count == table.primary_key.len()
            &&& index.key_attnums@ == attnums
            &&& index.key_names@.len() == table.primary_key.len()
            &&& forall|i: int|
                0 <= i < index.key_names@.len() ==> (#[trigger] index.key_names@[i] matches Some(
                    name,
                ) && name@ == table.primary_key[i])
        },
        distributes_by_key(table, attnums, policy) <==> {
            &&& policy.policy_type@ == "p"@
            &&& policy.num_segments > 0
            &&& policy.key_attnums@ == attnums
            &&& policy.key_names@.len() == table.distribution_key.len()
            &&& forall|i: int|
                0 <= i < policy.key_names@.len() ==> (#[trigger] policy.key_names@[i] matches Some(
                    name,
                ) && name@ == table.distribution_key[i])
        },
{
    lemma_known_names(index.key_names@, table.primary_key);
    lemma_known_names(policy.key_names@, table.distribution_key);
}

proof fn lemma_known_names(list: Seq<Option<String>>, names: Seq<Seq<char>>)
    ensures
        known_names(list) == Some(names) <==> {
            &&& list.len() == names.len()
            &&& forall|i: int|
                0 <= i < list.len() ==> (#[trigger] list[i] matches Some(name) && name@ == names[i])
        },
{
    if known_names(list) == Some(names) {
        assert forall|i: int| 0 <= i < list.len() implies (#[trigger] list[i] matches Some(name)
            && name@ == names[i]) by {
            assert(list[i] is Some);
            assert(names[i] == list[i]->0@);
        }
    }
    if list.len() == names.len() && (forall|i: int|
        0 <= i < list.len() ==> (#[trigger] list[i] matches Some(name) && name@ == names[i])) {
        assert(Seq::new(list.len(), |i: int| list[i]->0@) =~= names);
    }
}

} // verus!
