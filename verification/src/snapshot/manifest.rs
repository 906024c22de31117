//! Durable registration and validation of complete snapshot-group manifests.

use crate::checkpoint::{
    boundary_fault, checkpoint_reached, CheckpointError, CheckpointKey, CheckpointView,
    NodeCheckpoint, PipelineFence,
};
use crate::digest::{
    be_bytes, frameable, framed, law_framing_is_unambiguous, push_field, sha256, sha256_digest,
};
use crate::ident::{big_endian, law_big_endian_differs, pow256, PipelineId, Uuid};
use crate::lsn::{law_lsn_reads_back, parsed_lsn, PgLsn};
use crate::order::{
    arranged, is_arrangement, law_sorted_order_is_unique, lemma_arrangement_covers,
    lemma_name_asymmetric, lemma_name_total, name_less, names_of, numbers_at, one_way,
    order_by_name, order_by_number, sorted_by,
};
use crate::schema::SchemaError;
use crate::snapshot::{
    database_generation, ActivationTableView, SnapshotActivationRequest, SnapshotActivationTable,
    SnapshotOwnership, SnapshotTargetError, SnapshotTargetPlan,
};
use crate::snapshot::types::same_octets;
use crate::source::{NameView, QualifiedName};
use crate::text::{
    decimal, law_decimal_reads_back, parse_u64, render_decimal, render_signed, same_text,
    signed_decimal, unsigned_number,
};
use vstd::prelude::*;
use vstd::utf8::{encode_utf8, encode_utf8_decode_utf8};

verus! {

/// Reads the header of the group `$1` and locks it.
pub const LOCK_SNAPSHOT_GROUP_SQL: &'static str =
    "SELECT pipeline_id, topology_generation, fencing_token, state, table_count, node_count, manifest_checksum, snapshot_progress_version FROM \"pg2cb_meta\".snapshot_groups WHERE snapshot_group_id = $1 FOR UPDATE";

/// Reads the tables of the group `$1` in the order of their targets.
pub const SELECT_SNAPSHOT_GROUP_TABLES_SQL: &'static str =
    "SELECT target_schema, target_table, shadow_schema, shadow_table, source_relation_id, table_generation, schema_fingerprint FROM \"pg2cb_meta\".snapshot_group_tables WHERE snapshot_group_id = $1 ORDER BY target_schema, target_table";

/// Reads the node boundaries of the group `$1` in the order of their nodes.
pub const SELECT_SNAPSHOT_GROUP_NODES_SQL: &'static str =
    "SELECT node_id, system_identifier::text AS system_identifier, timeline, slot_name, consistent_lsn::text AS consistent_lsn FROM \"pg2cb_meta\".snapshot_group_nodes WHERE snapshot_group_id = $1 ORDER BY node_id";

/// Registers the header of a group.
pub const INSERT_SNAPSHOT_GROUP_SQL: &'static str =
    "INSERT INTO \"pg2cb_meta\".snapshot_groups (snapshot_group_id, pipeline_id, topology_generation, fencing_token, state, table_count, node_count, manifest_checksum, snapshot_progress_version) VALUES ($1, $2, $3, $4, 'loading', $5, $6, $7, 1)";

/// Registers the tables of a group.
pub const INSERT_SNAPSHOT_GROUP_TABLES_SQL: &'static str =
    "INSERT INTO \"pg2cb_meta\".snapshot_group_tables (snapshot_group_id, target_schema, target_table, shadow_schema, shadow_table, source_relation_id, table_generation, schema_fingerprint) SELECT $1, manifest.target_schema, manifest.target_table, manifest.shadow_schema, manifest.shadow_table, manifest.source_relation_id, manifest.table_generation, manifest.schema_fingerprint FROM unnest($2::text[], $3::text[], $4::text[], $5::text[], $6::bigint[], $7::bigint[], $8::text[]) AS manifest(target_schema, target_table, shadow_schema, shadow_table, source_relation_id, table_generation, schema_fingerprint)";

/// Registers the node boundaries of a group.
pub const INSERT_SNAPSHOT_GROUP_NODES_SQL: &'static str =
    "INSERT INTO \"pg2cb_meta\".snapshot_group_nodes (snapshot_group_id, node_id, system_identifier, timeline, slot_name, consistent_lsn) SELECT $1, boundary.node_id, boundary.system_identifier::numeric, boundary.timeline, boundary.slot_name, boundary.consistent_lsn::pg_lsn FROM unnest($2::integer[], $3::text[], $4::bigint[], $5::text[], $6::text[]) AS boundary(node_id, system_identifier, timeline, slot_name, consistent_lsn)";

/// Hands a group over to a newer fence.
pub const ADOPT_SNAPSHOT_GROUP_SQL: &'static str = "UPDATE pg2cb_meta.snapshot_groups
                SET fencing_token = $3, manifest_checksum = $4, updated_at = clock_timestamp()
              WHERE snapshot_group_id = $1 AND fencing_token = $2";

/// Makes a loading group active.
pub const MARK_SNAPSHOT_GROUP_ACTIVE_SQL: &'static str =
    "UPDATE \"pg2cb_meta\".snapshot_groups SET state = 'active', activated_at = clock_timestamp(), updated_at = clock_timestamp() WHERE snapshot_group_id = $1 AND state = 'loading'";

#[derive(Debug, Clone, Copy, PartialEq, Eq, Structural)]
pub enum SnapshotGroupRegistrationDisposition {
    Registered,
    AlreadyRegistered,
    AlreadyActive,
}

#[derive(Debug, Clone, Copy, PartialEq, Eq, Structural)]
pub enum SnapshotGroupStatus {
    Loading,
    Active,
}

impl SnapshotGroupStatus {
    /// The status that a stored text stands for.
    pub open spec fn named(value: Seq<char>) -> Option<SnapshotGroupStatus> {
        if value == "loading"@ {
            Some(SnapshotGroupStatus::Loading)
        } else if value == "active"@ {
            Some(SnapshotGroupStatus::Active)
        } else {
            None
        }
    }

    pub fn parse(snapshot_group_id: Uuid, value: &str) -> (r: Result<Self, SnapshotTargetError>)
        ensures
            match r {
                Ok(status) => Self::named(value@) == Some(status),
                Err(e) => Self::named(value@) is None && e
                    == SnapshotTargetError::CorruptSnapshotGroupManifest(snapshot_group_id),
            },
    {
        if same_text(value, "loading") {
            Ok(SnapshotGroupStatus::Loading)
        } else if same_text(value, "active") {
            Ok(SnapshotGroupStatus::Active)
        } else {
            Err(SnapshotTargetError::CorruptSnapshotGroupManifest(snapshot_group_id))
        }
    }
}

#[derive(Debug, Clone, PartialEq, Eq)]
pub struct StoredSnapshotGroup {
    pub state: SnapshotGroupStatus,
    pub snapshot_progress_version: u16,
    pub request: SnapshotActivationRequest,
}

/// Fenced, checksum-validated snapshot manifest used by table-reload recovery.
#[derive(Debug, Clone, PartialEq, Eq)]
pub struct SnapshotGroupManifest {
    pub status: SnapshotGroupStatus,
    pub request: SnapshotActivationRequest,
}

/// The models of a list of tables.
pub open spec fn table_views(list: Seq<SnapshotActivationTable>) -> Seq<ActivationTableView> {
    Seq::new(list.len(), |i: int| list[i]@)
}

/// The models of a list of node boundaries.
pub open spec fn boundary_views(list: Seq<NodeCheckpoint>) -> Seq<CheckpointView> {
    Seq::new(list.len(), |i: int| list[i]@)
}

/// The model of an activation request.
pub struct RequestView {
    pub fence: PipelineFence,
    pub snapshot_group_id: Uuid,
    pub tables: Seq<ActivationTableView>,
    pub initial_checkpoints: Seq<CheckpointView>,
}

impl View for SnapshotActivationRequest {
    type V = RequestView;

    open spec fn view(&self) -> RequestView {
        RequestView {
            fence: self.fence,
            snapshot_group_id: self.snapshot_group_id,
            tables: table_views(self.tables@),
            initial_checkpoints: boundary_views(self.initial_checkpoints@),
        }
    }
}

// ---------------------------------------------------------------------------------------------
// Validity of a request
// ---------------------------------------------------------------------------------------------

/// The table may stand in a manifest.
pub open spec fn table_acceptable(table: ActivationTableView) -> bool {
    &&& table.target != table.shadow
    &&& table.target.schema == table.shadow.schema
    &&& table.source_relation_id != 0
    &&& table.table_generation <= i64::MAX
    &&& table.schema_fingerprint.len() > 0
}

/// The error tells why the table may not stand in a manifest.
pub open spec fn refuses_table(e: SnapshotTargetError, table: ActivationTableView) -> bool {
    if table.target == table.shadow {
        e == SnapshotTargetError::TargetIsShadow
    } else if table.target.schema != table.shadow.schema {
        e matches SnapshotTargetError::CrossSchemaShadowUnsupported { target, shadow } && target@
            == table.target.text() && shadow@ == table.shadow.text()
    } else if table.source_relation_id == 0 {
        e == SnapshotTargetError::InvalidActivationSourceRelation
    } else if table.table_generation > i64::MAX {
        e == SnapshotTargetError::GenerationOutOfRange(table.table_generation)
    } else {
        e matches SnapshotTargetError::EmptyActivationFingerprint(t) && t@ == table.target.text()
    }
}

pub fn validate_table(table: &SnapshotActivationTable) -> (r: Result<(), SnapshotTargetError>)
    ensures
        match r {
            Ok(()) => table_acceptable(table@),
            Err(e) => !table_acceptable(table@) && refuses_table(e, table@),
        },
{
    if table.target.same(&table.shadow) {
        return Err(SnapshotTargetError::TargetIsShadow);
    }
    if !same_text(table.target.schema.as_str(), table.shadow.schema.as_str()) {
        return Err(
            SnapshotTargetError::CrossSchemaShadowUnsupported {
                target: table.target.display(),
                shadow: table.shadow.display(),
            },
        );
    }
    if table.source_relation_id == 0 {
        return Err(SnapshotTargetError::InvalidActivationSourceRelation);
    }
    match database_generation(table.table_generation) {
        Err(e) => return Err(e),
        Ok(_) => {},
    }
    if table.schema_fingerprint.as_str().is_empty() {
        return Err(SnapshotTargetError::EmptyActivationFingerprint(table.target.display()));
    }
    Ok(())
}

/// Why a node boundary may not stand in a manifest under the fence, if it may not.
pub open spec fn initial_fault(fence: PipelineFence, checkpoint: CheckpointView) -> Option<
    SnapshotTargetError,
> {
    if checkpoint.key.pipeline_id != fence.pipeline_id || checkpoint.key.topology_generation
        != fence.topology_generation {
        Some(SnapshotTargetError::Checkpoint(CheckpointError::FenceKeyMismatch))
    } else if checkpoint.applied_lsn.value == 0 {
        Some(SnapshotTargetError::ZeroInitialCheckpoint(checkpoint.key.node_id))
    } else if boundary_fault(checkpoint) is Some {
        Some(SnapshotTargetError::Checkpoint(boundary_fault(checkpoint)->0))
    } else {
        None
    }
}

pub fn validate_checkpoint(fence: PipelineFence, checkpoint: &NodeCheckpoint) -> (r: Result<
    (),
    SnapshotTargetError,
>)
    ensures
        match r {
            Ok(()) => initial_fault(fence, checkpoint@) is None,
            Err(e) => initial_fault(fence, checkpoint@) == Some(e),
        },
{
    if checkpoint.key.pipeline_id != fence.pipeline_id || checkpoint.key.topology_generation
        != fence.topology_generation {
        return Err(SnapshotTargetError::Checkpoint(CheckpointError::FenceKeyMismatch));
    }
    if checkpoint.applied_lsn.as_u64() == 0 {
        return Err(SnapshotTargetError::ZeroInitialCheckpoint(checkpoint.key.node_id));
    }
    match checkpoint_reached(None, checkpoint) {
        Err(e) => Err(SnapshotTargetError::Checkpoint(e)),
        Ok(_) => Ok(()),
    }
}

/// No relation stands twice in the manifest, neither as target nor as shadow.
pub open spec fn relations_differ(tables: Seq<ActivationTableView>) -> bool {
    forall|i: int, j: int|
        0 <= i < j < tables.len() ==> {
            let a = #[trigger] tables[i];
            let b = #[trigger] tables[j];
            a.target != b.target && a.target != b.shadow && a.shadow != b.target && a.shadow
                != b.shadow && a.source_relation_id != b.source_relation_id
        }
}

/// No node stands twice in the manifest.
pub open spec fn nodes_differ(checkpoints: Seq<CheckpointView>) -> bool {
    forall|i: int, j: int|
        0 <= i < j < checkpoints.len() ==> (#[trigger] checkpoints[i]).key.node_id != (
        #[trigger] checkpoints[j]).key.node_id
}

/// The header of the request is valid.
pub open spec fn header_fault(request: RequestView) -> Option<SnapshotTargetError> {
    if request.snapshot_group_id.value == 0 {
        Some(SnapshotTargetError::InvalidSnapshotGroupId)
    } else if request.tables.len() == 0 || request.initial_checkpoints.len() == 0 {
        Some(SnapshotTargetError::EmptyActivationGroup)
    } else if request.fence.fencing_token <= 0 {
        Some(SnapshotTargetError::Checkpoint(CheckpointError::InvalidFencingToken))
    } else if request.fence.topology_generation > i64::MAX {
        Some(SnapshotTargetError::GenerationOutOfRange(request.fence.topology_generation))
    } else {
        None
    }
}

pub open spec fn tables_acceptable(tables: Seq<ActivationTableView>) -> bool {
    forall|i: int| 0 <= i < tables.len() ==> table_acceptable(#[trigger] tables[i])
}

pub open spec fn boundaries_acceptable(
    fence: PipelineFence,
    checkpoints: Seq<CheckpointView>,
) -> bool {
    forall|i: int|
        0 <= i < checkpoints.len() ==> initial_fault(fence, #[trigger] checkpoints[i]) is None
}

/// The request may become a manifest.
pub open spec fn acceptable(request: RequestView) -> bool {
    &&& header_fault(request) is None
    &&& tables_acceptable(request.tables)
    &&& relations_differ(request.tables)
    &&& boundaries_acceptable(request.fence, request.initial_checkpoints)
    &&& nodes_differ(request.initial_checkpoints)
}

/// The error tells the first reason why the request may not become a manifest.
pub open spec fn refuses_request(e: SnapshotTargetError, request: RequestView) -> bool {
    if header_fault(request) is Some {
        header_fault(request) == Some(e)
    } else if !tables_acceptable(request.tables) {
        exists|i: int|
            {
                &&& 0 <= i < request.tables.len()
                &&& tables_acceptable(request.tables.take(i))
                &&& !table_acceptable(#[trigger] request.tables[i])
                &&& refuses_table(e, request.tables[i])
            }
    } else if !relations_differ(request.tables) {
        e == SnapshotTargetError::DuplicateActivationIdentity
    } else if !boundaries_acceptable(request.fence, request.initial_checkpoints) {
        exists|i: int|
            {
                &&& 0 <= i < request.initial_checkpoints.len()
                &&& boundaries_acceptable(request.fence, request.initial_checkpoints.take(i))
                &&& initial_fault(request.fence, #[trigger] request.initial_checkpoints[i]) == Some(
                    e,
                )
            }
    } else {
        e == SnapshotTargetError::DuplicateActivationIdentity
    }
}

/// Tables in the order of their targets.
pub open spec fn by_target() -> spec_fn(ActivationTableView, ActivationTableView) -> bool {
    |a: ActivationTableView, b: ActivationTableView| name_less(a.target, b.target)
}

/// Node boundaries in the order of their nodes.
pub open spec fn by_node() -> spec_fn(CheckpointView, CheckpointView) -> bool {
    |a: CheckpointView, b: CheckpointView| a.key.node_id < b.key.node_id
}

/// The tables and the node boundaries stand in their order.
pub open spec fn is_canonical(request: RequestView) -> bool {
    &&& sorted_by(request.tables, by_target())
    &&& sorted_by(request.initial_checkpoints, by_node())
}

/// Both lists have the same members.
pub open spec fn same_members<A>(a: Seq<A>, b: Seq<A>) -> bool {
    &&& a.len() == b.len()
    &&& forall|x: A| #[trigger] a.contains(x) <==> b.contains(x)
}

/// Both requests ask for the same, in whatever order.
pub open spec fn same_request(a: RequestView, b: RequestView) -> bool {
    &&& a.fence == b.fence
    &&& a.snapshot_group_id == b.snapshot_group_id
    &&& same_members(a.tables, b.tables)
    &&& same_members(a.initial_checkpoints, b.initial_checkpoints)
}

fn check_tables(tables: &Vec<SnapshotActivationTable>) -> (r: Result<(), SnapshotTargetError>)
    ensures
        match r {
            Ok(()) => tables_acceptable(table_views(tables@)),
            Err(e) => {
                &&& !tables_acceptable(table_views(tables@))
                &&& exists|i: int|
                    {
                        &&& 0 <= i < table_views(tables@).len()
                        &&& tables_acceptable(table_views(tables@).take(i))
                        &&& !table_acceptable(#[trigger] table_views(tables@)[i])
                        &&& refuses_table(e, table_views(tables@)[i])
                    }
            },
        },
{
    let ghost views = table_views(tables@);
    let mut i: usize = 0;
    while i < tables.len()
        invariant
            i <= tables.len(),
            views == table_views(tables@),
            forall|k: int| 0 <= k < i ==> table_acceptable(#[trigger] views[k]),
        decreases tables.len() - i,
    {
        match validate_table(&tables[i]) {
            Err(e) => {
                proof {
                    assert(views[i as int] == tables@[i as int]@);
                    assert forall|k: int| 0 <= k < i implies table_acceptable(
                        #[trigger] views.take(i as int)[k],
                    ) by {
                        assert(views.take(i as int)[k] == views[k]);
                    }
                    assert(tables_acceptable(views.take(i as int)));
                    assert(!table_acceptable(views[i as int]));
                }
                return Err(e);
            },
            Ok(()) => {},
        }
        i = i + 1;
    }
    Ok(())
}

fn have_common_relation(a: &SnapshotActivationTable, b: &SnapshotActivationTable) -> (r: bool)
    ensures
        r == (a@.target == b@.target || a@.target == b@.shadow || a@.shadow == b@.target
            || a@.shadow == b@.shadow || a@.source_relation_id == b@.source_relation_id),
{
    a.target.same(&b.target) || a.target.same(&b.shadow) || a.shadow.same(&b.target)
        || a.shadow.same(&b.shadow) || a.source_relation_id == b.source_relation_id
}

fn have_distinct_relations(tables: &Vec<SnapshotActivationTable>) -> (r: bool)
    ensures
        r == relations_differ(table_views(tables@)),
{
    let ghost views = table_views(tables@);
    let mut j: usize = 0;
    while j < tables.len()
        invariant
            j <= tables.len(),
            views == table_views(tables@),
            relations_differ(views.take(j as int)),
        decreases tables.len() - j,
    {
        let mut i: usize = 0;
        while i < j
            invariant
                i <= j < tables.len(),
                views == table_views(tables@),
                relations_differ(views.take(j as int)),
                forall|k: int|
                    0 <= k < i ==> {
                        let a = #[trigger] views[k];
                        let b = views[j as int];
                        a.target != b.target && a.target != b.shadow && a.shadow != b.target
                            && a.shadow != b.shadow && a.source_relation_id
                            != b.source_relation_id
                    },
            decreases j - i,
        {
            if have_common_relation(&tables[i], &tables[j]) {
                proof {
                    let a = views[i as int];
                    let b = views[j as int];
                    assert(a == tables@[i as int]@);
                    assert(b == tables@[j as int]@);
                    assert(!relations_differ(views));
                }
                return false;
            }
            i = i + 1;
        }
        proof {
            let more = views.take(j + 1);
            assert forall|p: int, q: int| 0 <= p < q < more.len() implies {
                let a = #[trigger] more[p];
                let b = #[trigger] more[q];
                a.target != b.target && a.target != b.shadow && a.shadow != b.target && a.shadow
                    != b.shadow && a.source_relation_id != b.source_relation_id
            } by {
                assert(more[p] == views[p]);
                assert(more[q] == views[q]);
                if q < j {
                    assert(views.take(j as int)[p] == views[p]);
                    assert(views.take(j as int)[q] == views[q]);
                }
            }
        }
        j = j + 1;
    }
    proof {
        assert(views.take(j as int) =~= views);
    }
    true
}

fn check_boundaries(fence: PipelineFence, checkpoints: &Vec<NodeCheckpoint>) -> (r: Result<
    (),
    SnapshotTargetError,
>)
    ensures
        match r {
            Ok(()) => boundaries_acceptable(fence, boundary_views(checkpoints@)),
            Err(e) => {
                &&& !boundaries_acceptable(fence, boundary_views(checkpoints@))
                &&& exists|i: int|
                    {
                        &&& 0 <= i < boundary_views(checkpoints@).len()
                        &&& boundaries_acceptable(fence, boundary_views(checkpoints@).take(i))
                        &&& initial_fault(fence, #[trigger] boundary_views(checkpoints@)[i])
                            == Some(e)
                    }
            },
        },
{
    let ghost views = boundary_views(checkpoints@);
    let mut i: usize = 0;
    while i < checkpoints.len()
        invariant
            i <= checkpoints.len(),
            views == boundary_views(checkpoints@),
            forall|k: int| 0 <= k < i ==> initial_fault(fence, #[trigger] views[k]) is None,
        decreases checkpoints.len() - i,
    {
        match validate_checkpoint(fence, &checkpoints[i]) {
            Err(e) => {
                proof {
                    assert(views[i as int] == checkpoints@[i as int]@);
                    assert forall|k: int| 0 <= k < i implies initial_fault(
                        fence,
                        #[trigger] views.take(i as int)[k],
                    ) is None by {
                        assert(views.take(i as int)[k] == views[k]);
                    }
                    assert(boundaries_acceptable(fence, views.take(i as int)));
                    assert(initial_fault(fence, views[i as int]) == Some(e));
                }
                return Err(e);
            },
            Ok(()) => {},
        }
        i = i + 1;
    }
    Ok(())
}

fn have_distinct_nodes(checkpoints: &Vec<NodeCheckpoint>) -> (r: bool)
    ensures
        r == nodes_differ(boundary_views(checkpoints@)),
{
    let ghost views = boundary_views(checkpoints@);
    let mut j: usize = 0;
    while j < checkpoints.len()
        invariant
            j <= checkpoints.len(),
            views == boundary_views(checkpoints@),
            nodes_differ(views.take(j as int)),
        decreases checkpoints.len() - j,
    {
        let mut i: usize = 0;
        while i < j
            invariant
                i <= j < checkpoints.len(),
                views == boundary_views(checkpoints@),
                forall|k: int|
                    0 <= k < i ==> (#[trigger] views[k]).key.node_id != views[j as int].key.node_id,
            decreases j - i,
        {
            if checkpoints[i].key.node_id == checkpoints[j].key.node_id {
                proof {
                    assert(views[i as int].key.node_id == views[j as int].key.node_id);
                }
                return false;
            }
            i = i + 1;
        }
        proof {
            let more = views.take(j + 1);
            assert forall|p: int, q: int| 0 <= p < q < more.len() implies (
            #[trigger] more[p]).key.node_id != (#[trigger] more[q]).key.node_id by {
                assert(more[p] == views[p]);
                assert(more[q] == views[q]);
                if q < j {
                    assert(views.take(j as int)[p] == views[p]);
                    assert(views.take(j as int)[q] == views[q]);
                }
            }
        }
        j = j + 1;
    }
    proof {
        assert(views.take(j as int) =~= views);
    }
    true
}

proof fn lemma_rearranged<A>(list: Seq<A>, order: Seq<usize>, result: Seq<A>)
    requires
        is_arrangement(order, list.len() as int),
        result.len() == order.len(),
        forall|i: int| 0 <= i < order.len() ==> #[trigger] result[i] == list[order[i] as int],
    ensures
        same_members(result, list),
{
    assert forall|x: A| #[trigger] result.contains(x) <==> list.contains(x) by {
        if result.contains(x) {
            let i = choose|i: int| 0 <= i < result.len() && result[i] == x;
            assert(order[i] < list.len());
            assert(list[order[i] as int] == x);
        }
        if list.contains(x) {
            let k = choose|k: int| 0 <= k < list.len() && list[k] == x;
            lemma_arrangement_covers(order, list.len() as int, k);
            let i = choose|i: int| 0 <= i < order.len() && #[trigger] order[i] == k;
            assert(result[i] == x);
        }
    }
}

fn tables_in_order(tables: &Vec<SnapshotActivationTable>) -> (r: Vec<SnapshotActivationTable>)
    requires
        relations_differ(table_views(tables@)),
    ensures
        same_members(table_views(r@), table_views(tables@)),
        sorted_by(table_views(r@), by_target()),
{
    let ghost views = table_views(tables@);
    let mut names: Vec<&QualifiedName> = Vec::new();
    let mut i: usize = 0;
    while i < tables.len()
        invariant
            i <= tables.len(),
            names@.len() == i,
            views == table_views(tables@),
            forall|k: int| 0 <= k < i ==> (#[trigger] names@[k])@ == views[k].target,
        decreases tables.len() - i,
    {
        names.push(&tables[i].target);
        i = i + 1;
    }
    let order = order_by_name(&names);
    let mut sorted: Vec<SnapshotActivationTable> = Vec::new();
    let mut n: usize = 0;
    while n < order.len()
        invariant
            n <= order.len(),
            is_arrangement(order@, tables@.len() as int),
            sorted@.len() == n,
            forall|k: int| 0 <= k < n ==> #[trigger] sorted@[k] == tables@[order@[k] as int],
        decreases order.len() - n,
    {
        proof {
            assert(order@[n as int] < tables@.len());
        }
        sorted.push(tables[order[n]].clone());
        n = n + 1;
    }
    proof {
        let result = table_views(sorted@);
        let all = names_of(names@);
        assert forall|k: int| 0 <= k < order@.len() implies #[trigger] result[k]
            == views[order@[k] as int] by {
            assert(sorted@[k] == tables@[order@[k] as int]);
        }
        lemma_rearranged(views, order@, result);
        let placed = arranged(all, order@);
        assert forall|p: int, q: int| 0 <= p < q < result.len() implies by_target()(
            #[trigger] result[p],
            #[trigger] result[q],
        ) by {
            let a = order@[p] as int;
            let b = order@[q] as int;
            assert(a != b);
            assert(placed[p] == all[a]);
            assert(placed[q] == all[b]);
            assert(names@[a]@ == views[a].target);
            assert(names@[b]@ == views[b].target);
            assert(!name_less(placed[q], placed[p]));
            if a < b {
                assert(views[a].target != views[b].target);
            } else {
                assert(views[b].target != views[a].target);
            }
            lemma_name_total(views[a].target, views[b].target);
        }
    }
    sorted
}

fn boundaries_in_order(checkpoints: &Vec<NodeCheckpoint>) -> (r: Vec<NodeCheckpoint>)
    requires
        nodes_differ(boundary_views(checkpoints@)),
    ensures
        same_members(boundary_views(r@), boundary_views(checkpoints@)),
        sorted_by(boundary_views(r@), by_node()),
{
    let ghost views = boundary_views(checkpoints@);
    let mut nodes: Vec<i64> = Vec::new();
    let mut i: usize = 0;
    while i < checkpoints.len()
        invariant
            i <= checkpoints.len(),
            nodes@.len() == i,
            views == boundary_views(checkpoints@),
            forall|k: int| 0 <= k < i ==> #[trigger] nodes@[k] == views[k].key.node_id,
        decreases checkpoints.len() - i,
    {
        nodes.push(checkpoints[i].key.node_id as i64);
        i = i + 1;
    }
    let order = order_by_number(&nodes);
    let mut sorted: Vec<NodeCheckpoint> = Vec::new();
    let mut n: usize = 0;
    while n < order.len()
        invariant
            n <= order.len(),
            is_arrangement(order@, checkpoints@.len() as int),
            sorted@.len() == n,
            forall|k: int| 0 <= k < n ==> #[trigger] sorted@[k] == checkpoints@[order@[k] as int],
        decreases order.len() - n,
    {
        proof {
            assert(order@[n as int] < checkpoints@.len());
        }
        sorted.push(checkpoints[order[n]].clone());
        n = n + 1;
    }
    proof {
        let result = boundary_views(sorted@);
        assert forall|k: int| 0 <= k < order@.len() implies #[trigger] result[k]
            == views[order@[k] as int] by {
            assert(sorted@[k] == checkpoints@[order@[k] as int]);
        }
        lemma_rearranged(views, order@, result);
        let placed = numbers_at(nodes@, order@);
        assert forall|p: int, q: int| 0 <= p < q < result.len() implies by_node()(
            #[trigger] result[p],
            #[trigger] result[q],
        ) by {
            let a = order@[p] as int;
            let b = order@[q] as int;
            assert(a != b);
            assert(placed[p] <= placed[q]);
            assert(nodes@[a] == views[a].key.node_id);
            assert(nodes@[b] == views[b].key.node_id);
            if a < b {
                assert(views[a].key.node_id != views[b].key.node_id);
            } else {
                assert(views[b].key.node_id != views[a].key.node_id);
            }
        }
    }
    sorted
}

/// Checks a request and brings its tables and node boundaries into their order.
pub fn canonical_request(request: &SnapshotActivationRequest) -> (r: Result<
    SnapshotActivationRequest,
    SnapshotTargetError,
>)
    ensures
        match r {
            Ok(canonical) => {
                &&& acceptable(request@)
                &&& same_request(canonical@, request@)
                &&& is_canonical(canonical@)
            },
            Err(e) => !acceptable(request@) && refuses_request(e, request@),
        },
{
    if request.snapshot_group_id.is_nil() {
        return Err(SnapshotTargetError::InvalidSnapshotGroupId);
    }
    if request.tables.len() == 0 || request.initial_checkpoints.len() == 0 {
        return Err(SnapshotTargetError::EmptyActivationGroup);
    }
    if request.fence.fencing_token <= 0 {
        return Err(SnapshotTargetError::Checkpoint(CheckpointError::InvalidFencingToken));
    }
    match database_generation(request.fence.topology_generation) {
        Err(e) => return Err(e),
        Ok(_) => {},
    }
    match check_tables(&request.tables) {
        Err(e) => return Err(e),
        Ok(()) => {},
    }
    if !have_distinct_relations(&request.tables) {
        return Err(SnapshotTargetError::DuplicateActivationIdentity);
    }
    match check_boundaries(request.fence, &request.initial_checkpoints) {
        Err(e) => return Err(e),
        Ok(()) => {},
    }
    if !have_distinct_nodes(&request.initial_checkpoints) {
        return Err(SnapshotTargetError::DuplicateActivationIdentity);
    }
    Ok(
        SnapshotActivationRequest {
            fence: request.fence,
            snapshot_group_id: request.snapshot_group_id,
            tables: tables_in_order(&request.tables),
            initial_checkpoints: boundaries_in_order(&request.initial_checkpoints),
        },
    )
}

proof fn lemma_orders_one_way()
    ensures
        one_way(by_target()),
        one_way(by_node()),
{
    assert forall|x: ActivationTableView, y: ActivationTableView| #[trigger]
        by_target()(x, y) implies !by_target()(y, x) by {
        lemma_name_asymmetric(x.target, y.target);
    }
}

/// The canonical form does not depend on the order in which a request names its tables and
/// nodes: two requests that ask for the same have one canonical form.
pub proof fn law_canonical_form_is_unique(a: RequestView, b: RequestView)
    requires
        same_request(a, b),
        is_canonical(a),
        is_canonical(b),
    ensures
        a == b,
{
    lemma_orders_one_way();
    law_sorted_order_is_unique(a.tables, b.tables, by_target());
    law_sorted_order_is_unique(a.initial_checkpoints, b.initial_checkpoints, by_node());
}

/// A manifest stays acceptable in its canonical form.
pub proof fn law_canonical_form_is_acceptable(request: RequestView, canonical: RequestView)
    requires
        acceptable(request),
        same_request(canonical, request),
        is_canonical(canonical),
    ensures
        acceptable(canonical),
{
    lemma_orders_one_way();
    let tables = canonical.tables;
    let nodes = canonical.initial_checkpoints;
    assert forall|i: int| 0 <= i < tables.len() implies table_acceptable(#[trigger] tables[i]) by {
        assert(tables.contains(tables[i]));
        let p = choose|p: int|
            0 <= p < request.tables.len() && request.tables[p] == tables[i];
        assert(table_acceptable(request.tables[p]));
    }
    assert forall|i: int, j: int| 0 <= i < j < tables.len() implies {
        let a = #[trigger] tables[i];
        let b = #[trigger] tables[j];
        a.target != b.target && a.target != b.shadow && a.shadow != b.target && a.shadow != b.shadow
            && a.source_relation_id != b.source_relation_id
    } by {
        assert(by_target()(tables[i], tables[j]));
        assert(tables[i] != tables[j]);
        assert(tables.contains(tables[i]));
        assert(tables.contains(tables[j]));
        let p = choose|p: int|
            0 <= p < request.tables.len() && request.tables[p] == tables[i];
        let q = choose|q: int|
            0 <= q < request.tables.len() && request.tables[q] == tables[j];
        if p < q {
            assert(request.tables[p].target != request.tables[q].target);
        } else {
            assert(request.tables[q].target != request.tables[p].target);
        }
    }
    assert forall|i: int| 0 <= i < nodes.len() implies initial_fault(
        canonical.fence,
        #[trigger] nodes[i],
    ) is None by {
        assert(nodes.contains(nodes[i]));
        let p = choose|p: int|
            0 <= p < request.initial_checkpoints.len() && request.initial_checkpoints[p]
                == nodes[i];
        assert(initial_fault(request.fence, request.initial_checkpoints[p]) is None);
    }
    assert forall|i: int, j: int| 0 <= i < j < nodes.len() implies (#[trigger] nodes[i]).key.node_id
        != (#[trigger] nodes[j]).key.node_id by {
        assert(by_node()(nodes[i], nodes[j]));
    }
}

// ---------------------------------------------------------------------------------------------
// Differences between requests
// ---------------------------------------------------------------------------------------------

/// How a difference in one field is told.
pub open spec fn difference_text(
    field: Seq<char>,
    stored: Seq<char>,
    caller: Seq<char>,
) -> Seq<char> {
    field + ": stored="@ + stored + ", caller="@ + caller
}

fn tell_difference(field: &str, stored: &str, caller: &str) -> (r: String)
    ensures
        r@ == difference_text(field@, stored@, caller@),
{
    let mut out = field.to_string();
    out.append(": stored=");
    out.append(stored);
    out.append(", caller=");
    out.append(caller);
    out
}

/// The name of a field of one member of a list.
pub open spec fn member_field(list: Seq<char>, index: int, field: Seq<char>) -> Seq<char> {
    list + "["@ + decimal(index as nat) + "]."@ + field
}

fn name_member_field(list: &str, index: usize, field: &str) -> (r: String)
    ensures
        r@ == member_field(list@, index as int, field@),
{
    let mut out = list.to_string();
    out.append("[");
    out.append(render_decimal(index as u64).as_str());
    out.append("].");
    out.append(field);
    out
}

/// The first field in which two tables differ.
pub open spec fn one_table_difference(
    index: int,
    stored: ActivationTableView,
    caller: ActivationTableView,
) -> Option<Seq<char>> {
    if stored.target != caller.target {
        Some(
            difference_text(
                member_field("tables"@, index, "target"@),
                stored.target.text(),
                caller.target.text(),
            ),
        )
    } else if stored.shadow != caller.shadow {
        Some(
            difference_text(
                member_field("tables"@, index, "shadow"@),
                stored.shadow.text(),
                caller.shadow.text(),
            ),
        )
    } else if stored.source_relation_id != caller.source_relation_id {
        Some(
            difference_text(
                member_field("tables"@, index, "source_relation_id"@),
                decimal(stored.source_relation_id as nat),
                decimal(caller.source_relation_id as nat),
            ),
        )
    } else if stored.table_generation != caller.table_generation {
        Some(
            difference_text(
                member_field("tables"@, index, "table_generation"@),
                decimal(stored.table_generation as nat),
                decimal(caller.table_generation as nat),
            ),
        )
    } else if stored.schema_fingerprint != caller.schema_fingerprint {
        Some(
            difference_text(
                member_field("tables"@, index, "schema_fingerprint"@),
                stored.schema_fingerprint,
                caller.schema_fingerprint,
            ),
        )
    } else {
        None
    }
}

/// The first difference among the tables from the given one on.
pub open spec fn table_difference_from(
    stored: Seq<ActivationTableView>,
    caller: Seq<ActivationTableView>,
    index: int,
) -> Option<Seq<char>>
    decreases stored.len() - index,
{
    if index >= stored.len() {
        None
    } else if one_table_difference(index, stored[index], caller[index]) is Some {
        one_table_difference(index, stored[index], caller[index])
    } else {
        table_difference_from(stored, caller, index + 1)
    }
}

/// The first difference between two lists of tables.
pub open spec fn table_difference(
    stored: Seq<ActivationTableView>,
    caller: Seq<ActivationTableView>,
) -> Option<Seq<char>> {
    if stored.len() != caller.len() {
        Some(difference_text("tables.len"@, decimal(stored.len()), decimal(caller.len())))
    } else {
        table_difference_from(stored, caller, 0)
    }
}

fn tell_table_difference(
    index: usize,
    stored: &SnapshotActivationTable,
    caller: &SnapshotActivationTable,
) -> (r: Option<String>)
    ensures
        match r {
            Some(text) => one_table_difference(index as int, stored@, caller@) == Some(text@),
            None => one_table_difference(index as int, stored@, caller@) is None,
        },
{
    if !stored.target.same(&caller.target) {
        return Some(
            tell_difference(
                name_member_field("tables", index, "target").as_str(),
                stored.target.display().as_str(),
                caller.target.display().as_str(),
            ),
        );
    }
    if !stored.shadow.same(&caller.shadow) {
        return Some(
            tell_difference(
                name_member_field("tables", index, "shadow").as_str(),
                stored.shadow.display().as_str(),
                caller.shadow.display().as_str(),
            ),
        );
    }
    if stored.source_relation_id != caller.source_relation_id {
        return Some(
            tell_difference(
                name_member_field("tables", index, "source_relation_id").as_str(),
                render_decimal(stored.source_relation_id as u64).as_str(),
                render_decimal(caller.source_relation_id as u64).as_str(),
            ),
        );
    }
    if stored.table_generation != caller.table_generation {
        return Some(
            tell_difference(
                name_member_field("tables", index, "table_generation").as_str(),
                render_decimal(stored.table_generation).as_str(),
                render_decimal(caller.table_generation).as_str(),
            ),
        );
    }
    if !same_text(stored.schema_fingerprint.as_str(), caller.schema_fingerprint.as_str()) {
        return Some(
            tell_difference(
                name_member_field("tables", index, "schema_fingerprint").as_str(),
                stored.schema_fingerprint.as_str(),
                caller.schema_fingerprint.as_str(),
            ),
        );
    }
    None
}

pub fn first_table_difference(
    stored: &Vec<SnapshotActivationTable>,
    caller: &Vec<SnapshotActivationTable>,
) -> (r: Option<String>)
    ensures
        match r {
            Some(text) => table_difference(table_views(stored@), table_views(caller@)) == Some(
                text@,
            ),
            None => table_difference(table_views(stored@), table_views(caller@)) is None,
        },
{
    if stored.len() != caller.len() {
        return Some(
            tell_difference(
                "tables.len",
                render_decimal(stored.len() as u64).as_str(),
                render_decimal(caller.len() as u64).as_str(),
            ),
        );
    }
    let ghost a = table_views(stored@);
    let ghost b = table_views(caller@);
    let mut i: usize = 0;
    while i < stored.len()
        invariant
            i <= stored.len(),
            stored.len() == caller.len(),
            a == table_views(stored@),
            b == table_views(caller@),
            table_difference(a, b) == table_difference_from(a, b, i as int),
        decreases stored.len() - i,
    {
        match tell_table_difference(i, &stored[i], &caller[i]) {
            Some(text) => return Some(text),
            None => {},
        }
        i = i + 1;
    }
    None
}

/// A checkpoint key as shown to operators.
pub open spec fn key_text(key: CheckpointKey) -> Seq<char> {
    "CheckpointKey { pipeline_id: PipelineId("@ + key.pipeline_id.uuid.text()
        + "), topology_generation: "@ + decimal(key.topology_generation as nat) + ", node_id: "@
        + signed_decimal(key.node_id as int) + " }"@
}

fn tell_key(key: CheckpointKey) -> (r: String)
    ensures
        r@ == key_text(key),
{
    let mut out = "CheckpointKey { pipeline_id: PipelineId(".to_string();
    out.append(key.pipeline_id.uuid.display().as_str());
    out.append("), topology_generation: ");
    out.append(render_decimal(key.topology_generation).as_str());
    out.append(", node_id: ");
    out.append(render_signed(key.node_id as i64).as_str());
    out.append(" }");
    out
}

/// The first field in which two node boundaries differ.
pub open spec fn one_boundary_difference(
    index: int,
    stored: CheckpointView,
    caller: CheckpointView,
) -> Option<Seq<char>> {
    if stored.key != caller.key {
        Some(
            difference_text(
                member_field("initial_checkpoints"@, index, "key"@),
                key_text(stored.key),
                key_text(caller.key),
            ),
        )
    } else if stored.system_identifier != caller.system_identifier {
        Some(
            difference_text(
                member_field("initial_checkpoints"@, index, "system_identifier"@),
                decimal(stored.system_identifier as nat),
                decimal(caller.system_identifier as nat),
            ),
        )
    } else if stored.timeline != caller.timeline {
        Some(
            difference_text(
                member_field("initial_checkpoints"@, index, "timeline"@),
                decimal(stored.timeline as nat),
                decimal(caller.timeline as nat),
            ),
        )
    } else if stored.slot_name != caller.slot_name {
        Some(
            difference_text(
                member_field("initial_checkpoints"@, index, "slot_name"@),
                stored.slot_name,
                caller.slot_name,
            ),
        )
    } else if stored.applied_lsn != caller.applied_lsn {
        Some(
            difference_text(
                member_field("initial_checkpoints"@, index, "applied_lsn"@),
                stored.applied_lsn.text(),
                caller.applied_lsn.text(),
            ),
        )
    } else {
        None
    }
}

/// The first difference among the node boundaries from the given one on.
pub open spec fn boundary_difference_from(
    stored: Seq<CheckpointView>,
    caller: Seq<CheckpointView>,
    index: int,
) -> Option<Seq<char>>
    decreases stored.len() - index,
{
    if index >= stored.len() {
        None
    } else if one_boundary_difference(index, stored[index], caller[index]) is Some {
        one_boundary_difference(index, stored[index], caller[index])
    } else {
        boundary_difference_from(stored, caller, index + 1)
    }
}

/// The first difference between two lists of node boundaries.
pub open spec fn boundary_difference(
    stored: Seq<CheckpointView>,
    caller: Seq<CheckpointView>,
) -> Option<Seq<char>> {
    if stored.len() != caller.len() {
        Some(
            difference_text(
                "initial_checkpoints.len"@,
                decimal(stored.len()),
                decimal(caller.len()),
            ),
        )
    } else {
        boundary_difference_from(stored, caller, 0)
    }
}

fn tell_boundary_difference(index: usize, stored: &NodeCheckpoint, caller: &NodeCheckpoint) -> (r:
    Option<String>)
    ensures
        match r {
            Some(text) => one_boundary_difference(index as int, stored@, caller@) == Some(text@),
            None => one_boundary_difference(index as int, stored@, caller@) is None,
        },
{
    if stored.key != caller.key {
        return Some(
            tell_difference(
                name_member_field("initial_checkpoints", index, "key").as_str(),
                tell_key(stored.key).as_str(),
                tell_key(caller.key).as_str(),
            ),
        );
    }
    if stored.system_identifier != caller.system_identifier {
        return Some(
            tell_difference(
                name_member_field("initial_checkpoints", index, "system_identifier").as_str(),
                render_decimal(stored.system_identifier).as_str(),
                render_decimal(caller.system_identifier).as_str(),
            ),
        );
    }
    if stored.timeline != caller.timeline {
        return Some(
            tell_difference(
                name_member_field("initial_checkpoints", index, "timeline").as_str(),
                render_decimal(stored.timeline as u64).as_str(),
                render_decimal(caller.timeline as u64).as_str(),
            ),
        );
    }
    if !same_text(stored.slot_name.as_str(), caller.slot_name.as_str()) {
        return Some(
            tell_difference(
                name_member_field("initial_checkpoints", index, "slot_name").as_str(),
                stored.slot_name.as_str(),
                caller.slot_name.as_str(),
            ),
        );
    }
    if stored.applied_lsn != caller.applied_lsn {
        return Some(
            tell_difference(
                name_member_field("initial_checkpoints", index, "applied_lsn").as_str(),
                stored.applied_lsn.display().as_str(),
                caller.applied_lsn.display().as_str(),
            ),
        );
    }
    None
}

pub fn first_checkpoint_difference(stored: &Vec<NodeCheckpoint>, caller: &Vec<NodeCheckpoint>) -> (r:
    Option<String>)
    ensures
        match r {
            Some(text) => boundary_difference(boundary_views(stored@), boundary_views(caller@))
                == Some(text@),
            None => boundary_difference(boundary_views(stored@), boundary_views(caller@)) is None,
        },
{
    if stored.len() != caller.len() {
        return Some(
            tell_difference(
                "initial_checkpoints.len",
                render_decimal(stored.len() as u64).as_str(),
                render_decimal(caller.len() as u64).as_str(),
            ),
        );
    }
    let ghost a = boundary_views(stored@);
    let ghost b = boundary_views(caller@);
    let mut i: usize = 0;
    while i < stored.len()
        invariant
            i <= stored.len(),
            stored.len() == caller.len(),
            a == boundary_views(stored@),
            b == boundary_views(caller@),
            boundary_difference(a, b) == boundary_difference_from(a, b, i as int),
        decreases stored.len() - i,
    {
        match tell_boundary_difference(i, &stored[i], &caller[i]) {
            Some(text) => return Some(text),
            None => {},
        }
        i = i + 1;
    }
    None
}

/// The first difference between the owners of two requests.
pub open spec fn owner_difference(
    stored_group: Uuid,
    stored: PipelineFence,
    caller_group: Uuid,
    caller: PipelineFence,
) -> Option<Seq<char>> {
    if stored_group != caller_group {
        Some(difference_text("snapshot_group_id"@, stored_group.text(), caller_group.text()))
    } else if stored.pipeline_id != caller.pipeline_id {
        Some(
            difference_text(
                "fence.pipeline_id"@,
                stored.pipeline_id.uuid.text(),
                caller.pipeline_id.uuid.text(),
            ),
        )
    } else if stored.topology_generation != caller.topology_generation {
        Some(
            difference_text(
                "fence.topology_generation"@,
                decimal(stored.topology_generation as nat),
                decimal(caller.topology_generation as nat),
            ),
        )
    } else if stored.fencing_token != caller.fencing_token {
        Some(
            difference_text(
                "fence.fencing_token"@,
                signed_decimal(stored.fencing_token as int),
                signed_decimal(caller.fencing_token as int),
            ),
        )
    } else {
        None
    }
}

fn tell_owner_difference(
    stored_group: Uuid,
    stored: PipelineFence,
    caller_group: Uuid,
    caller: PipelineFence,
) -> (r: Option<String>)
    ensures
        match r {
            Some(text) => owner_difference(stored_group, stored, caller_group, caller) == Some(
                text@,
            ),
            None => owner_difference(stored_group, stored, caller_group, caller) is None,
        },
{
    if stored_group != caller_group {
        return Some(
            tell_difference(
                "snapshot_group_id",
                stored_group.display().as_str(),
                caller_group.display().as_str(),
            ),
        );
    }
    if stored.pipeline_id != caller.pipeline_id {
        return Some(
            tell_difference(
                "fence.pipeline_id",
                stored.pipeline_id.uuid.display().as_str(),
                caller.pipeline_id.uuid.display().as_str(),
            ),
        );
    }
    if stored.topology_generation != caller.topology_generation {
        return Some(
            tell_difference(
                "fence.topology_generation",
                render_decimal(stored.topology_generation).as_str(),
                render_decimal(caller.topology_generation).as_str(),
            ),
        );
    }
    if stored.fencing_token != caller.fencing_token {
        return Some(
            tell_difference(
                "fence.fencing_token",
                render_signed(stored.fencing_token).as_str(),
                render_signed(caller.fencing_token).as_str(),
            ),
        );
    }
    None
}

/// The first difference between two requests.
pub open spec fn request_difference(stored: RequestView, caller: RequestView) -> Option<Seq<char>> {
    let owner = owner_difference(
        stored.snapshot_group_id,
        stored.fence,
        caller.snapshot_group_id,
        caller.fence,
    );
    if owner is Some {
        owner
    } else if table_difference(stored.tables, caller.tables) is Some {
        table_difference(stored.tables, caller.tables)
    } else {
        boundary_difference(stored.initial_checkpoints, caller.initial_checkpoints)
    }
}

pub fn first_request_difference(
    stored: &SnapshotActivationRequest,
    caller: &SnapshotActivationRequest,
) -> (r: Option<String>)
    ensures
        match r {
            Some(text) => request_difference(stored@, caller@) == Some(text@),
            None => request_difference(stored@, caller@) is None,
        },
{
    match tell_owner_difference(
        stored.snapshot_group_id,
        stored.fence,
        caller.snapshot_group_id,
        caller.fence,
    ) {
        Some(text) => return Some(text),
        None => {},
    }
    match first_table_difference(&stored.tables, &caller.tables) {
        Some(text) => Some(text),
        None => first_checkpoint_difference(
            &stored.initial_checkpoints,
            &caller.initial_checkpoints,
        ),
    }
}

proof fn lemma_table_difference_found(
    stored: Seq<ActivationTableView>,
    caller: Seq<ActivationTableView>,
    index: int,
)
    requires
        stored.len() == caller.len(),
        0 <= index <= stored.len(),
        table_difference_from(stored, caller, index) is None,
    ensures
        forall|i: int| index <= i < stored.len() ==> #[trigger] stored[i] == caller[i],
    decreases stored.len() - index,
{
    if index < stored.len() {
        lemma_table_difference_found(stored, caller, index + 1);
    }
}

proof fn lemma_boundary_difference_found(
    stored: Seq<CheckpointView>,
    caller: Seq<CheckpointView>,
    index: int,
)
    requires
        stored.len() == caller.len(),
        0 <= index <= stored.len(),
        boundary_difference_from(stored, caller, index) is None,
    ensures
        forall|i: int| index <= i < stored.len() ==> #[trigger] stored[i] == caller[i],
    decreases stored.len() - index,
{
    if index < stored.len() {
        lemma_boundary_difference_found(stored, caller, index + 1);
    }
}

proof fn lemma_no_table_difference(tables: Seq<ActivationTableView>, index: int)
    requires
        0 <= index <= tables.len(),
    ensures
        table_difference_from(tables, tables, index) is None,
    decreases tables.len() - index,
{
    if index < tables.len() {
        lemma_no_table_difference(tables, index + 1);
    }
}

proof fn lemma_no_boundary_difference(checkpoints: Seq<CheckpointView>, index: int)
    requires
        0 <= index <= checkpoints.len(),
    ensures
        boundary_difference_from(checkpoints, checkpoints, index) is None,
    decreases checkpoints.len() - index,
{
    if index < checkpoints.len() {
        lemma_no_boundary_difference(checkpoints, index + 1);
    }
}

/// A difference is told exactly where two requests differ: no field is overlooked.
pub proof fn law_every_difference_is_told(stored: RequestView, caller: RequestView)
    ensures
        request_difference(stored, caller) is None <==> stored == caller,
{
    if stored == caller {
        lemma_no_table_difference(stored.tables, 0);
        lemma_no_boundary_difference(stored.initial_checkpoints, 0);
    }
    if request_difference(stored, caller) is None {
        lemma_table_difference_found(stored.tables, caller.tables, 0);
        lemma_boundary_difference_found(
            stored.initial_checkpoints,
            caller.initial_checkpoints,
            0,
        );
        assert(stored.tables =~= caller.tables);
        assert(stored.initial_checkpoints =~= caller.initial_checkpoints);
    }
}

/// The error tells how the caller's request differs from the stored one.
pub open spec fn refuses_manifest(
    e: SnapshotTargetError,
    stored: RequestView,
    caller: RequestView,
) -> bool {
    e matches SnapshotTargetError::SnapshotGroupManifestMismatch { group, difference } && group
        == caller.snapshot_group_id && request_difference(stored, caller) == Some(difference@)
}

/// Accepts only a request that is the stored one in every field.
fn require_same_request(stored: &SnapshotActivationRequest, caller: &SnapshotActivationRequest) -> (r:
    Result<(), SnapshotTargetError>)
    ensures
        match r {
            Ok(()) => stored@ == caller@,
            Err(e) => stored@ != caller@ && refuses_manifest(e, stored@, caller@),
        },
{
    proof {
        law_every_difference_is_told(stored@, caller@);
    }
    match first_request_difference(stored, caller) {
        None => Ok(()),
        Some(difference) => Err(
            SnapshotTargetError::SnapshotGroupManifestMismatch {
                group: caller.snapshot_group_id,
                difference,
            },
        ),
    }
}

/// The error tells why a request is not the stored one.
pub open spec fn refuses_exact_request(
    e: SnapshotTargetError,
    stored: RequestView,
    request: RequestView,
) -> bool {
    if !acceptable(request) {
        refuses_request(e, request)
    } else {
        exists|canonical: RequestView|
            {
                &&& same_request(canonical, request)
                &&& is_canonical(canonical)
                &&& stored != canonical
                &&& #[trigger] refuses_manifest(e, stored, canonical)
            }
    }
}

/// Accepts a request whose canonical form is the stored one, and gives that form.
pub fn validate_exact_request(stored: &StoredSnapshotGroup, request: &SnapshotActivationRequest) -> (r:
    Result<SnapshotActivationRequest, SnapshotTargetError>)
    ensures
        match r {
            Ok(canonical) => {
                &&& acceptable(request@)
                &&& same_request(canonical@, request@)
                &&& is_canonical(canonical@)
                &&& canonical@ == stored.request@
            },
            Err(e) => refuses_exact_request(e, stored.request@, request@),
        },
{
    let canonical = match canonical_request(request) {
        Err(e) => return Err(e),
        Ok(canonical) => canonical,
    };
    match require_same_request(&stored.request, &canonical) {
        Err(e) => {
            proof {
                assert(refuses_manifest(e, stored.request@, canonical@));
            }
            Err(e)
        },
        Ok(()) => Ok(canonical),
    }
}

/// Decides the outcome of a registration, given what is stored under the same identifier. The
/// group has to be inserted where it is new.
pub fn judge_registration(
    stored: Option<&StoredSnapshotGroup>,
    canonical: &SnapshotActivationRequest,
) -> (r: Result<SnapshotGroupRegistrationDisposition, SnapshotTargetError>)
    ensures
        match stored {
            None => r == Ok::<SnapshotGroupRegistrationDisposition, SnapshotTargetError>(
                SnapshotGroupRegistrationDisposition::Registered,
            ),
            Some(stored) => match r {
                Ok(disposition) => {
                    &&& stored.request@ == canonical@
                    &&& disposition == match stored.state {
                        SnapshotGroupStatus::Loading =>
                            SnapshotGroupRegistrationDisposition::AlreadyRegistered,
                        SnapshotGroupStatus::Active =>
                            SnapshotGroupRegistrationDisposition::AlreadyActive,
                    }
                },
                Err(e) => stored.request@ != canonical@ && refuses_manifest(
                    e,
                    stored.request@,
                    canonical@,
                ),
            },
        },
{
    match stored {
        None => Ok(SnapshotGroupRegistrationDisposition::Registered),
        Some(stored) => {
            match require_same_request(&stored.request, canonical) {
                Err(e) => return Err(e),
                Ok(()) => {},
            }
            match stored.state {
                SnapshotGroupStatus::Loading => Ok(
                    SnapshotGroupRegistrationDisposition::AlreadyRegistered,
                ),
                SnapshotGroupStatus::Active => Ok(
                    SnapshotGroupRegistrationDisposition::AlreadyActive,
                ),
            }
        },
    }
}

/// A group that must exist.
pub fn require_group(snapshot_group_id: Uuid, stored: Option<StoredSnapshotGroup>) -> (r: Result<
    StoredSnapshotGroup,
    SnapshotTargetError,
>)
    ensures
        r == match stored {
            Some(group) => Ok::<StoredSnapshotGroup, SnapshotTargetError>(group),
            None => Err(SnapshotTargetError::SnapshotGroupNotRegistered(snapshot_group_id)),
        },
{
    match stored {
        Some(group) => Ok(group),
        None => Err(SnapshotTargetError::SnapshotGroupNotRegistered(snapshot_group_id)),
    }
}

// ---------------------------------------------------------------------------------------------
// Fences
// ---------------------------------------------------------------------------------------------

/// A worker with the current fence may take over what the other fence owns.
pub open spec fn fence_admits(current: PipelineFence, owner: PipelineFence) -> bool {
    &&& owner.pipeline_id == current.pipeline_id
    &&& owner.topology_generation == current.topology_generation
    &&& owner.fencing_token <= current.fencing_token
}

/// The error that tells both fences.
pub open spec fn fence_mismatch(group: Uuid, current: PipelineFence, owner: PipelineFence) ->
    SnapshotTargetError {
    SnapshotTargetError::SnapshotGroupFenceMismatch {
        group,
        expected_generation: current.topology_generation,
        expected_token: current.fencing_token,
        actual_generation: owner.topology_generation,
        actual_token: owner.fencing_token,
    }
}

/// Checks that a worker may inspect or adopt a group.
pub fn check_group_fence(group: Uuid, owner: PipelineFence, current: PipelineFence) -> (r: Result<
    (),
    SnapshotTargetError,
>)
    ensures
        match r {
            Ok(()) => fence_admits(current, owner),
            Err(e) => !fence_admits(current, owner) && e == fence_mismatch(group, current, owner),
        },
{
    if owner.pipeline_id != current.pipeline_id || owner.topology_generation
        != current.topology_generation || owner.fencing_token > current.fencing_token {
        Err(
            SnapshotTargetError::SnapshotGroupFenceMismatch {
                group,
                expected_generation: current.topology_generation,
                expected_token: current.fencing_token,
                actual_generation: owner.topology_generation,
                actual_token: owner.fencing_token,
            },
        )
    } else {
        Ok(())
    }
}

/// Gives out a stored manifest to a worker that may inspect it.
pub fn inspect_group(stored: StoredSnapshotGroup, current: PipelineFence) -> (r: Result<
    SnapshotGroupManifest,
    SnapshotTargetError,
>)
    ensures
        match r {
            Ok(manifest) => {
                &&& fence_admits(current, stored.request.fence)
                &&& manifest.status == stored.state
                &&& manifest.request == stored.request
            },
            Err(e) => !fence_admits(current, stored.request.fence) && e == fence_mismatch(
                stored.request.snapshot_group_id,
                current,
                stored.request.fence,
            ),
        },
{
    match check_group_fence(stored.request.snapshot_group_id, stored.request.fence, current) {
        Err(e) => Err(e),
        Ok(()) => Ok(SnapshotGroupManifest { status: stored.state, request: stored.request }),
    }
}

/// How a group comes under the current fence.
#[derive(Debug, PartialEq, Eq)]
pub enum FenceAdoption {
    /// It is there already.
    Unchanged,
    /// The header has to be rewritten with the new token and this checksum.
    Rewrite { previous_token: i64, checksum: Vec<u8> },
}

/// Takes a group over under the current fence.
pub fn adopt_snapshot_group_fence(stored: &mut StoredSnapshotGroup, current: PipelineFence) -> (r:
    Result<FenceAdoption, SnapshotTargetError>)
    ensures
        final(stored).state == old(stored).state,
        final(stored).snapshot_progress_version == old(stored).snapshot_progress_version,
        match r {
            Ok(FenceAdoption::Unchanged) => old(stored).request.fence == current && *final(stored)
                == *old(stored),
            Ok(FenceAdoption::Rewrite { previous_token, checksum }) => {
                &&& old(stored).request.fence != current
                &&& fence_admits(current, old(stored).request.fence)
                &&& final(stored).request@ == (RequestView { fence: current, ..old(stored).request@
                })
                &&& previous_token == old(stored).request.fence.fencing_token
                &&& checksum@ == manifest_digest(final(stored).request@)
            },
            Err(e) => {
                &&& old(stored).request.fence != current
                &&& !fence_admits(current, old(stored).request.fence)
                &&& e == fence_mismatch(
                    old(stored).request.snapshot_group_id,
                    current,
                    old(stored).request.fence,
                )
                &&& *final(stored) == *old(stored)
            },
        },
{
    let previous = stored.request.fence;
    if previous == current {
        return Ok(FenceAdoption::Unchanged);
    }
    match check_group_fence(stored.request.snapshot_group_id, previous, current) {
        Err(e) => return Err(e),
        Ok(()) => {},
    }
    stored.request.fence = current;
    let checksum = manifest_checksum(&stored.request);
    Ok(FenceAdoption::Rewrite { previous_token: previous.fencing_token, checksum })
}

// ---------------------------------------------------------------------------------------------
// Membership
// ---------------------------------------------------------------------------------------------

/// The first table with the given target.
pub open spec fn table_for(tables: Seq<ActivationTableView>, target: NameView) -> Option<
    ActivationTableView,
>
    decreases tables.len(),
{
    if tables.len() == 0 {
        None
    } else if tables[0].target == target {
        Some(tables[0])
    } else {
        table_for(tables.drop_first(), target)
    }
}

fn find_table<'a>(tables: &'a Vec<SnapshotActivationTable>, target: &QualifiedName) -> (r: Option<
    &'a SnapshotActivationTable,
>)
    ensures
        match r {
            Some(table) => table_for(table_views(tables@), target@) == Some(table@),
            None => table_for(table_views(tables@), target@) is None,
        },
{
    let ghost views = table_views(tables@);
    let mut i: usize = 0;
    proof {
        assert(views.skip(0) =~= views);
    }
    while i < tables.len()
        invariant
            i <= tables.len(),
            views == table_views(tables@),
            table_for(views, target@) == table_for(views.skip(i as int), target@),
        decreases tables.len() - i,
    {
        proof {
            assert(views.skip(i as int)[0] == tables@[i as int]@);
            assert(views.skip(i as int).drop_first() =~= views.skip(i + 1));
        }
        if tables[i].target.same(target) {
            return Some(&tables[i]);
        }
        i = i + 1;
    }
    None
}

/// The shadow load belongs to the stored group.
pub open spec fn is_member(
    stored: RequestView,
    plan: SnapshotTargetPlan,
    ownership: SnapshotOwnership,
) -> bool {
    &&& stored.snapshot_group_id == ownership.snapshot_group_id
    &&& stored.fence == ownership.fence
    &&& table_for(stored.tables, plan.target@) == Some(
        plan.activation_view(ownership.schema_fingerprint@),
    )
}

/// The error tells why a shadow load does not belong to the stored group.
pub open spec fn refuses_member(
    e: SnapshotTargetError,
    stored: RequestView,
    plan: SnapshotTargetPlan,
    ownership: SnapshotOwnership,
) -> bool {
    let owner = owner_difference(
        stored.snapshot_group_id,
        stored.fence,
        ownership.snapshot_group_id,
        ownership.fence,
    );
    if owner is Some {
        e matches SnapshotTargetError::SnapshotGroupManifestMismatch { group, difference } && group
            == ownership.snapshot_group_id && Some(difference@) == owner
    } else if table_for(stored.tables, plan.target@) is None {
        e matches SnapshotTargetError::SnapshotTableNotInManifest { group, table } && group
            == ownership.snapshot_group_id && table@ == plan.target@.text()
    } else {
        e matches SnapshotTargetError::SnapshotTableManifestMismatch { group, table } && group
            == ownership.snapshot_group_id && table@ == plan.target@.text()
    }
}

pub fn validate_apply_membership(
    stored: &StoredSnapshotGroup,
    plan: &SnapshotTargetPlan,
    ownership: &SnapshotOwnership,
) -> (r: Result<(), SnapshotTargetError>)
    ensures
        match r {
            Ok(()) => is_member(stored.request@, *plan, *ownership),
            Err(e) => !is_member(stored.request@, *plan, *ownership) && refuses_member(
                e,
                stored.request@,
                *plan,
                *ownership,
            ),
        },
{
    match tell_owner_difference(
        stored.request.snapshot_group_id,
        stored.request.fence,
        ownership.snapshot_group_id,
        ownership.fence,
    ) {
        Some(difference) => {
            return Err(
                SnapshotTargetError::SnapshotGroupManifestMismatch {
                    group: ownership.snapshot_group_id,
                    difference,
                },
            );
        },
        None => {},
    }
    let expected = plan.activation_table(ownership.schema_fingerprint.as_str());
    match find_table(&stored.request.tables, &plan.target) {
        None => Err(
            SnapshotTargetError::SnapshotTableNotInManifest {
                group: ownership.snapshot_group_id,
                table: plan.target.display(),
            },
        ),
        Some(table) => {
            if table.same(&expected) {
                Ok(())
            } else {
                Err(
                    SnapshotTargetError::SnapshotTableManifestMismatch {
                        group: ownership.snapshot_group_id,
                        table: plan.target.display(),
                    },
                )
            }
        },
    }
}

/// Checks that a shadow may be loaded for the stored group, which must still be loading.
pub fn judge_shadow_load(
    stored: &StoredSnapshotGroup,
    plan: &SnapshotTargetPlan,
    ownership: &SnapshotOwnership,
) -> (r: Result<(), SnapshotTargetError>)
    ensures
        match r {
            Ok(()) => is_member(stored.request@, *plan, *ownership) && stored.state
                == SnapshotGroupStatus::Loading,
            Err(e) => if !is_member(stored.request@, *plan, *ownership) {
                refuses_member(e, stored.request@, *plan, *ownership)
            } else {
                stored.state == SnapshotGroupStatus::Active && e
                    == SnapshotTargetError::SnapshotGroupAlreadyActive(ownership.snapshot_group_id)
            },
        },
{
    match validate_apply_membership(stored, plan, ownership) {
        Err(e) => return Err(e),
        Ok(()) => {},
    }
    match stored.state {
        SnapshotGroupStatus::Active => Err(
            SnapshotTargetError::SnapshotGroupAlreadyActive(ownership.snapshot_group_id),
        ),
        SnapshotGroupStatus::Loading => Ok(()),
    }
}

// ---------------------------------------------------------------------------------------------
// Checksum
// ---------------------------------------------------------------------------------------------

/// The 32-bit two's complement of a node number.
pub open spec fn node_bits(node_id: i32) -> nat {
    if node_id >= 0 {
        node_id as nat
    } else {
        (node_id + 0x1_0000_0000) as nat
    }
}

/// What the checksum covers of one table.
pub open spec fn table_fields(table: ActivationTableView) -> Seq<Seq<u8>> {
    seq![
        encode_utf8(table.target.schema),
        encode_utf8(table.target.name),
        encode_utf8(table.shadow.schema),
        encode_utf8(table.shadow.name),
        big_endian(table.source_relation_id as nat, 4),
        big_endian(table.table_generation as nat, 8),
        encode_utf8(table.schema_fingerprint),
    ]
}

/// What the checksum covers of one node boundary.
pub open spec fn boundary_fields(checkpoint: CheckpointView) -> Seq<Seq<u8>> {
    seq![
        big_endian(node_bits(checkpoint.key.node_id), 4),
        big_endian(checkpoint.system_identifier as nat, 8),
        big_endian(checkpoint.timeline as nat, 4),
        encode_utf8(checkpoint.slot_name),
        big_endian(checkpoint.applied_lsn.value as nat, 8),
    ]
}

/// What the checksum covers of the tables.
pub open spec fn all_table_fields(tables: Seq<ActivationTableView>) -> Seq<Seq<u8>>
    decreases tables.len(),
{
    if tables.len() == 0 {
        Seq::empty()
    } else {
        all_table_fields(tables.drop_last()) + table_fields(tables.last())
    }
}

/// What the checksum covers of the node boundaries.
pub open spec fn all_boundary_fields(checkpoints: Seq<CheckpointView>) -> Seq<Seq<u8>>
    decreases checkpoints.len(),
{
    if checkpoints.len() == 0 {
        Seq::empty()
    } else {
        all_boundary_fields(checkpoints.drop_last()) + boundary_fields(checkpoints.last())
    }
}

/// What the checksum covers before the tables.
pub open spec fn header_fields(request: RequestView) -> Seq<Seq<u8>> {
    seq![
        encode_utf8("pg2cb-snapshot-manifest-v1"@),
        request.snapshot_group_id.octets(),
        request.fence.pipeline_id.uuid.octets(),
        big_endian(request.fence.topology_generation as nat, 8),
    ]
}

/// What the checksum covers, in order.
pub open spec fn manifest_fields(request: RequestView) -> Seq<Seq<u8>> {
    header_fields(request) + all_table_fields(request.tables) + all_boundary_fields(
        request.initial_checkpoints,
    )
}

/// The checksum of a manifest.
pub open spec fn manifest_digest(request: RequestView) -> Seq<u8> {
    sha256(framed(manifest_fields(request)))
}

fn push_table_fields(
    out: &mut Vec<u8>,
    table: &SnapshotActivationTable,
    Ghost(fields): Ghost<Seq<Seq<u8>>>,
)
    requires
        old(out)@ == framed(fields),
    ensures
        final(out)@ == framed(fields + table_fields(table@)),
{
    let target_schema = table.target.schema.as_str().as_bytes();
    let target_name = table.target.name.as_str().as_bytes();
    let shadow_schema = table.shadow.schema.as_str().as_bytes();
    let shadow_name = table.shadow.name.as_str().as_bytes();
    let relation = be_bytes(table.source_relation_id as u64, 4);
    let generation = be_bytes(table.table_generation, 8);
    let fingerprint = table.schema_fingerprint.as_str().as_bytes();
    let ghost f1 = fields.push(target_schema@);
    let ghost f2 = f1.push(target_name@);
    let ghost f3 = f2.push(shadow_schema@);
    let ghost f4 = f3.push(shadow_name@);
    let ghost f5 = f4.push(relation@);
    let ghost f6 = f5.push(generation@);
    push_field(out, target_schema, Ghost(fields));
    push_field(out, target_name, Ghost(f1));
    push_field(out, shadow_schema, Ghost(f2));
    push_field(out, shadow_name, Ghost(f3));
    push_field(out, relation.as_slice(), Ghost(f4));
    push_field(out, generation.as_slice(), Ghost(f5));
    push_field(out, fingerprint, Ghost(f6));
    proof {
        assert(f6.push(fingerprint@) =~= fields + table_fields(table@));
    }
}

fn push_boundary_fields(
    out: &mut Vec<u8>,
    checkpoint: &NodeCheckpoint,
    Ghost(fields): Ghost<Seq<Seq<u8>>>,
)
    requires
        old(out)@ == framed(fields),
    ensures
        final(out)@ == framed(fields + boundary_fields(checkpoint@)),
{
    let bits: u64 = if checkpoint.key.node_id >= 0 {
        checkpoint.key.node_id as u64
    } else {
        (checkpoint.key.node_id as i64 + 0x1_0000_0000) as u64
    };
    let node = be_bytes(bits, 4);
    let system = be_bytes(checkpoint.system_identifier, 8);
    let timeline = be_bytes(checkpoint.timeline as u64, 4);
    let slot = checkpoint.slot_name.as_str().as_bytes();
    let lsn = be_bytes(checkpoint.applied_lsn.as_u64(), 8);
    let ghost f1 = fields.push(node@);
    let ghost f2 = f1.push(system@);
    let ghost f3 = f2.push(timeline@);
    let ghost f4 = f3.push(slot@);
    push_field(out, node.as_slice(), Ghost(fields));
    push_field(out, system.as_slice(), Ghost(f1));
    push_field(out, timeline.as_slice(), Ghost(f2));
    push_field(out, slot, Ghost(f3));
    push_field(out, lsn.as_slice(), Ghost(f4));
    proof {
        assert(f4.push(lsn@) =~= fields + boundary_fields(checkpoint@));
    }
}

/// The checksum over the identity, the tables and the node boundaries of a manifest. The fencing
/// token is not covered: a newer owner may take the manifest over.
pub fn manifest_checksum(request: &SnapshotActivationRequest) -> (r: Vec<u8>)
    ensures
        r@ == manifest_digest(request@),
        r@.len() == 32,
{
    let ghost view = request@;
    let tag = "pg2cb-snapshot-manifest-v1".as_bytes();
    let group = request.snapshot_group_id.as_bytes();
    let pipeline = request.fence.pipeline_id.uuid.as_bytes();
    let generation = be_bytes(request.fence.topology_generation, 8);
    let mut out: Vec<u8> = Vec::new();
    let ghost f0 = Seq::<Seq<u8>>::empty();
    let ghost f1 = f0.push(tag@);
    let ghost f2 = f1.push(group@);
    let ghost f3 = f2.push(pipeline@);
    push_field(&mut out, tag, Ghost(f0));
    push_field(&mut out, group.as_slice(), Ghost(f1));
    push_field(&mut out, pipeline.as_slice(), Ghost(f2));
    push_field(&mut out, generation.as_slice(), Ghost(f3));
    let ghost header = header_fields(view);
    proof {
        assert(f3.push(generation@) =~= header);
        assert(header + all_table_fields(view.tables.take(0)) =~= header);
    }
    let mut i: usize = 0;
    while i < request.tables.len()
        invariant
            i <= request.tables.len(),
            view == request@,
            header == header_fields(view),
            out@ == framed(header + all_table_fields(view.tables.take(i as int))),
        decreases request.tables.len() - i,
    {
        let ghost before = header + all_table_fields(view.tables.take(i as int));
        push_table_fields(&mut out, &request.tables[i], Ghost(before));
        proof {
            let next = view.tables.take(i + 1);
            assert(next.drop_last() =~= view.tables.take(i as int));
            assert(next.last() == request.tables@[i as int]@);
            assert(before + table_fields(next.last()) =~= header + all_table_fields(next));
        }
        i = i + 1;
    }
    let ghost covered = header + all_table_fields(view.tables);
    proof {
        assert(view.tables.take(i as int) =~= view.tables);
        assert(covered + all_boundary_fields(view.initial_checkpoints.take(0)) =~= covered);
    }
    let mut n: usize = 0;
    while n < request.initial_checkpoints.len()
        invariant
            n <= request.initial_checkpoints.len(),
            view == request@,
            out@ == framed(
                covered + all_boundary_fields(view.initial_checkpoints.take(n as int)),
            ),
        decreases request.initial_checkpoints.len() - n,
    {
        let ghost before = covered + all_boundary_fields(view.initial_checkpoints.take(n as int));
        push_boundary_fields(&mut out, &request.initial_checkpoints[n], Ghost(before));
        proof {
            let next = view.initial_checkpoints.take(n + 1);
            assert(next.drop_last() =~= view.initial_checkpoints.take(n as int));
            assert(next.last() == request.initial_checkpoints@[n as int]@);
            assert(before + boundary_fields(next.last()) =~= covered + all_boundary_fields(next));
        }
        n = n + 1;
    }
    proof {
        assert(view.initial_checkpoints.take(n as int) =~= view.initial_checkpoints);
        assert(covered + all_boundary_fields(view.initial_checkpoints) =~= manifest_fields(view));
    }
    let digest = sha256_digest(out.as_slice());
    vstd::slice::slice_to_vec(digest.as_slice())
}

// ---------------------------------------------------------------------------------------------
// Rows
// ---------------------------------------------------------------------------------------------

/// The header of a stored group as the target returns it.
#[derive(Debug, PartialEq, Eq)]
pub struct GroupRow {
    pub pipeline_id: Uuid,
    pub topology_generation: i64,
    pub fencing_token: i64,
    pub state: String,
    pub table_count: i64,
    pub node_count: i64,
    pub manifest_checksum: Vec<u8>,
    pub snapshot_progress_version: i32,
}

/// A stored table as the target returns it.
#[derive(Debug, PartialEq, Eq)]
pub struct GroupTableRow {
    pub target_schema: String,
    pub target_table: String,
    pub shadow_schema: String,
    pub shadow_table: String,
    pub source_relation_id: i64,
    pub table_generation: i64,
    pub schema_fingerprint: String,
}

/// A stored node boundary as the target returns it.
#[derive(Debug, PartialEq, Eq)]
pub struct GroupNodeRow {
    pub node_id: i32,
    pub system_identifier: String,
    pub timeline: i64,
    pub slot_name: String,
    pub consistent_lsn: String,
}

/// The header holds values that a manifest can have.
pub open spec fn group_row_valid(row: GroupRow) -> bool {
    &&& row.topology_generation >= 0
    &&& SnapshotGroupStatus::named(row.state@) is Some
    &&& 0 < row.table_count <= usize::MAX
    &&& 0 < row.node_count <= usize::MAX
    &&& 0 <= row.snapshot_progress_version <= 1
    &&& row.fencing_token > 0
    &&& row.manifest_checksum@.len() == 32
}

impl GroupTableRow {
    pub open spec fn target(self) -> NameView {
        NameView { schema: self.target_schema@, name: self.target_table@ }
    }

    pub open spec fn shadow(self) -> NameView {
        NameView { schema: self.shadow_schema@, name: self.shadow_table@ }
    }

    /// The table that the row stands for.
    pub open spec fn table(self) -> ActivationTableView {
        ActivationTableView {
            target: self.target(),
            shadow: self.shadow(),
            source_relation_id: self.source_relation_id as u32,
            table_generation: self.table_generation as u64,
            schema_fingerprint: self.schema_fingerprint@,
        }
    }

    /// Why the row stands for no table of the group, if it does not.
    pub open spec fn fault(self, group: Uuid) -> Option<SnapshotTargetError> {
        if !(0 <= self.source_relation_id <= u32::MAX) || self.table_generation < 0 {
            Some(SnapshotTargetError::CorruptSnapshotGroupManifest(group))
        } else if self.target().fault() is Some {
            Some(SnapshotTargetError::Schema(SchemaError::Core(self.target().fault()->0)))
        } else if self.shadow().fault() is Some {
            Some(SnapshotTargetError::Schema(SchemaError::Core(self.shadow().fault()->0)))
        } else {
            None
        }
    }
}

impl GroupNodeRow {
    /// The node boundary that the row stands for.
    pub open spec fn boundary(self, pipeline_id: Uuid, topology_generation: u64) -> CheckpointView {
        CheckpointView {
            key: CheckpointKey {
                pipeline_id: PipelineId { uuid: pipeline_id },
                topology_generation,
                node_id: self.node_id,
            },
            system_identifier: unsigned_number(self.system_identifier@, u64::MAX as nat)->0 as u64,
            timeline: self.timeline as u32,
            slot_name: self.slot_name@,
            applied_lsn: PgLsn { value: parsed_lsn(self.consistent_lsn@)->0 as u64 },
        }
    }

    /// The row stands for a node boundary.
    pub open spec fn valid(self) -> bool {
        &&& unsigned_number(self.system_identifier@, u64::MAX as nat) is Some
        &&& 0 <= self.timeline <= u32::MAX
        &&& parsed_lsn(self.consistent_lsn@) is Some
    }
}

/// The tables that rows stand for.
pub open spec fn row_tables(rows: Seq<GroupTableRow>) -> Seq<ActivationTableView> {
    Seq::new(rows.len(), |i: int| rows[i].table())
}

/// The node boundaries that rows stand for.
pub open spec fn row_boundaries(group: GroupRow, rows: Seq<GroupNodeRow>) -> Seq<CheckpointView> {
    Seq::new(
        rows.len(),
        |i: int| rows[i].boundary(group.pipeline_id, group.topology_generation as u64),
    )
}

/// The request that rows stand for.
pub open spec fn row_request(
    snapshot_group_id: Uuid,
    group: GroupRow,
    tables: Seq<GroupTableRow>,
    nodes: Seq<GroupNodeRow>,
) -> RequestView {
    RequestView {
        fence: PipelineFence {
            pipeline_id: PipelineId { uuid: group.pipeline_id },
            topology_generation: group.topology_generation as u64,
            fencing_token: group.fencing_token,
        },
        snapshot_group_id,
        tables: row_tables(tables),
        initial_checkpoints: row_boundaries(group, nodes),
    }
}

/// The first row from the given one on that stands for no table of the group.
pub open spec fn table_rows_fault(rows: Seq<GroupTableRow>, group: Uuid, from: int) -> Option<
    SnapshotTargetError,
>
    decreases rows.len() - from,
{
    if from >= rows.len() {
        None
    } else if rows[from].fault(group) is Some {
        rows[from].fault(group)
    } else {
        table_rows_fault(rows, group, from + 1)
    }
}

/// Every row stands for a node boundary.
pub open spec fn node_rows_valid(rows: Seq<GroupNodeRow>) -> bool {
    forall|i: int| 0 <= i < rows.len() ==> (#[trigger] rows[i]).valid()
}

/// Why rows do not make up a stored group, if they do not.
pub open spec fn stored_fault(
    snapshot_group_id: Uuid,
    group: GroupRow,
    tables: Seq<GroupTableRow>,
    nodes: Seq<GroupNodeRow>,
) -> Option<SnapshotTargetError> {
    let corrupt = SnapshotTargetError::CorruptSnapshotGroupManifest(snapshot_group_id);
    let request = row_request(snapshot_group_id, group, tables, nodes);
    if !group_row_valid(group) || tables.len() != group.table_count {
        Some(corrupt)
    } else if table_rows_fault(tables, snapshot_group_id, 0) is Some {
        table_rows_fault(tables, snapshot_group_id, 0)
    } else if nodes.len() != group.node_count || !node_rows_valid(nodes) || !acceptable(request)
        || !is_canonical(request) || manifest_digest(request) != group.manifest_checksum@ {
        Some(corrupt)
    } else {
        None
    }
}

fn is_group_row_valid(row: &GroupRow) -> (r: bool)
    ensures
        r == group_row_valid(*row),
{
    row.topology_generation >= 0 && (same_text(row.state.as_str(), "loading") || same_text(
        row.state.as_str(),
        "active",
    )) && row.table_count > 0 && row.table_count as u64 <= usize::MAX as u64 && row.node_count > 0
        && row.node_count as u64 <= usize::MAX as u64 && row.snapshot_progress_version >= 0
        && row.snapshot_progress_version <= 1 && row.fencing_token > 0
        && row.manifest_checksum.len() == 32
}

pub fn table_from_row(row: &GroupTableRow, snapshot_group_id: Uuid) -> (r: Result<
    SnapshotActivationTable,
    SnapshotTargetError,
>)
    ensures
        match r {
            Ok(table) => row.fault(snapshot_group_id) is None && table@ == row.table(),
            Err(e) => row.fault(snapshot_group_id) == Some(e),
        },
{
    if row.source_relation_id < 0 || row.source_relation_id > u32::MAX as i64
        || row.table_generation < 0 {
        return Err(SnapshotTargetError::CorruptSnapshotGroupManifest(snapshot_group_id));
    }
    let target = match QualifiedName::new(row.target_schema.as_str(), row.target_table.as_str()) {
        Err(e) => return Err(SnapshotTargetError::Schema(SchemaError::Core(e))),
        Ok(name) => name,
    };
    let shadow = match QualifiedName::new(row.shadow_schema.as_str(), row.shadow_table.as_str()) {
        Err(e) => return Err(SnapshotTargetError::Schema(SchemaError::Core(e))),
        Ok(name) => name,
    };
    Ok(
        SnapshotActivationTable {
            target,
            shadow,
            source_relation_id: row.source_relation_id as u32,
            table_generation: row.table_generation as u64,
            schema_fingerprint: row.schema_fingerprint.clone(),
        },
    )
}

pub fn checkpoint_from_row(
    row: &GroupNodeRow,
    snapshot_group_id: Uuid,
    pipeline_id: PipelineId,
    topology_generation: u64,
) -> (r: Result<NodeCheckpoint, SnapshotTargetError>)
    ensures
        match r {
            Ok(checkpoint) => row.valid() && checkpoint@ == row.boundary(
                pipeline_id.uuid,
                topology_generation,
            ),
            Err(e) => !row.valid() && e == SnapshotTargetError::CorruptSnapshotGroupManifest(
                snapshot_group_id,
            ),
        },
{
    let system_identifier = match parse_u64(row.system_identifier.as_str()) {
        None => {
            return Err(SnapshotTargetError::CorruptSnapshotGroupManifest(snapshot_group_id));
        },
        Some(number) => number,
    };
    if row.timeline < 0 || row.timeline > u32::MAX as i64 {
        return Err(SnapshotTargetError::CorruptSnapshotGroupManifest(snapshot_group_id));
    }
    let applied_lsn = match PgLsn::parse(row.consistent_lsn.as_str()) {
        None => {
            return Err(SnapshotTargetError::CorruptSnapshotGroupManifest(snapshot_group_id));
        },
        Some(lsn) => lsn,
    };
    Ok(
        NodeCheckpoint {
            key: CheckpointKey { pipeline_id, topology_generation, node_id: row.node_id },
            system_identifier,
            timeline: row.timeline as u32,
            slot_name: row.slot_name.clone(),
            applied_lsn,
        },
    )
}

fn tables_from_rows(rows: &Vec<GroupTableRow>, snapshot_group_id: Uuid) -> (r: Result<
    Vec<SnapshotActivationTable>,
    SnapshotTargetError,
>)
    ensures
        match r {
            Ok(tables) => {
                &&& table_rows_fault(rows@, snapshot_group_id, 0) is None
                &&& table_views(tables@) == row_tables(rows@)
            },
            Err(e) => table_rows_fault(rows@, snapshot_group_id, 0) == Some(e),
        },
{
    let mut tables: Vec<SnapshotActivationTable> = Vec::new();
    let mut i: usize = 0;
    while i < rows.len()
        invariant
            i <= rows.len(),
            tables@.len() == i,
            table_rows_fault(rows@, snapshot_group_id, 0) == table_rows_fault(
                rows@,
                snapshot_group_id,
                i as int,
            ),
            forall|k: int| 0 <= k < i ==> (#[trigger] tables@[k])@ == rows@[k].table(),
        decreases rows.len() - i,
    {
        match table_from_row(&rows[i], snapshot_group_id) {
            Err(e) => return Err(e),
            Ok(table) => tables.push(table),
        }
        i = i + 1;
    }
    proof {
        assert(table_views(tables@) =~= row_tables(rows@));
    }
    Ok(tables)
}

fn boundaries_from_rows(
    rows: &Vec<GroupNodeRow>,
    snapshot_group_id: Uuid,
    group: &GroupRow,
) -> (r: Result<Vec<NodeCheckpoint>, SnapshotTargetError>)
    requires
        group.topology_generation >= 0,
    ensures
        match r {
            Ok(checkpoints) => {
                &&& node_rows_valid(rows@)
                &&& boundary_views(checkpoints@) == row_boundaries(*group, rows@)
            },
            Err(e) => !node_rows_valid(rows@) && e
                == SnapshotTargetError::CorruptSnapshotGroupManifest(snapshot_group_id),
        },
{
    let mut checkpoints: Vec<NodeCheckpoint> = Vec::new();
    let mut i: usize = 0;
    while i < rows.len()
        invariant
            i <= rows.len(),
            group.topology_generation >= 0,
            checkpoints@.len() == i,
            forall|k: int| 0 <= k < i ==> (#[trigger] rows@[k]).valid(),
            forall|k: int|
                0 <= k < i ==> (#[trigger] checkpoints@[k])@ == rows@[k].boundary(
                    group.pipeline_id,
                    group.topology_generation as u64,
                ),
        decreases rows.len() - i,
    {
        match checkpoint_from_row(
            &rows[i],
            snapshot_group_id,
            PipelineId::from_uuid(group.pipeline_id),
            group.topology_generation as u64,
        ) {
            Err(e) => return Err(e),
            Ok(checkpoint) => checkpoints.push(checkpoint),
        }
        i = i + 1;
    }
    proof {
        assert(boundary_views(checkpoints@) =~= row_boundaries(*group, rows@));
    }
    Ok(checkpoints)
}

/// Confirms that a rebuilt request is in canonical form and has the stored checksum.
fn confirm_stored(rebuilt: SnapshotActivationRequest, checksum: &[u8]) -> (r: Option<
    SnapshotActivationRequest,
>)
    ensures
        match r {
            Some(request) => {
                &&& request@ == rebuilt@
                &&& acceptable(rebuilt@)
                &&& is_canonical(rebuilt@)
                &&& manifest_digest(rebuilt@) == checksum@
            },
            None => !(acceptable(rebuilt@) && is_canonical(rebuilt@) && manifest_digest(rebuilt@)
                == checksum@),
        },
{
    let canonical = match canonical_request(&rebuilt) {
        Err(_) => return None,
        Ok(canonical) => canonical,
    };
    proof {
        law_every_difference_is_told(rebuilt@, canonical@);
        if is_canonical(rebuilt@) {
            law_canonical_form_is_unique(rebuilt@, canonical@);
        }
    }
    if first_request_difference(&rebuilt, &canonical).is_some() {
        return None;
    }
    if !same_octets(manifest_checksum(&canonical).as_slice(), checksum) {
        return None;
    }
    Some(canonical)
}

/// Rebuilds a stored group from its rows. The rows must be the canonical form of an acceptable
/// request, and the stored checksum must be theirs.
pub fn stored_group_from_rows(
    snapshot_group_id: Uuid,
    group: &GroupRow,
    table_rows: &Vec<GroupTableRow>,
    node_rows: &Vec<GroupNodeRow>,
) -> (r: Result<StoredSnapshotGroup, SnapshotTargetError>)
    ensures
        match r {
            Ok(stored) => {
                &&& stored_fault(snapshot_group_id, *group, table_rows@, node_rows@) is None
                &&& SnapshotGroupStatus::named(group.state@) == Some(stored.state)
                &&& stored.snapshot_progress_version == group.snapshot_progress_version
                &&& stored.request@ == row_request(
                    snapshot_group_id,
                    *group,
                    table_rows@,
                    node_rows@,
                )
            },
            Err(e) => stored_fault(snapshot_group_id, *group, table_rows@, node_rows@) == Some(e),
        },
{
    if !is_group_row_valid(group) || table_rows.len() as u64 != group.table_count as u64 {
        return Err(SnapshotTargetError::CorruptSnapshotGroupManifest(snapshot_group_id));
    }
    let tables = match tables_from_rows(table_rows, snapshot_group_id) {
        Err(e) => return Err(e),
        Ok(tables) => tables,
    };
    if node_rows.len() as u64 != group.node_count as u64 {
        return Err(SnapshotTargetError::CorruptSnapshotGroupManifest(snapshot_group_id));
    }
    let initial_checkpoints = match boundaries_from_rows(node_rows, snapshot_group_id, group) {
        Err(e) => return Err(e),
        Ok(checkpoints) => checkpoints,
    };
    let state = match SnapshotGroupStatus::parse(snapshot_group_id, group.state.as_str()) {
        Err(e) => return Err(e),
        Ok(state) => state,
    };
    let reconstructed = SnapshotActivationRequest {
        fence: PipelineFence {
            pipeline_id: PipelineId::from_uuid(group.pipeline_id),
            topology_generation: group.topology_generation as u64,
            fencing_token: group.fencing_token,
        },
        snapshot_group_id,
        tables,
        initial_checkpoints,
    };
    let request = match confirm_stored(reconstructed, group.manifest_checksum.as_slice()) {
        None => {
            return Err(SnapshotTargetError::CorruptSnapshotGroupManifest(snapshot_group_id));
        },
        Some(request) => request,
    };
    Ok(
        StoredSnapshotGroup {
            state,
            snapshot_progress_version: group.snapshot_progress_version as u16,
            request,
        },
    )
}

/// No group has the nil identifier.
pub fn check_group_id(snapshot_group_id: Uuid) -> (r: Result<(), SnapshotTargetError>)
    ensures
        match r {
            Ok(()) => snapshot_group_id.value != 0,
            Err(e) => snapshot_group_id.value == 0 && e
                == SnapshotTargetError::InvalidSnapshotGroupId,
        },
{
    if snapshot_group_id.is_nil() {
        Err(SnapshotTargetError::InvalidSnapshotGroupId)
    } else {
        Ok(())
    }
}

// ---------------------------------------------------------------------------------------------
// Registration
// ---------------------------------------------------------------------------------------------

/// The parameters of the statements that register a group: its header, then one list for each
/// column of its tables and of its node boundaries.
#[derive(Debug, PartialEq, Eq)]
pub struct GroupParameters {
    pub pipeline_id: Uuid,
    pub topology_generation: i64,
    pub table_count: i64,
    pub node_count: i64,
    pub checksum: Vec<u8>,
    pub target_schemas: Vec<String>,
    pub target_tables: Vec<String>,
    pub shadow_schemas: Vec<String>,
    pub shadow_tables: Vec<String>,
    pub source_relation_ids: Vec<i64>,
    pub table_generations: Vec<i64>,
    pub schema_fingerprints: Vec<String>,
    pub node_ids: Vec<i32>,
    pub system_identifiers: Vec<String>,
    pub timelines: Vec<i64>,
    pub slot_names: Vec<String>,
    pub consistent_lsns: Vec<String>,
}

/// The parameters hold the columns of the given table.
pub open spec fn table_columns(
    parameters: GroupParameters,
    at: int,
    table: ActivationTableView,
) -> bool {
    &&& parameters.target_schemas@[at]@ == table.target.schema
    &&& parameters.target_tables@[at]@ == table.target.name
    &&& parameters.shadow_schemas@[at]@ == table.shadow.schema
    &&& parameters.shadow_tables@[at]@ == table.shadow.name
    &&& parameters.source_relation_ids@[at] == table.source_relation_id
    &&& parameters.table_generations@[at] == table.table_generation
    &&& parameters.schema_fingerprints@[at]@ == table.schema_fingerprint
}

/// The parameters hold the columns of the given node boundary.
pub open spec fn boundary_columns(
    parameters: GroupParameters,
    at: int,
    checkpoint: CheckpointView,
) -> bool {
    &&& parameters.node_ids@[at] == checkpoint.key.node_id
    &&& parameters.system_identifiers@[at]@ == decimal(checkpoint.system_identifier as nat)
    &&& parameters.timelines@[at] == checkpoint.timeline
    &&& parameters.slot_names@[at]@ == checkpoint.slot_name
    &&& parameters.consistent_lsns@[at]@ == checkpoint.applied_lsn.text()
}

/// Every column of the tables has the given length.
pub open spec fn table_columns_have(parameters: GroupParameters, count: int) -> bool {
    &&& parameters.target_schemas@.len() == count
    &&& parameters.target_tables@.len() == count
    &&& parameters.shadow_schemas@.len() == count
    &&& parameters.shadow_tables@.len() == count
    &&& parameters.source_relation_ids@.len() == count
    &&& parameters.table_generations@.len() == count
    &&& parameters.schema_fingerprints@.len() == count
}

/// Every column of the node boundaries has the given length.
pub open spec fn boundary_columns_have(parameters: GroupParameters, count: int) -> bool {
    &&& parameters.node_ids@.len() == count
    &&& parameters.system_identifiers@.len() == count
    &&& parameters.timelines@.len() == count
    &&& parameters.slot_names@.len() == count
    &&& parameters.consistent_lsns@.len() == count
}

/// The parameters register exactly the request.
pub open spec fn registers(parameters: GroupParameters, request: RequestView) -> bool {
    &&& parameters.pipeline_id == request.fence.pipeline_id.uuid
    &&& parameters.topology_generation == request.fence.topology_generation
    &&& parameters.table_count == request.tables.len()
    &&& parameters.node_count == request.initial_checkpoints.len()
    &&& parameters.checksum@ == manifest_digest(request)
    &&& parameters.checksum@.len() == 32
    &&& table_columns_have(parameters, request.tables.len() as int)
    &&& boundary_columns_have(parameters, request.initial_checkpoints.len() as int)
    &&& forall|i: int|
        0 <= i < request.tables.len() ==> table_columns(parameters, i, #[trigger] request.tables[i])
    &&& forall|i: int|
        0 <= i < request.initial_checkpoints.len() ==> boundary_columns(
            parameters,
            i,
            #[trigger] request.initial_checkpoints[i],
        )
}

/// Gives the parameters that register a canonical request.
pub fn group_parameters(request: &SnapshotActivationRequest) -> (r: Result<
    GroupParameters,
    SnapshotTargetError,
>)
    requires
        acceptable(request@),
    ensures
        match r {
            Ok(parameters) => registers(parameters, request@),
            Err(e) => {
                &&& request.tables@.len() > i64::MAX || request.initial_checkpoints@.len()
                    > i64::MAX
                &&& e == SnapshotTargetError::CorruptSnapshotGroupManifest(
                    request.snapshot_group_id,
                )
            },
        },
{
    let ghost view = request@;
    if request.tables.len() as u64 > i64::MAX as u64 || request.initial_checkpoints.len() as u64
        > i64::MAX as u64 {
        return Err(SnapshotTargetError::CorruptSnapshotGroupManifest(request.snapshot_group_id));
    }
    let mut out = GroupParameters {
        pipeline_id: request.fence.pipeline_id.as_uuid(),
        topology_generation: request.fence.topology_generation as i64,
        table_count: request.tables.len() as i64,
        node_count: request.initial_checkpoints.len() as i64,
        checksum: manifest_checksum(request),
        target_schemas: Vec::new(),
        target_tables: Vec::new(),
        shadow_schemas: Vec::new(),
        shadow_tables: Vec::new(),
        source_relation_ids: Vec::new(),
        table_generations: Vec::new(),
        schema_fingerprints: Vec::new(),
        node_ids: Vec::new(),
        system_identifiers: Vec::new(),
        timelines: Vec::new(),
        slot_names: Vec::new(),
        consistent_lsns: Vec::new(),
    };
    let ghost header = out;
    let mut i: usize = 0;
    while i < request.tables.len()
        invariant
            i <= request.tables.len(),
            view == request@,
            acceptable(view),
            out.pipeline_id == header.pipeline_id,
            out.topology_generation == header.topology_generation,
            out.table_count == header.table_count,
            out.node_count == header.node_count,
            out.checksum@ == header.checksum@,
            table_columns_have(out, i as int),
            boundary_columns_have(out, 0),
            forall|k: int| 0 <= k < i ==> table_columns(out, k, #[trigger] view.tables[k]),
        decreases request.tables.len() - i,
    {
        let ghost before = out;
        let table = &request.tables[i];
        proof {
            assert(table_acceptable(view.tables[i as int]));
            assert(view.tables[i as int] == table@);
        }
        out.target_schemas.push(table.target.schema.clone());
        out.target_tables.push(table.target.name.clone());
        out.shadow_schemas.push(table.shadow.schema.clone());
        out.shadow_tables.push(table.shadow.name.clone());
        out.source_relation_ids.push(table.source_relation_id as i64);
        out.table_generations.push(table.table_generation as i64);
        out.schema_fingerprints.push(table.schema_fingerprint.clone());
        proof {
            assert forall|k: int| 0 <= k < i + 1 implies table_columns(
                out,
                k,
                #[trigger] view.tables[k],
            ) by {
                if k < i {
                    assert(table_columns(before, k, view.tables[k]));
                }
            }
        }
        i = i + 1;
    }
    let ghost with_tables = out;
    let mut n: usize = 0;
    while n < request.initial_checkpoints.len()
        invariant
            n <= request.initial_checkpoints.len(),
            view == request@,
            out.pipeline_id == header.pipeline_id,
            out.topology_generation == header.topology_generation,
            out.table_count == header.table_count,
            out.node_count == header.node_count,
            out.checksum@ == header.checksum@,
            table_columns_have(out, view.tables.len() as int),
            boundary_columns_have(out, n as int),
            forall|k: int|
                0 <= k < view.tables.len() ==> table_columns(out, k, #[trigger] view.tables[k]),
            forall|k: int|
                0 <= k < n ==> boundary_columns(out, k, #[trigger] view.initial_checkpoints[k]),
        decreases request.initial_checkpoints.len() - n,
    {
        let ghost before = out;
        let checkpoint = &request.initial_checkpoints[n];
        proof {
            assert(view.initial_checkpoints[n as int] == checkpoint@);
        }
        out.node_ids.push(checkpoint.key.node_id);
        out.system_identifiers.push(render_decimal(checkpoint.system_identifier));
        out.timelines.push(checkpoint.timeline as i64);
        out.slot_names.push(checkpoint.slot_name.clone());
        out.consistent_lsns.push(checkpoint.applied_lsn.display());
        proof {
            assert forall|k: int| 0 <= k < view.tables.len() implies table_columns(
                out,
                k,
                #[trigger] view.tables[k],
            ) by {
                assert(table_columns(before, k, view.tables[k]));
            }
            assert forall|k: int| 0 <= k < n + 1 implies boundary_columns(
                out,
                k,
                #[trigger] view.initial_checkpoints[k],
            ) by {
                if k < n {
                    assert(boundary_columns(before, k, view.initial_checkpoints[k]));
                }
            }
        }
        n = n + 1;
    }
    Ok(out)
}

/// A list statement must write one row for each member.
pub fn ensure_rows_written(written: u64, members: usize) -> (r: Result<(), SnapshotTargetError>)
    ensures
        match r {
            Ok(()) => written == members,
            Err(e) => written != members && e == SnapshotTargetError::UnexpectedMetadataWriteCount(
                written,
            ),
        },
{
    if written == members as u64 {
        Ok(())
    } else {
        Err(SnapshotTargetError::UnexpectedMetadataWriteCount(written))
    }
}

// ---------------------------------------------------------------------------------------------
// Laws
// ---------------------------------------------------------------------------------------------

/// The rows hold what the parameters registered under the fencing token.
pub open spec fn rows_hold(
    parameters: GroupParameters,
    fencing_token: i64,
    group: GroupRow,
    tables: Seq<GroupTableRow>,
    nodes: Seq<GroupNodeRow>,
) -> bool {
    &&& group.pipeline_id == parameters.pipeline_id
    &&& group.topology_generation == parameters.topology_generation
    &&& group.fencing_token == fencing_token
    &&& group.state@ == "loading"@
    &&& group.table_count == parameters.table_count
    &&& group.node_count == parameters.node_count
    &&& group.manifest_checksum@ == parameters.checksum@
    &&& group.snapshot_progress_version == 1
    &&& tables.len() == parameters.table_count
    &&& nodes.len() == parameters.node_count
    &&& forall|i: int| #![trigger tables[i]]
        0 <= i < tables.len() ==> {
            &&& tables[i].target_schema@ == parameters.target_schemas@[i]@
            &&& tables[i].target_table@ == parameters.target_tables@[i]@
            &&& tables[i].shadow_schema@ == parameters.shadow_schemas@[i]@
            &&& tables[i].shadow_table@ == parameters.shadow_tables@[i]@
            &&& tables[i].source_relation_id == parameters.source_relation_ids@[i]
            &&& tables[i].table_generation == parameters.table_generations@[i]
            &&& tables[i].schema_fingerprint@ == parameters.schema_fingerprints@[i]@
        }
    &&& forall|i: int| #![trigger nodes[i]]
        0 <= i < nodes.len() ==> {
            &&& nodes[i].node_id == parameters.node_ids@[i]
            &&& nodes[i].system_identifier@ == parameters.system_identifiers@[i]@
            &&& nodes[i].timeline == parameters.timelines@[i]
            &&& nodes[i].slot_name@ == parameters.slot_names@[i]@
            &&& nodes[i].consistent_lsn@ == parameters.consistent_lsns@[i]@
        }
}

/// All names of the request are identifiers that PostgreSQL can hold.
pub open spec fn names_valid(request: RequestView) -> bool {
    forall|i: int| #![trigger request.tables[i]]
        0 <= i < request.tables.len() ==> request.tables[i].target.fault() is None
            && request.tables[i].shadow.fault() is None
}

proof fn lemma_table_rows_valid(rows: Seq<GroupTableRow>, group: Uuid, from: int)
    requires
        0 <= from <= rows.len(),
        forall|i: int| 0 <= i < rows.len() ==> (#[trigger] rows[i]).fault(group) is None,
    ensures
        table_rows_fault(rows, group, from) is None,
    decreases rows.len() - from,
{
    if from < rows.len() {
        lemma_table_rows_valid(rows, group, from + 1);
    }
}

/// A registered manifest reads back: rows that hold the registered parameters make up the very
/// request that was registered.
#[verifier::rlimit(40)]
pub proof fn law_registered_group_reads_back(
    request: RequestView,
    parameters: GroupParameters,
    group: GroupRow,
    tables: Seq<GroupTableRow>,
    nodes: Seq<GroupNodeRow>,
)
    requires
        acceptable(request),
        is_canonical(request),
        names_valid(request),
        registers(parameters, request),
        rows_hold(parameters, request.fence.fencing_token, group, tables, nodes),
        request.tables.len() <= usize::MAX,
        request.initial_checkpoints.len() <= usize::MAX,
    ensures
        row_request(request.snapshot_group_id, group, tables, nodes) == request,
        stored_fault(request.snapshot_group_id, group, tables, nodes) is None,
{
    let id = request.snapshot_group_id;
    assert forall|i: int| 0 <= i < tables.len() implies (#[trigger] tables[i]).table()
        == request.tables[i] && tables[i].fault(id) is None by {
        assert(table_columns(parameters, i, request.tables[i]));
        assert(table_acceptable(request.tables[i]));
        assert(tables[i].target() == request.tables[i].target);
        assert(tables[i].shadow() == request.tables[i].shadow);
    }
    assert forall|i: int| 0 <= i < nodes.len() implies (#[trigger] nodes[i]).valid()
        && nodes[i].boundary(group.pipeline_id, group.topology_generation as u64)
        == request.initial_checkpoints[i] by {
        let checkpoint = request.initial_checkpoints[i];
        assert(boundary_columns(parameters, i, checkpoint));
        assert(initial_fault(request.fence, checkpoint) is None);
        law_decimal_reads_back(checkpoint.system_identifier as nat, u64::MAX as nat);
        law_lsn_reads_back(checkpoint.applied_lsn);
    }
    assert(row_tables(tables) =~= request.tables);
    assert(row_boundaries(group, nodes) =~= request.initial_checkpoints);
    lemma_table_rows_valid(tables, id, 0);
}

/// A newer owner may take a manifest over without changing its checksum.
pub proof fn law_adoption_keeps_the_checksum(request: RequestView, fencing_token: i64)
    ensures
        manifest_digest(
            RequestView {
                fence: PipelineFence { fencing_token, ..request.fence },
                ..request
            },
        ) == manifest_digest(request),
{
}

proof fn lemma_texts_differ(a: Seq<char>, b: Seq<char>)
    requires
        encode_utf8(a) == encode_utf8(b),
    ensures
        a == b,
{
    encode_utf8_decode_utf8(a);
    encode_utf8_decode_utf8(b);
}

proof fn lemma_table_fields_differ(a: ActivationTableView, b: ActivationTableView)
    requires
        table_fields(a) == table_fields(b),
    ensures
        a == b,
{
    let x = table_fields(a);
    let y = table_fields(b);
    assert(x[0] == y[0] && x[1] == y[1] && x[2] == y[2] && x[3] == y[3] && x[4] == y[4] && x[5]
        == y[5] && x[6] == y[6]);
    lemma_texts_differ(a.target.schema, b.target.schema);
    lemma_texts_differ(a.target.name, b.target.name);
    lemma_texts_differ(a.shadow.schema, b.shadow.schema);
    lemma_texts_differ(a.shadow.name, b.shadow.name);
    lemma_texts_differ(a.schema_fingerprint, b.schema_fingerprint);
    reveal_with_fuel(pow256, 9);
    law_big_endian_differs(a.source_relation_id as nat, b.source_relation_id as nat, 4);
    law_big_endian_differs(a.table_generation as nat, b.table_generation as nat, 8);
}

proof fn lemma_boundary_fields_differ(a: CheckpointView, b: CheckpointView)
    requires
        boundary_fields(a) == boundary_fields(b),
        a.key.pipeline_id == b.key.pipeline_id,
        a.key.topology_generation == b.key.topology_generation,
    ensures
        a == b,
{
    let x = boundary_fields(a);
    let y = boundary_fields(b);
    assert(x[0] == y[0] && x[1] == y[1] && x[2] == y[2] && x[3] == y[3] && x[4] == y[4]);
    reveal_with_fuel(pow256, 9);
    law_big_endian_differs(node_bits(a.key.node_id), node_bits(b.key.node_id), 4);
    law_big_endian_differs(a.system_identifier as nat, b.system_identifier as nat, 8);
    law_big_endian_differs(a.timeline as nat, b.timeline as nat, 4);
    law_big_endian_differs(a.applied_lsn.value as nat, b.applied_lsn.value as nat, 8);
    lemma_texts_differ(a.slot_name, b.slot_name);
}

proof fn lemma_table_fields_len(tables: Seq<ActivationTableView>)
    ensures
        all_table_fields(tables).len() == 7 * tables.len(),
    decreases tables.len(),
{
    if tables.len() > 0 {
        lemma_table_fields_len(tables.drop_last());
    }
}

proof fn lemma_boundary_fields_len(checkpoints: Seq<CheckpointView>)
    ensures
        all_boundary_fields(checkpoints).len() == 5 * checkpoints.len(),
    decreases checkpoints.len(),
{
    if checkpoints.len() > 0 {
        lemma_boundary_fields_len(checkpoints.drop_last());
    }
}

proof fn lemma_all_table_fields_differ(a: Seq<ActivationTableView>, b: Seq<ActivationTableView>)
    requires
        a.len() == b.len(),
        all_table_fields(a) == all_table_fields(b),
    ensures
        a == b,
    decreases a.len(),
{
    if a.len() > 0 {
        let x = all_table_fields(a.drop_last());
        let y = all_table_fields(b.drop_last());
        lemma_table_fields_len(a.drop_last());
        lemma_table_fields_len(b.drop_last());
        let n = x.len() as int;
        assert(all_table_fields(a).take(n) =~= x);
        assert(all_table_fields(b).take(n) =~= y);
        assert(all_table_fields(a).skip(n) =~= table_fields(a.last()));
        assert(all_table_fields(b).skip(n) =~= table_fields(b.last()));
        lemma_all_table_fields_differ(a.drop_last(), b.drop_last());
        lemma_table_fields_differ(a.last(), b.last());
        assert(a =~= a.drop_last().push(a.last()));
        assert(b =~= b.drop_last().push(b.last()));
    } else {
        assert(a =~= b);
    }
}

/// All node boundaries belong to one topology.
pub open spec fn one_topology(
    checkpoints: Seq<CheckpointView>,
    pipeline_id: PipelineId,
    topology_generation: u64,
) -> bool {
    forall|i: int|
        0 <= i < checkpoints.len() ==> (#[trigger] checkpoints[i]).key.pipeline_id == pipeline_id
            && checkpoints[i].key.topology_generation == topology_generation
}

proof fn lemma_all_boundary_fields_differ(
    a: Seq<CheckpointView>,
    b: Seq<CheckpointView>,
    pipeline_id: PipelineId,
    topology_generation: u64,
)
    requires
        one_topology(a, pipeline_id, topology_generation),
        one_topology(b, pipeline_id, topology_generation),
        all_boundary_fields(a) == all_boundary_fields(b),
    ensures
        a == b,
    decreases a.len(),
{
    lemma_boundary_fields_len(a);
    lemma_boundary_fields_len(b);
    if a.len() > 0 {
        let x = all_boundary_fields(a.drop_last());
        let y = all_boundary_fields(b.drop_last());
        lemma_boundary_fields_len(a.drop_last());
        lemma_boundary_fields_len(b.drop_last());
        let n = x.len() as int;
        assert(all_boundary_fields(a).take(n) =~= x);
        assert(all_boundary_fields(b).take(n) =~= y);
        assert(all_boundary_fields(a).skip(n) =~= boundary_fields(a.last()));
        assert(all_boundary_fields(b).skip(n) =~= boundary_fields(b.last()));
        assert forall|i: int| 0 <= i < a.drop_last().len() implies (
        #[trigger] a.drop_last()[i]).key.pipeline_id == pipeline_id
            && a.drop_last()[i].key.topology_generation == topology_generation by {
            assert(a.drop_last()[i] == a[i]);
        }
        assert forall|i: int| 0 <= i < b.drop_last().len() implies (
        #[trigger] b.drop_last()[i]).key.pipeline_id == pipeline_id
            && b.drop_last()[i].key.topology_generation == topology_generation by {
            assert(b.drop_last()[i] == b[i]);
        }
        lemma_all_boundary_fields_differ(
            a.drop_last(),
            b.drop_last(),
            pipeline_id,
            topology_generation,
        );
        assert(a.last() == a[a.len() - 1]);
        assert(b.last() == b[b.len() - 1]);
        lemma_boundary_fields_differ(a.last(), b.last());
        assert(a =~= a.drop_last().push(a.last()));
        assert(b =~= b.drop_last().push(b.last()));
    } else {
        assert(a =~= b);
    }
}

/// The checksum covers every field but the fencing token: two manifests with equally many tables
/// whose digested bytes are the same differ at most in that token.
pub proof fn law_checksum_covers_every_field(a: RequestView, b: RequestView)
    requires
        acceptable(a),
        acceptable(b),
        a.tables.len() == b.tables.len(),
        frameable(manifest_fields(a)),
        frameable(manifest_fields(b)),
        framed(manifest_fields(a)) == framed(manifest_fields(b)),
    ensures
        a == (RequestView {
            fence: PipelineFence { fencing_token: a.fence.fencing_token, ..b.fence },
            ..b
        }),
{
    law_framing_is_unambiguous(manifest_fields(a), manifest_fields(b));
    let x = manifest_fields(a);
    let y = manifest_fields(b);
    lemma_table_fields_len(a.tables);
    lemma_table_fields_len(b.tables);
    let n = 4 + 7 * a.tables.len() as int;
    assert(x.take(4) =~= header_fields(a));
    assert(y.take(4) =~= header_fields(b));
    assert(x.subrange(4, n) =~= all_table_fields(a.tables));
    assert(y.subrange(4, n) =~= all_table_fields(b.tables));
    assert(x.skip(n) =~= all_boundary_fields(a.initial_checkpoints));
    assert(y.skip(n) =~= all_boundary_fields(b.initial_checkpoints));
    assert(header_fields(a)[1] == header_fields(b)[1]);
    assert(header_fields(a)[2] == header_fields(b)[2]);
    assert(header_fields(a)[3] == header_fields(b)[3]);
    reveal_with_fuel(pow256, 17);
    law_big_endian_differs(
        a.snapshot_group_id.value as nat,
        b.snapshot_group_id.value as nat,
        16,
    );
    law_big_endian_differs(
        a.fence.pipeline_id.uuid.value as nat,
        b.fence.pipeline_id.uuid.value as nat,
        16,
    );
    law_big_endian_differs(
        a.fence.topology_generation as nat,
        b.fence.topology_generation as nat,
        8,
    );
    lemma_all_table_fields_differ(a.tables, b.tables);
    assert(one_topology(
        a.initial_checkpoints,
        a.fence.pipeline_id,
        a.fence.topology_generation,
    )) by {
        assert forall|i: int| 0 <= i < a.initial_checkpoints.len() implies (
        #[trigger] a.initial_checkpoints[i]).key.pipeline_id == a.fence.pipeline_id
            && a.initial_checkpoints[i].key.topology_generation == a.fence.topology_generation by {
            assert(initial_fault(a.fence, a.initial_checkpoints[i]) is None);
        }
    }
    assert(one_topology(
        b.initial_checkpoints,
        b.fence.pipeline_id,
        b.fence.topology_generation,
    )) by {
        assert forall|i: int| 0 <= i < b.initial_checkpoints.len() implies (
        #[trigger] b.initial_checkpoints[i]).key.pipeline_id == b.fence.pipeline_id
            && b.initial_checkpoints[i].key.topology_generation == b.fence.topology_generation by {
            assert(initial_fault(b.fence, b.initial_checkpoints[i]) is None);
        }
    }
    lemma_all_boundary_fields_differ(
        a.initial_checkpoints,
        b.initial_checkpoints,
        a.fence.pipeline_id,
        a.fence.topology_generation,
    );
}

/// The texts of the status, as the stored rows hold them.
pub proof fn law_group_status_texts(value: Seq<char>)
    ensures
        SnapshotGroupStatus::named(value) == Some(SnapshotGroupStatus::Loading) <==> value
            == "loading"@,
        SnapshotGroupStatus::named(value) == Some(SnapshotGroupStatus::Active) <==> value
            == "active"@,
{
    reveal_strlit("loading");
    reveal_strlit("active");
    assert("loading"@.len() == 7);
    assert("active"@.len() == 6);
}

/// A request can become a manifest exactly where it has a group, tables and nodes, a positive token
/// and a topology that can be stored; each table has a shadow of another name in its own schema, a
/// relation, a generation that can be stored and a fingerprint; no relation and no node stands
/// twice; and each node boundary belongs to the fence, is not zero and can be stored.
pub proof fn law_which_requests_are_acceptable(request: RequestView)
    ensures
        acceptable(request) <==> {
            let tables = request.tables;
            let nodes = request.initial_checkpoints;
            &&& request.snapshot_group_id.value > 0
            &&& tables.len() > 0
            &&& nodes.len() > 0
            &&& request.fence.fencing_token > 0
            &&& request.fence.topology_generation <= i64::MAX
            &&& forall|i: int|
                0 <= i < tables.len() ==> {
                    &&& (#[trigger] tables[i]).target != tables[i].shadow
                    &&& tables[i].target.schema == tables[i].shadow.schema
                    &&& tables[i].source_relation_id > 0
                    &&& tables[i].table_generation <= i64::MAX
                    &&& tables[i].schema_fingerprint.len() > 0
                }
            &&& forall|i: int, j: int|
                #![trigger tables[i], tables[j]]
                0 <= i < j < tables.len() ==> {
                    &&& tables[i].target != tables[j].target
                    &&& tables[i].target != tables[j].shadow
                    &&& tables[i].shadow != tables[j].target
                    &&& tables[i].shadow != tables[j].shadow
                    &&& tables[i].source_relation_id != tables[j].source_relation_id
                }
            &&& forall|i: int|
                0 <= i < nodes.len() ==> {
                    &&& (#[trigger] nodes[i]).key.pipeline_id == request.fence.pipeline_id
                    &&& nodes[i].key.topology_generation == request.fence.topology_generation
                    &&& nodes[i].applied_lsn.value > 0
                    &&& nodes[i].timeline > 0
                    &&& nodes[i].slot_name.len() > 0
                    &&& !nodes[i].slot_name.contains('\0')
                }
            &&& forall|i: int, j: int|
                #![trigger nodes[i], nodes[j]]
                0 <= i < j < nodes.len() ==> nodes[i].key.node_id != nodes[j].key.node_id
        },
{
    let tables = request.tables;
    let nodes = request.initial_checkpoints;
    assert(tables_acceptable(tables) <==> forall|i: int|
        0 <= i < tables.len() ==> table_acceptable(#[trigger] tables[i]));
    assert(relations_differ(tables) <==> forall|i: int, j: int|
        #![trigger tables[i], tables[j]]
        0 <= i < j < tables.len() ==> {
            &&& tables[i].target != tables[j].target
            &&& tables[i].target != tables[j].shadow
            &&& tables[i].shadow != tables[j].target
            &&& tables[i].shadow != tables[j].shadow
            &&& tables[i].source_relation_id != tables[j].source_relation_id
        });
}

/// A canonical request names its tables by ascending target, schema before name, and its nodes by
/// ascending number.
pub proof fn law_what_is_canonical(request: RequestView)
    requires
        is_canonical(request),
    ensures
        forall|i: int, j: int|
            #![trigger request.tables[i], request.tables[j]]
            0 <= i < j < request.tables.len() ==> name_less(
                request.tables[i].target,
                request.tables[j].target,
            ),
        forall|i: int, j: int|
            #![trigger request.initial_checkpoints[i], request.initial_checkpoints[j]]
            0 <= i < j < request.initial_checkpoints.len()
                ==> request.initial_checkpoints[i].key.node_id
                < request.initial_checkpoints[j].key.node_id,
{
    assert forall|i: int, j: int|
        #![trigger request.tables[i], request.tables[j]]
        0 <= i < j < request.tables.len() implies name_less(
        request.tables[i].target,
        request.tables[j].target,
    ) by {
        assert(by_target()(request.tables[i], request.tables[j]));
    }
    let nodes = request.initial_checkpoints;
    assert forall|i: int, j: int|
        #![trigger nodes[i], nodes[j]]
        0 <= i < j < nodes.len() implies nodes[i].key.node_id < nodes[j].key.node_id by {
        assert(by_node()(nodes[i], nodes[j]));
    }
}

/// A worker takes a group over exactly in the same pipeline and topology and under no older token.
pub proof fn law_who_takes_a_group_over(current: PipelineFence, owner: PipelineFence)
    ensures
        fence_admits(current, owner) <==> {
            &&& owner.pipeline_id == current.pipeline_id
            &&& owner.topology_generation == current.topology_generation
            &&& owner.fencing_token <= current.fencing_token
        },
{
}

/// The table of a target is one of the manifest with that target, where there is one.
pub proof fn law_the_table_of_a_target(tables: Seq<ActivationTableView>, target: NameView)
    ensures
        table_for(tables, target) matches Some(table) ==> tables.contains(table) && table.target
            == target,
        table_for(tables, target) is None <==> forall|i: int|
            0 <= i < tables.len() ==> (#[trigger] tables[i]).target != target,
    decreases tables.len(),
{
    if tables.len() > 0 && tables[0].target != target {
        let rest = tables.drop_first();
        law_the_table_of_a_target(rest, target);
        assert forall|i: int| 0 <= i < rest.len() implies rest[i] == tables[i + 1] by {}
        match table_for(tables, target) {
            Some(table) => {
                let i = choose|i: int| 0 <= i < rest.len() && rest[i] == table;
                assert(tables[i + 1] == table);
                if forall|i: int| 0 <= i < tables.len() ==> (#[trigger] tables[i]).target
                    != target {
                    assert(tables[i + 1].target != target);
                }
            },
            None => {
                assert forall|i: int| 0 <= i < tables.len() implies (#[trigger] tables[i]).target
                    != target by {
                    if i > 0 {
                        assert(rest[i - 1] == tables[i]);
                    }
                }
            },
        }
    } else if tables.len() > 0 {
        assert(tables[0].target == target);
    }
}

/// A shadow load belongs to a stored group exactly where group and fence are the same and the group
/// has, for the load's target, the load's own shadow, relation, generation and fingerprint.
pub proof fn law_which_loads_belong_to_a_group(
    stored: RequestView,
    plan: SnapshotTargetPlan,
    ownership: SnapshotOwnership,
)
    ensures
        is_member(stored, plan, ownership) ==> {
            &&& stored.snapshot_group_id == ownership.snapshot_group_id
            &&& stored.fence == ownership.fence
            &&& exists|i: int|
                {
                    &&& 0 <= i < stored.tables.len()
                    &&& (#[trigger] stored.tables[i]).target == plan.target@
                    &&& stored.tables[i].shadow == plan.shadow.target@
                    &&& stored.tables[i].source_relation_id == plan.source_relation_id
                    &&& stored.tables[i].table_generation == plan.source_generation
                    &&& stored.tables[i].schema_fingerprint == ownership.schema_fingerprint@
                }
        },
{
    law_the_table_of_a_target(stored.tables, plan.target@);
    if is_member(stored, plan, ownership) {
        let table = table_for(stored.tables, plan.target@)->0;
        let i = choose|i: int| 0 <= i < stored.tables.len() && stored.tables[i] == table;
        assert(stored.tables[i] == table);
    }
}

/// What the checksum covers: the version of the format, the group, the pipeline and the topology,
/// then of each table both names, the relation, the generation and the fingerprint, then of each
/// node its number, system, timeline, slot and position.
pub proof fn law_what_the_checksum_covers(
    request: RequestView,
    table: ActivationTableView,
    node: CheckpointView,
)
    ensures
        manifest_fields(request).take(4) == seq![
            encode_utf8("pg2cb-snapshot-manifest-v1"@),
            big_endian(request.snapshot_group_id.value as nat, 16),
            big_endian(request.fence.pipeline_id.uuid.value as nat, 16),
            big_endian(request.fence.topology_generation as nat, 8),
        ],
        table_fields(table) == seq![
            encode_utf8(table.target.schema),
            encode_utf8(table.target.name),
            encode_utf8(table.shadow.schema),
            encode_utf8(table.shadow.name),
            big_endian(table.source_relation_id as nat, 4),
            big_endian(table.table_generation as nat, 8),
            encode_utf8(table.schema_fingerprint),
        ],
        node.key.node_id >= 0 ==> boundary_fields(node)[0] == big_endian(
            node.key.node_id as nat,
            4,
        ),
        boundary_fields(node).skip(1) == seq![
            big_endian(node.system_identifier as nat, 8),
            big_endian(node.timeline as nat, 4),
            encode_utf8(node.slot_name),
            big_endian(node.applied_lsn.value as nat, 8),
        ],
{
    assert(manifest_fields(request).take(4) =~= header_fields(request));
    assert(boundary_fields(node).skip(1) =~= seq![
        big_endian(node.system_identifier as nat, 8),
        big_endian(node.timeline as nat, 4),
        encode_utf8(node.slot_name),
        big_endian(node.applied_lsn.value as nat, 8),
    ]);
}

/// A stored group has a meaning exactly where its header does, it has as many tables and nodes as
/// the header says and each of them has a meaning, and together they are an acceptable request in
/// canonical order with the stored checksum.
pub proof fn law_which_groups_have_a_meaning(
    id: Uuid,
    group: GroupRow,
    tables: Seq<GroupTableRow>,
    nodes: Seq<GroupNodeRow>,
)
    ensures
        stored_fault(id, group, tables, nodes) is None <==> {
            let request = row_request(id, group, tables, nodes);
            &&& group.topology_generation >= 0
            &&& group.state@ == "loading"@ || group.state@ == "active"@
            &&& 0 < group.table_count <= usize::MAX
            &&& 0 < group.node_count <= usize::MAX
            &&& group.snapshot_progress_version == 0 || group.snapshot_progress_version == 1
            &&& group.fencing_token > 0
            &&& group.manifest_checksum@.len() == 32
            &&& tables.len() == group.table_count
            &&& table_rows_fault(tables, id, 0) is None
            &&& nodes.len() == group.node_count
            &&& forall|i: int|
                0 <= i < nodes.len() ==> {
                    &&& unsigned_number(
                        (#[trigger] nodes[i]).system_identifier@,
                        u64::MAX as nat,
                    ) is Some
                    &&& 0 <= nodes[i].timeline <= u32::MAX
                    &&& parsed_lsn(nodes[i].consistent_lsn@) is Some
                }
            &&& acceptable(request)
            &&& is_canonical(request)
            &&& manifest_digest(request) == group.manifest_checksum@
        },
{
    law_group_status_texts(group.state@);
    assert(node_rows_valid(nodes) <==> forall|i: int|
        0 <= i < nodes.len() ==> {
            &&& unsigned_number((#[trigger] nodes[i]).system_identifier@, u64::MAX as nat) is Some
            &&& 0 <= nodes[i].timeline <= u32::MAX
            &&& parsed_lsn(nodes[i].consistent_lsn@) is Some
        });
}

/// What registering a group comes to: a new one is registered, a stored one is recognised by the
/// state that it is in where it is the same request, and refused where it is another.
pub proof fn law_decided_registrations(
    stored: StoredSnapshotGroup,
    canonical: SnapshotActivationRequest,
    first: Result<SnapshotGroupRegistrationDisposition, SnapshotTargetError>,
    again: Result<SnapshotGroupRegistrationDisposition, SnapshotTargetError>,
)
    requires
        call_ensures(judge_registration, (None::<&StoredSnapshotGroup>, &canonical), first),
        call_ensures(judge_registration, (Some(&stored), &canonical), again),
    ensures
        first == Ok::<SnapshotGroupRegistrationDisposition, SnapshotTargetError>(
            SnapshotGroupRegistrationDisposition::Registered,
        ),
        again is Ok <==> stored.request@ == canonical@,
        again matches Ok(disposition) ==> {
            &&& disposition is AlreadyActive <==> stored.state is Active
            &&& disposition is AlreadyRegistered <==> stored.state is Loading
        },
{
}

/// A group is given out, as it is stored, to a worker of its pipeline and generation whose token is
/// not older.
pub proof fn law_which_groups_are_inspected(
    stored: StoredSnapshotGroup,
    current: PipelineFence,
    r: Result<SnapshotGroupManifest, SnapshotTargetError>,
)
    requires
        call_ensures(inspect_group, (stored, current), r),
    ensures
        r is Ok <==> {
            &&& current.pipeline_id == stored.request.fence.pipeline_id
            &&& current.topology_generation == stored.request.fence.topology_generation
            &&& current.fencing_token >= stored.request.fence.fencing_token
        },
        r matches Ok(manifest) ==> manifest.status == stored.state && manifest.request
            == stored.request,
{
}

/// A shadow is loaded only into a group that is loading and that it belongs to.
pub proof fn law_which_shadows_are_loaded(
    stored: StoredSnapshotGroup,
    plan: SnapshotTargetPlan,
    ownership: SnapshotOwnership,
    member: Result<(), SnapshotTargetError>,
    r: Result<(), SnapshotTargetError>,
)
    requires
        call_ensures(validate_apply_membership, (&stored, &plan, &ownership), member),
        call_ensures(judge_shadow_load, (&stored, &plan, &ownership), r),
    ensures
        r is Ok <==> member is Ok && stored.state is Loading,
        member is Ok && stored.state is Active ==> r == Err::<(), SnapshotTargetError>(
            SnapshotTargetError::SnapshotGroupAlreadyActive(ownership.snapshot_group_id),
        ),
{
}

/// A list statement writes as many rows as the list has members, and a group has an identifier.
pub proof fn law_written_rows_and_identifiers(
    written: u64,
    members: usize,
    group: Uuid,
    rows: Result<(), SnapshotTargetError>,
    identified: Result<(), SnapshotTargetError>,
)
    requires
        call_ensures(ensure_rows_written, (written, members), rows),
        call_ensures(check_group_id, (group,), identified),
    ensures
        rows is Ok <==> written as int == members as int,
        identified is Ok <==> group.value != 0,
{
}

/// A group that is asked for is the stored one, or it is not registered.
pub proof fn law_required_groups(
    group: Uuid,
    stored: StoredSnapshotGroup,
    found: Result<StoredSnapshotGroup, SnapshotTargetError>,
    missing: Result<StoredSnapshotGroup, SnapshotTargetError>,
)
    requires
        call_ensures(require_group, (group, Some(stored)), found),
        call_ensures(require_group, (group, None::<StoredSnapshotGroup>), missing),
    ensures
        found == Ok::<StoredSnapshotGroup, SnapshotTargetError>(stored),
        missing == Err::<StoredSnapshotGroup, SnapshotTargetError>(
            SnapshotTargetError::SnapshotGroupNotRegistered(group),
        ),
{
}

/// A canonical request is a rearrangement of an acceptable one: it names the same group under the
/// same fence, with as many tables and nodes.
pub proof fn law_what_a_canonical_request_keeps(
    request: SnapshotActivationRequest,
    r: Result<SnapshotActivationRequest, SnapshotTargetError>,
)
    requires
        call_ensures(canonical_request, (&request,), r),
    ensures
        r is Ok <==> acceptable(request@),
        r matches Ok(canonical) ==> {
            &&& is_canonical(canonical@)
            &&& canonical.snapshot_group_id == request.snapshot_group_id
            &&& canonical.fence == request.fence
            &&& canonical.tables@.len() == request.tables@.len()
        },
{
    if let Ok(canonical) = r {
        assert(canonical@.tables.len() == canonical.tables@.len());
        assert(request@.tables.len() == request.tables@.len());
    }
}

/// How a difference between two requests is told: by the field, the stored value and the caller's.
pub proof fn law_told_differences_of_requests(stored: RequestView, caller: RequestView)
    ensures
        ({
            let told = request_difference(stored, caller);
            let other_group = stored.snapshot_group_id != caller.snapshot_group_id;
            let other_pipeline = stored.fence.pipeline_id != caller.fence.pipeline_id;
            let other_topology = stored.fence.topology_generation
                != caller.fence.topology_generation;
            &&& other_group ==> told == Some(
                "snapshot_group_id"@ + ": stored="@ + stored.snapshot_group_id.text()
                    + ", caller="@ + caller.snapshot_group_id.text(),
            )
            &&& !other_group && other_pipeline ==> told == Some(
                "fence.pipeline_id"@ + ": stored="@ + stored.fence.pipeline_id.uuid.text()
                    + ", caller="@ + caller.fence.pipeline_id.uuid.text(),
            )
            &&& !other_group && !other_pipeline && other_topology ==> told == Some(
                "fence.topology_generation"@ + ": stored="@ + decimal(
                    stored.fence.topology_generation as nat,
                ) + ", caller="@ + decimal(caller.fence.topology_generation as nat),
            )
            &&& !other_group && !other_pipeline && !other_topology && stored.fence.fencing_token
                != caller.fence.fencing_token ==> told == Some(
                "fence.fencing_token"@ + ": stored="@ + signed_decimal(
                    stored.fence.fencing_token as int,
                ) + ", caller="@ + signed_decimal(caller.fence.fencing_token as int),
            )
            &&& stored.snapshot_group_id == caller.snapshot_group_id && stored.fence == caller.fence
                && stored.tables.len() != caller.tables.len() ==> told == Some(
                "tables.len"@ + ": stored="@ + decimal(stored.tables.len()) + ", caller="@ + decimal(
                    caller.tables.len(),
                ),
            )
        }),
{
}

/// What is told of a request that cannot be accepted is so.
pub proof fn law_told_faults_of_requests(request: RequestView, checkpoint: CheckpointView)
    ensures
        header_fault(request) matches Some(e) ==> {
            ||| e is InvalidSnapshotGroupId && request.snapshot_group_id.value == 0
            ||| e is EmptyActivationGroup && (request.tables.len() == 0
                || request.initial_checkpoints.len() == 0)
            ||| e == SnapshotTargetError::Checkpoint(CheckpointError::InvalidFencingToken)
                && request.fence.fencing_token <= 0
            ||| e == SnapshotTargetError::GenerationOutOfRange(request.fence.topology_generation)
                && request.fence.topology_generation > i64::MAX
        },
        initial_fault(request.fence, checkpoint) matches Some(e) ==> {
            ||| e == SnapshotTargetError::Checkpoint(CheckpointError::FenceKeyMismatch) && (
            checkpoint.key.pipeline_id != request.fence.pipeline_id
                || checkpoint.key.topology_generation != request.fence.topology_generation)
            ||| e == SnapshotTargetError::ZeroInitialCheckpoint(checkpoint.key.node_id)
                && checkpoint.applied_lsn.value == 0
            ||| e == SnapshotTargetError::Checkpoint(
                CheckpointError::GenerationOutOfRange(checkpoint.key.topology_generation),
            ) && checkpoint.key.topology_generation > i64::MAX
            ||| e == SnapshotTargetError::Checkpoint(CheckpointError::InvalidTimeline)
                && checkpoint.timeline == 0
            ||| e == SnapshotTargetError::Checkpoint(CheckpointError::InvalidSlotName) && (
            checkpoint.slot_name.len() == 0 || checkpoint.slot_name.contains('\0'))
        },
{
}

} // verus!
