//! User types that a shadow table needs, and their evolution in place.

use crate::checkpoint::PipelineFence;
use crate::digest::{sha256, sha256_digest};
use crate::ident::PipelineId;
use crate::schema::{DefinitionView, UserTypeDefinition, UserTypePlan};
use crate::snapshot::SnapshotTargetError;
use crate::source::{clone_texts, NameView, QualifiedName};
use crate::sql::{literal, name_render_fault, quote_literal, quote_qualified_name, quoted_name, SqlRenderError};
use crate::text::{same_text, same_texts, texts};
use vstd::prelude::*;
use vstd::utf8::encode_utf8;

verus! {

/// Reads the managed-type row of the type `$1`.`$2` and locks it.
pub const LOCK_MANAGED_TYPE_SQL: &'static str =
    "SELECT pipeline_id, definition_checksum, fencing_token FROM \"pg2cb_meta\".managed_types WHERE type_schema = $1 AND type_name = $2 FOR UPDATE";

/// Registers a newly created type.
pub const INSERT_MANAGED_TYPE_SQL: &'static str =
    "INSERT INTO \"pg2cb_meta\".managed_types (type_schema, type_name, pipeline_id, definition_checksum, fencing_token) VALUES ($1, $2, $3, $4, $5)";

/// Records the definition that a managed type now has.
pub const UPDATE_MANAGED_TYPE_SQL: &'static str =
    "UPDATE \"pg2cb_meta\".managed_types SET definition_checksum = $3, fencing_token = $4, updated_at = clock_timestamp() WHERE type_schema = $1 AND type_name = $2";

/// Reads the catalog kind of the type `$1`.`$2`.
pub const TYPE_KIND_SQL: &'static str = "SELECT t.typtype::text
               FROM pg_catalog.pg_type t
               JOIN pg_catalog.pg_namespace n ON n.oid = t.typnamespace
              WHERE n.nspname = $1 AND t.typname = $2";

/// Reads the labels of the enum `$1`.`$2` in their order.
pub const ENUM_LABELS_SQL: &'static str = "SELECT e.enumlabel
               FROM pg_catalog.pg_type t
               JOIN pg_catalog.pg_namespace n ON n.oid = t.typnamespace
               JOIN pg_catalog.pg_enum e ON e.enumtypid = t.oid
              WHERE n.nspname = $1 AND t.typname = $2
              ORDER BY e.enumsortorder";

#[derive(Debug, Clone, PartialEq, Eq)]
pub struct ManagedTypeRecord {
    pub pipeline_id: PipelineId,
    pub definition_checksum: Vec<u8>,
    pub fencing_token: i64,
}

#[derive(Debug, Clone, Copy, PartialEq, Eq, Structural)]
pub enum ManagedTypeAction {
    Create,
    Reuse,
    Reconcile,
}

/// Whether two byte strings are the same.
pub fn same_octets(a: &[u8], b: &[u8]) -> (r: bool)
    ensures
        r == (a@ == b@),
{
    if a.len() != b.len() {
        return false;
    }
    let mut i: usize = 0;
    while i < a.len()
        invariant
            i <= a.len(),
            a.len() == b.len(),
            forall|k: int| 0 <= k < i ==> a@[k] == b@[k],
        decreases a.len() - i,
    {
        if a[i] != b[i] {
            return false;
        }
        i = i + 1;
    }
    proof {
        assert(a@ =~= b@);
    }
    true
}

/// What is done about a type: nothing is done about one that this worker may not touch.
pub open spec fn type_action(
    exists: bool,
    managed: Option<&ManagedTypeRecord>,
    pipeline_id: PipelineId,
    fencing_token: i64,
    definition_checksum: Seq<u8>,
) -> Option<ManagedTypeAction> {
    match (exists, managed) {
        (false, None) => Some(ManagedTypeAction::Create),
        (true, Some(record)) => if record.pipeline_id != pipeline_id || record.fencing_token
            > fencing_token {
            None
        } else if record.definition_checksum@ != definition_checksum {
            Some(ManagedTypeAction::Reconcile)
        } else {
            Some(ManagedTypeAction::Reuse)
        },
        _ => None,
    }
}

/// The error tells why the type may not be touched.
pub open spec fn refuses_type(
    e: SnapshotTargetError,
    name: NameView,
    exists: bool,
    managed: Option<&ManagedTypeRecord>,
    pipeline_id: PipelineId,
    fencing_token: i64,
) -> bool {
    match managed {
        None => exists && (e matches SnapshotTargetError::ExistingPrerequisiteType(n) && n@
            == name.text()),
        Some(record) => if !exists {
            e matches SnapshotTargetError::ManagedPrerequisiteTypeMissing(n) && n@ == name.text()
        } else if record.pipeline_id != pipeline_id {
            e matches SnapshotTargetError::PrerequisiteTypeManagedByOtherPipeline {
                name: n,
                expected,
                actual,
            } && n@ == name.text() && expected == pipeline_id && actual == record.pipeline_id
        } else {
            record.fencing_token > fencing_token && (
            e matches SnapshotTargetError::ManagedByNewerFence { object, current, actual }
                && object@ == name.text() && current == fencing_token && actual
                == record.fencing_token)
        },
    }
}

pub fn classify_prerequisite_type(
    name: &QualifiedName,
    exists: bool,
    managed: Option<&ManagedTypeRecord>,
    pipeline_id: PipelineId,
    fencing_token: i64,
    definition_checksum: &[u8],
) -> (r: Result<ManagedTypeAction, SnapshotTargetError>)
    ensures
        match r {
            Ok(action) => type_action(
                exists,
                managed,
                pipeline_id,
                fencing_token,
                definition_checksum@,
            ) == Some(action),
            Err(e) => {
                &&& type_action(
                    exists,
                    managed,
                    pipeline_id,
                    fencing_token,
                    definition_checksum@,
                ) is None
                &&& refuses_type(e, name@, exists, managed, pipeline_id, fencing_token)
            },
        },
{
    match managed {
        None => {
            if exists {
                Err(SnapshotTargetError::ExistingPrerequisiteType(name.display()))
            } else {
                Ok(ManagedTypeAction::Create)
            }
        },
        Some(record) => {
            if !exists {
                Err(SnapshotTargetError::ManagedPrerequisiteTypeMissing(name.display()))
            } else if record.pipeline_id != pipeline_id {
                Err(
                    SnapshotTargetError::PrerequisiteTypeManagedByOtherPipeline {
                        name: name.display(),
                        expected: pipeline_id,
                        actual: record.pipeline_id,
                    },
                )
            } else if record.fencing_token > fencing_token {
                Err(
                    SnapshotTargetError::ManagedByNewerFence {
                        object: name.display(),
                        current: fencing_token,
                        actual: record.fencing_token,
                    },
                )
            } else if !same_octets(record.definition_checksum.as_slice(), definition_checksum) {
                Ok(ManagedTypeAction::Reconcile)
            } else {
                Ok(ManagedTypeAction::Reuse)
            }
        },
    }
}

/// The digest that tells one definition of a type from another.
pub fn definition_checksum(create_sql: &str) -> (r: [u8; 32])
    ensures
        r@ == sha256(encode_utf8(create_sql@)),
{
    sha256_digest(create_sql.as_bytes())
}

/// Decides what is done about a type that a shadow needs, and gives its definition's digest.
pub fn judge_prerequisite(
    prerequisite: &UserTypePlan,
    exists: bool,
    managed: Option<&ManagedTypeRecord>,
    fence: PipelineFence,
) -> (r: Result<(ManagedTypeAction, [u8; 32]), SnapshotTargetError>)
    ensures
        match r {
            Ok((action, checksum)) => {
                &&& checksum@ == sha256(encode_utf8(prerequisite.create_sql@))
                &&& type_action(
                    exists,
                    managed,
                    fence.pipeline_id,
                    fence.fencing_token,
                    checksum@,
                ) == Some(action)
            },
            Err(e) => {
                &&& type_action(
                    exists,
                    managed,
                    fence.pipeline_id,
                    fence.fencing_token,
                    sha256(encode_utf8(prerequisite.create_sql@)),
                ) is None
                &&& refuses_type(
                    e,
                    prerequisite.name@,
                    exists,
                    managed,
                    fence.pipeline_id,
                    fence.fencing_token,
                )
            },
        },
{
    let checksum = definition_checksum(prerequisite.create_sql.as_str());
    match classify_prerequisite_type(
        &prerequisite.name,
        exists,
        managed,
        fence.pipeline_id,
        fence.fencing_token,
        checksum.as_slice(),
    ) {
        Err(e) => Err(e),
        Ok(action) => Ok((action, checksum)),
    }
}

// ---------------------------------------------------------------------------------------------
// Enum evolution
// ---------------------------------------------------------------------------------------------

#[allow(inconsistent_fields)]
#[derive(Debug, Clone, PartialEq, Eq)]
pub enum EnumAlteration {
    AddBefore { label: String, before: String },
    Append { label: String },
    Rename { from: String, to: String },
}

/// The model of one change of an enum.
#[allow(inconsistent_fields)]
pub enum AlterationView {
    AddBefore { label: Seq<char>, before: Seq<char> },
    Append { label: Seq<char> },
    Rename { from: Seq<char>, to: Seq<char> },
}

impl View for EnumAlteration {
    type V = AlterationView;

    open spec fn view(&self) -> AlterationView {
        match self {
            EnumAlteration::AddBefore { label, before } => AlterationView::AddBefore {
                label: label@,
                before: before@,
            },
            EnumAlteration::Append { label } => AlterationView::Append { label: label@ },
            EnumAlteration::Rename { from, to } => AlterationView::Rename { from: from@, to: to@ },
        }
    }
}

/// The models of a list of changes.
pub open spec fn alterations(list: Seq<EnumAlteration>) -> Seq<AlterationView> {
    Seq::new(list.len(), |i: int| list[i]@)
}

/// The labels occur in the other list in the same order, others between them.
pub open spec fn embeds(labels: Seq<Seq<char>>, whole: Seq<Seq<char>>) -> bool
    decreases whole.len(),
{
    if labels.len() == 0 {
        true
    } else if whole.len() == 0 {
        false
    } else if labels[0] == whole[0] {
        embeds(labels.drop_first(), whole.drop_first())
    } else {
        embeds(labels, whole.drop_first())
    }
}

/// The additions that turn the current labels into the desired ones, from the given position on.
/// A label that would have to move has no such addition.
pub open spec fn growth(
    current: Seq<Seq<char>>,
    desired: Seq<Seq<char>>,
    position: int,
) -> Option<Seq<AlterationView>>
    decreases desired.len() - position,
{
    if position >= desired.len() {
        Some(Seq::empty())
    } else {
        let label = desired[position];
        if position < current.len() && current[position] == label {
            growth(current, desired, position + 1)
        } else if current.contains(label) {
            None
        } else {
            let step = if position < current.len() {
                AlterationView::AddBefore { label, before: current[position] }
            } else {
                AlterationView::Append { label }
            };
            match growth(current.insert(position, label), desired, position + 1) {
                None => None,
                Some(rest) => Some(seq![step] + rest),
            }
        }
    }
}

/// Every label that changes gets one that is not in use.
pub open spec fn renamable(existing: Seq<Seq<char>>, desired: Seq<Seq<char>>) -> bool {
    &&& existing.len() == desired.len()
    &&& forall|i: int|
        0 <= i < existing.len() ==> #[trigger] existing[i] == desired[i] || !existing.contains(
            desired[i],
        )
}

/// The renamings of the first labels, in order.
pub open spec fn renamings(existing: Seq<Seq<char>>, desired: Seq<Seq<char>>, count: int) -> Seq<
    AlterationView,
>
    decreases count,
{
    if count <= 0 {
        Seq::empty()
    } else {
        let before = renamings(existing, desired, count - 1);
        if existing[count - 1] == desired[count - 1] {
            before
        } else {
            before.push(
                AlterationView::Rename { from: existing[count - 1], to: desired[count - 1] },
            )
        }
    }
}

/// The changes that turn the existing labels into the desired ones without touching a stored
/// value: additions only, or renamings only.
pub open spec fn evolution(existing: Seq<Seq<char>>, desired: Seq<Seq<char>>) -> Option<
    Seq<AlterationView>,
> {
    if existing == desired {
        Some(Seq::empty())
    } else if embeds(existing, desired) {
        growth(existing, desired, 0)
    } else if renamable(existing, desired) {
        Some(renamings(existing, desired, existing.len() as int))
    } else {
        None
    }
}

/// Why no such changes exist.
pub open spec fn evolution_refusal(existing: Seq<Seq<char>>, desired: Seq<Seq<char>>) -> Seq<char> {
    if embeds(existing, desired) {
        "enum label reordering is not supported"@
    } else {
        "enum label removal, reordering, or combined rename/add is not supported"@
    }
}

/// Whether a list holds a text.
pub fn holds_text(list: &[String], text: &str) -> (r: bool)
    ensures
        r == texts(list@).contains(text@),
{
    let mut i: usize = 0;
    while i < list.len()
        invariant
            i <= list.len(),
            forall|k: int| 0 <= k < i ==> (#[trigger] list@[k])@ != text@,
        decreases list.len() - i,
    {
        if same_text(list[i].as_str(), text) {
            proof {
                assert(texts(list@)[i as int] == text@);
            }
            return true;
        }
        i = i + 1;
    }
    proof {
        assert forall|k: int| 0 <= k < texts(list@).len() implies texts(list@)[k] != text@ by {
            assert(list@[k]@ != text@);
        }
    }
    false
}

fn is_embedded(labels: &[String], whole: &[String]) -> (r: bool)
    ensures
        r == embeds(texts(labels@), texts(whole@)),
{
    let ghost a = texts(labels@);
    let ghost b = texts(whole@);
    let mut i: usize = 0;
    let mut j: usize = 0;
    proof {
        assert(a.skip(0) =~= a);
        assert(b.skip(0) =~= b);
    }
    while i < labels.len() && j < whole.len()
        invariant
            i <= labels.len(),
            j <= whole.len(),
            a == texts(labels@),
            b == texts(whole@),
            embeds(a, b) == embeds(a.skip(i as int), b.skip(j as int)),
        decreases whole.len() - j,
    {
        let ghost rest = a.skip(i as int);
        let ghost tail = b.skip(j as int);
        proof {
            assert(rest[0] == labels@[i as int]@);
            assert(tail[0] == whole@[j as int]@);
            assert(tail.drop_first() =~= b.skip(j + 1));
            assert(rest.drop_first() =~= a.skip(i + 1));
        }
        if same_text(labels[i].as_str(), whole[j].as_str()) {
            i = i + 1;
        }
        j = j + 1;
    }
    i == labels.len()
}

fn plan_growth(existing: &[String], desired: &[String]) -> (r: Option<Vec<EnumAlteration>>)
    ensures
        match r {
            Some(plan) => growth(texts(existing@), texts(desired@), 0) == Some(
                alterations(plan@),
            ),
            None => growth(texts(existing@), texts(desired@), 0) is None,
        },
{
    let ghost e = texts(existing@);
    let ghost d = texts(desired@);
    let mut current: Vec<String> = clone_texts(existing);
    let mut plan: Vec<EnumAlteration> = Vec::new();
    let mut position: usize = 0;
    proof {
        assert(texts(current@) =~= e);
        assert(d.take(0) =~= texts(current@).take(0));
        if growth(e, d, 0) is Some {
            assert(alterations(plan@) + growth(e, d, 0)->0 =~= growth(e, d, 0)->0);
        }
    }
    while position < desired.len()
        invariant
            position <= desired.len(),
            position <= current.len(),
            e == texts(existing@),
            d == texts(desired@),
            d.take(position as int) == texts(current@).take(position as int),
            growth(e, d, 0) is Some == growth(texts(current@), d, position as int) is Some,
            growth(e, d, 0) is Some ==> growth(e, d, 0)->0 == alterations(plan@) + growth(
                texts(current@),
                d,
                position as int,
            )->0,
        decreases desired.len() - position,
    {
        let ghost now = texts(current@);
        let ghost label = d[position as int];
        let ghost done = alterations(plan@);
        if position < current.len() && same_text(
            current[position].as_str(),
            desired[position].as_str(),
        ) {
            proof {
                assert(now[position as int] == label);
                assert(d.take(position + 1) =~= d.take(position as int).push(label));
                assert(now.take(position + 1) =~= now.take(position as int).push(label));
            }
            position = position + 1;
        } else {
            if holds_text(current.as_slice(), desired[position].as_str()) {
                return None;
            }
            let step = if position < current.len() {
                EnumAlteration::AddBefore {
                    label: desired[position].clone(),
                    before: current[position].clone(),
                }
            } else {
                EnumAlteration::Append { label: desired[position].clone() }
            };
            let ghost shown = step@;
            plan.push(step);
            current.insert(position, desired[position].clone());
            proof {
                let next = texts(current@);
                assert(next =~= now.insert(position as int, label));
                assert(alterations(plan@) =~= done.push(shown));
                assert(d.take(position + 1) =~= d.take(position as int).push(label));
                assert(next.take(position + 1) =~= now.take(position as int).push(label));
                if growth(e, d, 0) is Some {
                    let rest = growth(next, d, position + 1)->0;
                    assert(done + (seq![shown] + rest) =~= done.push(shown) + rest);
                }
            }
            position = position + 1;
        }
    }
    proof {
        if growth(e, d, 0) is Some {
            assert(alterations(plan@) + Seq::<AlterationView>::empty() =~= alterations(plan@));
        }
    }
    Some(plan)
}

fn is_renamable(existing: &[String], desired: &[String]) -> (r: bool)
    ensures
        r == renamable(texts(existing@), texts(desired@)),
{
    let ghost e = texts(existing@);
    let ghost d = texts(desired@);
    if existing.len() != desired.len() {
        return false;
    }
    let mut i: usize = 0;
    while i < existing.len()
        invariant
            i <= existing.len(),
            existing.len() == desired.len(),
            e == texts(existing@),
            d == texts(desired@),
            forall|k: int| 0 <= k < i ==> #[trigger] e[k] == d[k] || !e.contains(d[k]),
        decreases existing.len() - i,
    {
        if !same_text(existing[i].as_str(), desired[i].as_str()) && holds_text(
            existing,
            desired[i].as_str(),
        ) {
            proof {
                assert(e[i as int] != d[i as int]);
            }
            return false;
        }
        i = i + 1;
    }
    true
}

fn plan_renamings(existing: &[String], desired: &[String]) -> (r: Vec<EnumAlteration>)
    requires
        existing@.len() == desired@.len(),
    ensures
        alterations(r@) == renamings(texts(existing@), texts(desired@), existing@.len() as int),
{
    let ghost e = texts(existing@);
    let ghost d = texts(desired@);
    let mut plan: Vec<EnumAlteration> = Vec::new();
    let mut i: usize = 0;
    proof {
        assert(alterations(plan@) =~= renamings(e, d, 0));
    }
    while i < existing.len()
        invariant
            i <= existing.len(),
            existing.len() == desired.len(),
            e == texts(existing@),
            d == texts(desired@),
            alterations(plan@) == renamings(e, d, i as int),
        decreases existing.len() - i,
    {
        let ghost before = alterations(plan@);
        if !same_text(existing[i].as_str(), desired[i].as_str()) {
            let step = EnumAlteration::Rename {
                from: existing[i].clone(),
                to: desired[i].clone(),
            };
            let ghost shown = step@;
            plan.push(step);
            proof {
                assert(alterations(plan@) =~= before.push(shown));
            }
        }
        proof {
            assert(e[i as int] == existing@[i as int]@);
            assert(d[i as int] == desired@[i as int]@);
        }
        i = i + 1;
    }
    plan
}

/// Plans how an enum evolves in place: by additions that keep the order of the existing labels,
/// or by renamings to unused labels.
pub fn plan_enum_evolution(existing: &[String], desired: &[String]) -> (r: Result<
    Vec<EnumAlteration>,
    String,
>)
    ensures
        match r {
            Ok(plan) => evolution(texts(existing@), texts(desired@)) == Some(alterations(plan@)),
            Err(reason) => evolution(texts(existing@), texts(desired@)) is None && reason@
                == evolution_refusal(texts(existing@), texts(desired@)),
        },
{
    if same_texts(existing, desired) {
        let plan: Vec<EnumAlteration> = Vec::new();
        proof {
            assert(alterations(plan@) =~= Seq::empty());
        }
        return Ok(plan);
    }
    if is_embedded(existing, desired) {
        return match plan_growth(existing, desired) {
            Some(plan) => Ok(plan),
            None => Err("enum label reordering is not supported".to_string()),
        };
    }
    if is_renamable(existing, desired) {
        return Ok(plan_renamings(existing, desired));
    }
    Err("enum label removal, reordering, or combined rename/add is not supported".to_string())
}

/// The statement that makes one change of an enum.
pub open spec fn alteration_text(name: NameView, change: AlterationView) -> Seq<char> {
    let start = "ALTER TYPE "@ + quoted_name(name);
    match change {
        AlterationView::AddBefore { label, before } => start + " ADD VALUE "@ + literal(label)
            + " BEFORE "@ + literal(before),
        AlterationView::Append { label } => start + " ADD VALUE "@ + literal(label),
        AlterationView::Rename { from, to } => start + " RENAME VALUE "@ + literal(from) + " TO "@
            + literal(to),
    }
}

/// Every label of the change can be written as a literal.
pub open spec fn writable(change: AlterationView) -> bool {
    match change {
        AlterationView::AddBefore { label, before } => !label.contains('\0') && !before.contains(
            '\0',
        ),
        AlterationView::Append { label } => !label.contains('\0'),
        AlterationView::Rename { from, to } => !from.contains('\0') && !to.contains('\0'),
    }
}

fn alteration_sql(name: &QualifiedName, change: &EnumAlteration) -> (r: Result<
    String,
    SqlRenderError,
>)
    requires
        name_render_fault(name@) is None,
    ensures
        match r {
            Ok(text) => writable(change@) && text@ == alteration_text(name@, change@),
            Err(e) => !writable(change@) && e == (SqlRenderError::NulByte { kind: "literal" }),
        },
{
    let quoted = match quote_qualified_name(name) {
        Err(e) => return Err(e),
        Ok(text) => text,
    };
    let mut out = "ALTER TYPE ".to_string();
    out.append(quoted.as_str());
    match change {
        EnumAlteration::AddBefore { label, before } => {
            let label = match quote_literal(label.as_str()) {
                Err(e) => return Err(e),
                Ok(text) => text,
            };
            let before = match quote_literal(before.as_str()) {
                Err(e) => return Err(e),
                Ok(text) => text,
            };
            out.append(" ADD VALUE ");
            out.append(label.as_str());
            out.append(" BEFORE ");
            out.append(before.as_str());
        },
        EnumAlteration::Append { label } => {
            let label = match quote_literal(label.as_str()) {
                Err(e) => return Err(e),
                Ok(text) => text,
            };
            out.append(" ADD VALUE ");
            out.append(label.as_str());
        },
        EnumAlteration::Rename { from, to } => {
            let from = match quote_literal(from.as_str()) {
                Err(e) => return Err(e),
                Ok(text) => text,
            };
            let to = match quote_literal(to.as_str()) {
                Err(e) => return Err(e),
                Ok(text) => text,
            };
            out.append(" RENAME VALUE ");
            out.append(from.as_str());
            out.append(" TO ");
            out.append(to.as_str());
        },
    }
    Ok(out)
}

/// The labels that an enum should have; another type cannot change in place.
pub fn desired_labels(prerequisite: &UserTypePlan) -> (r: Result<&Vec<String>, SnapshotTargetError>)
    ensures
        match r {
            Ok(labels) => prerequisite.definition@ == (DefinitionView::Enum {
                labels: texts(labels@),
            }),
            Err(e) => prerequisite.definition is Domain && (
            e matches SnapshotTargetError::UnsupportedPrerequisiteTypeEvolution { name, reason }
                && name@ == prerequisite.name@.text() && reason@
                == "constraint-free domain base-type changes require a versioned target type"@),
        },
{
    match &prerequisite.definition {
        UserTypeDefinition::Enum { labels } => Ok(labels),
        UserTypeDefinition::Domain { .. } => Err(
            SnapshotTargetError::UnsupportedPrerequisiteTypeEvolution {
                name: prerequisite.name.display(),
                reason: "constraint-free domain base-type changes require a versioned target type".to_string(),
            },
        ),
    }
}

/// Only an enum may stand where an enum is managed.
pub fn require_enum_kind(name: &QualifiedName, kind: &str) -> (r: Result<(), SnapshotTargetError>)
    ensures
        match r {
            Ok(()) => kind@ == "e"@,
            Err(e) => kind@ != "e"@ && (
            e matches SnapshotTargetError::UnsupportedPrerequisiteTypeEvolution {
                name: n,
                reason,
            } && n@ == name@.text() && reason@ == "managed object is PostgreSQL type kind `"@ + kind@
                + "`, expected enum"@),
        },
{
    if same_text(kind, "e") {
        return Ok(());
    }
    let mut reason = "managed object is PostgreSQL type kind `".to_string();
    reason.append(kind);
    reason.append("`, expected enum");
    Err(
        SnapshotTargetError::UnsupportedPrerequisiteTypeEvolution { name: name.display(), reason },
    )
}

/// The statements of a list of changes.
pub open spec fn alteration_texts(name: NameView, changes: Seq<AlterationView>) -> Seq<Seq<char>> {
    Seq::new(changes.len(), |i: int| alteration_text(name, changes[i]))
}

/// Every label of the changes can be written as a literal.
pub open spec fn all_writable(changes: Seq<AlterationView>) -> bool {
    forall|i: int| 0 <= i < changes.len() ==> writable(#[trigger] changes[i])
}

/// The error tells why an enum cannot be changed to the desired labels.
pub open spec fn refuses_evolution(
    e: SnapshotTargetError,
    name: NameView,
    existing: Seq<Seq<char>>,
    desired: Seq<Seq<char>>,
) -> bool {
    match evolution(existing, desired) {
        None => e matches SnapshotTargetError::UnsupportedPrerequisiteTypeEvolution {
            name: n,
            reason,
        } && n@ == name.text() && reason@ == evolution_refusal(existing, desired),
        Some(changes) => if name_render_fault(name) is Some {
            e == SnapshotTargetError::Sql(name_render_fault(name)->0)
        } else {
            !all_writable(changes) && e == SnapshotTargetError::Sql(
                SqlRenderError::NulByte { kind: "literal" },
            )
        },
    }
}

/// The statements that bring an enum to the desired labels.
pub fn reconcile_prerequisite_type(
    name: &QualifiedName,
    existing: &[String],
    desired: &[String],
) -> (r: Result<Vec<String>, SnapshotTargetError>)
    ensures
        match r {
            Ok(statements) => {
                &&& evolution(texts(existing@), texts(desired@)) is Some
                &&& texts(statements@) == alteration_texts(
                    name@,
                    evolution(texts(existing@), texts(desired@))->0,
                )
                &&& all_writable(evolution(texts(existing@), texts(desired@))->0)
                &&& name_render_fault(name@) is None
            },
            Err(e) => refuses_evolution(e, name@, texts(existing@), texts(desired@)),
        },
{
    let plan = match plan_enum_evolution(existing, desired) {
        Err(reason) => {
            return Err(
                SnapshotTargetError::UnsupportedPrerequisiteTypeEvolution {
                    name: name.display(),
                    reason,
                },
            );
        },
        Ok(plan) => plan,
    };
    match quote_qualified_name(name) {
        Err(e) => return Err(SnapshotTargetError::Sql(e)),
        Ok(_) => {},
    }
    let ghost changes = alterations(plan@);
    let mut statements: Vec<String> = Vec::new();
    let mut i: usize = 0;
    while i < plan.len()
        invariant
            i <= plan.len(),
            changes == alterations(plan@),
            evolution(texts(existing@), texts(desired@)) == Some(changes),
            name_render_fault(name@) is None,
            statements@.len() == i,
            forall|k: int|
                0 <= k < i ==> writable(#[trigger] changes[k]) && statements@[k]@
                    == alteration_text(name@, changes[k]),
        decreases plan.len() - i,
    {
        match alteration_sql(name, &plan[i]) {
            Err(e) => {
                proof {
                    assert(!writable(changes[i as int]));
                }
                return Err(SnapshotTargetError::Sql(e));
            },
            Ok(text) => {
                proof {
                    assert(changes[i as int] == plan@[i as int]@);
                }
                statements.push(text);
            },
        }
        i = i + 1;
    }
    proof {
        assert(texts(statements@) =~= alteration_texts(name@, changes));
    }
    Ok(statements)
}

// ---------------------------------------------------------------------------------------------
// Laws
// ---------------------------------------------------------------------------------------------

/// The labels after one change; a change that the database refuses has no result.
pub open spec fn after_change(labels: Seq<Seq<char>>, change: AlterationView) -> Option<
    Seq<Seq<char>>,
> {
    match change {
        AlterationView::AddBefore { label, before } => if labels.contains(label)
            || !labels.contains(before) {
            None
        } else {
            Some(labels.insert(labels.index_of(before), label))
        },
        AlterationView::Append { label } => if labels.contains(label) {
            None
        } else {
            Some(labels.push(label))
        },
        AlterationView::Rename { from, to } => if labels.contains(to) || !labels.contains(from) {
            None
        } else {
            Some(labels.update(labels.index_of(from), to))
        },
    }
}

/// The labels after a list of changes.
pub open spec fn after_changes(labels: Seq<Seq<char>>, changes: Seq<AlterationView>) -> Option<
    Seq<Seq<char>>,
>
    decreases changes.len(),
{
    if changes.len() == 0 {
        Some(labels)
    } else {
        match after_change(labels, changes[0]) {
            None => None,
            Some(next) => after_changes(next, changes.drop_first()),
        }
    }
}

proof fn lemma_index_of(labels: Seq<Seq<char>>, at: int)
    requires
        labels.no_duplicates(),
        0 <= at < labels.len(),
    ensures
        labels.index_of(labels[at]) == at,
        labels.contains(labels[at]),
{
    assert(labels.contains(labels[at]));
}

proof fn lemma_growth_reaches(current: Seq<Seq<char>>, desired: Seq<Seq<char>>, position: int)
    requires
        0 <= position <= desired.len(),
        position <= current.len(),
        current.no_duplicates(),
        current.take(position) == desired.take(position),
        embeds(current.skip(position), desired.skip(position)),
        growth(current, desired, position) is Some,
    ensures
        after_changes(current, growth(current, desired, position)->0) == Some(desired),
    decreases desired.len() - position,
{
    let rest = current.skip(position);
    let tail = desired.skip(position);
    if position >= desired.len() {
        assert(rest.len() == 0);
        assert(current =~= desired) by {
            assert(current.take(position) =~= current);
            assert(desired.take(position) =~= desired);
        }
    } else {
        let label = desired[position];
        assert(tail[0] == label);
        assert(tail.drop_first() =~= desired.skip(position + 1));
        assert(desired.take(position + 1) =~= desired.take(position).push(label));
        if position < current.len() && current[position] == label {
            assert(rest[0] == label);
            assert(rest.drop_first() =~= current.skip(position + 1));
            assert(current.take(position + 1) =~= current.take(position).push(label));
            lemma_growth_reaches(current, desired, position + 1);
        } else {
            let next = current.insert(position, label);
            assert(next.no_duplicates()) by {
                assert forall|a: int, b: int|
                    0 <= a < next.len() && 0 <= b < next.len() && a != b implies next[a]
                    != next[b] by {
                    let x = if a < position { a } else { a - 1 };
                    let y = if b < position { b } else { b - 1 };
                    if a == position {
                        assert(next[b] == current[y]);
                    } else if b == position {
                        assert(next[a] == current[x]);
                    } else {
                        assert(next[a] == current[x]);
                        assert(next[b] == current[y]);
                    }
                }
            }
            assert(next.skip(position + 1) =~= rest);
            assert(next.take(position + 1) =~= current.take(position).push(label));
            if rest.len() > 0 {
                assert(rest[0] == current[position]);
                lemma_index_of(current, position);
            } else {
                assert(next =~= current.push(label));
            }
            lemma_growth_reaches(next, desired, position + 1);
            let changes = growth(current, desired, position)->0;
            let later = growth(next, desired, position + 1)->0;
            assert(changes.drop_first() =~= later);
        }
    }
}

proof fn lemma_embedded_members(labels: Seq<Seq<char>>, whole: Seq<Seq<char>>, member: Seq<char>)
    requires
        embeds(labels, whole),
        labels.contains(member),
    ensures
        whole.contains(member),
    decreases whole.len(),
{
    let i = choose|i: int| 0 <= i < labels.len() && labels[i] == member;
    let tail = whole.drop_first();
    if labels[0] == whole[0] {
        if i == 0 {
            assert(whole[0] == member);
        } else {
            assert(labels.drop_first()[i - 1] == member);
            lemma_embedded_members(labels.drop_first(), tail, member);
            let k = choose|k: int| 0 <= k < tail.len() && tail[k] == member;
            assert(whole[k + 1] == member);
        }
    } else {
        lemma_embedded_members(labels, tail, member);
        let k = choose|k: int| 0 <= k < tail.len() && tail[k] == member;
        assert(whole[k + 1] == member);
    }
}

proof fn lemma_growth_exists(current: Seq<Seq<char>>, desired: Seq<Seq<char>>, position: int)
    requires
        0 <= position <= desired.len(),
        position <= current.len(),
        desired.no_duplicates(),
        current.take(position) == desired.take(position),
        embeds(current.skip(position), desired.skip(position)),
    ensures
        growth(current, desired, position) is Some,
    decreases desired.len() - position,
{
    if position < desired.len() {
        let rest = current.skip(position);
        let tail = desired.skip(position);
        let label = desired[position];
        assert(tail[0] == label);
        assert(tail.drop_first() =~= desired.skip(position + 1));
        assert(desired.take(position + 1) =~= desired.take(position).push(label));
        if position < current.len() && current[position] == label {
            assert(rest[0] == label);
            assert(rest.drop_first() =~= current.skip(position + 1));
            assert(current.take(position + 1) =~= current.take(position).push(label));
            lemma_growth_exists(current, desired, position + 1);
        } else {
            if rest.len() > 0 {
                assert(rest[0] == current[position]);
            }
            if current.contains(label) {
                let i = choose|i: int| 0 <= i < current.len() && current[i] == label;
                if i < position {
                    assert(current.take(position)[i] == label);
                    assert(desired[i] == label);
                } else {
                    assert(rest[i - position] == label);
                    lemma_embedded_members(rest, desired.skip(position + 1), label);
                    let later = desired.skip(position + 1);
                    let k = choose|k: int| 0 <= k < later.len() && later[k] == label;
                    assert(desired[position + 1 + k] == label);
                }
            }
            let next = current.insert(position, label);
            assert(next.skip(position + 1) =~= rest);
            assert(next.take(position + 1) =~= current.take(position).push(label));
            lemma_growth_exists(next, desired, position + 1);
        }
    }
}

/// Labels may always be added: where the existing labels keep their order among the desired
/// ones, and no desired label occurs twice, changes are planned.
pub proof fn law_additions_are_planned(existing: Seq<Seq<char>>, desired: Seq<Seq<char>>)
    requires
        desired.no_duplicates(),
        embeds(existing, desired),
    ensures
        evolution(existing, desired) is Some,
{
    assert(existing.skip(0) =~= existing);
    assert(desired.skip(0) =~= desired);
    assert(existing.take(0) =~= desired.take(0));
    lemma_growth_exists(existing, desired, 0);
}

proof fn lemma_after_changes_split(
    labels: Seq<Seq<char>>,
    first: Seq<AlterationView>,
    last: AlterationView,
)
    ensures
        after_changes(labels, first.push(last)) == match after_changes(labels, first) {
            None => None::<Seq<Seq<char>>>,
            Some(next) => after_change(next, last),
        },
    decreases first.len(),
{
    let all = first.push(last);
    if first.len() == 0 {
        assert(all.drop_first() =~= Seq::empty());
        match after_change(labels, last) {
            None => {},
            Some(next) => {
                assert(after_changes(next, all.drop_first()) == Some(next));
            },
        }
    } else {
        assert(all.drop_first() =~= first.drop_first().push(last));
        match after_change(labels, first[0]) {
            None => {},
            Some(next) => {
                lemma_after_changes_split(next, first.drop_first(), last);
            },
        }
    }
}

proof fn lemma_renamings_reach(existing: Seq<Seq<char>>, desired: Seq<Seq<char>>, count: int)
    requires
        existing.no_duplicates(),
        desired.no_duplicates(),
        renamable(existing, desired),
        0 <= count <= existing.len(),
    ensures
        after_changes(existing, renamings(existing, desired, count)) == Some(
            desired.take(count) + existing.skip(count),
        ),
    decreases count,
{
    if count == 0 {
        assert(desired.take(0) + existing.skip(0) =~= existing);
    } else {
        let k = count - 1;
        lemma_renamings_reach(existing, desired, k);
        let mid = desired.take(k) + existing.skip(k);
        let goal = desired.take(count) + existing.skip(count);
        let from = existing[k];
        let to = desired[k];
        assert(mid[k] == from);
        if from == to {
            assert(mid =~= goal);
        } else {
            let change = AlterationView::Rename { from, to };
            lemma_after_changes_split(existing, renamings(existing, desired, k), change);
            assert(mid.no_duplicates()) by {
                assert forall|a: int, b: int|
                    0 <= a < mid.len() && 0 <= b < mid.len() && a != b implies mid[a] != mid[b] by {
                    if a < k && b >= k {
                        lemma_mixed_differ(existing, desired, a, b);
                    } else if b < k && a >= k {
                        lemma_mixed_differ(existing, desired, b, a);
                    }
                }
            }
            lemma_index_of(mid, k);
            if mid.contains(to) {
                let i = choose|i: int| 0 <= i < mid.len() && mid[i] == to;
                if i < k {
                    assert(desired[i] == desired[k]);
                } else {
                    assert(existing[i] == to);
                    assert(existing.contains(to));
                    assert(existing[k] == desired[k]);
                }
            }
            assert(mid.update(k, to) =~= goal);
        }
    }
}

proof fn lemma_mixed_differ(existing: Seq<Seq<char>>, desired: Seq<Seq<char>>, a: int, b: int)
    requires
        existing.no_duplicates(),
        renamable(existing, desired),
        0 <= a < b < existing.len(),
    ensures
        desired[a] != existing[b],
{
    if desired[a] == existing[b] {
        assert(existing.contains(existing[b]));
        assert(existing[a] == desired[a]);
    }
}

/// Planned changes do what they are for: made one after the other on labels that are all
/// different, none is refused and the desired labels result.
pub proof fn law_evolution_reaches_the_desired_labels(
    existing: Seq<Seq<char>>,
    desired: Seq<Seq<char>>,
)
    requires
        existing.no_duplicates(),
        desired.no_duplicates(),
        evolution(existing, desired) is Some,
    ensures
        after_changes(existing, evolution(existing, desired)->0) == Some(desired),
{
    if existing == desired {
        assert(after_changes(existing, Seq::empty()) == Some(existing));
    } else if embeds(existing, desired) {
        assert(existing.skip(0) =~= existing);
        assert(desired.skip(0) =~= desired);
        assert(existing.take(0) =~= desired.take(0));
        lemma_growth_reaches(existing, desired, 0);
    } else {
        let n = existing.len() as int;
        lemma_renamings_reach(existing, desired, n);
        assert(desired.take(n) + existing.skip(n) =~= desired);
    }
}

/// A type that does not exist and is not registered is created; one of this pipeline under no newer
/// fence is reused where its definition is the registered one and reconciled where it is another;
/// nothing is done about any other one.
pub proof fn law_what_is_done_about_a_type(
    record: ManagedTypeRecord,
    pipeline_id: PipelineId,
    fencing_token: i64,
    definition: Seq<u8>,
)
    ensures
        type_action(false, None, pipeline_id, fencing_token, definition) == Some(
            ManagedTypeAction::Create,
        ),
        type_action(true, None, pipeline_id, fencing_token, definition) is None,
        type_action(false, Some(&record), pipeline_id, fencing_token, definition) is None,
        ({
            let owned = record.pipeline_id == pipeline_id && record.fencing_token <= fencing_token;
            let action = type_action(true, Some(&record), pipeline_id, fencing_token, definition);
            &&& action == Some(ManagedTypeAction::Reuse) <==> owned && record.definition_checksum@
                == definition
            &&& action == Some(ManagedTypeAction::Reconcile) <==> owned
                && record.definition_checksum@ != definition
            &&& action != Some(ManagedTypeAction::Create)
        }),
{
}

/// Labels may be renamed where there are as many as before and every new one is not in use; labels
/// that neither keep their order nor can be renamed are not changed.
pub proof fn law_which_renamings_are_planned(
    existing: Seq<Seq<char>>,
    desired: Seq<Seq<char>>,
)
    requires
        existing != desired,
        !embeds(existing, desired),
    ensures
        evolution(existing, desired) is Some <==> {
            &&& existing.len() == desired.len()
            &&& forall|i: int|
                0 <= i < desired.len() ==> #[trigger] desired[i] == existing[i]
                    || !existing.contains(desired[i])
        },
{
    if renamable(existing, desired) {
        assert forall|i: int| 0 <= i < desired.len() implies #[trigger] desired[i] == existing[i]
            || !existing.contains(desired[i]) by {
            assert(existing[i] == desired[i] || !existing.contains(desired[i]));
        }
    }
    if existing.len() == desired.len() && (forall|i: int|
        0 <= i < desired.len() ==> #[trigger] desired[i] == existing[i] || !existing.contains(
            desired[i],
        )) {
        assert forall|i: int| 0 <= i < existing.len() implies #[trigger] existing[i] == desired[i]
            || !existing.contains(desired[i]) by {
            assert(desired[i] == existing[i] || !existing.contains(desired[i]));
        }
    }
}

/// Labels that stand in another list at ascending positions occur in it in their order.
pub proof fn law_which_labels_keep_their_order(
    labels: Seq<Seq<char>>,
    whole: Seq<Seq<char>>,
    positions: Seq<int>,
)
    requires
        positions.len() == labels.len(),
        forall|i: int, j: int|
            #![trigger positions[i], positions[j]]
            0 <= i < j < positions.len() ==> positions[i] < positions[j],
        forall|i: int|
            #![trigger positions[i]]
            0 <= i < positions.len() ==> 0 <= positions[i] < whole.len() && whole[positions[i]]
                == labels[i],
    ensures
        embeds(labels, whole),
    decreases whole.len(),
{
    if labels.len() > 0 {
        assert(0 <= positions[0] < whole.len());
        let rest = whole.drop_first();
        if labels[0] == whole[0] {
            let later = Seq::new((positions.len() - 1) as nat, |i: int| positions[i + 1] - 1);
            let others = labels.drop_first();
            assert forall|i: int|
                #![trigger later[i]]
                0 <= i < later.len() implies 0 <= later[i] < rest.len() && rest[later[i]]
                == others[i] by {
                assert(positions[0] < positions[i + 1]);
                assert(rest[later[i]] == whole[positions[i + 1]]);
            }
            assert forall|i: int, j: int|
                #![trigger later[i], later[j]]
                0 <= i < j < later.len() implies later[i] < later[j] by {
                assert(positions[i + 1] < positions[j + 1]);
            }
            law_which_labels_keep_their_order(others, rest, later);
        } else {
            let later = Seq::new(positions.len(), |i: int| positions[i] - 1);
            assert forall|i: int|
                #![trigger later[i]]
                0 <= i < later.len() implies 0 <= later[i] < rest.len() && rest[later[i]]
                == labels[i] by {
                assert(positions[i] >= 0);
                if positions[i] == 0 {
                    if i > 0 {
                        assert(positions[0] < positions[i]);
                    }
                }
                assert(rest[later[i]] == whole[positions[i]]);
            }
            assert forall|i: int, j: int|
                #![trigger later[i], later[j]]
                0 <= i < j < later.len() implies later[i] < later[j] by {
                assert(positions[i] < positions[j]);
            }
            law_which_labels_keep_their_order(labels, rest, later);
        }
    }
}

/// The statements that change an enum name the type and quote each label.
pub proof fn law_alteration_texts(name: NameView, label: Seq<char>, other: Seq<char>)
    ensures
        alteration_text(name, AlterationView::AddBefore { label, before: other })
            == "ALTER TYPE "@ + quoted_name(name) + " ADD VALUE "@ + literal(label) + " BEFORE "@
            + literal(other),
        alteration_text(name, AlterationView::Append { label }) == "ALTER TYPE "@ + quoted_name(
            name,
        ) + " ADD VALUE "@ + literal(label),
        alteration_text(name, AlterationView::Rename { from: other, to: label }) == "ALTER TYPE "@
            + quoted_name(name) + " RENAME VALUE "@ + literal(other) + " TO "@ + literal(label),
{
}

/// What is decided about a type that a shadow needs follows from its definition: the digest of its
/// creating statement tells whether the registered one is reused or reconciled.
pub proof fn law_decided_prerequisites(
    prerequisite: UserTypePlan,
    record: ManagedTypeRecord,
    fence: PipelineFence,
    first: Result<(ManagedTypeAction, [u8; 32]), SnapshotTargetError>,
    again: Result<(ManagedTypeAction, [u8; 32]), SnapshotTargetError>,
)
    requires
        call_ensures(
            judge_prerequisite,
            (&prerequisite, false, None::<&ManagedTypeRecord>, fence),
            first,
        ),
        call_ensures(judge_prerequisite, (&prerequisite, true, Some(&record), fence), again),
    ensures
        ({
            let digest = sha256(encode_utf8(prerequisite.create_sql@));
            &&& first matches Ok((action, checksum)) && action is Create && checksum@ == digest
            &&& again is Ok <==> record.pipeline_id == fence.pipeline_id && record.fencing_token
                <= fence.fencing_token
            &&& again matches Ok((action, checksum)) ==> {
                &&& checksum@ == digest
                &&& action is Reuse <==> record.definition_checksum@ == digest
                &&& action is Reconcile <==> record.definition_checksum@ != digest
            }
        }),
{
}

/// Planned changes are those of the labels: made one after the other they lead from the existing
/// labels to the desired ones.
pub proof fn law_planned_changes_lead_to_the_desired_labels(
    existing: &[String],
    desired: &[String],
    r: Result<Vec<EnumAlteration>, String>,
)
    requires
        call_ensures(plan_enum_evolution, (existing, desired), r),
        texts(existing@).no_duplicates(),
        texts(desired@).no_duplicates(),
    ensures
        r matches Ok(plan) ==> after_changes(texts(existing@), alterations(plan@)) == Some(
            texts(desired@),
        ),
        embeds(texts(existing@), texts(desired@)) ==> r is Ok,
{
    if r is Ok {
        law_evolution_reaches_the_desired_labels(texts(existing@), texts(desired@));
    }
    if embeds(texts(existing@), texts(desired@)) {
        law_additions_are_planned(texts(existing@), texts(desired@));
    }
}

/// Only an enum changes in place, and only where the target holds an enum.
pub proof fn law_only_enums_change(
    prerequisite: UserTypePlan,
    name: QualifiedName,
    kind: &str,
    labels: Result<&Vec<String>, SnapshotTargetError>,
    found: Result<(), SnapshotTargetError>,
)
    requires
        call_ensures(desired_labels, (&prerequisite,), labels),
        call_ensures(require_enum_kind, (&name, kind), found),
    ensures
        found is Ok <==> kind@ =~= seq!['e'],
        labels is Ok <==> prerequisite.definition is Enum,
        prerequisite.definition matches UserTypeDefinition::Enum { labels: wanted } ==> (
        labels matches Ok(given) && texts(given@) == texts(wanted@)),
{
    reveal_strlit("e");
    assert("e"@ =~= seq!['e']);
}

/// Why a type is not touched is told truly: the error names the type, and what it says of its owner
/// or its fence is so.
pub proof fn law_refused_types(
    name: QualifiedName,
    exists_physically: bool,
    record: ManagedTypeRecord,
    fence: PipelineFence,
    checksum: &[u8],
    r: Result<ManagedTypeAction, SnapshotTargetError>,
    foreign: Result<ManagedTypeAction, SnapshotTargetError>,
)
    requires
        call_ensures(
            classify_prerequisite_type,
            (
                &name,
                exists_physically,
                Some(&record),
                fence.pipeline_id,
                fence.fencing_token,
                checksum,
            ),
            r,
        ),
        call_ensures(
            classify_prerequisite_type,
            (
                &name,
                true,
                None::<&ManagedTypeRecord>,
                fence.pipeline_id,
                fence.fencing_token,
                checksum,
            ),
            foreign,
        ),
    ensures
        foreign matches Err(SnapshotTargetError::ExistingPrerequisiteType(text)) && text@
            == name@.text(),
        !exists_physically ==> (r matches Err(
            SnapshotTargetError::ManagedPrerequisiteTypeMissing(text),
        ) && text@ == name@.text()),
        exists_physically && record.pipeline_id != fence.pipeline_id ==> (r matches Err(
            SnapshotTargetError::PrerequisiteTypeManagedByOtherPipeline {
                name: text,
                expected,
                actual,
            },
        ) && text@ == name@.text() && expected == fence.pipeline_id && actual
            == record.pipeline_id),
        exists_physically && record.pipeline_id == fence.pipeline_id && record.fencing_token
            > fence.fencing_token ==> (r matches Err(
            SnapshotTargetError::ManagedByNewerFence { object, current, actual },
        ) && object@ == name@.text() && current == fence.fencing_token && actual
            == record.fencing_token),
{
}

} // verus!
