//! Staged rows of one table batch.

use crate::apply::plan::{
    copy_columns, data_positions, data_positions_of, layout_follows, names_model, plan_follows,
    presence_follows, presence_in_range, ApplyPlan,
};
use crate::apply::ApplyError;
use crate::change::{bytes_from, Cell, CellView};
use crate::copy::{cell_views, encode_row, law_rows_differ, row_model};
use crate::schema::{column_names, well_planned, TableView};
use vstd::prelude::*;

verus! {

// ---------------------------------------------------------------------------------------------
// Staged rows
// ---------------------------------------------------------------------------------------------

#[derive(Debug, Clone, Copy, PartialEq, Eq, Structural)]
pub enum StageOperation {
    Upsert,
    Delete,
    Move,
}

#[derive(Debug, Clone, PartialEq, Eq)]
pub struct StagingRow {
    pub operation: StageOperation,
    pub cells: Vec<Cell>,
    /// Old PK cells in primary-key ordinal order. Present only for `Move`.
    pub old_key: Option<Vec<Cell>>,
}

pub open spec fn is_missing(cell: CellView) -> bool {
    cell is Null || cell is UnchangedToast
}

/// The first of the columns from `from` on that belongs to the key but has no value.
pub open spec fn first_missing_key(plan: ApplyPlan, row: StagingRow, from: int) -> Option<int>
    decreases plan.table.columns@.len() - from,
{
    if from >= plan.table.columns@.len() || from < 0 {
        None
    } else if plan.table.columns@[from].primary_key_ordinal is Some && is_missing(
        row.cells@[from]@,
    ) {
        Some(from)
    } else {
        first_missing_key(plan, row, from + 1)
    }
}

/// The first of the old-key cells from `from` on that has no value.
pub open spec fn first_missing_old(cells: Seq<Cell>, from: int) -> Option<int>
    decreases cells.len() - from,
{
    if from >= cells.len() || from < 0 {
        None
    } else if is_missing(cells[from]@) {
        Some(from)
    } else {
        first_missing_old(cells, from + 1)
    }
}

/// Why a staged row does not fit its plan, if it does not.
pub open spec fn row_fault(plan: ApplyPlan, row: StagingRow) -> Option<ApplyError> {
    let columns = plan.table.columns@;
    let layout = plan.copy_layout;
    if row.cells@.len() != columns.len() {
        Some(
            ApplyError::InvalidRowArity {
                expected: columns.len() as usize,
                actual: row.cells@.len() as usize,
            },
        )
    } else if first_missing_key(plan, row, 0) is Some {
        Some(ApplyError::MissingPrimaryKey(columns[first_missing_key(plan, row, 0)->0].name))
    } else {
        match row.old_key {
            None => if row.operation == StageOperation::Move {
                Some(ApplyError::MissingOldPrimaryKey)
            } else {
                None
            },
            Some(old_key) => if row.operation != StageOperation::Move {
                Some(ApplyError::UnexpectedOldPrimaryKey)
            } else if old_key@.len() != layout.old_key_columns@.len() {
                Some(
                    ApplyError::InvalidOldKeyArity {
                        expected: layout.old_key_columns@.len() as usize,
                        actual: old_key@.len() as usize,
                    },
                )
            } else if first_missing_old(old_key@, 0) is Some {
                Some(
                    ApplyError::MissingOldPrimaryKeyColumn(
                        layout.old_key_columns@[first_missing_old(
                            old_key@,
                            0,
                        )->0].source_column_name,
                    ),
                )
            } else {
                None
            },
        }
    }
}

/// The text of an operation: `U`, `D` or `M`.
pub open spec fn operation_cell(operation: StageOperation) -> CellView {
    match operation {
        StageOperation::Upsert => CellView::Text(seq![85u8]),
        StageOperation::Delete => CellView::Text(seq![68u8]),
        StageOperation::Move => CellView::Text(seq![77u8]),
    }
}

/// The text of a flag: `t` or `f`.
pub open spec fn flag_cell(flag: bool) -> CellView {
    if flag {
        CellView::Text(seq![116u8])
    } else {
        CellView::Text(seq![102u8])
    }
}

/// A value that the source did not send is staged as NULL.
pub open spec fn staged_cell(cell: CellView) -> CellView {
    if cell is UnchangedToast {
        CellView::Null
    } else {
        cell
    }
}

/// The fields of a staged row: the operation, the data, the presence flags, the old-key flag and
/// the old key.
pub open spec fn staged_fields(plan: ApplyPlan, row: StagingRow) -> Seq<CellView> {
    let presence = plan.copy_layout.presence_columns@;
    seq![operation_cell(row.operation)] + Seq::new(
        row.cells@.len(),
        |i: int| staged_cell(row.cells@[i]@),
    ) + Seq::new(
        presence.len(),
        |i: int| flag_cell(!(row.cells@[presence[i].source_column_index as int]@ is UnchangedToast)),
    ) + seq![flag_cell(row.old_key is Some)] + old_key_fields(plan, row)
}

/// The old key of a move, NULLs for any other row.
pub open spec fn old_key_fields(plan: ApplyPlan, row: StagingRow) -> Seq<CellView> {
    match row.old_key {
        Some(old_key) => cell_views(old_key@),
        None => Seq::new(plan.copy_layout.old_key_columns@.len(), |i: int| CellView::Null),
    }
}

/// The COPY text of a staged row.
pub open spec fn staged_row_model(plan: ApplyPlan, row: StagingRow) -> Result<Seq<u8>, ApplyError> {
    match row_fault(plan, row) {
        Some(e) => Err(e),
        None => match row_model(staged_fields(plan, row)) {
            Err(e) => Err(ApplyError::Copy(e)),
            Ok(text) => Ok(text),
        },
    }
}

fn lacks_value(cell: &Cell) -> (r: bool)
    ensures
        r == is_missing(cell@),
{
    match cell {
        Cell::Null | Cell::UnchangedToast => true,
        _ => false,
    }
}

fn text_cell(byte: u8) -> (r: Cell)
    ensures
        r@ == CellView::Text(seq![byte]),
{
    let mut bytes: Vec<u8> = Vec::new();
    bytes.push(byte);
    proof {
        assert(bytes@ =~= seq![byte]);
    }
    Cell::Text(bytes_from(bytes))
}

fn flag(value: bool) -> (r: Cell)
    ensures
        r@ == flag_cell(value),
{
    if value {
        text_cell(116)
    } else {
        text_cell(102)
    }
}

/// Checks that the row can be staged by the plan.
pub fn check_row(plan: &ApplyPlan, row: &StagingRow) -> (r: Result<(), ApplyError>)
    ensures
        match r {
            Ok(()) => row_fault(*plan, *row) is None,
            Err(e) => row_fault(*plan, *row) == Some(e),
        },
{
    if row.cells.len() != plan.table.columns.len() {
        return Err(
            ApplyError::InvalidRowArity {
                expected: plan.table.columns.len(),
                actual: row.cells.len(),
            },
        );
    }
    let mut i: usize = 0;
    while i < plan.table.columns.len()
        invariant
            i <= plan.table.columns.len() == row.cells.len(),
            first_missing_key(*plan, *row, 0) == first_missing_key(*plan, *row, i as int),
        decreases plan.table.columns.len() - i,
    {
        if plan.table.columns[i].primary_key_ordinal.is_some() && lacks_value(&row.cells[i]) {
            return Err(ApplyError::MissingPrimaryKey(plan.table.columns[i].name.clone()));
        }
        i = i + 1;
    }
    match &row.old_key {
        None => {
            if row.operation == StageOperation::Move {
                return Err(ApplyError::MissingOldPrimaryKey);
            }
        },
        Some(old_key) => {
            if row.operation != StageOperation::Move {
                return Err(ApplyError::UnexpectedOldPrimaryKey);
            }
            if old_key.len() != plan.copy_layout.old_key_columns.len() {
                return Err(
                    ApplyError::InvalidOldKeyArity {
                        expected: plan.copy_layout.old_key_columns.len(),
                        actual: old_key.len(),
                    },
                );
            }
            let mut k: usize = 0;
            while k < old_key.len()
                invariant
                    k <= old_key.len() == plan.copy_layout.old_key_columns.len(),
                    row.cells@.len() == plan.table.columns@.len(),
                    first_missing_key(*plan, *row, 0) is None,
                    row.old_key == Some(*old_key),
                    row.operation == StageOperation::Move,
                    first_missing_old(old_key@, 0) == first_missing_old(old_key@, k as int),
                decreases old_key.len() - k,
            {
                if lacks_value(&old_key[k]) {
                    return Err(
                        ApplyError::MissingOldPrimaryKeyColumn(
                            plan.copy_layout.old_key_columns[k].source_column_name.clone(),
                        ),
                    );
                }
                k = k + 1;
            }
        },
    }
    Ok(())
}

/// Encodes one staged row as a COPY row in the order of the plan's COPY columns.
pub fn encode_staging_row(plan: &ApplyPlan, row: &StagingRow) -> (r: Result<Vec<u8>, ApplyError>)
    requires
        row_fault(*plan, *row) is None ==> presence_in_range(*plan),
    ensures
        match r {
            Ok(text) => staged_row_model(*plan, *row) == Ok::<Seq<u8>, ApplyError>(text@),
            Err(e) => staged_row_model(*plan, *row) == Err::<Seq<u8>, ApplyError>(e),
        },
{
    match check_row(plan, row) {
        Err(e) => return Err(e),
        Ok(()) => {},
    }
    let presence = &plan.copy_layout.presence_columns;
    let ghost head = seq![operation_cell(row.operation)];
    let ghost data = Seq::new(row.cells@.len(), |i: int| staged_cell(row.cells@[i]@));
    let ghost flags = Seq::new(
        presence@.len(),
        |i: int| flag_cell(!(row.cells@[presence@[i].source_column_index as int]@ is UnchangedToast)),
    );
    let mut fields: Vec<Cell> = Vec::new();
    fields.push(
        match row.operation {
            StageOperation::Upsert => text_cell(85),
            StageOperation::Delete => text_cell(68),
            StageOperation::Move => text_cell(77),
        },
    );
    proof {
        assert(cell_views(fields@) =~= head + data.take(0));
    }
    let mut i: usize = 0;
    while i < row.cells.len()
        invariant
            i <= row.cells.len(),
            data == Seq::new(row.cells@.len(), |i: int| staged_cell(row.cells@[i]@)),
            cell_views(fields@) == head + data.take(i as int),
        decreases row.cells.len() - i,
    {
        let ghost before = cell_views(fields@);
        fields.push(
            match &row.cells[i] {
                Cell::UnchangedToast => Cell::Null,
                other => other.clone(),
            },
        );
        proof {
            assert(cell_views(fields@) =~= before.push(data[i as int]));
            assert(cell_views(fields@) =~= head + data.take(i + 1));
        }
        i = i + 1;
    }
    proof {
        assert(cell_views(fields@) =~= head + data + flags.take(0));
    }
    let mut j: usize = 0;
    while j < presence.len()
        invariant
            j <= presence.len(),
            presence@ == plan.copy_layout.presence_columns@,
            presence_in_range(*plan),
            row.cells@.len() == plan.table.columns@.len(),
            flags == Seq::new(
                presence@.len(),
                |i: int|
                    flag_cell(
                        !(row.cells@[presence@[i].source_column_index as int]@ is UnchangedToast),
                    ),
            ),
            cell_views(fields@) == head + data + flags.take(j as int),
        decreases presence.len() - j,
    {
        let ghost before = cell_views(fields@);
        let at = presence[j].source_column_index;
        let sent = match &row.cells[at] {
            Cell::UnchangedToast => false,
            _ => true,
        };
        fields.push(flag(sent));
        proof {
            assert(cell_views(fields@) =~= before.push(flags[j as int]));
            assert(cell_views(fields@) =~= head + data + flags.take(j + 1));
        }
        j = j + 1;
    }
    let ghost before_moved = cell_views(fields@);
    fields.push(flag(row.old_key.is_some()));
    let ghost moved = seq![flag_cell(row.old_key is Some)];
    let ghost old = old_key_fields(*plan, *row);
    proof {
        assert(cell_views(fields@) =~= before_moved.push(flag_cell(row.old_key is Some)));
        assert(cell_views(fields@) =~= head + data + flags + moved + old.take(0));
    }
    let count: usize = plan.copy_layout.old_key_columns.len();
    let mut k: usize = 0;
    while k < count
        invariant
            k <= count == old.len(),
            old == old_key_fields(*plan, *row),
            cell_views(fields@) == head + data + flags + moved + old.take(k as int),
        decreases count - k,
    {
        let ghost before = cell_views(fields@);
        fields.push(
            match &row.old_key {
                Some(old_key) => old_key[k].clone(),
                None => Cell::Null,
            },
        );
        proof {
            assert(cell_views(fields@) =~= before.push(old[k as int]));
            assert(cell_views(fields@) =~= head + data + flags + moved + old.take(k + 1));
        }
        k = k + 1;
    }
    proof {
        assert(cell_views(fields@) =~= staged_fields(*plan, *row));
    }
    match encode_row(fields.as_slice()) {
        Err(e) => Err(ApplyError::Copy(e)),
        Ok(text) => Ok(text),
    }
}

// ---------------------------------------------------------------------------------------------
// Laws
// ---------------------------------------------------------------------------------------------

/// Every column outside the key has a presence flag.
pub(crate) proof fn lemma_data_position_exists(table: TableView, count: int, position: int)
    requires
        0 <= position < count <= table.columns.len(),
        !table.primary_key.contains(table.columns[position].name),
    ensures
        exists|j: int|
            0 <= j < data_positions_of(table, count).len() && #[trigger] data_positions_of(
                table,
                count,
            )[j] == position,
    decreases count,
{
    let now = data_positions_of(table, count);
    let before = data_positions_of(table, count - 1);
    if position == count - 1 {
        assert(now[before.len() as int] == position);
    } else {
        lemma_data_position_exists(table, count - 1, position);
        let j = choose|j: int| 0 <= j < before.len() && #[trigger] before[j] == position;
        assert(now[j] == position);
    }
}

/// A staged row has as many fields as COPY fills columns.
pub proof fn law_staged_row_fills_copy_columns(plan: ApplyPlan, staging: Seq<char>, row: StagingRow)
    requires
        plan_follows(plan, staging),
        row_fault(plan, row) is None,
    ensures
        staged_fields(plan, row).len() == copy_columns(
            plan.table@,
            names_model(plan.table@, staging),
        ).len(),
{
}

/// The staged text tells the row: two rows of one plan have the same text only if they have the
/// same operation, the same cells and the same old key. In particular a NULL and a value that the
/// source did not send are never staged alike.
pub proof fn law_staged_rows_are_lossless(
    plan: ApplyPlan,
    a: StagingRow,
    b: StagingRow,
)
    requires
        well_planned(plan.table@),
        layout_follows(plan.copy_layout, plan.table@),
        staged_row_model(plan, a) is Ok,
        staged_row_model(plan, b) == staged_row_model(plan, a),
    ensures
        a.operation == b.operation,
        cell_views(a.cells@) == cell_views(b.cells@),
        a.old_key is Some == b.old_key is Some,
        a.old_key is Some ==> cell_views(a.old_key->0@) == cell_views(b.old_key->0@),
{
    let table = plan.table@;
    let fa = staged_fields(plan, a);
    let fb = staged_fields(plan, b);
    law_rows_differ(fa, fb);
    let n = a.cells@.len() as int;
    let positions = data_positions(table);
    let p = positions.len() as int;
    assert(fa[0] == operation_cell(a.operation));
    assert(fb[0] == operation_cell(b.operation));
    assert(fa[0]->Text_0[0] == fb[0]->Text_0[0]);
    assert(a.operation == b.operation);
    assert(fa[1 + n + p] == flag_cell(a.old_key is Some));
    assert(fb[1 + n + p] == flag_cell(b.old_key is Some));
    assert(fa[1 + n + p]->Text_0[0] == fb[1 + n + p]->Text_0[0]);
    assert forall|i: int| 0 <= i < n implies a.cells@[i]@ == b.cells@[i]@ by {
        assert(fa[1 + i] == staged_cell(a.cells@[i]@));
        assert(fb[1 + i] == staged_cell(b.cells@[i]@));
        assert(table.columns[i].name == column_names(table.columns)[i]);
        if plan.table.columns@[i].primary_key_ordinal is Some {
            lemma_key_has_value(plan, a, 0, i);
            lemma_key_has_value(plan, b, 0, i);
        } else {
            assert(!table.primary_key.contains(column_names(table.columns)[i]));
            lemma_data_position_exists(table, table.columns.len() as int, i);
            let j = choose|j: int| 0 <= j < positions.len() && #[trigger] positions[j] == i;
            assert(presence_follows(plan.copy_layout.presence_columns@[j], table, positions[j]));
            assert(fa[1 + n + j] == flag_cell(!(a.cells@[i]@ is UnchangedToast)));
            assert(fb[1 + n + j] == flag_cell(!(b.cells@[i]@ is UnchangedToast)));
            assert(fa[1 + n + j]->Text_0[0] == fb[1 + n + j]->Text_0[0]);
        }
    }
    assert(cell_views(a.cells@) =~= cell_views(b.cells@));
    if a.old_key is Some {
        let oa = cell_views(a.old_key->0@);
        let ob = cell_views(b.old_key->0@);
        assert forall|i: int| 0 <= i < oa.len() implies oa[i] == ob[i] by {
            assert(fa[2 + n + p + i] == oa[i]);
            assert(fb[2 + n + p + i] == ob[i]);
        }
        assert(oa =~= ob);
    }
}

proof fn lemma_key_has_value(plan: ApplyPlan, row: StagingRow, from: int, position: int)
    requires
        first_missing_key(plan, row, from) is None,
        0 <= from <= position < plan.table.columns@.len(),
        plan.table.columns@[position].primary_key_ordinal is Some,
    ensures
        !is_missing(row.cells@[position]@),
    decreases position - from,
{
    if from < position {
        lemma_key_has_value(plan, row, from + 1, position);
    }
}

/// A row can be staged exactly where it has a cell for each column, every key column has a value,
/// and it carries an old key, complete and without missing values, exactly if it is a move.
pub proof fn law_which_rows_are_staged(plan: ApplyPlan, row: StagingRow)
    ensures
        row_fault(plan, row) is None <==> {
            let columns = plan.table.columns@;
            &&& row.cells@.len() == columns.len()
            &&& forall|i: int|
                0 <= i < columns.len() && (#[trigger] columns[i]).primary_key_ordinal is Some ==> !(
                row.cells@[i]@ is Null) && !(row.cells@[i]@ is UnchangedToast)
            &&& row.operation == StageOperation::Move <==> row.old_key is Some
            &&& row.old_key matches Some(old_key) ==> {
                &&& old_key@.len() == plan.copy_layout.old_key_columns@.len()
                &&& forall|i: int|
                    0 <= i < old_key@.len() ==> !((#[trigger] old_key@[i])@ is Null) && !(
                    old_key@[i]@ is UnchangedToast)
            }
        },
{
    let columns = plan.table.columns@;
    if row.cells@.len() == columns.len() {
        lemma_first_missing_key(plan, row, 0);
        match row.old_key {
            Some(old_key) => {
                lemma_first_missing_old(old_key@, 0);
            },
            None => {},
        }
    }
}

proof fn lemma_first_missing_key(plan: ApplyPlan, row: StagingRow, from: int)
    requires
        0 <= from <= plan.table.columns@.len(),
    ensures
        first_missing_key(plan, row, from) is None <==> forall|i: int|
            from <= i < plan.table.columns@.len() && (
            #[trigger] plan.table.columns@[i]).primary_key_ordinal is Some ==> !(row.cells@[i]@
                is Null) && !(row.cells@[i]@ is UnchangedToast),
    decreases plan.table.columns@.len() - from,
{
    let columns = plan.table.columns@;
    if from < columns.len() {
        lemma_first_missing_key(plan, row, from + 1);
        if columns[from].primary_key_ordinal is Some && is_missing(row.cells@[from]@) {
            assert(columns[from].primary_key_ordinal is Some);
        }
    }
}

proof fn lemma_first_missing_old(cells: Seq<Cell>, from: int)
    requires
        0 <= from <= cells.len(),
    ensures
        first_missing_old(cells, from) is None <==> forall|i: int|
            from <= i < cells.len() ==> !((#[trigger] cells[i])@ is Null) && !(cells[i]@
                is UnchangedToast),
    decreases cells.len() - from,
{
    if from < cells.len() {
        lemma_first_missing_old(cells, from + 1);
        if is_missing(cells[from]@) {
            assert(cells[from]@ is Null || cells[from]@ is UnchangedToast);
        }
    }
}

/// What each column of a staged row holds: the operation is `U`, `D` or `M`; a data column holds its
/// cell, and NULL where the source sent none; its presence column holds `t` exactly where the source
/// sent the value; the old-key flag holds `t` exactly where there is an old key, and the old-key
/// columns hold that key, or NULL.
#[verifier::spinoff_prover]
#[verifier::rlimit(60)]
pub proof fn law_what_a_staged_row_holds(plan: ApplyPlan, row: StagingRow)
    requires
        plan_follows(plan, plan.staging_name@),
        row_fault(plan, row) is None,
    ensures
        ({
            let columns = copy_columns(
                plan.table@,
                names_model(plan.table@, plan.staging_name@),
            );
            let fields = staged_fields(plan, row);
            let layout = plan.copy_layout;
            let n = row.cells@.len() as int;
            let p = layout.presence_columns@.len() as int;
            let yes = CellView::Text(seq![116u8]);
            let no = CellView::Text(seq![102u8]);
            &&& columns[0] == layout.operation_column@
            &&& row.operation is Upsert ==> fields[0] == CellView::Text(seq![85u8])
            &&& row.operation is Delete ==> fields[0] == CellView::Text(seq![68u8])
            &&& row.operation is Move ==> fields[0] == CellView::Text(seq![77u8])
            &&& forall|i: int|
                0 <= i < n ==> {
                    &&& columns[1 + i] == (#[trigger] plan.table@.columns[i]).name
                    &&& row.cells@[i]@ is UnchangedToast ==> fields[1 + i] == CellView::Null
                    &&& !(row.cells@[i]@ is UnchangedToast) ==> fields[1 + i] == row.cells@[i]@
                }
            &&& forall|i: int|
                0 <= i < p ==> {
                    let source = layout.presence_columns@[i].source_column_index as int;
                    &&& columns[1 + n + i] == (
                    #[trigger] layout.presence_columns@[i]).staging_column_name@
                    &&& layout.presence_columns@[i].source_column_name@
                        == plan.table@.columns[source].name
                    &&& fields[1 + n + i] == (if row.cells@[source]@ is UnchangedToast {
                        no
                    } else {
                        yes
                    })
                }
            &&& columns[1 + n + p] == layout.old_key_present_column@
            &&& fields[1 + n + p] == (if row.old_key is Some {
                yes
            } else {
                no
            })
            &&& forall|i: int|
                0 <= i < layout.old_key_columns@.len() ==> {
                    &&& columns[2 + n + p + i] == (
                    #[trigger] layout.old_key_columns@[i]).staging_column_name@
                    &&& fields[2 + n + p + i] == (match row.old_key {
                        Some(old_key) => old_key@[i]@,
                        None => CellView::Null,
                    })
                }
        }),
{
    let table = plan.table@;
    let names = names_model(table, plan.staging_name@);
    let layout = plan.copy_layout;
    let n = row.cells@.len() as int;
    let p = layout.presence_columns@.len() as int;
    let columns = copy_columns(table, names);
    let fields = staged_fields(plan, row);
    assert forall|i: int| 0 <= i < n implies columns[1 + i] == (#[trigger] table.columns[i]).name by {
        assert(columns[1 + i] == names.columns[i]);
    }
    assert forall|i: int| 0 <= i < p implies columns[1 + n + i] == (
    #[trigger] layout.presence_columns@[i]).staging_column_name@
        && layout.presence_columns@[i].source_column_name@
        == table.columns[layout.presence_columns@[i].source_column_index as int].name by {
        assert(presence_follows(layout.presence_columns@[i], table, data_positions(table)[i]));
        assert(columns[1 + n + i] == names.present[i]);
    }
    assert forall|i: int| 0 <= i < layout.old_key_columns@.len() implies columns[2 + n + p + i] == (
    #[trigger] layout.old_key_columns@[i]).staging_column_name@ by {
        assert(crate::apply::plan::old_key_follows(
            layout.old_key_columns@[i],
            table,
            crate::apply::plan::key_position(table, i),
        ));
        assert(columns[2 + n + p + i] == names.old[i]);
    }
    if row.old_key is Some {
        assert forall|i: int| 0 <= i < layout.old_key_columns@.len() implies fields[2 + n + p + i]
            == (#[trigger] row.old_key->0@[i])@ by {
            assert(fields[2 + n + p + i] == cell_views(row.old_key->0@)[i]);
        }
    }
}

} // verus!
