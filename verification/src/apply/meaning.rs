//! What the statements of a plan do to the rows of the target table.
//!
//! A small part of SQL is given a meaning here: its statements, the text of each, and the rows that
//! a table holds after one. The laws at the end say of every planned statement which text it is and
//! which rows it removes, changes and adds.

use crate::apply::plan::{
    data_positions_of, key_position, names_model, plan_follows, ApplyPlan,
};
use crate::schema::{column_names, well_planned, TableView};
use crate::sql::{listed, literal, paired, quoted, quoted_list, quoted_name};
use crate::text::{joined, texts};
use vstd::prelude::*;

verus! {

// ---------------------------------------------------------------------------------------------
// Rows
// ---------------------------------------------------------------------------------------------

/// The value of a column.
pub enum Value {
    Null,
    Truth(bool),
    Data(Seq<char>),
}

/// A row: the values of its columns by name.
pub type Row = Map<Seq<char>, Value>;

/// The tables by their names, as statements write them.
pub type Tables = Map<Seq<char>, Set<Row>>;

/// The rows that a condition speaks of, by alias.
pub type Scope = Map<Seq<char>, Row>;

// ---------------------------------------------------------------------------------------------
// Statements
// ---------------------------------------------------------------------------------------------

/// A column of the row that an alias stands for.
pub struct ColumnRef {
    pub alias: Seq<char>,
    pub column: Seq<char>,
}

/// What a column is compared with.
pub enum Operand {
    Column(ColumnRef),
    Text(Seq<char>),
}

/// An equality.
pub struct Equality {
    pub left: ColumnRef,
    pub right: Operand,
}

/// One member of a conjunction.
pub enum Conjunct {
    Equal(Equality),
    /// No row of a table meets all the equalities.
    Absent { table: Seq<char>, alias: Seq<char>, equalities: Seq<Equality> },
}

/// A new value of a column: one column where a flag is set, another one where it is not.
pub struct Assignment {
    pub column: Seq<char>,
    pub flag: ColumnRef,
    pub set: ColumnRef,
    pub kept: ColumnRef,
}

pub enum Statement {
    Delete {
        target: Seq<char>,
        alias: Seq<char>,
        using: Seq<char>,
        using_alias: Seq<char>,
        condition: Seq<Conjunct>,
    },
    Update {
        target: Seq<char>,
        alias: Seq<char>,
        assignments: Seq<Assignment>,
        from: Seq<char>,
        from_alias: Seq<char>,
        condition: Seq<Conjunct>,
    },
    Insert {
        target: Seq<char>,
        columns: Seq<Seq<char>>,
        values: Seq<ColumnRef>,
        from: Seq<char>,
        from_alias: Seq<char>,
        condition: Seq<Conjunct>,
    },
}

// ---------------------------------------------------------------------------------------------
// Their text
// ---------------------------------------------------------------------------------------------

pub open spec fn column_text(column: ColumnRef) -> Seq<char> {
    column.alias + "."@ + quoted(column.column)
}

pub open spec fn operand_text(operand: Operand) -> Seq<char> {
    match operand {
        Operand::Column(column) => column_text(column),
        Operand::Text(value) => literal(value),
    }
}

pub open spec fn equality_text(equality: Equality) -> Seq<char> {
    column_text(equality.left) + " = "@ + operand_text(equality.right)
}

pub open spec fn equality_texts(equalities: Seq<Equality>) -> Seq<char> {
    joined(Seq::new(equalities.len(), |i: int| equality_text(equalities[i])), " AND "@)
}

pub open spec fn conjunct_text(conjunct: Conjunct) -> Seq<char> {
    match conjunct {
        Conjunct::Equal(equality) => equality_text(equality),
        Conjunct::Absent { table, alias, equalities } => "NOT EXISTS (SELECT 1 FROM "@ + table
            + " AS "@ + alias + " WHERE "@ + equality_texts(equalities) + ")"@,
    }
}

/// A conjunction; a member that is no equality stands on a line of its own.
pub open spec fn condition_text(condition: Seq<Conjunct>) -> Seq<char>
    decreases condition.len(),
{
    if condition.len() == 0 {
        "TRUE"@
    } else if condition.len() == 1 {
        conjunct_text(condition[0])
    } else {
        condition_text(condition.drop_last()) + (if condition.last() is Equal {
            " AND "@
        } else {
            "\n  AND "@
        }) + conjunct_text(condition.last())
    }
}

pub open spec fn assignment_text(assignment: Assignment) -> Seq<char> {
    "    "@ + quoted(assignment.column) + " = CASE WHEN "@ + column_text(assignment.flag)
        + " THEN "@ + column_text(assignment.set) + " ELSE "@ + column_text(assignment.kept)
        + " END"@
}

pub open spec fn statement_text(statement: Statement) -> Seq<char> {
    match statement {
        Statement::Delete { target, alias, using, using_alias, condition } => "DELETE FROM "@
            + target + " AS "@ + alias + "\nUSING "@ + using + " AS "@ + using_alias + "\nWHERE "@
            + condition_text(condition),
        Statement::Update { target, alias, assignments, from, from_alias, condition } => "UPDATE "@
            + target + " AS "@ + alias + "\nSET\n"@ + joined(
            Seq::new(assignments.len(), |i: int| assignment_text(assignments[i])),
            ",\n"@,
        ) + "\nFROM "@ + from + " AS "@ + from_alias + "\nWHERE "@ + condition_text(condition),
        Statement::Insert { target, columns, values, from, from_alias, condition } => "INSERT INTO "@
            + target + " ("@ + joined(
            Seq::new(columns.len(), |i: int| quoted(columns[i])),
            ", "@,
        ) + ")\nSELECT "@ + joined(
            Seq::new(values.len(), |i: int| column_text(values[i])),
            ", "@,
        ) + "\nFROM "@ + from + " AS "@ + from_alias + "\nWHERE "@ + condition_text(condition),
    }
}

// ---------------------------------------------------------------------------------------------
// Their meaning
// ---------------------------------------------------------------------------------------------

pub open spec fn column_value(scope: Scope, column: ColumnRef) -> Value {
    scope[column.alias][column.column]
}

pub open spec fn operand_value(scope: Scope, operand: Operand) -> Value {
    match operand {
        Operand::Column(column) => column_value(scope, column),
        Operand::Text(value) => Value::Data(value),
    }
}

/// The equality is true: both values are known and the same.
pub open spec fn equality_holds(scope: Scope, equality: Equality) -> bool {
    let left = column_value(scope, equality.left);
    left != Value::Null && left == operand_value(scope, equality.right)
}

pub open spec fn equalities_hold(scope: Scope, equalities: Seq<Equality>) -> bool {
    forall|i: int| 0 <= i < equalities.len() ==> equality_holds(scope, #[trigger] equalities[i])
}

pub open spec fn conjunct_holds(tables: Tables, scope: Scope, conjunct: Conjunct) -> bool {
    match conjunct {
        Conjunct::Equal(equality) => equality_holds(scope, equality),
        Conjunct::Absent { table, alias, equalities } => !some_row_meets(
            tables[table],
            scope,
            alias,
            equalities,
        ),
    }
}

/// Some row of the table meets all the equalities.
pub open spec fn some_row_meets(
    rows: Set<Row>,
    scope: Scope,
    alias: Seq<char>,
    equalities: Seq<Equality>,
) -> bool {
    exists|row: Row|
        #[trigger] rows.contains(row) && equalities_hold(scope.insert(alias, row), equalities)
}

/// The condition is true: each of its members is.
pub open spec fn condition_holds(tables: Tables, scope: Scope, condition: Seq<Conjunct>) -> bool {
    forall|i: int|
        0 <= i < condition.len() ==> conjunct_holds(tables, scope, #[trigger] condition[i])
}

/// The scope of two rows.
pub open spec fn pair_scope(alias: Seq<char>, row: Row, other_alias: Seq<char>, other: Row) -> Scope {
    Map::empty().insert(alias, row).insert(other_alias, other)
}

pub open spec fn assigned_value(scope: Scope, assignment: Assignment) -> Value {
    if column_value(scope, assignment.flag) == Value::Truth(true) {
        column_value(scope, assignment.set)
    } else {
        column_value(scope, assignment.kept)
    }
}

/// The row after the assignments.
pub open spec fn assigned(scope: Scope, row: Row, assignments: Seq<Assignment>) -> Row
    decreases assignments.len(),
{
    if assignments.len() == 0 {
        row
    } else {
        assigned(scope, row, assignments.drop_last()).insert(
            assignments.last().column,
            assigned_value(scope, assignments.last()),
        )
    }
}

/// The row of the given columns and values.
pub open spec fn projected(scope: Scope, columns: Seq<Seq<char>>, values: Seq<ColumnRef>) -> Row
    decreases columns.len(),
{
    if columns.len() == 0 || columns.len() != values.len() {
        Map::empty()
    } else {
        projected(scope, columns.drop_last(), values.drop_last()).insert(
            columns.last(),
            column_value(scope, values.last()),
        )
    }
}

/// The rows that the target of a statement can hold after it. Where several rows match a row that
/// is updated, any one of them may give its values.
pub open spec fn rows_after(tables: Tables, statement: Statement) -> Set<Row> {
    match statement {
        Statement::Delete { target, alias, using, using_alias, condition } => Set::new(
            |row: Row|
                tables[target].contains(row) && !exists|other: Row|
                    #[trigger] tables[using].contains(other) && condition_holds(
                        tables,
                        pair_scope(alias, row, using_alias, other),
                        condition,
                    ),
        ),
        Statement::Update { target, alias, assignments, from, from_alias, condition } => Set::new(
            |row: Row|
                {
                    ||| tables[target].contains(row) && !exists|other: Row|
                        #[trigger] tables[from].contains(other) && condition_holds(
                            tables,
                            pair_scope(alias, row, from_alias, other),
                            condition,
                        )
                    ||| exists|before: Row, other: Row|
                        {
                            &&& #[trigger] tables[target].contains(before)
                            &&& #[trigger] tables[from].contains(other)
                            &&& condition_holds(
                                tables,
                                pair_scope(alias, before, from_alias, other),
                                condition,
                            )
                            &&& row == assigned(
                                pair_scope(alias, before, from_alias, other),
                                before,
                                assignments,
                            )
                        }
                },
        ),
        Statement::Insert { target, columns, values, from, from_alias, condition } => Set::new(
            |row: Row|
                {
                    ||| tables[target].contains(row)
                    ||| exists|other: Row|
                        {
                            &&& #[trigger] tables[from].contains(other)
                            &&& condition_holds(
                                tables,
                                Map::empty().insert(from_alias, other),
                                condition,
                            )
                            &&& row == projected(
                                Map::empty().insert(from_alias, other),
                                columns,
                                values,
                            )
                        }
                },
        ),
    }
}

// ---------------------------------------------------------------------------------------------
// The planned statements
// ---------------------------------------------------------------------------------------------

/// The staging columns of the old key, in key order.
pub open spec fn old_columns(plan: ApplyPlan) -> Seq<Seq<char>> {
    Seq::new(
        plan.copy_layout.old_key_columns@.len(),
        |i: int| plan.copy_layout.old_key_columns@[i].staging_column_name@,
    )
}

/// The columns outside the key.
pub open spec fn data_columns(plan: ApplyPlan) -> Seq<Seq<char>> {
    Seq::new(
        plan.copy_layout.presence_columns@.len(),
        |i: int| plan.copy_layout.presence_columns@[i].source_column_name@,
    )
}

/// The staging columns that tell whether the source sent a value, one for each data column.
pub open spec fn presence_columns(plan: ApplyPlan) -> Seq<Seq<char>> {
    Seq::new(
        plan.copy_layout.presence_columns@.len(),
        |i: int| plan.copy_layout.presence_columns@[i].staging_column_name@,
    )
}

/// The staged row is of this operation.
pub open spec fn operation_test(plan: ApplyPlan, operation: Seq<char>) -> Conjunct {
    Conjunct::Equal(
        Equality {
            left: ColumnRef { alias: "s"@, column: plan.copy_layout.operation_column@ },
            right: Operand::Text(operation),
        },
    )
}

/// Each column of the target row has the value of the staging column beside it.
pub open spec fn column_equalities(columns: Seq<Seq<char>>, staged: Seq<Seq<char>>) -> Seq<Equality> {
    Seq::new(
        columns.len(),
        |i: int|
            Equality {
                left: ColumnRef { alias: "t"@, column: columns[i] },
                right: Operand::Column(ColumnRef { alias: "s"@, column: staged[i] }),
            },
    )
}

pub open spec fn conjuncts(equalities: Seq<Equality>) -> Seq<Conjunct> {
    Seq::new(equalities.len(), |i: int| Conjunct::Equal(equalities[i]))
}

/// The staged row is of this operation, and the target row has its key in the given columns.
pub open spec fn matching(plan: ApplyPlan, operation: Seq<char>, staged: Seq<Seq<char>>) -> Seq<
    Conjunct,
> {
    seq![operation_test(plan, operation)] + conjuncts(
        column_equalities(plan.table@.primary_key, staged),
    )
}

pub open spec fn removal(plan: ApplyPlan, operation: Seq<char>, staged: Seq<Seq<char>>) -> Statement {
    Statement::Delete {
        target: quoted_name(plan.table@.target),
        alias: "t"@,
        using: quoted(plan.staging_name@),
        using_alias: "s"@,
        condition: matching(plan, operation, staged),
    }
}

/// Every data column takes the staged value where the source sent one and the target's otherwise.
pub open spec fn data_assignments(plan: ApplyPlan) -> Seq<Assignment> {
    Seq::new(
        data_columns(plan).len(),
        |i: int|
            Assignment {
                column: data_columns(plan)[i],
                flag: ColumnRef { alias: "s"@, column: presence_columns(plan)[i] },
                set: ColumnRef { alias: "s"@, column: data_columns(plan)[i] },
                kept: ColumnRef { alias: "t"@, column: data_columns(plan)[i] },
            },
    )
}

/// The update of the target rows that are staged.
pub open spec fn change(plan: ApplyPlan) -> Statement {
    Statement::Update {
        target: quoted_name(plan.table@.target),
        alias: "t"@,
        assignments: data_assignments(plan),
        from: quoted(plan.staging_name@),
        from_alias: "s"@,
        condition: matching(plan, "U"@, plan.table@.primary_key),
    }
}

/// The completion of the staged moves by the rows that they move.
pub open spec fn completion(plan: ApplyPlan) -> Statement {
    Statement::Update {
        target: quoted(plan.staging_name@),
        alias: "s"@,
        assignments: data_assignments(plan),
        from: quoted_name(plan.table@.target),
        from_alias: "t"@,
        condition: matching(plan, "M"@, old_columns(plan)),
    }
}

/// The staged row's own columns.
pub open spec fn staged_values(plan: ApplyPlan) -> Seq<ColumnRef> {
    Seq::new(
        plan.table@.columns.len(),
        |i: int| ColumnRef { alias: "s"@, column: plan.table@.columns[i].name },
    )
}

pub open spec fn addition(plan: ApplyPlan, condition: Seq<Conjunct>) -> Statement {
    Statement::Insert {
        target: quoted_name(plan.table@.target),
        columns: column_names(plan.table@.columns),
        values: staged_values(plan),
        from: quoted(plan.staging_name@),
        from_alias: "s"@,
        condition,
    }
}

/// The staged row is an upsert, and no target row has its key.
pub open spec fn unmatched(plan: ApplyPlan) -> Seq<Conjunct> {
    seq![
        operation_test(plan, "U"@),
        Conjunct::Absent {
            table: quoted_name(plan.table@.target),
            alias: "t"@,
            equalities: column_equalities(plan.table@.primary_key, plan.table@.primary_key),
        },
    ]
}

// ---------------------------------------------------------------------------------------------
// Their texts
// ---------------------------------------------------------------------------------------------

proof fn lemma_words()
    ensures
        " AS t\nUSING "@ == " AS "@ + "t"@ + "\nUSING "@,
        " AS s\nWHERE s."@ == " AS "@ + "s"@ + "\nWHERE "@ + "s"@ + "."@,
        " AS t\nWHERE s."@ == " AS "@ + "t"@ + "\nWHERE "@ + "s"@ + "."@,
        " AS s\nSET\n"@ == " AS "@ + "s"@ + "\nSET\n"@,
        " AS t\nSET\n"@ == " AS "@ + "t"@ + "\nSET\n"@,
        "t."@ == "t"@ + "."@,
        "s."@ == "s"@ + "."@,
        " = s."@ == " = "@ + "s"@ + "."@,
        " = CASE WHEN s."@ == " = CASE WHEN "@ + "s"@ + "."@,
        " THEN s."@ == " THEN "@ + "s"@ + "."@,
        " ELSE t."@ == " ELSE "@ + "t"@ + "."@,
        "\n  AND NOT EXISTS (SELECT 1 FROM "@ == "\n  AND "@ + "NOT EXISTS (SELECT 1 FROM "@,
        " AS t WHERE "@ == " AS "@ + "t"@ + " WHERE "@,
        ""@ == Seq::<char>::empty(),
{
    reveal_strlit("");
    reveal_strlit("t");
    reveal_strlit("s");
    reveal_strlit(".");
    reveal_strlit("t.");
    reveal_strlit("s.");
    reveal_strlit(" AS ");
    reveal_strlit(" = ");
    reveal_strlit(" = s.");
    reveal_strlit("\nUSING ");
    reveal_strlit("\nWHERE ");
    reveal_strlit("\nSET\n");
    reveal_strlit(" AS t\nUSING ");
    reveal_strlit(" AS s\nWHERE s.");
    reveal_strlit(" AS t\nWHERE s.");
    reveal_strlit(" AS s\nSET\n");
    reveal_strlit(" AS t\nSET\n");
    reveal_strlit(" = CASE WHEN s.");
    reveal_strlit(" = CASE WHEN ");
    reveal_strlit(" THEN s.");
    reveal_strlit(" THEN ");
    reveal_strlit(" ELSE t.");
    reveal_strlit(" ELSE ");
    reveal_strlit("\n  AND NOT EXISTS (SELECT 1 FROM ");
    reveal_strlit("\n  AND ");
    reveal_strlit("NOT EXISTS (SELECT 1 FROM ");
    reveal_strlit(" AS t WHERE ");
    reveal_strlit(" WHERE ");
    assert(" AS t\nUSING "@ =~= " AS "@ + "t"@ + "\nUSING "@);
    assert(" AS s\nWHERE s."@ =~= " AS "@ + "s"@ + "\nWHERE "@ + "s"@ + "."@);
    assert(" AS t\nWHERE s."@ =~= " AS "@ + "t"@ + "\nWHERE "@ + "s"@ + "."@);
    assert(" AS s\nSET\n"@ =~= " AS "@ + "s"@ + "\nSET\n"@);
    assert(" AS t\nSET\n"@ =~= " AS "@ + "t"@ + "\nSET\n"@);
    assert("t."@ =~= "t"@ + "."@);
    assert("s."@ =~= "s"@ + "."@);
    assert(" = s."@ =~= " = "@ + "s"@ + "."@);
    assert(" = CASE WHEN s."@ =~= " = CASE WHEN "@ + "s"@ + "."@);
    assert(" THEN s."@ =~= " THEN "@ + "s"@ + "."@);
    assert(" ELSE t."@ =~= " ELSE "@ + "t"@ + "."@);
    assert("\n  AND NOT EXISTS (SELECT 1 FROM "@ =~= "\n  AND "@ + "NOT EXISTS (SELECT 1 FROM "@);
    assert(" AS t WHERE "@ =~= " AS "@ + "t"@ + " WHERE "@);
    assert(""@ =~= Seq::<char>::empty());
}

/// A conjunction of equalities.
proof fn lemma_condition_text(first: Equality, rest: Seq<Equality>)
    requires
        rest.len() > 0,
    ensures
        condition_text(seq![Conjunct::Equal(first)] + conjuncts(rest)) == equality_text(first)
            + " AND "@ + equality_texts(rest),
    decreases rest.len(),
{
    let all = seq![Conjunct::Equal(first)] + conjuncts(rest);
    let parts = Seq::new(rest.len(), |i: int| equality_text(rest[i]));
    let front = rest.drop_last();
    assert(all.drop_last() =~= seq![Conjunct::Equal(first)] + conjuncts(front));
    assert(all.last() == Conjunct::Equal(rest.last()));
    if rest.len() == 1 {
        assert(conjuncts(front) =~= Seq::empty());
        assert(all.drop_last() =~= seq![Conjunct::Equal(first)]);
        assert(condition_text(all.drop_last()) == equality_text(first));
        assert(parts[0] == equality_text(rest[0]));
        assert(equality_texts(rest) == equality_text(rest[0]));
    } else {
        lemma_condition_text(first, front);
        let front_parts = Seq::new(front.len(), |i: int| equality_text(front[i]));
        assert(parts.drop_last() =~= front_parts);
        assert(equality_texts(rest) == equality_texts(front) + " AND "@ + equality_text(
            rest.last(),
        ));
        assert(equality_text(first) + " AND "@ + equality_texts(front) + " AND "@ + equality_text(
            rest.last(),
        ) =~= equality_text(first) + " AND "@ + (equality_texts(front) + " AND "@ + equality_text(
            rest.last(),
        )));
    }
}

/// The pairs of columns as equalities.
proof fn lemma_equality_texts(columns: Seq<Seq<char>>, staged: Seq<Seq<char>>)
    requires
        columns.len() == staged.len(),
    ensures
        paired("t."@, columns, " = s."@, staged, " AND "@) == equality_texts(
            column_equalities(columns, staged),
        ),
{
    lemma_words();
    let equalities = column_equalities(columns, staged);
    let left = Seq::new(
        columns.len(),
        |i: int| "t."@ + quoted(columns[i]) + " = s."@ + quoted(staged[i]),
    );
    let right = Seq::new(equalities.len(), |i: int| equality_text(equalities[i]));
    assert forall|i: int| 0 <= i < columns.len() implies left[i] == right[i] by {
        assert("t"@ + "."@ + quoted(columns[i]) + (" = "@ + "s"@ + "."@) + quoted(staged[i])
            =~= "t"@ + "."@ + quoted(columns[i]) + " = "@ + ("s"@ + "."@ + quoted(staged[i])));
    }
    assert(left =~= right);
}

/// The names that the texts are made of are those of the plan.
pub(crate) proof fn lemma_names(plan: ApplyPlan)
    requires
        plan_follows(plan, plan.staging_name@),
    ensures
        ({
            let names = names_model(plan.table@, plan.staging_name@);
            &&& names.target == quoted_name(plan.table@.target)
            &&& names.staging == quoted(plan.staging_name@)
            &&& names.operation == quoted(plan.copy_layout.operation_column@)
            &&& names.moved == quoted(plan.copy_layout.old_key_present_column@)
            &&& names.keys == plan.table@.primary_key
            &&& names.old == old_columns(plan)
            &&& names.columns == column_names(plan.table@.columns)
            &&& names.data == data_columns(plan)
            &&& names.present == presence_columns(plan)
        }),
{
    let names = names_model(plan.table@, plan.staging_name@);
    assert forall|i: int| 0 <= i < names.old.len() implies names.old[i] == old_columns(plan)[i] by {
        assert(crate::apply::plan::old_key_follows(
            plan.copy_layout.old_key_columns@[i],
            plan.table@,
            key_position(plan.table@, i),
        ));
    }
    assert forall|i: int| 0 <= i < names.data.len() implies names.data[i] == data_columns(plan)[i]
        && names.present[i] == presence_columns(plan)[i] by {
        assert(crate::apply::plan::presence_follows(
            plan.copy_layout.presence_columns@[i],
            plan.table@,
            crate::apply::plan::data_positions(plan.table@)[i],
        ));
    }
    assert(names.old =~= old_columns(plan));
    assert(names.data =~= data_columns(plan));
    assert(names.present =~= presence_columns(plan));
}

/// The text of a condition that a staged row of an operation matches.
proof fn lemma_matching_text(plan: ApplyPlan, operation: Seq<char>, staged: Seq<Seq<char>>)
    requires
        plan.table@.primary_key.len() > 0,
        staged.len() == plan.table@.primary_key.len(),
    ensures
        "s"@ + "."@ + quoted(plan.copy_layout.operation_column@) + " = "@ + literal(operation)
            + " AND "@ + paired("t."@, plan.table@.primary_key, " = s."@, staged, " AND "@)
            == condition_text(matching(plan, operation, staged)),
{
    let keys = plan.table@.primary_key;
    lemma_equality_texts(keys, staged);
    lemma_condition_text(operation_test(plan, operation)->Equal_0, column_equalities(keys, staged));
}

/// The text of a removal.
proof fn lemma_removal_text(plan: ApplyPlan, operation: Seq<char>, staged: Seq<Seq<char>>)
    requires
        plan.table@.primary_key.len() > 0,
        staged.len() == plan.table@.primary_key.len(),
    ensures
        "DELETE FROM "@ + quoted_name(plan.table@.target) + " AS t\nUSING "@ + quoted(
            plan.staging_name@,
        ) + " AS s\nWHERE s."@ + quoted(plan.copy_layout.operation_column@) + " = "@ + literal(
            operation,
        ) + " AND "@ + paired("t."@, plan.table@.primary_key, " = s."@, staged, " AND "@)
            == statement_text(removal(plan, operation, staged)),
{
    lemma_words();
    lemma_matching_text(plan, operation, staged);
    let target = quoted_name(plan.table@.target);
    let staging = quoted(plan.staging_name@);
    let op = quoted(plan.copy_layout.operation_column@);
    let pairs = paired("t."@, plan.table@.primary_key, " = s."@, staged, " AND "@);
    assert("DELETE FROM "@ + target + (" AS "@ + "t"@ + "\nUSING "@) + staging + (" AS "@ + "s"@
        + "\nWHERE "@ + "s"@ + "."@) + op + " = "@ + literal(operation) + " AND "@ + pairs
        =~= "DELETE FROM "@ + target + " AS "@ + "t"@ + "\nUSING "@ + staging + " AS "@ + "s"@
        + "\nWHERE "@ + ("s"@ + "."@ + op + " = "@ + literal(operation) + " AND "@ + pairs));
}

/// The text of an update.
proof fn lemma_change_text(
    plan: ApplyPlan,
    target: Seq<char>,
    alias: Seq<char>,
    from: Seq<char>,
    from_alias: Seq<char>,
    operation: Seq<char>,
    staged: Seq<Seq<char>>,
    assignments: Seq<char>,
)
    requires
        plan_follows(plan, plan.staging_name@),
        plan.table@.primary_key.len() > 0,
        staged.len() == plan.table@.primary_key.len(),
        assignments == names_model(plan.table@, plan.staging_name@).assignments(),
    ensures
        "UPDATE "@ + target + (" AS "@ + alias + "\nSET\n"@) + assignments + "\nFROM "@ + from + (
        " AS "@ + from_alias + "\nWHERE "@ + "s"@ + "."@) + quoted(
            plan.copy_layout.operation_column@,
        ) + " = "@ + literal(operation) + " AND "@ + paired(
            "t."@,
            plan.table@.primary_key,
            " = s."@,
            staged,
            " AND "@,
        ) == statement_text(
            Statement::Update {
                target,
                alias,
                assignments: data_assignments(plan),
                from,
                from_alias,
                condition: matching(plan, operation, staged),
            },
        ),
{
    lemma_matching_text(plan, operation, staged);
    lemma_assignments_text(plan);
    let op = quoted(plan.copy_layout.operation_column@);
    let pairs = paired("t."@, plan.table@.primary_key, " = s."@, staged, " AND "@);
    lemma_regroup_front("UPDATE "@ + target, " AS "@, alias, "\nSET\n"@);
    lemma_regroup_tail(
        "UPDATE "@ + target + " AS "@ + alias + "\nSET\n"@ + assignments + "\nFROM "@ + from,
        " AS "@,
        from_alias,
        "\nWHERE "@,
        "s"@,
        "."@,
        op,
        " = "@,
        literal(operation),
        " AND "@,
        pairs,
    );
}

proof fn lemma_regroup_front(a: Seq<char>, b: Seq<char>, c: Seq<char>, d: Seq<char>)
    ensures
        a + (b + c + d) == a + b + c + d,
{
    assert(a + (b + c + d) =~= a + b + c + d);
}

proof fn lemma_regroup_tail(
    a: Seq<char>,
    b: Seq<char>,
    c: Seq<char>,
    d: Seq<char>,
    e: Seq<char>,
    f: Seq<char>,
    g: Seq<char>,
    h: Seq<char>,
    i: Seq<char>,
    j: Seq<char>,
    k: Seq<char>,
)
    ensures
        a + (b + c + d + e + f) + g + h + i + j + k == a + b + c + d + (e + f + g + h + i + j + k),
{
    assert(a + (b + c + d + e + f) + g + h + i + j + k =~= a + b + c + d + (e + f + g + h + i + j
        + k));
}

proof fn lemma_regroup_column(a: Seq<char>, b: Seq<char>, c: Seq<char>, d: Seq<char>, e: Seq<char>)
    ensures
        a + (b + c + d) + e == a + b + (c + d + e),
{
    assert(a + (b + c + d) + e =~= a + b + (c + d + e));
}

/// The assignments of the data columns.
proof fn lemma_assignments_text(plan: ApplyPlan)
    requires
        plan_follows(plan, plan.staging_name@),
    ensures
        names_model(plan.table@, plan.staging_name@).assignments() == joined(
            Seq::new(
                data_assignments(plan).len(),
                |i: int| assignment_text(data_assignments(plan)[i]),
            ),
            ",\n"@,
        ),
{
    lemma_words();
    lemma_names(plan);
    let names = names_model(plan.table@, plan.staging_name@);
    let list = data_assignments(plan);
    let left = Seq::new(names.data.len(), |i: int| names.assignment(i));
    let right = Seq::new(list.len(), |i: int| assignment_text(list[i]));
    assert forall|i: int| 0 <= i < left.len() implies left[i] == right[i] by {
        let data = quoted(names.data[i]);
        let present = quoted(names.present[i]);
        lemma_regroup_column("    "@ + data, " = CASE WHEN "@, "s"@, "."@, present);
        let front = "    "@ + data + " = CASE WHEN "@ + ("s"@ + "."@ + present);
        lemma_regroup_column(front, " THEN "@, "s"@, "."@, data);
        lemma_regroup_column(
            front + " THEN "@ + ("s"@ + "."@ + data),
            " ELSE "@,
            "t"@,
            "."@,
            data,
        );
    }
    assert(left =~= right);
}

/// The lists of columns and values of an insertion.
proof fn lemma_value_texts(plan: ApplyPlan)
    ensures
        quoted_list(column_names(plan.table@.columns)) == joined(
            Seq::new(
                column_names(plan.table@.columns).len(),
                |i: int| quoted(column_names(plan.table@.columns)[i]),
            ),
            ", "@,
        ),
        listed("s."@, column_names(plan.table@.columns), ""@, ", "@) == joined(
            Seq::new(staged_values(plan).len(), |i: int| column_text(staged_values(plan)[i])),
            ", "@,
        ),
{
    lemma_words();
    let columns = column_names(plan.table@.columns);
    let plain = Seq::new(columns.len(), |i: int| ""@ + quoted(columns[i]) + ""@);
    let bare = Seq::new(columns.len(), |i: int| quoted(columns[i]));
    assert forall|i: int| 0 <= i < columns.len() implies plain[i] == bare[i] by {
        assert(""@ + quoted(columns[i]) + ""@ =~= quoted(columns[i]));
    }
    assert(plain =~= bare);
    let left = Seq::new(columns.len(), |i: int| "s."@ + quoted(columns[i]) + ""@);
    let right = Seq::new(staged_values(plan).len(), |i: int| column_text(staged_values(plan)[i]));
    assert forall|i: int| 0 <= i < columns.len() implies left[i] == right[i] by {
        assert(("s"@ + "."@) + quoted(columns[i]) + ""@ =~= "s"@ + "."@ + quoted(columns[i]));
    }
    assert(left =~= right);
}

// ---------------------------------------------------------------------------------------------
// Laws
// ---------------------------------------------------------------------------------------------

/// The target row and the staged row have the same known values, column by column.
pub open spec fn agrees(
    row: Row,
    columns: Seq<Seq<char>>,
    staged: Row,
    staged_columns: Seq<Seq<char>>,
) -> bool {
    forall|i: int|
        0 <= i < columns.len() ==> row[#[trigger] columns[i]] != Value::Null && row[columns[i]]
            == staged[staged_columns[i]]
}

/// A conjunction with an operation and a key is true exactly of the staged rows of that operation
/// that agree with the target row in every key column.
proof fn lemma_matching_holds(
    plan: ApplyPlan,
    operation: Seq<char>,
    columns: Seq<Seq<char>>,
    tables: Tables,
    row: Row,
    staged: Row,
    scope: Scope,
)
    requires
        columns.len() == plan.table@.primary_key.len(),
        scope["t"@] == row,
        scope["s"@] == staged,
    ensures
        condition_holds(tables, scope, matching(plan, operation, columns)) <==> {
            &&& staged[plan.copy_layout.operation_column@] == Value::Data(operation)
            &&& agrees(row, plan.table@.primary_key, staged, columns)
        },
{
    let keys = plan.table@.primary_key;
    let condition = matching(plan, operation, columns);
    let equalities = column_equalities(keys, columns);
    assert(condition[0] == operation_test(plan, operation));
    assert forall|i: int| 0 <= i < keys.len() implies #[trigger] condition[i + 1]
        == Conjunct::Equal(equalities[i]) by {}
    if condition_holds(tables, scope, condition) {
        assert(conjunct_holds(tables, scope, condition[0]));
        assert forall|i: int| 0 <= i < keys.len() implies row[#[trigger] keys[i]] != Value::Null
            && row[keys[i]] == staged[columns[i]] by {
            assert(conjunct_holds(tables, scope, condition[i + 1]));
        }
    }
    if staged[plan.copy_layout.operation_column@] == Value::Data(operation) && agrees(
        row,
        keys,
        staged,
        columns,
    ) {
        assert forall|i: int| 0 <= i < condition.len() implies conjunct_holds(
            tables,
            scope,
            #[trigger] condition[i],
        ) by {
            if i > 0 {
                assert(condition[(i - 1) + 1] == Conjunct::Equal(equalities[i - 1]));
                assert(row[keys[i - 1]] == staged[columns[i - 1]]);
            }
        }
    }
}

proof fn lemma_aliases_differ()
    ensures
        "s"@ != "t"@,
{
    reveal_strlit("s");
    reveal_strlit("t");
    assert("s"@[0] == 's');
    assert("t"@[0] == 't');
}

/// A removal takes away exactly the target rows that some staged row of the operation agrees with.
proof fn lemma_removal(plan: ApplyPlan, operation: Seq<char>, columns: Seq<Seq<char>>, tables: Tables)
    requires
        columns.len() == plan.table@.primary_key.len(),
    ensures
        forall|row: Row|
            #[trigger] rows_after(tables, removal(plan, operation, columns)).contains(row) <==> {
                &&& tables[quoted_name(plan.table@.target)].contains(row)
                &&& !exists|staged: Row|
                    {
                        &&& #[trigger] tables[quoted(plan.staging_name@)].contains(staged)
                        &&& staged[plan.copy_layout.operation_column@] == Value::Data(operation)
                        &&& agrees(row, plan.table@.primary_key, staged, columns)
                    }
            },
{
    lemma_aliases_differ();
    let using = quoted(plan.staging_name@);
    assert forall|row: Row, staged: Row| condition_holds(
        tables,
        #[trigger] pair_scope("t"@, row, "s"@, staged),
        matching(plan, operation, columns),
    ) <==> {
        &&& staged[plan.copy_layout.operation_column@] == Value::Data(operation)
        &&& agrees(row, plan.table@.primary_key, staged, columns)
    } by {
        lemma_matching_holds(
            plan,
            operation,
            columns,
            tables,
            row,
            staged,
            pair_scope("t"@, row, "s"@, staged),
        );
    }
}

/// The delete statement removes a target row exactly when some staged row is a delete and agrees
/// with it in all key columns.
pub proof fn law_delete_removes_the_deleted(plan: ApplyPlan, tables: Tables)
    requires
        plan_follows(plan, plan.staging_name@),
        well_planned(plan.table@),
    ensures
        plan.delete_sql@ == statement_text(removal(plan, "D"@, plan.table@.primary_key)),
        forall|row: Row|
            #[trigger] rows_after(
                tables,
                removal(plan, "D"@, plan.table@.primary_key),
            ).contains(row) <==> {
                &&& tables[quoted_name(plan.table@.target)].contains(row)
                &&& !exists|staged: Row|
                    {
                        &&& #[trigger] tables[quoted(plan.staging_name@)].contains(staged)
                        &&& staged[plan.copy_layout.operation_column@] == Value::Data("D"@)
                        &&& agrees(row, plan.table@.primary_key, staged, plan.table@.primary_key)
                    }
            },
{
    lemma_names(plan);
    lemma_removal_text(plan, "D"@, plan.table@.primary_key);
    lemma_removal(plan, "D"@, plan.table@.primary_key, tables);
}

/// The statement for moved rows removes a target row exactly when some staged row is a move whose
/// old key agrees with it in all key columns.
pub proof fn law_delete_moved_removes_the_old_rows(plan: ApplyPlan, tables: Tables)
    requires
        plan_follows(plan, plan.staging_name@),
        well_planned(plan.table@),
    ensures
        plan.delete_moved_sql@ == statement_text(removal(plan, "M"@, old_columns(plan))),
        old_columns(plan).len() == plan.table@.primary_key.len(),
        forall|row: Row|
            #[trigger] rows_after(tables, removal(plan, "M"@, old_columns(plan))).contains(row)
                <==> {
                &&& tables[quoted_name(plan.table@.target)].contains(row)
                &&& !exists|staged: Row|
                    {
                        &&& #[trigger] tables[quoted(plan.staging_name@)].contains(staged)
                        &&& staged[plan.copy_layout.operation_column@] == Value::Data("M"@)
                        &&& agrees(row, plan.table@.primary_key, staged, old_columns(plan))
                    }
            },
{
    lemma_names(plan);
    lemma_removal_text(plan, "M"@, old_columns(plan));
    lemma_removal(plan, "M"@, old_columns(plan), tables);
}

/// The row is `base` with each data column taken from the staged row where the source sent a value
/// and from the target row where it sent none.
pub open spec fn merged(plan: ApplyPlan, base: Row, staged: Row, target: Row, row: Row) -> bool {
    let data = data_columns(plan);
    &&& forall|i: int|
        0 <= i < data.len() ==> {
            &&& row.dom().contains(#[trigger] data[i])
            &&& row[data[i]] == if staged[presence_columns(plan)[i]] == Value::Truth(true) {
                staged[data[i]]
            } else {
                target[data[i]]
            }
        }
    &&& forall|column: Seq<char>| !data.contains(column) ==> #[trigger] row.dom().contains(column)
        == base.dom().contains(column)
    &&& forall|column: Seq<char>| !data.contains(column) ==> #[trigger] row[column] == base[column]
}

/// The row holds the staged values of the table's columns and nothing else.
pub open spec fn copied(plan: ApplyPlan, staged: Row, row: Row) -> bool {
    let columns = column_names(plan.table@.columns);
    &&& forall|column: Seq<char>| #[trigger] row.dom().contains(column) <==> columns.contains(column)
    &&& forall|i: int| 0 <= i < columns.len() ==> row[#[trigger] columns[i]] == staged[columns[i]]
}

proof fn lemma_positions_rise(table: TableView, count: int)
    requires
        0 <= count <= table.columns.len(),
    ensures
        forall|a: int, b: int|
            0 <= a < b < data_positions_of(table, count).len() ==> #[trigger] data_positions_of(
                table,
                count,
            )[a] < #[trigger] data_positions_of(table, count)[b],
        forall|a: int|
            0 <= a < data_positions_of(table, count).len() ==> {
                &&& 0 <= #[trigger] data_positions_of(table, count)[a] < count
                &&& !table.primary_key.contains(
                    table.columns[data_positions_of(table, count)[a]].name,
                )
            },
    decreases count,
{
    if count > 0 {
        lemma_positions_rise(table, count - 1);
        let before = data_positions_of(table, count - 1);
        let after = data_positions_of(table, count);
        assert forall|a: int| 0 <= a < after.len() implies 0 <= #[trigger] after[a] < count
            && !table.primary_key.contains(table.columns[after[a]].name) by {
            if a < before.len() {
                assert(after[a] == before[a]);
            }
        }
        assert forall|a: int, b: int| 0 <= a < b < after.len() implies #[trigger] after[a]
            < #[trigger] after[b] by {
            assert(after[a] == before[a]);
            if b < before.len() {
                assert(after[b] == before[b]);
            }
        }
    }
}

/// The data columns are columns of the table, none stands twice, and none belongs to the key.
pub proof fn law_data_columns_are_outside_the_key(plan: ApplyPlan)
    requires
        plan_follows(plan, plan.staging_name@),
        well_planned(plan.table@),
    ensures
        data_columns(plan).no_duplicates(),
        forall|column: Seq<char>|
            #[trigger] data_columns(plan).contains(column) <==> {
                &&& column_names(plan.table@.columns).contains(column)
                &&& !plan.table@.primary_key.contains(column)
            },
{
    let table = plan.table@;
    let count = table.columns.len() as int;
    let positions = data_positions_of(table, count);
    let names = column_names(table.columns);
    let data = data_columns(plan);
    lemma_names(plan);
    lemma_positions_rise(table, count);
    assert forall|i: int| 0 <= i < data.len() implies #[trigger] data[i] == names[positions[i]] by {
        assert(data[i] == names_model(table, plan.staging_name@).data[i]);
    }
    assert forall|a: int, b: int| 0 <= a < data.len() && 0 <= b < data.len() && a != b implies data[a]
        != data[b] by {
        assert(positions[a] != positions[b]);
        assert(names[positions[a]] != names[positions[b]]);
    }
    assert forall|column: Seq<char>| #[trigger] data.contains(column) <==> (names.contains(column)
        && !table.primary_key.contains(column)) by {
        if data.contains(column) {
            let i = choose|i: int| 0 <= i < data.len() && data[i] == column;
            assert(names[positions[i]] == column);
            assert(table.columns[positions[i]].name == column);
        }
        if names.contains(column) && !table.primary_key.contains(column) {
            let at = choose|at: int| 0 <= at < names.len() && names[at] == column;
            crate::apply::row::lemma_data_position_exists(table, count, at);
            let j = choose|j: int| 0 <= j < positions.len() && #[trigger] positions[j] == at;
            assert(data[j] == column);
        }
    }
}

/// The assignments give each column its value.
proof fn lemma_assigned(scope: Scope, row: Row, assignments: Seq<Assignment>)
    requires
        forall|a: int, b: int|
            0 <= a < b < assignments.len() ==> (#[trigger] assignments[a]).column != (
            #[trigger] assignments[b]).column,
    ensures
        forall|i: int|
            0 <= i < assignments.len() ==> {
                let after = assigned(scope, row, assignments);
                &&& after.dom().contains((#[trigger] assignments[i]).column)
                &&& after[assignments[i].column] == assigned_value(scope, assignments[i])
            },
        forall|column: Seq<char>|
            (forall|i: int| 0 <= i < assignments.len() ==> (#[trigger] assignments[i]).column
                != column) ==> {
                &&& #[trigger] assigned(scope, row, assignments).dom().contains(column)
                    == row.dom().contains(column)
                &&& assigned(scope, row, assignments)[column] == row[column]
            },
    decreases assignments.len(),
{
    if assignments.len() > 0 {
        let front = assignments.drop_last();
        lemma_assigned(scope, row, front);
        let before = assigned(scope, row, front);
        let after = assigned(scope, row, assignments);
        assert forall|i: int| 0 <= i < assignments.len() implies after.dom().contains(
            (#[trigger] assignments[i]).column,
        ) && after[assignments[i].column] == assigned_value(scope, assignments[i]) by {
            if i < front.len() {
                assert(front[i] == assignments[i]);
                assert(assignments[i].column != assignments.last().column);
            }
        }
        assert forall|column: Seq<char>|
            (forall|i: int| 0 <= i < assignments.len() ==> (#[trigger] assignments[i]).column
                != column) implies #[trigger] after.dom().contains(column) == row.dom().contains(
            column,
        ) && after[column] == row[column] by {
            assert forall|i: int| 0 <= i < front.len() implies (#[trigger] front[i]).column
                != column by {
                assert(front[i] == assignments[i]);
            }
            assert(before.dom().contains(column) == row.dom().contains(column));
            assert(assignments[assignments.len() - 1].column != column);
        }
    }
}

/// A row is what the assignments make of another one exactly where it is their merge.
proof fn lemma_merged(plan: ApplyPlan, scope: Scope, base: Row, row: Row)
    requires
        data_columns(plan).no_duplicates(),
    ensures
        row == assigned(scope, base, data_assignments(plan)) <==> merged(
            plan,
            base,
            scope["s"@],
            scope["t"@],
            row,
        ),
{
    let list = data_assignments(plan);
    let data = data_columns(plan);
    let after = assigned(scope, base, list);
    assert forall|a: int, b: int| 0 <= a < b < list.len() implies (#[trigger] list[a]).column != (
    #[trigger] list[b]).column by {
        assert(data[a] != data[b]);
    }
    lemma_assigned(scope, base, list);
    assert(merged(plan, base, scope["s"@], scope["t"@], after)) by {
        assert forall|i: int| 0 <= i < data.len() implies after.dom().contains(#[trigger] data[i])
            && after[data[i]] == (if scope["s"@][presence_columns(plan)[i]] == Value::Truth(true) {
            scope["s"@][data[i]]
        } else {
            scope["t"@][data[i]]
        }) by {
            assert(list[i].column == data[i]);
        }
        assert forall|column: Seq<char>| !data.contains(column) implies #[trigger] after.dom().contains(
            column,
        ) == base.dom().contains(column) by {
            assert forall|i: int| 0 <= i < list.len() implies (#[trigger] list[i]).column
                != column by {
                assert(data[i] != column);
            }
        }
        assert forall|column: Seq<char>| !data.contains(column) implies #[trigger] after[column]
            == base[column] by {
            assert forall|i: int| 0 <= i < list.len() implies (#[trigger] list[i]).column
                != column by {
                assert(data[i] != column);
            }
            assert(after.dom().contains(column) == base.dom().contains(column));
        }
    }
    if merged(plan, base, scope["s"@], scope["t"@], row) {
        assert forall|column: Seq<char>| row.dom().contains(column) == after.dom().contains(column)
            && row[column] == after[column] by {
            if data.contains(column) {
                let i = choose|i: int| 0 <= i < data.len() && data[i] == column;
                assert(row[data[i]] == after[data[i]]);
            } else {
                assert(row[column] == base[column]);
                assert(after[column] == base[column]);
            }
        }
        assert(row =~= after);
    }
}

/// The projection holds the values in their columns.
proof fn lemma_projected(scope: Scope, columns: Seq<Seq<char>>, values: Seq<ColumnRef>)
    requires
        columns.len() == values.len(),
        columns.no_duplicates(),
    ensures
        forall|column: Seq<char>|
            #[trigger] projected(scope, columns, values).dom().contains(column)
                <==> columns.contains(column),
        forall|i: int|
            0 <= i < columns.len() ==> projected(scope, columns, values)[#[trigger] columns[i]]
                == column_value(scope, values[i]),
    decreases columns.len(),
{
    let all = projected(scope, columns, values);
    if columns.len() > 0 {
        let front = columns.drop_last();
        let before = projected(scope, front, values.drop_last());
        assert(front.no_duplicates());
        lemma_projected(scope, front, values.drop_last());
        assert forall|column: Seq<char>| #[trigger] all.dom().contains(column)
            <==> columns.contains(column) by {
            if columns.contains(column) {
                let i = choose|i: int| 0 <= i < columns.len() && columns[i] == column;
                if i < front.len() {
                    assert(front[i] == column);
                    assert(before.dom().contains(column));
                }
            }
            if all.dom().contains(column) && column != columns.last() {
                assert(before.dom().contains(column));
                let i = choose|i: int| 0 <= i < front.len() && front[i] == column;
                assert(columns[i] == column);
            }
            if column == columns.last() {
                assert(columns[columns.len() - 1] == column);
            }
        }
        assert forall|i: int| 0 <= i < columns.len() implies all[#[trigger] columns[i]]
            == column_value(scope, values[i]) by {
            if i < front.len() {
                assert(front[i] == columns[i]);
                assert(columns[i] != columns[columns.len() - 1]);
            }
        }
    }
}

/// A row is what an insertion adds for a staged row exactly where it is its copy.
proof fn lemma_copied(plan: ApplyPlan, scope: Scope, row: Row)
    requires
        column_names(plan.table@.columns).no_duplicates(),
    ensures
        row == projected(scope, column_names(plan.table@.columns), staged_values(plan)) <==> copied(
            plan,
            scope["s"@],
            row,
        ),
{
    let columns = column_names(plan.table@.columns);
    let values = staged_values(plan);
    let all = projected(scope, columns, values);
    lemma_projected(scope, columns, values);
    assert(copied(plan, scope["s"@], all)) by {
        assert forall|i: int| 0 <= i < columns.len() implies all[#[trigger] columns[i]]
            == scope["s"@][columns[i]] by {
            assert(column_value(scope, values[i]) == scope["s"@][columns[i]]);
        }
    }
    if copied(plan, scope["s"@], row) {
        assert forall|column: Seq<char>| row.dom().contains(column) implies row[column]
            == all[column] by {
            let i = choose|i: int| 0 <= i < columns.len() && columns[i] == column;
            assert(row[columns[i]] == all[columns[i]]);
        }
        assert forall|column: Seq<char>| row.dom().contains(column) == all.dom().contains(
            column,
        ) by {}
        assert(row =~= all);
    }
}

/// The update changes exactly the target rows that a staged upsert agrees with in all key columns:
/// such a row takes the values that the source sent and keeps its other ones. It is planned
/// wherever there is a column outside the key.
pub proof fn law_update_merges_the_staged_rows(plan: ApplyPlan, tables: Tables)
    requires
        plan_follows(plan, plan.staging_name@),
        well_planned(plan.table@),
    ensures
        plan.update_sql is None <==> data_columns(plan).len() == 0,
        plan.update_sql matches Some(sql) ==> sql@ == statement_text(change(plan)),
        forall|row: Row|
            #[trigger] rows_after(tables, change(plan)).contains(row) <==> {
                ||| tables[quoted_name(plan.table@.target)].contains(row) && !exists|staged: Row|
                    {
                        &&& #[trigger] tables[quoted(plan.staging_name@)].contains(staged)
                        &&& staged[plan.copy_layout.operation_column@] == Value::Data("U"@)
                        &&& agrees(row, plan.table@.primary_key, staged, plan.table@.primary_key)
                    }
                ||| exists|before: Row, staged: Row|
                    {
                        &&& #[trigger] tables[quoted_name(plan.table@.target)].contains(before)
                        &&& #[trigger] tables[quoted(plan.staging_name@)].contains(staged)
                        &&& staged[plan.copy_layout.operation_column@] == Value::Data("U"@)
                        &&& agrees(before, plan.table@.primary_key, staged, plan.table@.primary_key)
                        &&& merged(plan, before, staged, before, row)
                    }
            },
{
    lemma_names(plan);
    if data_columns(plan).len() > 0 {
        lemma_update_text(plan);
    }
    lemma_update_rows(plan, tables);
}

proof fn lemma_update_text(plan: ApplyPlan)
    requires
        plan_follows(plan, plan.staging_name@),
        well_planned(plan.table@),
        data_columns(plan).len() > 0,
    ensures
        names_model(plan.table@, plan.staging_name@).update_text() == Some(
            statement_text(change(plan)),
        ),
{
    lemma_names(plan);
    lemma_words();
    lemma_change_text(
        plan,
        quoted_name(plan.table@.target),
        "t"@,
        quoted(plan.staging_name@),
        "s"@,
        "U"@,
        plan.table@.primary_key,
        names_model(plan.table@, plan.staging_name@).assignments(),
    );
}

proof fn lemma_update_rows(plan: ApplyPlan, tables: Tables)
    requires
        plan_follows(plan, plan.staging_name@),
        well_planned(plan.table@),
    ensures
        forall|row: Row|
            #[trigger] rows_after(tables, change(plan)).contains(row) <==> {
                ||| tables[quoted_name(plan.table@.target)].contains(row) && !exists|staged: Row|
                    {
                        &&& #[trigger] tables[quoted(plan.staging_name@)].contains(staged)
                        &&& staged[plan.copy_layout.operation_column@] == Value::Data("U"@)
                        &&& agrees(row, plan.table@.primary_key, staged, plan.table@.primary_key)
                    }
                ||| exists|before: Row, staged: Row|
                    {
                        &&& #[trigger] tables[quoted_name(plan.table@.target)].contains(before)
                        &&& #[trigger] tables[quoted(plan.staging_name@)].contains(staged)
                        &&& staged[plan.copy_layout.operation_column@] == Value::Data("U"@)
                        &&& agrees(before, plan.table@.primary_key, staged, plan.table@.primary_key)
                        &&& merged(plan, before, staged, before, row)
                    }
            },
{
    lemma_aliases_differ();
    law_data_columns_are_outside_the_key(plan);
    let keys = plan.table@.primary_key;
    let target = quoted_name(plan.table@.target);
    let staging = quoted(plan.staging_name@);
    assert forall|row: Row, staged: Row| condition_holds(
        tables,
        #[trigger] pair_scope("t"@, row, "s"@, staged),
        matching(plan, "U"@, keys),
    ) <==> {
        &&& staged[plan.copy_layout.operation_column@] == Value::Data("U"@)
        &&& agrees(row, keys, staged, keys)
    } by {
        let scope = pair_scope("t"@, row, "s"@, staged);
        lemma_matching_holds(plan, "U"@, keys, tables, row, staged, scope);
    }
    assert forall|before: Row, staged: Row, row: Row| row == assigned(
        pair_scope("t"@, before, "s"@, staged),
        before,
        data_assignments(plan),
    ) <==> #[trigger] merged(plan, before, staged, before, row) by {
        lemma_merged(plan, pair_scope("t"@, before, "s"@, staged), before, row);
    }
    assert forall|row: Row| #[trigger] rows_after(tables, change(plan)).contains(row) <==> {
        ||| tables[target].contains(row) && !exists|staged: Row|
            {
                &&& #[trigger] tables[staging].contains(staged)
                &&& staged[plan.copy_layout.operation_column@] == Value::Data("U"@)
                &&& agrees(row, keys, staged, keys)
            }
        ||| exists|before: Row, staged: Row|
            {
                &&& #[trigger] tables[target].contains(before)
                &&& #[trigger] tables[staging].contains(staged)
                &&& staged[plan.copy_layout.operation_column@] == Value::Data("U"@)
                &&& agrees(before, keys, staged, keys)
                &&& merged(plan, before, staged, before, row)
            }
    } by {
        if exists|before: Row, staged: Row|
            {
                &&& #[trigger] tables[target].contains(before)
                &&& #[trigger] tables[staging].contains(staged)
                &&& staged[plan.copy_layout.operation_column@] == Value::Data("U"@)
                &&& agrees(before, keys, staged, keys)
                &&& merged(plan, before, staged, before, row)
            } {
            let (before, staged) = choose|before: Row, staged: Row|
                {
                    &&& #[trigger] tables[target].contains(before)
                    &&& #[trigger] tables[staging].contains(staged)
                    &&& staged[plan.copy_layout.operation_column@] == Value::Data("U"@)
                    &&& agrees(before, keys, staged, keys)
                    &&& merged(plan, before, staged, before, row)
                };
            lemma_merged(plan, pair_scope("t"@, before, "s"@, staged), before, row);
            assert(condition_holds(
                tables,
                pair_scope("t"@, before, "s"@, staged),
                matching(plan, "U"@, keys),
            ));
        }
    }
}

/// Before the old rows of moves are removed, each staged move takes over the values that the source
/// did not send from the target row at its old key. Staged rows of other operations, and moves
/// without such a row, stay as they are.
pub proof fn law_moves_are_completed(plan: ApplyPlan, tables: Tables)
    requires
        plan_follows(plan, plan.staging_name@),
        well_planned(plan.table@),
    ensures
        plan.materialize_moves_sql is None <==> data_columns(plan).len() == 0,
        plan.materialize_moves_sql matches Some(sql) ==> sql@ == statement_text(completion(plan)),
        forall|row: Row|
            #[trigger] rows_after(tables, completion(plan)).contains(row) <==> {
                ||| tables[quoted(plan.staging_name@)].contains(row) && !exists|old: Row|
                    {
                        &&& #[trigger] tables[quoted_name(plan.table@.target)].contains(old)
                        &&& row[plan.copy_layout.operation_column@] == Value::Data("M"@)
                        &&& agrees(old, plan.table@.primary_key, row, old_columns(plan))
                    }
                ||| exists|staged: Row, old: Row|
                    {
                        &&& #[trigger] tables[quoted(plan.staging_name@)].contains(staged)
                        &&& #[trigger] tables[quoted_name(plan.table@.target)].contains(old)
                        &&& staged[plan.copy_layout.operation_column@] == Value::Data("M"@)
                        &&& agrees(old, plan.table@.primary_key, staged, old_columns(plan))
                        &&& merged(plan, staged, staged, old, row)
                    }
            },
{
    lemma_names(plan);
    if data_columns(plan).len() > 0 {
        lemma_completion_text(plan);
    }
    lemma_completion_rows(plan, tables);
}

proof fn lemma_completion_text(plan: ApplyPlan)
    requires
        plan_follows(plan, plan.staging_name@),
        well_planned(plan.table@),
        data_columns(plan).len() > 0,
    ensures
        names_model(plan.table@, plan.staging_name@).materialize_moves_text() == Some(
            statement_text(completion(plan)),
        ),
{
    lemma_names(plan);
    lemma_words();
    lemma_change_text(
        plan,
        quoted(plan.staging_name@),
        "s"@,
        quoted_name(plan.table@.target),
        "t"@,
        "M"@,
        old_columns(plan),
        names_model(plan.table@, plan.staging_name@).assignments(),
    );
}

proof fn lemma_completion_rows(plan: ApplyPlan, tables: Tables)
    requires
        plan_follows(plan, plan.staging_name@),
        well_planned(plan.table@),
    ensures
        forall|row: Row|
            #[trigger] rows_after(tables, completion(plan)).contains(row) <==> {
                ||| tables[quoted(plan.staging_name@)].contains(row) && !exists|old: Row|
                    {
                        &&& #[trigger] tables[quoted_name(plan.table@.target)].contains(old)
                        &&& row[plan.copy_layout.operation_column@] == Value::Data("M"@)
                        &&& agrees(old, plan.table@.primary_key, row, old_columns(plan))
                    }
                ||| exists|staged: Row, old: Row|
                    {
                        &&& #[trigger] tables[quoted(plan.staging_name@)].contains(staged)
                        &&& #[trigger] tables[quoted_name(plan.table@.target)].contains(old)
                        &&& staged[plan.copy_layout.operation_column@] == Value::Data("M"@)
                        &&& agrees(old, plan.table@.primary_key, staged, old_columns(plan))
                        &&& merged(plan, staged, staged, old, row)
                    }
            },
{
    lemma_aliases_differ();
    law_data_columns_are_outside_the_key(plan);
    let keys = plan.table@.primary_key;
    let olds = old_columns(plan);
    let target = quoted_name(plan.table@.target);
    let staging = quoted(plan.staging_name@);
    assert forall|staged: Row, old: Row| condition_holds(
        tables,
        #[trigger] pair_scope("s"@, staged, "t"@, old),
        matching(plan, "M"@, olds),
    ) <==> {
        &&& staged[plan.copy_layout.operation_column@] == Value::Data("M"@)
        &&& agrees(old, keys, staged, olds)
    } by {
        let scope = pair_scope("s"@, staged, "t"@, old);
        lemma_matching_holds(plan, "M"@, olds, tables, old, staged, scope);
    }
    assert forall|staged: Row, old: Row, row: Row| row == assigned(
        pair_scope("s"@, staged, "t"@, old),
        staged,
        data_assignments(plan),
    ) <==> #[trigger] merged(plan, staged, staged, old, row) by {
        lemma_merged(plan, pair_scope("s"@, staged, "t"@, old), staged, row);
    }
    assert forall|row: Row| #[trigger] rows_after(tables, completion(plan)).contains(row) <==> {
        ||| tables[staging].contains(row) && !exists|old: Row|
            {
                &&& #[trigger] tables[target].contains(old)
                &&& row[plan.copy_layout.operation_column@] == Value::Data("M"@)
                &&& agrees(old, keys, row, olds)
            }
        ||| exists|staged: Row, old: Row|
            {
                &&& #[trigger] tables[staging].contains(staged)
                &&& #[trigger] tables[target].contains(old)
                &&& staged[plan.copy_layout.operation_column@] == Value::Data("M"@)
                &&& agrees(old, keys, staged, olds)
                &&& merged(plan, staged, staged, old, row)
            }
    } by {
        if exists|staged: Row, old: Row|
            {
                &&& #[trigger] tables[staging].contains(staged)
                &&& #[trigger] tables[target].contains(old)
                &&& staged[plan.copy_layout.operation_column@] == Value::Data("M"@)
                &&& agrees(old, keys, staged, olds)
                &&& merged(plan, staged, staged, old, row)
            } {
            let (staged, old) = choose|staged: Row, old: Row|
                {
                    &&& #[trigger] tables[staging].contains(staged)
                    &&& #[trigger] tables[target].contains(old)
                    &&& staged[plan.copy_layout.operation_column@] == Value::Data("M"@)
                    &&& agrees(old, keys, staged, olds)
                    &&& merged(plan, staged, staged, old, row)
                };
            lemma_merged(plan, pair_scope("s"@, staged, "t"@, old), staged, row);
            assert(condition_holds(
                tables,
                pair_scope("s"@, staged, "t"@, old),
                matching(plan, "M"@, olds),
            ));
        }
    }
}

proof fn lemma_addition_text(plan: ApplyPlan, operation: Seq<char>)
    ensures
        "INSERT INTO "@ + quoted_name(plan.table@.target) + " ("@ + quoted_list(
            column_names(plan.table@.columns),
        ) + ")\nSELECT "@ + listed("s."@, column_names(plan.table@.columns), ""@, ", "@)
            + "\nFROM "@ + quoted(plan.staging_name@) + " AS s\nWHERE s."@ + quoted(
            plan.copy_layout.operation_column@,
        ) + " = "@ + literal(operation) == statement_text(
            addition(plan, seq![operation_test(plan, operation)]),
        ),
{
    lemma_words();
    lemma_value_texts(plan);
    let front = "INSERT INTO "@ + quoted_name(plan.table@.target) + " ("@ + quoted_list(
        column_names(plan.table@.columns),
    ) + ")\nSELECT "@ + listed("s."@, column_names(plan.table@.columns), ""@, ", "@) + "\nFROM "@
        + quoted(plan.staging_name@);
    let op = quoted(plan.copy_layout.operation_column@);
    lemma_regroup_tail(
        front,
        " AS "@,
        "s"@,
        "\nWHERE "@,
        "s"@,
        "."@,
        op,
        " = "@,
        literal(operation),
        Seq::empty(),
        Seq::empty(),
    );
    let value = literal(operation);
    assert(front + (" AS "@ + "s"@ + "\nWHERE "@ + "s"@ + "."@) + op + " = "@ + value
        + Seq::<char>::empty() + Seq::<char>::empty() =~= front + (" AS "@ + "s"@ + "\nWHERE "@
        + "s"@ + "."@) + op + " = "@ + value);
    assert("s"@ + "."@ + op + " = "@ + value + Seq::<char>::empty() + Seq::<char>::empty()
        =~= "s"@ + "."@ + op + " = "@ + value);
}

/// The statement for moves adds, for every staged move, a row of its staged values, and nothing
/// else.
pub proof fn law_move_adds_the_moved_rows(plan: ApplyPlan, tables: Tables)
    requires
        plan_follows(plan, plan.staging_name@),
        well_planned(plan.table@),
    ensures
        plan.move_sql@ == statement_text(addition(plan, seq![operation_test(plan, "M"@)])),
        forall|row: Row|
            #[trigger] rows_after(
                tables,
                addition(plan, seq![operation_test(plan, "M"@)]),
            ).contains(row) <==> {
                ||| tables[quoted_name(plan.table@.target)].contains(row)
                ||| exists|staged: Row|
                    {
                        &&& #[trigger] tables[quoted(plan.staging_name@)].contains(staged)
                        &&& staged[plan.copy_layout.operation_column@] == Value::Data("M"@)
                        &&& copied(plan, staged, row)
                    }
            },
{
    lemma_names(plan);
    lemma_addition_text(plan, "M"@);
    let condition = seq![operation_test(plan, "M"@)];
    assert forall|staged: Row| condition_holds(
        tables,
        #[trigger] Map::<Seq<char>, Row>::empty().insert("s"@, staged),
        condition,
    ) <==> staged[plan.copy_layout.operation_column@] == Value::Data("M"@) by {
        let scope = Map::<Seq<char>, Row>::empty().insert("s"@, staged);
        assert(condition[0] == operation_test(plan, "M"@));
        assert(conjunct_holds(tables, scope, condition[0]) <==> condition_holds(
            tables,
            scope,
            condition,
        ));
    }
    assert forall|staged: Row, row: Row| row == projected(
        Map::<Seq<char>, Row>::empty().insert("s"@, staged),
        column_names(plan.table@.columns),
        staged_values(plan),
    ) <==> #[trigger] copied(plan, staged, row) by {
        lemma_copied(plan, Map::<Seq<char>, Row>::empty().insert("s"@, staged), row);
    }
}

/// The insert adds a row of the staged values for every staged upsert whose key no target row has,
/// and nothing else.
pub proof fn law_insert_adds_the_missing_rows(plan: ApplyPlan, tables: Tables)
    requires
        plan_follows(plan, plan.staging_name@),
        well_planned(plan.table@),
    ensures
        plan.insert_sql@ == statement_text(addition(plan, unmatched(plan))),
        forall|row: Row|
            #[trigger] rows_after(tables, addition(plan, unmatched(plan))).contains(row) <==> {
                ||| tables[quoted_name(plan.table@.target)].contains(row)
                ||| exists|staged: Row|
                    {
                        &&& #[trigger] tables[quoted(plan.staging_name@)].contains(staged)
                        &&& staged[plan.copy_layout.operation_column@] == Value::Data("U"@)
                        &&& !exists|there: Row|
                            #[trigger] tables[quoted_name(plan.table@.target)].contains(there)
                                && agrees(
                                there,
                                plan.table@.primary_key,
                                staged,
                                plan.table@.primary_key,
                            )
                        &&& copied(plan, staged, row)
                    }
            },
{
    lemma_names(plan);
    lemma_unmatched_text(plan);
    lemma_unmatched_rows(plan, tables);
}

proof fn lemma_unmatched_rows(plan: ApplyPlan, tables: Tables)
    requires
        well_planned(plan.table@),
    ensures
        forall|row: Row|
            #[trigger] rows_after(tables, addition(plan, unmatched(plan))).contains(row) <==> {
                ||| tables[quoted_name(plan.table@.target)].contains(row)
                ||| exists|staged: Row|
                    {
                        &&& #[trigger] tables[quoted(plan.staging_name@)].contains(staged)
                        &&& staged[plan.copy_layout.operation_column@] == Value::Data("U"@)
                        &&& !exists|there: Row|
                            #[trigger] tables[quoted_name(plan.table@.target)].contains(there)
                                && agrees(
                                there,
                                plan.table@.primary_key,
                                staged,
                                plan.table@.primary_key,
                            )
                        &&& copied(plan, staged, row)
                    }
            },
{
    lemma_aliases_differ();
    let keys = plan.table@.primary_key;
    let target = quoted_name(plan.table@.target);
    let condition = unmatched(plan);
    let equalities = column_equalities(keys, keys);
    assert forall|staged: Row| condition_holds(
        tables,
        #[trigger] Map::<Seq<char>, Row>::empty().insert("s"@, staged),
        condition,
    ) <==> {
        &&& staged[plan.copy_layout.operation_column@] == Value::Data("U"@)
        &&& !exists|there: Row|
            #[trigger] tables[target].contains(there) && agrees(there, keys, staged, keys)
    } by {
        let scope = Map::<Seq<char>, Row>::empty().insert("s"@, staged);
        assert forall|there: Row| equalities_hold(scope.insert("t"@, there), equalities)
            <==> #[trigger] agrees(there, keys, staged, keys) by {
            lemma_equalities_hold(keys, keys, scope.insert("t"@, there));
            assert(scope.insert("t"@, there)["t"@] == there);
            assert(scope.insert("t"@, there)["s"@] == staged);
        }
        assert(condition[0] == operation_test(plan, "U"@));
        assert(condition[1] == Conjunct::Absent { table: target, alias: "t"@, equalities });
        if conjunct_holds(tables, scope, condition[1]) {
            assert forall|there: Row| #[trigger] tables[target].contains(there) implies !agrees(
                there,
                keys,
                staged,
                keys,
            ) by {
                lemma_absent(tables, scope, target, "t"@, equalities, there);
            }
        } else {
            let there = choose|there: Row|
                #[trigger] tables[target].contains(there) && equalities_hold(
                    scope.insert("t"@, there),
                    equalities,
                );
            assert(agrees(there, keys, staged, keys));
        }
        assert(conjunct_holds(tables, scope, condition[1]) <==> !exists|there: Row|
            #[trigger] tables[target].contains(there) && agrees(there, keys, staged, keys));
        assert(condition_holds(tables, scope, condition) <==> conjunct_holds(
            tables,
            scope,
            condition[0],
        ) && conjunct_holds(tables, scope, condition[1]));
    }
    assert forall|staged: Row, row: Row| row == projected(
        Map::<Seq<char>, Row>::empty().insert("s"@, staged),
        column_names(plan.table@.columns),
        staged_values(plan),
    ) <==> #[trigger] copied(plan, staged, row) by {
        lemma_copied(plan, Map::<Seq<char>, Row>::empty().insert("s"@, staged), row);
    }
}

proof fn lemma_absent(
    tables: Tables,
    scope: Scope,
    table: Seq<char>,
    alias: Seq<char>,
    equalities: Seq<Equality>,
    row: Row,
)
    requires
        conjunct_holds(tables, scope, Conjunct::Absent { table, alias, equalities }),
        tables[table].contains(row),
    ensures
        !equalities_hold(scope.insert(alias, row), equalities),
{
}

proof fn lemma_equalities_hold(columns: Seq<Seq<char>>, staged: Seq<Seq<char>>, scope: Scope)
    ensures
        equalities_hold(scope, column_equalities(columns, staged)) <==> agrees(
            scope["t"@],
            columns,
            scope["s"@],
            staged,
        ),
{
    let equalities = column_equalities(columns, staged);
    if equalities_hold(scope, equalities) {
        assert forall|i: int| 0 <= i < columns.len() implies scope["t"@][#[trigger] columns[i]]
            != Value::Null && scope["t"@][columns[i]] == scope["s"@][staged[i]] by {
            assert(equality_holds(scope, equalities[i]));
        }
    }
    if agrees(scope["t"@], columns, scope["s"@], staged) {
        assert forall|i: int| 0 <= i < equalities.len() implies equality_holds(
            scope,
            #[trigger] equalities[i],
        ) by {
            assert(scope["t"@][columns[i]] == scope["s"@][staged[i]]);
        }
    }
}

/// The text of the statement for missing rows begins with that of a plain insertion.
proof fn lemma_unmatched_front(plan: ApplyPlan)
    requires
        plan_follows(plan, plan.staging_name@),
    ensures
        names_model(plan.table@, plan.staging_name@).insert_text() == statement_text(
            addition(plan, seq![operation_test(plan, "U"@)]),
        ) + "\n  AND NOT EXISTS (SELECT 1 FROM "@ + quoted_name(plan.table@.target)
            + " AS t WHERE "@ + paired(
            "t."@,
            plan.table@.primary_key,
            " = s."@,
            plan.table@.primary_key,
            " AND "@,
        ) + ")"@,
{
    lemma_names(plan);
    lemma_addition_text(plan, "U"@);
}

/// The condition of the statement for missing rows.
proof fn lemma_unmatched_condition(plan: ApplyPlan, front: Seq<char>)
    ensures
        front + conjunct_text(operation_test(plan, "U"@)) + "\n  AND NOT EXISTS (SELECT 1 FROM "@
            + quoted_name(plan.table@.target) + " AS t WHERE "@ + paired(
            "t."@,
            plan.table@.primary_key,
            " = s."@,
            plan.table@.primary_key,
            " AND "@,
        ) + ")"@ == front + condition_text(unmatched(plan)),
{
    lemma_words();
    let keys = plan.table@.primary_key;
    let target = quoted_name(plan.table@.target);
    lemma_equality_texts(keys, keys);
    let condition = unmatched(plan);
    let first = conjunct_text(condition[0]);
    let second = conjunct_text(condition[1]);
    assert(condition.drop_last() =~= seq![condition[0]]);
    assert(condition_text(condition.drop_last()) == first);
    assert(condition.last() == condition[1]);
    assert(condition_text(condition) == first + "\n  AND "@ + second);
    lemma_regroup_end(front, first, "\n  AND "@, second);
    lemma_regroup_subquery(
        front + first,
        "\n  AND "@,
        "NOT EXISTS (SELECT 1 FROM "@,
        target,
        " AS "@,
        "t"@,
        " WHERE "@,
        equality_texts(column_equalities(keys, keys)),
        ")"@,
    );
}

/// The text of the statement for missing rows.
proof fn lemma_unmatched_text(plan: ApplyPlan)
    requires
        plan_follows(plan, plan.staging_name@),
    ensures
        names_model(plan.table@, plan.staging_name@).insert_text() == statement_text(
            addition(plan, unmatched(plan)),
        ),
{
    lemma_unmatched_front(plan);
    let front = "INSERT INTO "@ + quoted_name(plan.table@.target) + " ("@ + joined(
        Seq::new(
            column_names(plan.table@.columns).len(),
            |i: int| quoted(column_names(plan.table@.columns)[i]),
        ),
        ", "@,
    ) + ")\nSELECT "@ + joined(
        Seq::new(staged_values(plan).len(), |i: int| column_text(staged_values(plan)[i])),
        ", "@,
    ) + "\nFROM "@ + quoted(plan.staging_name@) + " AS "@ + "s"@ + "\nWHERE "@;
    lemma_unmatched_condition(plan, front);
}

proof fn lemma_regroup_end(a: Seq<char>, b: Seq<char>, c: Seq<char>, d: Seq<char>)
    ensures
        a + b + c + d == a + (b + c + d),
{
    assert(a + b + c + d =~= a + (b + c + d));
}

proof fn lemma_regroup_subquery(
    a: Seq<char>,
    b: Seq<char>,
    c: Seq<char>,
    d: Seq<char>,
    e: Seq<char>,
    f: Seq<char>,
    g: Seq<char>,
    h: Seq<char>,
    i: Seq<char>,
)
    ensures
        a + (b + c) + d + (e + f + g) + h + i == a + b + (c + d + e + f + g + h + i),
{
    assert(a + (b + c) + d + (e + f + g) + h + i =~= a + b + (c + d + e + f + g + h + i));
}

} // verus!
