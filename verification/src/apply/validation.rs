//! What the validation query of a plan refuses.
//!
//! The conditions of the query are given a text and a truth value side by side, so that a condition
//! cannot be written in one way and meant in another. The laws at the end say which query a plan
//! holds and which staged batches it refuses.

use crate::apply::meaning::{
    agrees, column_text, column_value, lemma_names, old_columns, presence_columns, ColumnRef, Row,
    Scope, Value,
};
use crate::apply::plan::{names_model, plan_follows, ApplyNames, ApplyPlan};
use crate::sql::{listed, literal, paired, quoted, quoted_name};
use crate::text::joined;
use vstd::prelude::*;

verus! {

// ---------------------------------------------------------------------------------------------
// Conditions
// ---------------------------------------------------------------------------------------------

/// A condition: how it is written, and whether it is true of the rows in scope. Nothing is known
/// of a comparison with an absent value.
pub struct Phrase {
    pub text: Seq<char>,
    pub truth: spec_fn(Scope) -> Option<bool>,
}

pub open spec fn column(alias: Seq<char>, name: Seq<char>) -> ColumnRef {
    ColumnRef { alias, column: name }
}

pub open spec fn is_null(subject: ColumnRef) -> Phrase {
    Phrase {
        text: column_text(subject) + " IS NULL"@,
        truth: |scope: Scope| Some(column_value(scope, subject) == Value::Null),
    }
}

pub open spec fn is_known(subject: ColumnRef) -> Phrase {
    Phrase {
        text: column_text(subject) + " IS NOT NULL"@,
        truth: |scope: Scope| Some(column_value(scope, subject) != Value::Null),
    }
}

pub open spec fn flag_value(value: Value) -> Option<bool> {
    match value {
        Value::Truth(set) => Some(set),
        _ => None,
    }
}

pub open spec fn is_set(subject: ColumnRef) -> Phrase {
    Phrase {
        text: column_text(subject),
        truth: |scope: Scope| flag_value(column_value(scope, subject)),
    }
}

pub open spec fn comparison(left: Value, right: Value) -> Option<bool> {
    if left == Value::Null || right == Value::Null {
        None
    } else {
        Some(left == right)
    }
}

pub open spec fn are_equal(left: ColumnRef, right: ColumnRef) -> Phrase {
    Phrase {
        text: column_text(left) + " = "@ + column_text(right),
        truth: |scope: Scope| comparison(column_value(scope, left), column_value(scope, right)),
    }
}

pub open spec fn is_text(subject: ColumnRef, value: Seq<char>) -> Phrase {
    Phrase {
        text: column_text(subject) + " = "@ + literal(value),
        truth: |scope: Scope| comparison(column_value(scope, subject), Value::Data(value)),
    }
}

pub open spec fn is_one_of(subject: ColumnRef, first: Seq<char>, second: Seq<char>) -> Phrase {
    Phrase {
        text: column_text(subject) + " IN ("@ + literal(first) + ", "@ + literal(second) + ")"@,
        truth: |scope: Scope|
            either(
                comparison(column_value(scope, subject), Value::Data(first)),
                comparison(column_value(scope, subject), Value::Data(second)),
            ),
    }
}

pub open spec fn is_none_of(
    subject: ColumnRef,
    first: Seq<char>,
    second: Seq<char>,
    third: Seq<char>,
) -> Phrase {
    Phrase {
        text: column_text(subject) + " NOT IN ("@ + literal(first) + ", "@ + literal(second) + ", "@
            + literal(third) + ")"@,
        truth: |scope: Scope|
            opposite(
                either(
                    either(
                        comparison(column_value(scope, subject), Value::Data(first)),
                        comparison(column_value(scope, subject), Value::Data(second)),
                    ),
                    comparison(column_value(scope, subject), Value::Data(third)),
                ),
            ),
    }
}

pub open spec fn opposite(truth: Option<bool>) -> Option<bool> {
    match truth {
        None => None,
        Some(value) => Some(!value),
    }
}

pub open spec fn either(left: Option<bool>, right: Option<bool>) -> Option<bool> {
    if left == Some(true) || right == Some(true) {
        Some(true)
    } else if left is None || right is None {
        None
    } else {
        Some(false)
    }
}

pub open spec fn both(left: Option<bool>, right: Option<bool>) -> Option<bool> {
    if left == Some(false) || right == Some(false) {
        Some(false)
    } else if left is None || right is None {
        None
    } else {
        Some(true)
    }
}

pub open spec fn not(inner: Phrase) -> Phrase {
    Phrase { text: "NOT "@ + inner.text, truth: |scope: Scope| opposite((inner.truth)(scope)) }
}

pub open spec fn bracketed(inner: Phrase) -> Phrase {
    Phrase { text: "("@ + inner.text + ")"@, truth: inner.truth }
}

/// A disjunction, its second member behind the given space.
pub open spec fn or(left: Phrase, space: Seq<char>, right: Phrase) -> Phrase {
    Phrase {
        text: left.text + space + "OR "@ + right.text,
        truth: |scope: Scope| either((left.truth)(scope), (right.truth)(scope)),
    }
}

pub open spec fn and(left: Phrase, right: Phrase) -> Phrase {
    Phrase {
        text: left.text + " AND "@ + right.text,
        truth: |scope: Scope| both((left.truth)(scope), (right.truth)(scope)),
    }
}

pub open spec fn phrase_texts(members: Seq<Phrase>) -> Seq<Seq<char>> {
    Seq::new(members.len(), |i: int| members[i].text)
}

pub open spec fn any_truth(members: Seq<Phrase>, scope: Scope) -> Option<bool> {
    if exists|i: int|
        0 <= i < members.len() && ((#[trigger] members[i]).truth)(scope) == Some(true) {
        Some(true)
    } else if exists|i: int|
        0 <= i < members.len() && ((#[trigger] members[i]).truth)(scope) is None {
        None
    } else {
        Some(false)
    }
}

pub open spec fn all_truth(members: Seq<Phrase>, scope: Scope) -> Option<bool> {
    if exists|i: int|
        0 <= i < members.len() && ((#[trigger] members[i]).truth)(scope) == Some(false) {
        Some(false)
    } else if exists|i: int|
        0 <= i < members.len() && ((#[trigger] members[i]).truth)(scope) is None {
        None
    } else {
        Some(true)
    }
}

pub open spec fn any(members: Seq<Phrase>) -> Phrase {
    Phrase {
        text: joined(phrase_texts(members), " OR "@),
        truth: |scope: Scope| any_truth(members, scope),
    }
}

pub open spec fn all(members: Seq<Phrase>) -> Phrase {
    if members.len() == 0 {
        Phrase { text: "TRUE"@, truth: |scope: Scope| Some(true) }
    } else {
        Phrase {
            text: joined(phrase_texts(members), " AND "@),
            truth: |scope: Scope| all_truth(members, scope),
        }
    }
}

/// Some row of a table meets the condition.
pub open spec fn some_row(
    table: Seq<char>,
    rows: Seq<Row>,
    alias: Seq<char>,
    condition: Phrase,
) -> Phrase {
    Phrase {
        text: "EXISTS (\n                SELECT 1\n                FROM "@ + table + " AS "@ + alias
            + "\n                WHERE "@ + condition.text + "\n            )"@,
        truth: |scope: Scope| Some(row_meets(rows, alias, condition, scope)),
    }
}

pub open spec fn row_meets(rows: Seq<Row>, alias: Seq<char>, condition: Phrase, scope: Scope) -> bool {
    exists|i: int|
        0 <= i < rows.len() && (condition.truth)(scope.insert(alias, #[trigger] rows[i])) == Some(
            true,
        )
}

// ---------------------------------------------------------------------------------------------
// The query of a plan
// ---------------------------------------------------------------------------------------------

pub open spec fn each_null(alias: Seq<char>, names: Seq<Seq<char>>) -> Seq<Phrase> {
    Seq::new(names.len(), |i: int| is_null(column(alias, names[i])))
}

pub open spec fn each_known(alias: Seq<char>, names: Seq<Seq<char>>) -> Seq<Phrase> {
    Seq::new(names.len(), |i: int| is_known(column(alias, names[i])))
}

pub open spec fn each_set(alias: Seq<char>, names: Seq<Seq<char>>) -> Seq<Phrase> {
    Seq::new(names.len(), |i: int| is_set(column(alias, names[i])))
}

pub open spec fn each_equal(
    alias: Seq<char>,
    names: Seq<Seq<char>>,
    other: Seq<char>,
    others: Seq<Seq<char>>,
) -> Seq<Phrase> {
    Seq::new(names.len(), |i: int| are_equal(column(alias, names[i]), column(other, others[i])))
}

pub open spec fn operation_of(plan: ApplyPlan, alias: Seq<char>) -> ColumnRef {
    column(alias, plan.copy_layout.operation_column@)
}

pub open spec fn moved_flag(plan: ApplyPlan) -> Phrase {
    is_set(column("s"@, plan.copy_layout.old_key_present_column@))
}

/// The joined row of the target lies at no key.
pub open spec fn joined_row_missing(plan: ApplyPlan, alias: Seq<char>) -> Phrase {
    bracketed(is_null(column(alias, plan.table@.primary_key[0])))
}

/// Another staged row gives the key of this one up.
pub open spec fn key_released(plan: ApplyPlan, rows: Seq<Row>) -> Phrase {
    let keys = plan.table@.primary_key;
    some_row(
        quoted(plan.staging_name@),
        rows,
        "r"@,
        or(
            bracketed(
                and(
                    is_text(operation_of(plan, "r"@), "D"@),
                    bracketed(all(each_equal("r"@, keys, "s"@, keys))),
                ),
            ),
            "\n                   "@,
            bracketed(
                and(
                    is_text(operation_of(plan, "r"@), "M"@),
                    bracketed(all(each_equal("r"@, old_columns(plan), "s"@, keys))),
                ),
            ),
        ),
    )
}

pub open spec fn unknown_operation(plan: ApplyPlan) -> Phrase {
    is_none_of(operation_of(plan, "s"@), "U"@, "D"@, "M"@)
}

pub open spec fn incomplete_key(plan: ApplyPlan) -> Phrase {
    any(each_null("s"@, plan.table@.primary_key))
}

pub open spec fn unexpected_old_key(plan: ApplyPlan) -> Phrase {
    bracketed(
        and(
            is_one_of(operation_of(plan, "s"@), "U"@, "D"@),
            bracketed(
                or(moved_flag(plan), " "@, bracketed(any(each_known("s"@, old_columns(plan))))),
            ),
        ),
    )
}

pub open spec fn unusable_old_key(plan: ApplyPlan) -> Phrase {
    bracketed(
        and(
            is_text(operation_of(plan, "s"@), "M"@),
            bracketed(
                or(
                    or(
                        not(moved_flag(plan)),
                        " "@,
                        bracketed(any(each_null("s"@, old_columns(plan)))),
                    ),
                    " "@,
                    bracketed(
                        all(each_equal("s"@, plan.table@.primary_key, "s"@, old_columns(plan))),
                    ),
                ),
            ),
        ),
    )
}

pub open spec fn nothing_to_move(plan: ApplyPlan) -> Phrase {
    bracketed(
        and(is_text(operation_of(plan, "s"@), "M"@), joined_row_missing(plan, "old_t"@)),
    )
}

pub open spec fn occupied_destination(plan: ApplyPlan, rows: Seq<Row>) -> Phrase {
    bracketed(
        and(
            and(is_text(operation_of(plan, "s"@), "M"@), not(joined_row_missing(plan, "t"@))),
            not(bracketed(key_released(plan, rows))),
        ),
    )
}

pub open spec fn partial_new_row(plan: ApplyPlan, rows: Seq<Row>) -> Phrase {
    bracketed(
        and(
            and(
                is_text(operation_of(plan, "s"@), "U"@),
                bracketed(
                    or(joined_row_missing(plan, "t"@), " "@, bracketed(key_released(plan, rows))),
                ),
            ),
            not(bracketed(all(each_set("s"@, presence_columns(plan))))),
        ),
    )
}

/// A staged row, joined with the target rows at its new and its old key, cannot be applied.
pub open spec fn unsound_row(plan: ApplyPlan, rows: Seq<Row>) -> Phrase {
    let space = "\n           "@;
    or(
        or(
            or(
                or(
                    or(
                        or(unknown_operation(plan), space, incomplete_key(plan)),
                        space,
                        unexpected_old_key(plan),
                    ),
                    space,
                    unusable_old_key(plan),
                ),
                space,
                nothing_to_move(plan),
            ),
            space,
            occupied_destination(plan, rows),
        ),
        space,
        partial_new_row(plan, rows),
    )
}

/// The row of a target that a left join pairs with the rows in scope: one that meets the condition,
/// or a row of absent values where none does.
pub open spec fn partner(
    target: Set<Row>,
    alias: Seq<char>,
    condition: Phrase,
    scope: Scope,
    row: Row,
) -> bool {
    ||| target.contains(row) && (condition.truth)(scope.insert(alias, row)) == Some(true)
    ||| {
        &&& row == Map::<Seq<char>, Value>::new(|name: Seq<char>| true, |name: Seq<char>| Value::Null)
        &&& forall|there: Row| #[trigger]
            target.contains(there) ==> (condition.truth)(scope.insert(alias, there)) != Some(true)
    }
}

pub open spec fn at_new_key(plan: ApplyPlan) -> Phrase {
    all(each_equal("t"@, plan.table@.primary_key, "s"@, plan.table@.primary_key))
}

pub open spec fn at_old_key(plan: ApplyPlan) -> Phrase {
    all(each_equal("old_t"@, plan.table@.primary_key, "s"@, old_columns(plan)))
}

pub open spec fn staged_scope(staged: Row, at_new: Row, at_old: Row) -> Scope {
    Map::<Seq<char>, Row>::empty().insert("s"@, staged).insert("t"@, at_new).insert(
        "old_t"@,
        at_old,
    )
}

/// A staged row and its partners meet the condition of the first part of the query.
pub open spec fn row_refused(
    plan: ApplyPlan,
    rows: Seq<Row>,
    target: Set<Row>,
    staged: Row,
    at_new: Row,
    at_old: Row,
) -> bool {
    let scope = Map::<Seq<char>, Row>::empty().insert("s"@, staged);
    &&& partner(target, "t"@, at_new_key(plan), scope, at_new)
    &&& partner(target, "old_t"@, at_old_key(plan), scope.insert("t"@, at_new), at_old)
    &&& (unsound_row(plan, rows).truth)(staged_scope(staged, at_new, at_old)) == Some(true)
}

pub open spec fn some_row_refused(plan: ApplyPlan, rows: Seq<Row>, target: Set<Row>) -> bool {
    exists|i: int, at_new: Row, at_old: Row|
        0 <= i < rows.len() && #[trigger] row_refused(
            plan,
            rows,
            target,
            rows[i],
            at_new,
            at_old,
        )
}

/// The values of a row in the given columns.
pub open spec fn values(row: Row, names: Seq<Seq<char>>) -> Seq<Value> {
    Seq::new(names.len(), |i: int| row[names[i]])
}

/// A staged row meets the condition.
pub open spec fn picked(rows: Seq<Row>, alias: Seq<char>, condition: Phrase, i: int) -> bool {
    &&& 0 <= i < rows.len()
    &&& (condition.truth)(Map::<Seq<char>, Row>::empty().insert(alias, rows[i])) == Some(true)
}

/// A group of more than one row: two rows meet the condition and have the same values.
pub open spec fn twice(
    rows: Seq<Row>,
    alias: Seq<char>,
    condition: Phrase,
    names: Seq<Seq<char>>,
) -> bool {
    exists|i: int, j: int|
        {
            &&& i < j
            &&& #[trigger] picked(rows, alias, condition, i)
            &&& #[trigger] picked(rows, alias, condition, j)
            &&& values(rows[i], names) == values(rows[j], names)
        }
}

/// The same values come from two parts of a union.
pub open spec fn in_both(
    rows: Seq<Row>,
    alias: Seq<char>,
    first: Phrase,
    first_names: Seq<Seq<char>>,
    second: Phrase,
    second_names: Seq<Seq<char>>,
) -> bool {
    exists|i: int, j: int|
        {
            &&& #[trigger] picked(rows, alias, first, i)
            &&& #[trigger] picked(rows, alias, second, j)
            &&& values(rows[i], first_names) == values(rows[j], second_names)
        }
}

pub open spec fn writes(plan: ApplyPlan) -> Phrase {
    is_one_of(operation_of(plan, "s"@), "U"@, "M"@)
}

pub open spec fn deletes(plan: ApplyPlan) -> Phrase {
    is_text(operation_of(plan, "r"@), "D"@)
}

pub open spec fn moves(plan: ApplyPlan) -> Phrase {
    is_text(operation_of(plan, "r"@), "M"@)
}

/// A test of a query: how it is written, and whether it holds.
pub struct Test {
    pub text: Seq<char>,
    pub holds: bool,
}

/// The columns of an alias.
pub open spec fn columns_text(alias: Seq<char>, names: Seq<Seq<char>>) -> Seq<char> {
    joined(Seq::new(names.len(), |i: int| column_text(column(alias, names[i]))), ", "@)
}

/// The columns of an alias under other names.
pub open spec fn renamed_text(
    alias: Seq<char>,
    names: Seq<Seq<char>>,
    others: Seq<Seq<char>>,
) -> Seq<char> {
    joined(
        Seq::new(
            names.len(),
            |i: int| column_text(column(alias, names[i])) + " AS "@ + quoted(others[i]),
        ),
        ", "@,
    )
}

/// Some staged row cannot be applied.
pub open spec fn row_test(plan: ApplyPlan, rows: Seq<Row>, target: Set<Row>) -> Test {
    Test {
        text: "EXISTS (\n        SELECT 1\n        FROM "@ + quoted(plan.staging_name@) + " AS "@
            + "s"@ + "\n        LEFT JOIN "@ + quoted_name(plan.table@.target) + " AS "@ + "t"@
            + " ON "@ + at_new_key(plan).text + "\n        LEFT JOIN "@ + quoted_name(
            plan.table@.target,
        ) + " AS "@ + "old_t"@ + " ON "@ + at_old_key(plan).text + "\n        WHERE "@
            + unsound_row(plan, rows).text + "\n    )"@,
        holds: some_row_refused(plan, rows, target),
    }
}

/// A group of the staged rows that meet a condition has more than one row.
pub open spec fn group_test(
    table: Seq<char>,
    rows: Seq<Row>,
    alias: Seq<char>,
    condition: Phrase,
    names: Seq<Seq<char>>,
) -> Test {
    Test {
        text: "EXISTS (\n        SELECT 1 FROM "@ + table + " AS "@ + alias + "\n        WHERE "@
            + condition.text + "\n        GROUP BY "@ + columns_text(alias, names)
            + "\n        HAVING count(*) > 1\n    )"@,
        holds: twice(rows, alias, condition, names),
    }
}

/// A group of the union of two selections has more than one row.
pub open spec fn union_test(
    table: Seq<char>,
    rows: Seq<Row>,
    alias: Seq<char>,
    first: Phrase,
    first_names: Seq<Seq<char>>,
    second: Phrase,
    second_names: Seq<Seq<char>>,
    union_alias: Seq<char>,
) -> Test {
    Test {
        text: "EXISTS (\n        SELECT 1\n        FROM (\n            SELECT "@ + columns_text(
            alias,
            first_names,
        ) + "\n            FROM "@ + table + " AS "@ + alias + "\n            WHERE "@ + first.text
            + "\n            UNION ALL\n            SELECT "@ + renamed_text(
            alias,
            second_names,
            first_names,
        ) + "\n            FROM "@ + table + " AS "@ + alias + "\n            WHERE "@ + second.text
            + "\n        ) AS "@ + union_alias + "\n        GROUP BY "@ + columns_text(
            union_alias,
            first_names,
        ) + "\n        HAVING count(*) > 1\n    )"@,
        holds: {
            ||| twice(rows, alias, first, first_names)
            ||| twice(rows, alias, second, second_names)
            ||| in_both(rows, alias, first, first_names, second, second_names)
        },
    }
}

/// The query of a plan over the staged rows and the target.
pub open spec fn query(plan: ApplyPlan, rows: Seq<Row>, target: Set<Row>) -> Test {
    let staging = quoted(plan.staging_name@);
    let keys = plan.table@.primary_key;
    let first = row_test(plan, rows, target);
    let second = group_test(staging, rows, "s"@, writes(plan), keys);
    let third = union_test(
        staging,
        rows,
        "r"@,
        deletes(plan),
        keys,
        moves(plan),
        old_columns(plan),
        "released"@,
    );
    Test {
        text: "SELECT (\n    "@ + first.text + "\n    OR "@ + second.text + "\n    OR "@ + third.text
            + "\n) AS invalid_batch"@,
        holds: first.holds || second.holds || third.holds,
    }
}

// ---------------------------------------------------------------------------------------------
// Sound batches
// ---------------------------------------------------------------------------------------------

/// The staged row has a value in each column that the staging table wants one in.
pub open spec fn staged_types(plan: ApplyPlan, staged: Row) -> bool {
    &&& staged[plan.copy_layout.operation_column@] is Data
    &&& staged[plan.copy_layout.old_key_present_column@] is Truth
    &&& forall|i: int|
        0 <= i < presence_columns(plan).len() ==> staged[#[trigger] presence_columns(plan)[i]]
            is Truth
}

pub open spec fn is_of(plan: ApplyPlan, staged: Row, operation: Seq<char>) -> bool {
    staged[plan.copy_layout.operation_column@] == Value::Data(operation)
}

/// Some target row has the key that the staged row holds in the given columns.
pub open spec fn occupied(plan: ApplyPlan, target: Set<Row>, staged: Row, names: Seq<Seq<char>>) -> bool {
    exists|row: Row| #[trigger]
        target.contains(row) && agrees(row, plan.table@.primary_key, staged, names)
}

/// A staged row removes the target row at the key of another one, or moves it away.
pub open spec fn gives_up(plan: ApplyPlan, row: Row, staged: Row) -> bool {
    ||| is_of(plan, row, "D"@) && agrees(
        row,
        plan.table@.primary_key,
        staged,
        plan.table@.primary_key,
    )
    ||| is_of(plan, row, "M"@) && agrees(row, old_columns(plan), staged, plan.table@.primary_key)
}

/// No target row stays at the key of the staged row.
pub open spec fn vacated(plan: ApplyPlan, rows: Seq<Row>, target: Set<Row>, staged: Row) -> bool {
    ||| !occupied(plan, target, staged, plan.table@.primary_key)
    ||| exists|i: int| 0 <= i < rows.len() && gives_up(plan, #[trigger] rows[i], staged)
}

/// A staged row can be applied: it has a whole key; only a move has an old key, which is another one
/// and lies in the target; a move goes to a vacant key; and a row for a vacant key has all values.
pub open spec fn sound(plan: ApplyPlan, rows: Seq<Row>, target: Set<Row>, staged: Row) -> bool {
    let keys = plan.table@.primary_key;
    let old = old_columns(plan);
    let moved = staged[plan.copy_layout.old_key_present_column@];
    &&& is_of(plan, staged, "U"@) || is_of(plan, staged, "D"@) || is_of(plan, staged, "M"@)
    &&& forall|i: int| 0 <= i < keys.len() ==> staged[#[trigger] keys[i]] != Value::Null
    &&& !is_of(plan, staged, "M"@) ==> moved == Value::Truth(false)
    &&& !is_of(plan, staged, "M"@) ==> forall|i: int|
        0 <= i < old.len() ==> staged[#[trigger] old[i]] == Value::Null
    &&& is_of(plan, staged, "M"@) ==> {
        &&& moved == Value::Truth(true)
        &&& forall|i: int| 0 <= i < old.len() ==> staged[#[trigger] old[i]] != Value::Null
        &&& !agrees(staged, keys, staged, old)
        &&& occupied(plan, target, staged, old)
        &&& vacated(plan, rows, target, staged)
    }
    &&& is_of(plan, staged, "U"@) && vacated(plan, rows, target, staged) ==> forall|i: int|
        0 <= i < presence_columns(plan).len() ==> staged[#[trigger] presence_columns(plan)[i]]
            == Value::Truth(true)
}

proof fn lemma_aliases()
    ensures
        "s"@ != "t"@,
        "s"@ != "old_t"@,
        "s"@ != "r"@,
        "t"@ != "old_t"@,
        "t"@ != "r"@,
        "old_t"@ != "r"@,
{
    reveal_strlit("s");
    reveal_strlit("t");
    reveal_strlit("r");
    reveal_strlit("old_t");
    assert("s"@[0] == 's');
    assert("t"@[0] == 't');
    assert("r"@[0] == 'r');
    assert("old_t"@[0] == 'o');
}

proof fn lemma_operations()
    ensures
        "U"@ != "D"@,
        "U"@ != "M"@,
        "D"@ != "M"@,
{
    reveal_strlit("U");
    reveal_strlit("D");
    reveal_strlit("M");
    assert("U"@[0] == 'U');
    assert("D"@[0] == 'D');
    assert("M"@[0] == 'M');
}

/// Equalities are true exactly of rows that agree in their columns.
proof fn lemma_equal(
    alias: Seq<char>,
    names: Seq<Seq<char>>,
    other: Seq<char>,
    others: Seq<Seq<char>>,
    scope: Scope,
)
    ensures
        (all(each_equal(alias, names, other, others)).truth)(scope) == Some(true) <==> agrees(
            scope[alias],
            names,
            scope[other],
            others,
        ),
{
    let members = each_equal(alias, names, other, others);
    assert forall|i: int| 0 <= i < names.len() implies ((#[trigger] members[i]).truth)(scope)
        == comparison(scope[alias][names[i]], scope[other][others[i]]) by {}
    if agrees(scope[alias], names, scope[other], others) {
        assert forall|i: int| 0 <= i < members.len() implies ((#[trigger] members[i]).truth)(scope)
            == Some(true) by {
            assert(scope[alias][names[i]] != Value::Null);
        }
    } else {
        let i = choose|i: int|
            0 <= i < names.len() && !(scope[alias][#[trigger] names[i]] != Value::Null
                && scope[alias][names[i]] == scope[other][others[i]]);
        assert((members[i].truth)(scope) != Some(true));
        if (members[i].truth)(scope) == Some(false) {
        } else {
            assert((members[i].truth)(scope) is None);
        }
    }
}

proof fn lemma_some_null(alias: Seq<char>, names: Seq<Seq<char>>, scope: Scope)
    ensures
        (any(each_null(alias, names)).truth)(scope) == Some(
            exists|i: int| 0 <= i < names.len() && scope[alias][#[trigger] names[i]] == Value::Null,
        ),
        (any(each_known(alias, names)).truth)(scope) == Some(
            exists|i: int| 0 <= i < names.len() && scope[alias][#[trigger] names[i]] != Value::Null,
        ),
{
    let nulls = each_null(alias, names);
    let knowns = each_known(alias, names);
    assert forall|i: int| 0 <= i < names.len() implies ((#[trigger] nulls[i]).truth)(scope) == Some(
        scope[alias][names[i]] == Value::Null,
    ) by {}
    assert forall|i: int| 0 <= i < names.len() implies ((#[trigger] knowns[i]).truth)(scope)
        == Some(scope[alias][names[i]] != Value::Null) by {}
    if exists|i: int| 0 <= i < names.len() && scope[alias][#[trigger] names[i]] == Value::Null {
        let i = choose|i: int|
            0 <= i < names.len() && scope[alias][#[trigger] names[i]] == Value::Null;
        assert((nulls[i].truth)(scope) == Some(true));
    }
    if exists|i: int| 0 <= i < names.len() && scope[alias][#[trigger] names[i]] != Value::Null {
        let i = choose|i: int|
            0 <= i < names.len() && scope[alias][#[trigger] names[i]] != Value::Null;
        assert((knowns[i].truth)(scope) == Some(true));
    }
}

proof fn lemma_all_set(alias: Seq<char>, names: Seq<Seq<char>>, scope: Scope)
    requires
        forall|i: int| 0 <= i < names.len() ==> scope[alias][#[trigger] names[i]] is Truth,
    ensures
        (all(each_set(alias, names)).truth)(scope) == Some(
            forall|i: int|
                0 <= i < names.len() ==> scope[alias][#[trigger] names[i]] == Value::Truth(true),
        ),
{
    let members = each_set(alias, names);
    assert forall|i: int| 0 <= i < names.len() implies ((#[trigger] members[i]).truth)(scope)
        == Some(scope[alias][names[i]] == Value::Truth(true)) by {
        assert(scope[alias][names[i]] is Truth);
    }
    if !(forall|i: int|
        0 <= i < names.len() ==> scope[alias][#[trigger] names[i]] == Value::Truth(true)) {
        let i = choose|i: int|
            0 <= i < names.len() && scope[alias][#[trigger] names[i]] != Value::Truth(true);
        assert((members[i].truth)(scope) == Some(false));
    }
}

proof fn lemma_released(plan: ApplyPlan, rows: Seq<Row>, scope: Scope)
    ensures
        (key_released(plan, rows).truth)(scope) == Some(
            exists|i: int| 0 <= i < rows.len() && gives_up(plan, #[trigger] rows[i], scope["s"@]),
        ),
{
    lemma_aliases();
    let keys = plan.table@.primary_key;
    let old = old_columns(plan);
    let first = bracketed(
        and(
            is_text(operation_of(plan, "r"@), "D"@),
            bracketed(all(each_equal("r"@, keys, "s"@, keys))),
        ),
    );
    let second = bracketed(
        and(
            is_text(operation_of(plan, "r"@), "M"@),
            bracketed(all(each_equal("r"@, old, "s"@, keys))),
        ),
    );
    let condition = or(first, "\n                   "@, second);
    assert forall|i: int| 0 <= i < rows.len() implies ((condition.truth)(
        scope.insert("r"@, #[trigger] rows[i]),
    ) == Some(true) <==> gives_up(plan, rows[i], scope["s"@])) by {
        let inner = scope.insert("r"@, rows[i]);
        assert(inner["s"@] == scope["s"@]);
        assert(inner["r"@] == rows[i]);
        lemma_equal("r"@, keys, "s"@, keys, inner);
        lemma_equal("r"@, old, "s"@, keys, inner);
        assert((first.truth)(inner) == Some(true) <==> is_of(plan, rows[i], "D"@) && agrees(
            rows[i],
            keys,
            scope["s"@],
            keys,
        ));
        assert((second.truth)(inner) == Some(true) <==> is_of(plan, rows[i], "M"@) && agrees(
            rows[i],
            old,
            scope["s"@],
            keys,
        ));
    }
    if row_meets(rows, "r"@, condition, scope) {
        let i = choose|i: int|
            0 <= i < rows.len() && (condition.truth)(scope.insert("r"@, #[trigger] rows[i])) == Some(
                true,
            );
        assert(gives_up(plan, rows[i], scope["s"@]));
    }
}

/// The first key column of a joined row is absent exactly where no target row has the key.
proof fn lemma_partner(
    plan: ApplyPlan,
    target: Set<Row>,
    alias: Seq<char>,
    names: Seq<Seq<char>>,
    scope: Scope,
    row: Row,
)
    requires
        plan.table@.primary_key.len() > 0,
        alias != "s"@,
        partner(
            target,
            alias,
            all(each_equal(alias, plan.table@.primary_key, "s"@, names)),
            scope,
            row,
        ),
    ensures
        row[plan.table@.primary_key[0]] == Value::Null <==> !occupied(
            plan,
            target,
            scope["s"@],
            names,
        ),
{
    let keys = plan.table@.primary_key;
    let condition = all(each_equal(alias, keys, "s"@, names));
    assert forall|there: Row| #[trigger] target.contains(there) implies ((condition.truth)(
        scope.insert(alias, there),
    ) == Some(true) <==> agrees(there, keys, scope["s"@], names)) by {
        lemma_equal(alias, keys, "s"@, names, scope.insert(alias, there));
        assert(scope.insert(alias, there)["s"@] == scope["s"@]);
    }
    if target.contains(row) && (condition.truth)(scope.insert(alias, row)) == Some(true) {
        assert(agrees(row, keys, scope["s"@], names));
        assert(row[keys[0]] != Value::Null);
    }
}

/// The first part of the query is true of a staged row and its partners exactly where the row cannot
/// be applied.
proof fn lemma_unsound(
    plan: ApplyPlan,
    rows: Seq<Row>,
    target: Set<Row>,
    staged: Row,
    at_new: Row,
    at_old: Row,
)
    requires
        plan.table@.primary_key.len() > 0,
        staged_types(plan, staged),
        at_new[plan.table@.primary_key[0]] == Value::Null <==> !occupied(
            plan,
            target,
            staged,
            plan.table@.primary_key,
        ),
        at_old[plan.table@.primary_key[0]] == Value::Null <==> !occupied(
            plan,
            target,
            staged,
            old_columns(plan),
        ),
    ensures
        (unsound_row(plan, rows).truth)(staged_scope(staged, at_new, at_old)) == Some(true)
            <==> !sound(plan, rows, target, staged),
{
    lemma_aliases();
    lemma_operations();
    let scope = staged_scope(staged, at_new, at_old);
    let keys = plan.table@.primary_key;
    let old = old_columns(plan);
    let moved = staged[plan.copy_layout.old_key_present_column@];
    assert(scope["s"@] == staged);
    assert(scope["t"@] == at_new);
    assert(scope["old_t"@] == at_old);
    lemma_some_null("s"@, keys, scope);
    lemma_some_null("s"@, old, scope);
    lemma_equal("s"@, keys, "s"@, old, scope);
    lemma_all_set("s"@, presence_columns(plan), scope);
    lemma_released(plan, rows, scope);
    let known = is_of(plan, staged, "U"@) || is_of(plan, staged, "D"@) || is_of(plan, staged, "M"@);
    assert((unknown_operation(plan).truth)(scope) == Some(!known));
    assert((incomplete_key(plan).truth)(scope) == Some(
        exists|i: int| 0 <= i < keys.len() && staged[#[trigger] keys[i]] == Value::Null,
    ));
    let held = exists|i: int| 0 <= i < old.len() && staged[#[trigger] old[i]] != Value::Null;
    let lacking = exists|i: int| 0 <= i < old.len() && staged[#[trigger] old[i]] == Value::Null;
    let plain = is_of(plan, staged, "U"@) || is_of(plan, staged, "D"@);
    assert((moved_flag(plan).truth)(scope) == Some(moved == Value::Truth(true)));
    assert((unexpected_old_key(plan).truth)(scope) == Some(true) <==> plain && (moved
        == Value::Truth(true) || held));
    assert((unusable_old_key(plan).truth)(scope) == Some(true) <==> is_of(plan, staged, "M"@) && (
    moved != Value::Truth(true) || lacking || agrees(staged, keys, staged, old)));
    assert((nothing_to_move(plan).truth)(scope) == Some(true) <==> is_of(plan, staged, "M"@)
        && !occupied(plan, target, staged, old));
    let freed = exists|i: int| 0 <= i < rows.len() && gives_up(plan, #[trigger] rows[i], staged);
    assert((occupied_destination(plan, rows).truth)(scope) == Some(true) <==> is_of(
        plan,
        staged,
        "M"@,
    ) && occupied(plan, target, staged, keys) && !freed);
    let whole = forall|i: int|
        0 <= i < presence_columns(plan).len() ==> staged[#[trigger] presence_columns(plan)[i]]
            == Value::Truth(true);
    assert((partial_new_row(plan, rows).truth)(scope) == Some(true) <==> is_of(plan, staged, "U"@)
        && (!occupied(plan, target, staged, keys) || freed) && !whole);
}

/// A staged row has partners in every target.
proof fn lemma_partners_exist(
    target: Set<Row>,
    alias: Seq<char>,
    condition: Phrase,
    scope: Scope,
) -> (row: Row)
    ensures
        partner(target, alias, condition, scope, row),
{
    if exists|there: Row| #[trigger]
        target.contains(there) && (condition.truth)(scope.insert(alias, there)) == Some(true) {
        choose|there: Row| #[trigger]
            target.contains(there) && (condition.truth)(scope.insert(alias, there)) == Some(true)
    } else {
        Map::<Seq<char>, Value>::new(|name: Seq<char>| true, |name: Seq<char>| Value::Null)
    }
}

/// The first part of the query is true exactly where some staged row cannot be applied.
proof fn lemma_some_row_refused(plan: ApplyPlan, rows: Seq<Row>, target: Set<Row>)
    requires
        plan.table@.primary_key.len() > 0,
        forall|i: int| 0 <= i < rows.len() ==> staged_types(plan, #[trigger] rows[i]),
    ensures
        some_row_refused(plan, rows, target) <==> exists|i: int|
            0 <= i < rows.len() && !sound(plan, rows, target, #[trigger] rows[i]),
{
    lemma_aliases();
    let keys = plan.table@.primary_key;
    let old = old_columns(plan);
    if some_row_refused(plan, rows, target) {
        let (i, at_new, at_old) = choose|i: int, at_new: Row, at_old: Row|
            0 <= i < rows.len() && #[trigger] row_refused(
                plan,
                rows,
                target,
                rows[i],
                at_new,
                at_old,
            );
        let scope = Map::<Seq<char>, Row>::empty().insert("s"@, rows[i]);
        lemma_partner(plan, target, "t"@, keys, scope, at_new);
        lemma_partner(plan, target, "old_t"@, old, scope.insert("t"@, at_new), at_old);
        lemma_unsound(plan, rows, target, rows[i], at_new, at_old);
        assert(!sound(plan, rows, target, rows[i]));
    }
    if exists|i: int| 0 <= i < rows.len() && !sound(plan, rows, target, #[trigger] rows[i]) {
        let i = choose|i: int|
            0 <= i < rows.len() && !sound(plan, rows, target, #[trigger] rows[i]);
        let scope = Map::<Seq<char>, Row>::empty().insert("s"@, rows[i]);
        let at_new = lemma_partners_exist(target, "t"@, at_new_key(plan), scope);
        let at_old = lemma_partners_exist(
            target,
            "old_t"@,
            at_old_key(plan),
            scope.insert("t"@, at_new),
        );
        lemma_partner(plan, target, "t"@, keys, scope, at_new);
        lemma_partner(plan, target, "old_t"@, old, scope.insert("t"@, at_new), at_old);
        lemma_unsound(plan, rows, target, rows[i], at_new, at_old);
        assert(row_refused(plan, rows, target, rows[i], at_new, at_old));
    }
}

/// The key that a staged row gives up: its own where it deletes, its old one where it moves.
pub open spec fn given_up(plan: ApplyPlan, staged: Row) -> Option<Seq<Value>> {
    if is_of(plan, staged, "D"@) {
        Some(values(staged, plan.table@.primary_key))
    } else if is_of(plan, staged, "M"@) {
        Some(values(staged, old_columns(plan)))
    } else {
        None
    }
}

/// A staged batch is refused exactly where some row of it cannot be applied, two of its rows write
/// one key, or two of them give one key up.
pub proof fn law_which_batches_are_refused(plan: ApplyPlan, rows: Seq<Row>, target: Set<Row>)
    requires
        plan.table@.primary_key.len() > 0,
        forall|i: int| 0 <= i < rows.len() ==> staged_types(plan, #[trigger] rows[i]),
    ensures
        !query(plan, rows, target).holds <==> {
            &&& forall|i: int| 0 <= i < rows.len() ==> sound(plan, rows, target, #[trigger] rows[i])
            &&& forall|i: int, j: int|
                #![trigger rows[i], rows[j]]
                0 <= i < j < rows.len() && !is_of(plan, rows[i], "D"@) && !is_of(
                    plan,
                    rows[j],
                    "D"@,
                ) ==> values(rows[i], plan.table@.primary_key) != values(
                    rows[j],
                    plan.table@.primary_key,
                )
            &&& forall|i: int, j: int|
                #![trigger rows[i], rows[j]]
                0 <= i < j < rows.len() && given_up(plan, rows[i]) is Some ==> given_up(
                    plan,
                    rows[i],
                ) != given_up(plan, rows[j])
        },
{
    lemma_operations();
    lemma_some_row_refused(plan, rows, target);
    let keys = plan.table@.primary_key;
    let old = old_columns(plan);
    assert forall|i: int| 0 <= i < rows.len() implies {
        &&& #[trigger] picked(rows, "s"@, writes(plan), i) <==> is_of(plan, rows[i], "U"@) || is_of(
            plan,
            rows[i],
            "M"@,
        )
    } by {
        assert(staged_types(plan, rows[i]));
    }
    assert forall|i: int| 0 <= i < rows.len() implies (#[trigger] picked(
        rows,
        "r"@,
        deletes(plan),
        i,
    ) <==> is_of(plan, rows[i], "D"@)) by {}
    assert forall|i: int| 0 <= i < rows.len() implies (#[trigger] picked(
        rows,
        "r"@,
        moves(plan),
        i,
    ) <==> is_of(plan, rows[i], "M"@)) by {}
    let each_sound = forall|i: int|
        0 <= i < rows.len() ==> sound(plan, rows, target, #[trigger] rows[i]);
    if each_sound {
        assert forall|i: int| 0 <= i < rows.len() && !is_of(plan, #[trigger] rows[i], "D"@) implies (
        is_of(plan, rows[i], "U"@) || is_of(plan, rows[i], "M"@)) by {
            assert(sound(plan, rows, target, rows[i]));
        }
        if !query(plan, rows, target).holds {
            assert forall|i: int, j: int|
                #![trigger rows[i], rows[j]]
                0 <= i < j < rows.len() && !is_of(plan, rows[i], "D"@) && !is_of(
                    plan,
                    rows[j],
                    "D"@,
                ) implies values(rows[i], keys) != values(rows[j], keys) by {
                assert(picked(rows, "s"@, writes(plan), i));
                assert(picked(rows, "s"@, writes(plan), j));
            }
            assert forall|i: int, j: int|
                #![trigger rows[i], rows[j]]
                0 <= i < j < rows.len() && given_up(plan, rows[i]) is Some implies given_up(
                plan,
                rows[i],
            ) != given_up(plan, rows[j]) by {
                assert(picked(rows, "r"@, deletes(plan), i) <==> is_of(plan, rows[i], "D"@));
                assert(picked(rows, "r"@, deletes(plan), j) <==> is_of(plan, rows[j], "D"@));
                assert(picked(rows, "r"@, moves(plan), i) <==> is_of(plan, rows[i], "M"@));
                assert(picked(rows, "r"@, moves(plan), j) <==> is_of(plan, rows[j], "M"@));
            }
        } else {
            assert(!some_row_refused(plan, rows, target));
            if twice(rows, "s"@, writes(plan), keys) {
                let (i, j) = choose|i: int, j: int|
                    {
                        &&& i < j
                        &&& #[trigger] picked(rows, "s"@, writes(plan), i)
                        &&& #[trigger] picked(rows, "s"@, writes(plan), j)
                        &&& values(rows[i], keys) == values(rows[j], keys)
                    };
                assert(0 <= i < j < rows.len());
                assert(!is_of(plan, rows[i], "D"@) && !is_of(plan, rows[j], "D"@));
            } else if twice(rows, "r"@, deletes(plan), keys) {
                let (i, j) = choose|i: int, j: int|
                    {
                        &&& i < j
                        &&& #[trigger] picked(rows, "r"@, deletes(plan), i)
                        &&& #[trigger] picked(rows, "r"@, deletes(plan), j)
                        &&& values(rows[i], keys) == values(rows[j], keys)
                    };
                assert(given_up(plan, rows[i]) == given_up(plan, rows[j]));
            } else if twice(rows, "r"@, moves(plan), old) {
                let (i, j) = choose|i: int, j: int|
                    {
                        &&& i < j
                        &&& #[trigger] picked(rows, "r"@, moves(plan), i)
                        &&& #[trigger] picked(rows, "r"@, moves(plan), j)
                        &&& values(rows[i], old) == values(rows[j], old)
                    };
                assert(given_up(plan, rows[i]) == given_up(plan, rows[j]));
            } else {
                let (i, j) = choose|i: int, j: int|
                    {
                        &&& #[trigger] picked(rows, "r"@, deletes(plan), i)
                        &&& #[trigger] picked(rows, "r"@, moves(plan), j)
                        &&& values(rows[i], keys) == values(rows[j], old)
                    };
                assert(given_up(plan, rows[i]) == given_up(plan, rows[j]));
                assert(i != j);
            }
        }
    }
}

// ---------------------------------------------------------------------------------------------
// The text of the query
// ---------------------------------------------------------------------------------------------

proof fn lemma_prefixes()
    ensures
        "s."@ == "s"@ + "."@,
        "t."@ == "t"@ + "."@,
        "r."@ == "r"@ + "."@,
        "old_t."@ == "old_t"@ + "."@,
        "released."@ == "released"@ + "."@,
        " = s."@ == " = "@ + "s"@ + "."@,
        "(t."@ == "("@ + "t"@ + "."@,
        "(old_t."@ == "("@ + "old_t"@ + "."@,
        " IS NULL)"@ == " IS NULL"@ + ")"@,
        ""@ == Seq::<char>::empty(),
{
    reveal_strlit("");
    reveal_strlit("s");
    reveal_strlit("t");
    reveal_strlit("r");
    reveal_strlit("old_t");
    reveal_strlit("released");
    reveal_strlit(".");
    reveal_strlit("s.");
    reveal_strlit("t.");
    reveal_strlit("r.");
    reveal_strlit("old_t.");
    reveal_strlit("released.");
    reveal_strlit(" = ");
    reveal_strlit(" = s.");
    reveal_strlit("(");
    reveal_strlit(")");
    reveal_strlit("(t.");
    reveal_strlit("(old_t.");
    reveal_strlit(" IS NULL");
    reveal_strlit(" IS NULL)");
    assert("s."@ =~= "s"@ + "."@);
    assert("t."@ =~= "t"@ + "."@);
    assert("r."@ =~= "r"@ + "."@);
    assert("old_t."@ =~= "old_t"@ + "."@);
    assert("released."@ =~= "released"@ + "."@);
    assert(" = s."@ =~= " = "@ + "s"@ + "."@);
    assert("(t."@ =~= "("@ + "t"@ + "."@);
    assert("(old_t."@ =~= "("@ + "old_t"@ + "."@);
    assert(" IS NULL)"@ =~= " IS NULL"@ + ")"@);
    assert(""@ =~= Seq::<char>::empty());
}

proof fn lemma_pair(before: Seq<char>, between: Seq<char>, alias: Seq<char>, dot: Seq<char>, name: Seq<char>)
    ensures
        before + (between + alias + dot) + name == before + between + (alias + dot + name),
{
    assert(before + (between + alias + dot) + name =~= before + between + (alias + dot + name));
}

/// The texts of lists of conditions.
proof fn lemma_lists(alias: Seq<char>, prefix: Seq<char>, names: Seq<Seq<char>>)
    requires
        prefix == alias + "."@,
    ensures
        any(each_null(alias, names)).text == listed(prefix, names, " IS NULL"@, " OR "@),
        any(each_known(alias, names)).text == listed(prefix, names, " IS NOT NULL"@, " OR "@),
        names.len() > 0 ==> all(each_set(alias, names)).text == listed(
            prefix,
            names,
            ""@,
            " AND "@,
        ),
        columns_text(alias, names) == listed(prefix, names, ""@, ", "@),
{
    lemma_prefixes();
    assert(phrase_texts(each_null(alias, names)) =~= Seq::new(
        names.len(),
        |i: int| prefix + quoted(names[i]) + " IS NULL"@,
    ));
    assert(phrase_texts(each_known(alias, names)) =~= Seq::new(
        names.len(),
        |i: int| prefix + quoted(names[i]) + " IS NOT NULL"@,
    ));
    assert forall|i: int| 0 <= i < names.len() implies #[trigger] phrase_texts(
        each_set(alias, names),
    )[i] == prefix + quoted(names[i]) + ""@ by {
        assert(prefix + quoted(names[i]) + ""@ =~= prefix + quoted(names[i]));
    }
    assert(phrase_texts(each_set(alias, names)) =~= Seq::new(
        names.len(),
        |i: int| prefix + quoted(names[i]) + ""@,
    ));
    let columns = Seq::new(names.len(), |i: int| column_text(column(alias, names[i])));
    assert forall|i: int| 0 <= i < names.len() implies #[trigger] columns[i] == prefix + quoted(
        names[i],
    ) + ""@ by {
        assert(prefix + quoted(names[i]) + ""@ =~= prefix + quoted(names[i]));
    }
    assert(columns =~= Seq::new(names.len(), |i: int| prefix + quoted(names[i]) + ""@));
}

/// The texts of lists of equalities with the staged row.
proof fn lemma_equal_text(
    alias: Seq<char>,
    prefix: Seq<char>,
    names: Seq<Seq<char>>,
    others: Seq<Seq<char>>,
)
    requires
        prefix == alias + "."@,
        names.len() > 0,
    ensures
        all(each_equal(alias, names, "s"@, others)).text == paired(
            prefix,
            names,
            " = s."@,
            others,
            " AND "@,
        ),
{
    lemma_prefixes();
    let members = phrase_texts(each_equal(alias, names, "s"@, others));
    assert forall|i: int| 0 <= i < names.len() implies #[trigger] members[i] == prefix + quoted(
        names[i],
    ) + " = s."@ + quoted(others[i]) by {
        lemma_pair(prefix + quoted(names[i]), " = "@, "s"@, "."@, quoted(others[i]));
    }
    assert(members =~= Seq::new(
        names.len(),
        |i: int| prefix + quoted(names[i]) + " = s."@ + quoted(others[i]),
    ));
}

proof fn lemma_renamed_text(names: Seq<Seq<char>>, others: Seq<Seq<char>>)
    ensures
        renamed_text("r"@, names, others) == paired("r."@, names, " AS "@, others, ", "@),
{
    lemma_prefixes();
    assert(Seq::new(
        names.len(),
        |i: int| column_text(column("r"@, names[i])) + " AS "@ + quoted(others[i]),
    ) =~= Seq::new(
        names.len(),
        |i: int| "r."@ + quoted(names[i]) + " AS "@ + quoted(others[i]),
    ));
}

proof fn lemma_missing_text(plan: ApplyPlan)
    requires
        plan_follows(plan, plan.staging_name@),
    ensures
        ({
            let names = names_model(plan.table@, plan.staging_name@);
            &&& joined_row_missing(plan, "t"@).text == names.target_missing()
            &&& joined_row_missing(plan, "old_t"@).text == names.old_target_missing()
        }),
{
    lemma_names(plan);
    lemma_prefixes();
    let key = quoted(plan.table@.primary_key[0]);
    lemma_bracketed_column("("@, "t"@, "."@, key, " IS NULL"@, ")"@);
    lemma_bracketed_column("("@, "old_t"@, "."@, key, " IS NULL"@, ")"@);
}

proof fn lemma_bracketed_column(
    a: Seq<char>,
    b: Seq<char>,
    c: Seq<char>,
    d: Seq<char>,
    e: Seq<char>,
    f: Seq<char>,
)
    ensures
        a + (b + c + d + e) + f == a + b + c + d + (e + f),
{
    assert(a + (b + c + d + e) + f =~= a + b + c + d + (e + f));
}

/// The strings between the parts of the conditions, piece by piece.
proof fn lemma_spaces()
    ensures
        "(s."@ == "("@ + "s"@ + "."@,
        ") AND ("@ == ")"@ + " AND "@ + "("@,
        " OR ("@ == " "@ + "OR "@ + "("@,
        ")\n           OR "@ == ")"@ + "\n           "@ + "OR "@,
        "\n           OR (s."@ == "\n           "@ + "OR "@ + "("@ + "s"@ + "."@,
        ")))\n           OR (s."@ == ")"@ + ")"@ + ")"@ + "\n           "@ + "OR "@ + "("@ + "s"@
            + "."@,
        ")\n           OR (s."@ == ")"@ + "\n           "@ + "OR "@ + "("@ + "s"@ + "."@,
        "))\n           OR (s."@ == ")"@ + ")"@ + "\n           "@ + "OR "@ + "("@ + "s"@ + "."@,
        " AND (NOT "@ == " AND "@ + "("@ + "NOT "@,
        ") OR ("@ == ")"@ + " "@ + "OR "@ + "("@,
        " AND NOT "@ == " AND "@ + "NOT "@,
        " AND NOT ("@ == " AND "@ + "NOT "@ + "("@,
        " AND ("@ == " AND "@ + "("@,
        ")) AND NOT ("@ == ")"@ + ")"@ + " AND "@ + "NOT "@ + "("@,
        "))\n    )"@ == ")"@ + ")"@ + "\n    )"@,
{
    reveal_strlit("s");
    reveal_strlit(".");
    reveal_strlit("(");
    reveal_strlit(")");
    reveal_strlit(" ");
    reveal_strlit("OR ");
    reveal_strlit("NOT ");
    reveal_strlit(" AND ");
    reveal_strlit("\n           ");
    reveal_strlit("\n    )");
    reveal_strlit("(s.");
    reveal_strlit(") AND (");
    reveal_strlit(" OR (");
    reveal_strlit(")\n           OR ");
    reveal_strlit("\n           OR (s.");
    reveal_strlit(")))\n           OR (s.");
    reveal_strlit(")\n           OR (s.");
    reveal_strlit("))\n           OR (s.");
    reveal_strlit(" AND (NOT ");
    reveal_strlit(") OR (");
    reveal_strlit(" AND NOT ");
    reveal_strlit(" AND NOT (");
    reveal_strlit(" AND (");
    reveal_strlit(")) AND NOT (");
    reveal_strlit("))\n    )");
    assert("(s."@ =~= "("@ + "s"@ + "."@);
    assert(") AND ("@ =~= ")"@ + " AND "@ + "("@);
    assert(" OR ("@ =~= " "@ + "OR "@ + "("@);
    assert(")\n           OR "@ =~= ")"@ + "\n           "@ + "OR "@);
    assert("\n           OR (s."@ =~= "\n           "@ + "OR "@ + "("@ + "s"@ + "."@);
    assert(")))\n           OR (s."@ =~= ")"@ + ")"@ + ")"@ + "\n           "@ + "OR "@ + "("@
        + "s"@ + "."@);
    assert(")\n           OR (s."@ =~= ")"@ + "\n           "@ + "OR "@ + "("@ + "s"@ + "."@);
    assert("))\n           OR (s."@ =~= ")"@ + ")"@ + "\n           "@ + "OR "@ + "("@ + "s"@
        + "."@);
    assert(" AND (NOT "@ =~= " AND "@ + "("@ + "NOT "@);
    assert(") OR ("@ =~= ")"@ + " "@ + "OR "@ + "("@);
    assert(" AND NOT "@ =~= " AND "@ + "NOT "@);
    assert(" AND NOT ("@ =~= " AND "@ + "NOT "@ + "("@);
    assert(" AND ("@ =~= " AND "@ + "("@);
    assert(")) AND NOT ("@ =~= ")"@ + ")"@ + " AND "@ + "NOT "@ + "("@);
    assert("))\n    )"@ =~= ")"@ + ")"@ + "\n    )"@);
}

proof fn lemma_fold_two(
    acc: Seq<char>,
    a: Seq<char>,
    b: Seq<char>,
)
    ensures
        acc + a + b == acc + (a + b),
{
    assert(acc + a + b =~= acc + (a + b));
}

proof fn lemma_fold_six(
    acc: Seq<char>,
    a: Seq<char>,
    b: Seq<char>,
    c: Seq<char>,
    d: Seq<char>,
    e: Seq<char>,
    f: Seq<char>,
)
    ensures
        acc + a + b + c + d + e + f == acc + (a + b + c + d + e + f),
{
    assert(acc + a + b + c + d + e + f =~= acc + (a + b + c + d + e + f));
}

proof fn lemma_fold_eight(
    acc: Seq<char>,
    a: Seq<char>,
    b: Seq<char>,
    c: Seq<char>,
    d: Seq<char>,
    e: Seq<char>,
    f: Seq<char>,
    g: Seq<char>,
    h: Seq<char>,
)
    ensures
        acc + a + b + c + d + e + f + g + h == acc + (a + b + c + d + e + f + g + h),
{
    assert(acc + a + b + c + d + e + f + g + h =~= acc + (a + b + c + d + e + f + g + h));
}

#[verifier::rlimit(60)]
proof fn lemma_fold_ten(
    acc: Seq<char>,
    a: Seq<char>,
    b: Seq<char>,
    c: Seq<char>,
    d: Seq<char>,
    e: Seq<char>,
    f: Seq<char>,
    g: Seq<char>,
    h: Seq<char>,
    i: Seq<char>,
    j: Seq<char>,
)
    ensures
        acc + a + b + c + d + e + f + g + h + i + j == acc + (a + b + c + d + e + f + g + h + i
            + j),
{
    assert(acc + a + b + c + d + e + f + g + h + i + j =~= acc + (a + b + c + d + e + f + g + h
        + i + j));
}

#[verifier::rlimit(60)]
proof fn lemma_fold_eleven(
    acc: Seq<char>,
    a: Seq<char>,
    b: Seq<char>,
    c: Seq<char>,
    d: Seq<char>,
    e: Seq<char>,
    f: Seq<char>,
    g: Seq<char>,
    h: Seq<char>,
    i: Seq<char>,
    j: Seq<char>,
    k: Seq<char>,
)
    ensures
        acc + a + b + c + d + e + f + g + h + i + j + k == acc + (a + b + c + d + e + f + g + h
            + i + j + k),
{
    assert(acc + a + b + c + d + e + f + g + h + i + j + k =~= acc + (a + b + c + d + e + f + g
        + h + i + j + k));
}

#[verifier::rlimit(60)]
proof fn lemma_first_clause(
    s: Seq<char>,
    dt: Seq<char>,
    op: Seq<char>,
    a: Seq<char>,
    u: Seq<char>,
    b: Seq<char>,
    d: Seq<char>,
    m: Seq<char>,
    cl: Seq<char>,
    gp: Seq<char>,
    o: Seq<char>,
)
    ensures
        s + dt + (op + a + u + b + d + b + m + (cl + gp + o)) == s + dt + op + a + u + b + d + b
            + m + cl + gp + o,
{
    assert(s + dt + (op + a + u + b + d + b + m + (cl + gp + o)) =~= s + dt + op + a + u + b + d
        + b + m + cl + gp + o);
}

proof fn lemma_second_clause(
    l: Seq<char>,
    gp: Seq<char>,
    o: Seq<char>,
    p: Seq<char>,
    s: Seq<char>,
    dt: Seq<char>,
)
    ensures
        l + (gp + o + p + s + dt) == l + gp + o + (p + s + dt),
{
    assert(l + (gp + o + p + s + dt) =~= l + gp + o + (p + s + dt));
}

#[verifier::rlimit(100)]
proof fn lemma_third_clause(
    p: Seq<char>,
    s: Seq<char>,
    dt: Seq<char>,
    op: Seq<char>,
    a: Seq<char>,
    u: Seq<char>,
    b: Seq<char>,
    d: Seq<char>,
    cl: Seq<char>,
    an: Seq<char>,
    mv: Seq<char>,
    sp: Seq<char>,
    o: Seq<char>,
    l: Seq<char>,
    gp: Seq<char>,
)
    ensures
        p + s + dt + (op + a + u + b + d + (cl + an + p) + (s + dt) + mv + (sp + o + p) + l
            + (cl + cl + cl + gp + o + p + s + dt)) == p + (s + dt + op + a + u + b + d + cl
            + an + (p + (s + dt + mv + sp + o + (p + l + cl)) + cl)) + cl + gp + o + (p + s
            + dt),
{
    assert(p + s + dt + (op + a + u + b + d + (cl + an + p) + (s + dt) + mv + (sp + o + p) + l
        + (cl + cl + cl + gp + o + p + s + dt)) =~= p + (s + dt + op + a + u + b + d + cl + an
        + (p + (s + dt + mv + sp + o + (p + l + cl)) + cl)) + cl + gp + o + (p + s + dt));
}

#[verifier::rlimit(100)]
proof fn lemma_fourth_inner(
    p: Seq<char>,
    nt: Seq<char>,
    s: Seq<char>,
    dt: Seq<char>,
    mv: Seq<char>,
    sp: Seq<char>,
    o: Seq<char>,
    l: Seq<char>,
    cl: Seq<char>,
    k: Seq<char>,
)
    ensures
        p + (nt + (s + dt + mv) + sp + o + (p + l + cl) + sp + o + (p + k + cl)) + cl == p + nt
            + (s + dt + mv + (sp + o + p) + l + (cl + sp + o + p) + k) + (cl + cl),
{
    assert(p + (nt + (s + dt + mv) + sp + o + (p + l + cl) + sp + o + (p + k + cl)) + cl =~= p
        + nt + (s + dt + mv + (sp + o + p) + l + (cl + sp + o + p) + k) + (cl + cl));
}

#[verifier::rlimit(60)]
proof fn lemma_fourth_outer(
    p: Seq<char>,
    s: Seq<char>,
    dt: Seq<char>,
    op: Seq<char>,
    q: Seq<char>,
    m: Seq<char>,
    an: Seq<char>,
    nt: Seq<char>,
    y: Seq<char>,
    cl: Seq<char>,
    gp: Seq<char>,
    o: Seq<char>,
)
    ensures
        p + s + dt + (op + q + m + (an + p + nt) + y + (cl + cl + cl + gp + o + p + s + dt))
            == p + (s + dt + op + q + m + an + (p + nt + y + (cl + cl))) + cl + gp + o + (p + s
            + dt),
{
    assert(p + s + dt + (op + q + m + (an + p + nt) + y + (cl + cl + cl + gp + o + p + s + dt))
        =~= p + (s + dt + op + q + m + an + (p + nt + y + (cl + cl))) + cl + gp + o + (p + s
        + dt));
}

proof fn lemma_fourth_middle(
    w: Seq<char>,
    s: Seq<char>,
    mv: Seq<char>,
    a: Seq<char>,
    l: Seq<char>,
    b: Seq<char>,
    k: Seq<char>,
    z: Seq<char>,
)
    ensures
        w + s + mv + a + l + b + k + z == w + (s + mv + a + l + b + k) + z,
{
    assert(w + s + mv + a + l + b + k + z =~= w + (s + mv + a + l + b + k) + z);
}

proof fn lemma_fourth_clause(
    p: Seq<char>,
    s: Seq<char>,
    dt: Seq<char>,
    op: Seq<char>,
    q: Seq<char>,
    m: Seq<char>,
    an: Seq<char>,
    nt: Seq<char>,
    mv: Seq<char>,
    sp: Seq<char>,
    o: Seq<char>,
    l: Seq<char>,
    cl: Seq<char>,
    k: Seq<char>,
    gp: Seq<char>,
)
    ensures
        p + s + dt + (op + q + m + (an + p + nt) + (s + dt) + mv + (sp + o + p) + l + (cl + sp + o
            + p) + k + (cl + cl + cl + gp + o + p + s + dt)) == p + (s + dt + op + q + m + an + (p
            + (nt + (s + dt + mv) + sp + o + (p + l + cl) + sp + o + (p + k + cl)) + cl)) + cl + gp
            + o + (p + s + dt),
{
    let y = s + dt + mv + (sp + o + p) + l + (cl + sp + o + p) + k;
    lemma_fourth_inner(p, nt, s, dt, mv, sp, o, l, cl, k);
    lemma_fourth_outer(p, s, dt, op, q, m, an, nt, y, cl, gp, o);
    lemma_fourth_middle(
        op + q + m + (an + p + nt),
        s + dt,
        mv,
        sp + o + p,
        l,
        cl + sp + o + p,
        k,
        cl + cl + cl + gp + o + p + s + dt,
    );
}

#[verifier::rlimit(60)]
proof fn lemma_fifth_clause(
    p: Seq<char>,
    s: Seq<char>,
    dt: Seq<char>,
    op: Seq<char>,
    q: Seq<char>,
    m: Seq<char>,
    an: Seq<char>,
    x: Seq<char>,
    cl: Seq<char>,
    gp: Seq<char>,
    o: Seq<char>,
)
    ensures
        p + s + dt + (op + q + m + an + x + (cl + gp + o + p + s + dt)) == p + (s + dt + op + q
            + m + an + x) + cl + gp + o + (p + s + dt),
{
    assert(p + s + dt + (op + q + m + an + x + (cl + gp + o + p + s + dt)) =~= p + (s + dt + op
        + q + m + an + x) + cl + gp + o + (p + s + dt));
}

#[verifier::rlimit(100)]
proof fn lemma_sixth_clause(
    p: Seq<char>,
    s: Seq<char>,
    dt: Seq<char>,
    op: Seq<char>,
    q: Seq<char>,
    m: Seq<char>,
    an: Seq<char>,
    nt: Seq<char>,
    x: Seq<char>,
    y: Seq<char>,
    cl: Seq<char>,
    gp: Seq<char>,
    o: Seq<char>,
)
    ensures
        p + s + dt + (op + q + m + (an + nt) + x + (an + nt + p) + y + (cl + cl + gp + o + p + s
            + dt)) == p + (s + dt + op + q + m + an + (nt + x) + an + (nt + (p + y + cl))) + cl
            + gp + o + (p + s + dt),
{
    assert(p + s + dt + (op + q + m + (an + nt) + x + (an + nt + p) + y + (cl + cl + gp + o + p
        + s + dt)) =~= p + (s + dt + op + q + m + an + (nt + x) + an + (nt + (p + y + cl))) + cl
        + gp + o + (p + s + dt));
}

#[verifier::rlimit(100)]
proof fn lemma_seventh_clause(
    p: Seq<char>,
    s: Seq<char>,
    dt: Seq<char>,
    op: Seq<char>,
    q: Seq<char>,
    u: Seq<char>,
    an: Seq<char>,
    x: Seq<char>,
    sp: Seq<char>,
    o: Seq<char>,
    y: Seq<char>,
    cl: Seq<char>,
    nt: Seq<char>,
    z: Seq<char>,
    e: Seq<char>,
)
    ensures
        p + s + dt + (op + q + u + (an + p) + x + (sp + o + p) + y + (cl + cl + an + nt + p) + z
            + (cl + cl + e)) == p + (s + dt + op + q + u + an + (p + (x + sp + o + (p + y + cl))
            + cl) + an + (nt + (p + z + cl))) + cl + e,
{
    assert(p + s + dt + (op + q + u + (an + p) + x + (sp + o + p) + y + (cl + cl + an + nt + p)
        + z + (cl + cl + e)) =~= p + (s + dt + op + q + u + an + (p + (x + sp + o + (p + y
        + cl)) + cl) + an + (nt + (p + z + cl))) + cl + e);
}

#[verifier::rlimit(100)]
proof fn lemma_released_parts(
    a: Seq<char>,
    st: Seq<char>,
    as_: Seq<char>,
    r: Seq<char>,
    w: Seq<char>,
    p: Seq<char>,
    dt: Seq<char>,
    op: Seq<char>,
    q: Seq<char>,
    d: Seq<char>,
    an: Seq<char>,
    x: Seq<char>,
    cl: Seq<char>,
    gp: Seq<char>,
    o: Seq<char>,
    m: Seq<char>,
    y: Seq<char>,
    e: Seq<char>,
)
    ensures
        a + st + (as_ + r + w + p + r + dt) + op + q + d + (an + p) + x + (cl + cl + gp + o + p
            + r + dt) + op + q + m + (an + p) + y + (cl + cl + e) == a + st + as_ + r + w + (p
            + (r + dt + op + q + d + an + (p + x + cl)) + cl + gp + o + (p + (r + dt + op + q
            + m + an + (p + y + cl)) + cl)) + e,
{
    assert(a + st + (as_ + r + w + p + r + dt) + op + q + d + (an + p) + x + (cl + cl + gp + o
        + p + r + dt) + op + q + m + (an + p) + y + (cl + cl + e) =~= a + st + as_ + r + w + (p
        + (r + dt + op + q + d + an + (p + x + cl)) + cl + gp + o + (p + (r + dt + op + q + m
        + an + (p + y + cl)) + cl)) + e);
}

proof fn lemma_join_clause(
    w: Seq<char>,
    gp: Seq<char>,
    o: Seq<char>,
    e: Seq<char>,
    x: Seq<char>,
)
    ensures
        w + gp + o + e + x == w + gp + o + (e + x),
{
    assert(w + gp + o + e + x =~= w + gp + o + (e + x));
}

proof fn lemma_add_clause(
    w: Seq<char>,
    gp: Seq<char>,
    o: Seq<char>,
    t: Seq<char>,
    e: Seq<char>,
)
    ensures
        w + gp + o + (t + gp + o + e) == w + gp + o + t + gp + o + e,
{
    assert(w + gp + o + (t + gp + o + e) =~= w + gp + o + t + gp + o + e);
}

proof fn lemma_spread(
    d: Seq<char>,
    a: Seq<char>,
    b: Seq<char>,
    c: Seq<char>,
    e: Seq<char>,
    f: Seq<char>,
    g: Seq<char>,
    h: Seq<char>,
)
    ensures
        d + (a + b + c + e + f + g + h) == d + a + b + c + e + f + g + h,
{
    assert(d + (a + b + c + e + f + g + h) =~= d + a + b + c + e + f + g + h);
}

#[verifier::rlimit(100)]
proof fn lemma_second_test(
    o: Seq<char>,
    x: Seq<char>,
    st: Seq<char>,
    as_: Seq<char>,
    s: Seq<char>,
    w: Seq<char>,
    dt: Seq<char>,
    op: Seq<char>,
    n: Seq<char>,
    u: Seq<char>,
    b: Seq<char>,
    m: Seq<char>,
    cl: Seq<char>,
    g: Seq<char>,
    k: Seq<char>,
    v: Seq<char>,
)
    ensures
        o + x + st + (as_ + s + w + s + dt) + op + n + u + b + m + (cl + g) + k + v == o + (x
            + st + as_ + s + w + (s + dt + op + n + u + b + m + cl) + g + k) + v,
{
    assert(o + x + st + (as_ + s + w + s + dt) + op + n + u + b + m + (cl + g) + k + v =~= o
        + (x + st + as_ + s + w + (s + dt + op + n + u + b + m + cl) + g + k) + v);
}

#[verifier::rlimit(60)]
proof fn lemma_selection(
    y: Seq<char>,
    x: Seq<char>,
    k: Seq<char>,
    f: Seq<char>,
    st: Seq<char>,
    as_: Seq<char>,
    r: Seq<char>,
    w: Seq<char>,
    dt: Seq<char>,
    op: Seq<char>,
    q: Seq<char>,
    d: Seq<char>,
)
    ensures
        y + x + k + f + st + (as_ + r + w + r + dt) + op + q + d == y + (x + k + f + st + as_
            + r + w + (r + dt + op + q + d)),
{
    assert(y + x + k + f + st + (as_ + r + w + r + dt) + op + q + d =~= y + (x + k + f + st
        + as_ + r + w + (r + dt + op + q + d)));
}

#[verifier::rlimit(60)]
proof fn lemma_second_selection(
    y: Seq<char>,
    h: Seq<char>,
    x: Seq<char>,
    k: Seq<char>,
    f: Seq<char>,
    st: Seq<char>,
    as_: Seq<char>,
    r: Seq<char>,
    w: Seq<char>,
    dt: Seq<char>,
    op: Seq<char>,
    q: Seq<char>,
    d: Seq<char>,
)
    ensures
        y + h + x + k + f + st + (as_ + r + w + r + dt) + op + q + d == y + (h + x + k + f + st
            + as_ + r + w + (r + dt + op + q + d)),
{
    assert(y + h + x + k + f + st + (as_ + r + w + r + dt) + op + q + d =~= y + (h + x + k + f
        + st + as_ + r + w + (r + dt + op + q + d)));
}

proof fn lemma_union_end(
    y: Seq<char>,
    h: Seq<char>,
    a: Seq<char>,
    r: Seq<char>,
    g: Seq<char>,
    k: Seq<char>,
    v: Seq<char>,
    z: Seq<char>,
)
    ensures
        y + h + (a + r + g) + k + (v + z) == y + (h + a + r + g + k + v) + z,
{
    assert(y + h + (a + r + g) + k + (v + z) =~= y + (h + a + r + g + k + v) + z);
}

#[verifier::rlimit(100)]
proof fn lemma_from(
    x: Seq<char>,
    y: Seq<char>,
    st: Seq<char>,
    as_: Seq<char>,
    s: Seq<char>,
    j: Seq<char>,
    tg: Seq<char>,
    t: Seq<char>,
    on: Seq<char>,
    a: Seq<char>,
    ot: Seq<char>,
    b: Seq<char>,
    wh: Seq<char>,
)
    ensures
        x + y + st + (as_ + s + j) + tg + (as_ + t + on) + a + j + tg + (as_ + ot + on) + b + wh
            == x + (y + st + as_ + s + j + tg + as_ + t + on + a + j + tg + as_ + ot + on + b
            + wh),
{
    assert(x + y + st + (as_ + s + j) + tg + (as_ + t + on) + a + j + tg + (as_ + ot + on) + b
        + wh =~= x + (y + st + as_ + s + j + tg + as_ + t + on + a + j + tg + as_ + ot + on + b
        + wh));
}

proof fn lemma_where(
    a: Seq<char>,
    wh: Seq<char>,
    s: Seq<char>,
    dt: Seq<char>,
    i: Seq<char>,
)
    ensures
        a + (wh + s + dt) + i == a + wh + (s + dt + i),
{
    assert(a + (wh + s + dt) + i =~= a + wh + (s + dt + i));
}

proof fn lemma_whole(
    x: Seq<char>,
    f: Seq<char>,
    w: Seq<char>,
    e: Seq<char>,
    r: Seq<char>,
)
    ensures
        x + f + (w + e) + r == x + (f + w + e) + r,
{
    assert(x + f + (w + e) + r =~= x + (f + w + e) + r);
}

proof fn lemma_rest(
    a: Seq<char>,
    o: Seq<char>,
    s: Seq<char>,
    t: Seq<char>,
    z: Seq<char>,
)
    ensures
        a + (o + s + o + t + z) == a + o + s + o + t + z,
{
    assert(a + (o + s + o + t + z) =~= a + o + s + o + t + z);
}

proof fn lemma_between(
    a: Seq<char>,
    s: Seq<char>,
    v: Seq<char>,
    o: Seq<char>,
    x: Seq<char>,
)
    ensures
        a + s + (v + o + x) == a + (s + v) + o + x,
{
    assert(a + s + (v + o + x) =~= a + (s + v) + o + x);
}


/// The other row's release of the key.
proof fn lemma_released_text(plan: ApplyPlan, rows: Seq<Row>)
    requires
        plan_follows(plan, plan.staging_name@),
        plan.table@.primary_key.len() > 0,
    ensures
        key_released(plan, rows).text == names_model(
            plan.table@,
            plan.staging_name@,
        ).destination_released(),
{
    lemma_names(plan);
    lemma_prefixes();
    lemma_release_spaces();
    let names = names_model(plan.table@, plan.staging_name@);
    assert(names.old.len() == names.keys.len());
    lemma_equal_text("r"@, "r."@, names.keys, names.keys);
    lemma_equal_text("r"@, "r."@, names.old, names.keys);
    lemma_released_parts(
        "EXISTS (\n                SELECT 1\n                FROM "@,
        names.staging,
        " AS "@,
        "r"@,
        "\n                WHERE "@,
        "("@,
        "."@,
        names.operation,
        " = "@,
        literal("D"@),
        " AND "@,
        paired("r."@, names.keys, " = s."@, names.keys, " AND "@),
        ")"@,
        "\n                   "@,
        "OR "@,
        literal("M"@),
        paired("r."@, names.old, " = s."@, names.keys, " AND "@),
        "\n            )"@,
    );
}

proof fn lemma_release_spaces()
    ensures
        " AS r\n                WHERE (r."@ == " AS "@ + "r"@ + "\n                WHERE "@ + "("@
            + "r"@ + "."@,
        " AND ("@ == " AND "@ + "("@,
        "))\n                   OR (r."@ == ")"@ + ")"@ + "\n                   "@ + "OR "@ + "("@
            + "r"@ + "."@,
        "))\n            )"@ == ")"@ + ")"@ + "\n            )"@,
{
    reveal_strlit("r");
    reveal_strlit(".");
    reveal_strlit("(");
    reveal_strlit(")");
    reveal_strlit("OR ");
    reveal_strlit(" AS ");
    reveal_strlit(" AND ");
    reveal_strlit(" AND (");
    reveal_strlit("\n                WHERE ");
    reveal_strlit("\n                   ");
    reveal_strlit("\n            )");
    reveal_strlit(" AS r\n                WHERE (r.");
    reveal_strlit("))\n                   OR (r.");
    reveal_strlit("))\n            )");
    assert(" AS r\n                WHERE (r."@ =~= " AS "@ + "r"@ + "\n                WHERE "@
        + "("@ + "r"@ + "."@);
    assert(" AND ("@ =~= " AND "@ + "("@);
    assert("))\n                   OR (r."@ =~= ")"@ + ")"@ + "\n                   "@ + "OR "@
        + "("@ + "r"@ + "."@);
    assert("))\n            )"@ =~= ")"@ + ")"@ + "\n            )"@);
}

/// The part of a condition that follows the alias of its first column, up to the next clause.
spec fn rest_of_clause(names: ApplyNames, number: int) -> Seq<char> {
    if number == 1 {
        names.operation + " NOT IN ("@ + literal("U"@) + ", "@ + literal("D"@) + ", "@ + literal(
            "M"@,
        ) + ")\n           OR "@
    } else if number == 2 {
        listed("s."@, names.keys, " IS NULL"@, " OR "@) + "\n           OR (s."@
    } else if number == 3 {
        names.operation + " IN ("@ + literal("U"@) + ", "@ + literal("D"@) + ") AND ("@ + "s."@
            + names.moved + " OR ("@ + listed("s."@, names.old, " IS NOT NULL"@, " OR "@)
            + ")))\n           OR (s."@
    } else if number == 4 {
        names.operation + " = "@ + literal("M"@) + " AND (NOT "@ + "s."@ + names.moved + " OR ("@
            + listed("s."@, names.old, " IS NULL"@, " OR "@) + ") OR ("@ + paired(
            "s."@,
            names.keys,
            " = s."@,
            names.old,
            " AND "@,
        ) + ")))\n           OR (s."@
    } else if number == 5 {
        names.operation + " = "@ + literal("M"@) + " AND "@ + names.old_target_missing()
            + ")\n           OR (s."@
    } else if number == 6 {
        names.operation + " = "@ + literal("M"@) + " AND NOT "@ + names.target_missing()
            + " AND NOT ("@ + names.destination_released() + "))\n           OR (s."@
    } else {
        names.operation + " = "@ + literal("U"@) + " AND ("@ + names.target_missing() + " OR ("@
            + names.destination_released() + ")) AND NOT ("@ + names.all_present() + "))\n    )"@
    }
}

/// The invalid rows, clause by clause.
proof fn lemma_clauses(names: ApplyNames)
    ensures
        names.invalid_row() == rest_of_clause(names, 1) + rest_of_clause(names, 2) + rest_of_clause(
            names,
            3,
        ) + rest_of_clause(names, 4) + rest_of_clause(names, 5) + rest_of_clause(names, 6)
            + rest_of_clause(names, 7),
{
    let first = rest_of_clause(names, 1);
    let second = first + rest_of_clause(names, 2);
    let third = second + rest_of_clause(names, 3);
    let fourth = third + rest_of_clause(names, 4);
    let fifth = fourth + rest_of_clause(names, 5);
    let sixth = fifth + rest_of_clause(names, 6);
    lemma_fold_two(
        first,
        listed("s."@, names.keys, " IS NULL"@, " OR "@),
        "\n           OR (s."@,
    );
    lemma_fold_eleven(
        second,
        names.operation,
        " IN ("@,
        literal("U"@),
        ", "@,
        literal("D"@),
        ") AND ("@,
        "s."@,
        names.moved,
        " OR ("@,
        listed("s."@, names.old, " IS NOT NULL"@, " OR "@),
        ")))\n           OR (s."@,
    );
    lemma_fold_eleven(
        third,
        names.operation,
        " = "@,
        literal("M"@),
        " AND (NOT "@,
        "s."@,
        names.moved,
        " OR ("@,
        listed("s."@, names.old, " IS NULL"@, " OR "@),
        ") OR ("@,
        paired("s."@, names.keys, " = s."@, names.old, " AND "@),
        ")))\n           OR (s."@,
    );
    lemma_fold_six(
        fourth,
        names.operation,
        " = "@,
        literal("M"@),
        " AND "@,
        names.old_target_missing(),
        ")\n           OR (s."@,
    );
    lemma_fold_eight(
        fifth,
        names.operation,
        " = "@,
        literal("M"@),
        " AND NOT "@,
        names.target_missing(),
        " AND NOT ("@,
        names.destination_released(),
        "))\n           OR (s."@,
    );
    lemma_fold_ten(
        sixth,
        names.operation,
        " = "@,
        literal("U"@),
        " AND ("@,
        names.target_missing(),
        " OR ("@,
        names.destination_released(),
        ")) AND NOT ("@,
        names.all_present(),
        "))\n    )"@,
    );
}

/// The condition on a staged row and its partners.
#[verifier::spinoff_prover]
#[verifier::rlimit(60)]
proof fn lemma_unsound_text(plan: ApplyPlan, rows: Seq<Row>)
    requires
        plan_follows(plan, plan.staging_name@),
        plan.table@.primary_key.len() > 0,
    ensures
        "s"@ + "."@ + names_model(plan.table@, plan.staging_name@).invalid_row() == unsound_row(
            plan,
            rows,
        ).text + "\n    )"@,
{
    let names = names_model(plan.table@, plan.staging_name@);
    let gap = "\n           "@;
    let word = "OR "@;
    let next = "("@ + "s"@ + "."@;
    lemma_clause_texts(plan, rows);
    lemma_clauses(names);
    lemma_spread(
        "s"@ + "."@,
        rest_of_clause(names, 1),
        rest_of_clause(names, 2),
        rest_of_clause(names, 3),
        rest_of_clause(names, 4),
        rest_of_clause(names, 5),
        rest_of_clause(names, 6),
        rest_of_clause(names, 7),
    );
    let one = unknown_operation(plan).text;
    let two = or(unknown_operation(plan), gap, incomplete_key(plan));
    let three = or(two, gap, unexpected_old_key(plan));
    let four = or(three, gap, unusable_old_key(plan));
    let five = or(four, gap, nothing_to_move(plan));
    let six = or(five, gap, occupied_destination(plan, rows));
    lemma_add_clause(one, gap, word, incomplete_key(plan).text, next);
    lemma_next_clause(two.text, rest_of_clause(names, 3), unexpected_old_key(plan).text, next);
    lemma_next_clause(three.text, rest_of_clause(names, 4), unusable_old_key(plan).text, next);
    lemma_next_clause(four.text, rest_of_clause(names, 5), nothing_to_move(plan).text, next);
    lemma_next_clause(five.text, rest_of_clause(names, 6), occupied_destination(plan, rows).text, next);
    lemma_join_clause(six.text, gap, word, next, rest_of_clause(names, 7));
    lemma_fold_two(six.text + gap + word, partial_new_row(plan, rows).text, "\n    )"@);
}

proof fn lemma_next_clause(whole: Seq<char>, rest: Seq<char>, clause: Seq<char>, next: Seq<char>)
    requires
        next + rest == clause + "\n           "@ + "OR "@ + next,
    ensures
        whole + "\n           "@ + "OR "@ + next + rest == whole + "\n           "@ + "OR "@ + clause
            + "\n           "@ + "OR "@ + next,
{
    lemma_join_clause(whole, "\n           "@, "OR "@, next, rest);
    lemma_add_clause(whole, "\n           "@, "OR "@, clause, next);
}

/// Every clause, from the alias of its first column on, is the text of its condition.
#[verifier::spinoff_prover]
#[verifier::rlimit(60)]
proof fn lemma_clause_texts(plan: ApplyPlan, rows: Seq<Row>)
    requires
        plan_follows(plan, plan.staging_name@),
        plan.table@.primary_key.len() > 0,
    ensures
        ({
            let names = names_model(plan.table@, plan.staging_name@);
            let gap = "\n           "@;
            let word = "OR "@;
            let next = "("@ + "s"@ + "."@;
            &&& "s"@ + "."@ + rest_of_clause(names, 1) == unknown_operation(plan).text + gap + word
            &&& rest_of_clause(names, 2) == incomplete_key(plan).text + gap + word + next
            &&& next + rest_of_clause(names, 3) == unexpected_old_key(plan).text + gap + word + next
            &&& next + rest_of_clause(names, 4) == unusable_old_key(plan).text + gap + word + next
            &&& next + rest_of_clause(names, 5) == nothing_to_move(plan).text + gap + word + next
            &&& next + rest_of_clause(names, 6) == occupied_destination(plan, rows).text + gap + word
                + next
            &&& next + rest_of_clause(names, 7) == partial_new_row(plan, rows).text + "\n    )"@
        }),
{
    lemma_names(plan);
    lemma_prefixes();
    lemma_spaces();
    lemma_missing_text(plan);
    lemma_released_text(plan, rows);
    let names = names_model(plan.table@, plan.staging_name@);
    let op = names.operation;
    let gap = "\n           "@;
    assert(names.old.len() == names.keys.len());
    lemma_lists("s"@, "s."@, names.keys);
    lemma_lists("s"@, "s."@, names.old);
    lemma_lists("s"@, "s."@, names.present);
    lemma_equal_text("s"@, "s."@, names.keys, names.old);
    let u = literal("U"@);
    let d = literal("D"@);
    let m = literal("M"@);
    let held = listed("s."@, names.old, " IS NOT NULL"@, " OR "@);
    let absent = listed("s."@, names.old, " IS NULL"@, " OR "@);
    let same = paired("s."@, names.keys, " = s."@, names.old, " AND "@);
    lemma_first_clause("s"@, "."@, op, " NOT IN ("@, u, ", "@, d, m, ")"@, gap, "OR "@);
    lemma_second_clause(
        listed("s."@, names.keys, " IS NULL"@, " OR "@),
        gap,
        "OR "@,
        "("@,
        "s"@,
        "."@,
    );
    lemma_third_clause(
        "("@,
        "s"@,
        "."@,
        op,
        " IN ("@,
        u,
        ", "@,
        d,
        ")"@,
        " AND "@,
        names.moved,
        " "@,
        "OR "@,
        held,
        gap,
    );
    lemma_fourth_clause(
        "("@,
        "s"@,
        "."@,
        op,
        " = "@,
        m,
        " AND "@,
        "NOT "@,
        names.moved,
        " "@,
        "OR "@,
        absent,
        ")"@,
        same,
        gap,
    );
    lemma_fifth_clause(
        "("@,
        "s"@,
        "."@,
        op,
        " = "@,
        m,
        " AND "@,
        names.old_target_missing(),
        ")"@,
        gap,
        "OR "@,
    );
    lemma_sixth_clause(
        "("@,
        "s"@,
        "."@,
        op,
        " = "@,
        m,
        " AND "@,
        "NOT "@,
        names.target_missing(),
        names.destination_released(),
        ")"@,
        gap,
        "OR "@,
    );
    lemma_seventh_clause(
        "("@,
        "s"@,
        "."@,
        op,
        " = "@,
        u,
        " AND "@,
        names.target_missing(),
        " "@,
        "OR "@,
        names.destination_released(),
        ")"@,
        "NOT "@,
        names.all_present(),
        "\n    )"@,
    );
}

proof fn lemma_query_spaces()
    ensures
        "SELECT (\n    EXISTS (\n        SELECT 1\n        FROM "@ == "SELECT (\n    "@
            + "EXISTS (\n        SELECT 1\n        FROM "@,
        " AS s\n        LEFT JOIN "@ == " AS "@ + "s"@ + "\n        LEFT JOIN "@,
        " AS t ON "@ == " AS "@ + "t"@ + " ON "@,
        " AS old_t ON "@ == " AS "@ + "old_t"@ + " ON "@,
        "\n        WHERE s."@ == "\n        WHERE "@ + "s"@ + "."@,
        "\n    OR EXISTS (\n        SELECT 1 FROM "@ == "\n    OR "@
            + "EXISTS (\n        SELECT 1 FROM "@,
        " AS s\n        WHERE s."@ == " AS "@ + "s"@ + "\n        WHERE "@ + "s"@ + "."@,
        ")\n        GROUP BY "@ == ")"@ + "\n        GROUP BY "@,
        "\n        HAVING count(*) > 1\n    )\n    OR EXISTS (\n        SELECT 1\n        FROM (\n            SELECT "@
            == "\n        HAVING count(*) > 1\n    )"@ + "\n    OR "@
            + "EXISTS (\n        SELECT 1\n        FROM (\n            SELECT "@,
        " AS r\n            WHERE r."@ == " AS "@ + "r"@ + "\n            WHERE "@ + "r"@ + "."@,
        "\n        ) AS released\n        GROUP BY "@ == "\n        ) AS "@ + "released"@
            + "\n        GROUP BY "@,
        "\n        HAVING count(*) > 1\n    )\n) AS invalid_batch"@
            == "\n        HAVING count(*) > 1\n    )"@ + "\n) AS invalid_batch"@,
{
    reveal_strlit("s");
    reveal_strlit("t");
    reveal_strlit("r");
    reveal_strlit("old_t");
    reveal_strlit("released");
    reveal_strlit(".");
    reveal_strlit(")");
    reveal_strlit(" AS ");
    reveal_strlit(" ON ");
    reveal_strlit("SELECT (\n    ");
    reveal_strlit("EXISTS (\n        SELECT 1\n        FROM ");
    reveal_strlit("SELECT (\n    EXISTS (\n        SELECT 1\n        FROM ");
    reveal_strlit("\n        LEFT JOIN ");
    reveal_strlit(" AS s\n        LEFT JOIN ");
    reveal_strlit(" AS t ON ");
    reveal_strlit(" AS old_t ON ");
    reveal_strlit("\n        WHERE ");
    reveal_strlit("\n        WHERE s.");
    reveal_strlit("\n    OR ");
    reveal_strlit("EXISTS (\n        SELECT 1 FROM ");
    reveal_strlit("\n    OR EXISTS (\n        SELECT 1 FROM ");
    reveal_strlit(" AS s\n        WHERE s.");
    reveal_strlit("\n        GROUP BY ");
    reveal_strlit(")\n        GROUP BY ");
    reveal_strlit("\n        HAVING count(*) > 1\n    )");
    reveal_strlit("EXISTS (\n        SELECT 1\n        FROM (\n            SELECT ");
    reveal_strlit(
        "\n        HAVING count(*) > 1\n    )\n    OR EXISTS (\n        SELECT 1\n        FROM (\n            SELECT ",
    );
    reveal_strlit("\n            WHERE ");
    reveal_strlit(" AS r\n            WHERE r.");
    reveal_strlit("\n        ) AS ");
    reveal_strlit("\n        ) AS released\n        GROUP BY ");
    reveal_strlit("\n) AS invalid_batch");
    reveal_strlit("\n        HAVING count(*) > 1\n    )\n) AS invalid_batch");
    assert("SELECT (\n    EXISTS (\n        SELECT 1\n        FROM "@ =~= "SELECT (\n    "@
        + "EXISTS (\n        SELECT 1\n        FROM "@);
    assert(" AS s\n        LEFT JOIN "@ =~= " AS "@ + "s"@ + "\n        LEFT JOIN "@);
    assert(" AS t ON "@ =~= " AS "@ + "t"@ + " ON "@);
    assert(" AS old_t ON "@ =~= " AS "@ + "old_t"@ + " ON "@);
    assert("\n        WHERE s."@ =~= "\n        WHERE "@ + "s"@ + "."@);
    assert("\n    OR EXISTS (\n        SELECT 1 FROM "@ =~= "\n    OR "@
        + "EXISTS (\n        SELECT 1 FROM "@);
    assert(" AS s\n        WHERE s."@ =~= " AS "@ + "s"@ + "\n        WHERE "@ + "s"@ + "."@);
    assert(")\n        GROUP BY "@ =~= ")"@ + "\n        GROUP BY "@);
    assert("\n        HAVING count(*) > 1\n    )\n    OR EXISTS (\n        SELECT 1\n        FROM (\n            SELECT "@
        =~= "\n        HAVING count(*) > 1\n    )"@ + "\n    OR "@
        + "EXISTS (\n        SELECT 1\n        FROM (\n            SELECT "@);
    assert(" AS r\n            WHERE r."@ =~= " AS "@ + "r"@ + "\n            WHERE "@ + "r"@ + "."@);
    assert("\n        ) AS released\n        GROUP BY "@ =~= "\n        ) AS "@ + "released"@
        + "\n        GROUP BY "@);
    assert("\n        HAVING count(*) > 1\n    )\n) AS invalid_batch"@
        =~= "\n        HAVING count(*) > 1\n    )"@ + "\n) AS invalid_batch"@);
}

/// The first test of the query.
#[verifier::spinoff_prover]
proof fn lemma_row_test_text(plan: ApplyPlan, rows: Seq<Row>, target: Set<Row>, rest: Seq<char>)
    requires
        plan_follows(plan, plan.staging_name@),
        plan.table@.primary_key.len() > 0,
    ensures
        ({
            let names = names_model(plan.table@, plan.staging_name@);
            names.staged_rows() + names.invalid_row() + rest == "SELECT (\n    "@ + row_test(
                plan,
                rows,
                target,
            ).text + rest
        }),
{
    lemma_names(plan);
    lemma_prefixes();
    lemma_query_spaces();
    lemma_unsound_text(plan, rows);
    let names = names_model(plan.table@, plan.staging_name@);
    assert(names.old.len() == names.keys.len());
    lemma_equal_text("t"@, "t."@, names.keys, names.keys);
    lemma_equal_text("old_t"@, "old_t."@, names.keys, names.old);
    let start = "EXISTS (\n        SELECT 1\n        FROM "@;
    let join = "\n        LEFT JOIN "@;
    let old_join = paired("old_t."@, names.keys, " = s."@, names.old, " AND "@);
    let filter = "\n        WHERE "@;
    let before = "SELECT (\n    "@ + start + names.staging + (" AS "@ + "s"@ + join) + names.target + (
    " AS "@ + "t"@ + " ON "@) + names.key_join() + join + names.target + (" AS "@ + "old_t"@
        + " ON "@) + old_join;
    assert(names.staged_rows() == before + (filter + "s"@ + "."@));
    lemma_where(before, filter, "s"@, "."@, names.invalid_row());
    lemma_from(
        "SELECT (\n    "@,
        start,
        names.staging,
        " AS "@,
        "s"@,
        join,
        names.target,
        "t"@,
        " ON "@,
        names.key_join(),
        "old_t"@,
        old_join,
        filter,
    );
    let from = start + names.staging + " AS "@ + "s"@ + join + names.target + " AS "@ + "t"@ + " ON "@
        + names.key_join() + join + names.target + " AS "@ + "old_t"@ + " ON "@ + old_join + filter;
    lemma_whole(
        "SELECT (\n    "@,
        from,
        unsound_row(plan, rows).text,
        "\n    )"@,
        rest,
    );
}

/// The other two tests of the query.
#[verifier::spinoff_prover]
proof fn lemma_group_texts(plan: ApplyPlan, rows: Seq<Row>)
    requires
        plan_follows(plan, plan.staging_name@),
    ensures
        ({
            let names = names_model(plan.table@, plan.staging_name@);
            let second = group_test(names.staging, rows, "s"@, writes(plan), names.keys);
            let third = union_test(
                names.staging,
                rows,
                "r"@,
                deletes(plan),
                names.keys,
                moves(plan),
                names.old,
                "released"@,
            );
            names.repeated_key() == "\n    OR "@ + second.text + "\n    OR "@ + third.text
                + "\n) AS invalid_batch"@
        }),
{
    lemma_names(plan);
    lemma_prefixes();
    lemma_query_spaces();
    let names = names_model(plan.table@, plan.staging_name@);
    lemma_lists("s"@, "s."@, names.keys);
    lemma_lists("r"@, "r."@, names.keys);
    lemma_lists("released"@, "released."@, names.keys);
    lemma_renamed_text(names.old, names.keys);
    let op = names.operation;
    let staging = names.staging;
    let word = "\n    OR "@;
    let having = "\n        HAVING count(*) > 1\n    )"@;
    let union = "EXISTS (\n        SELECT 1\n        FROM (\n            SELECT "@;
    let group = "\n        GROUP BY "@;
    let own = listed("s."@, names.keys, ""@, ", "@);
    lemma_second_test(
        word,
        "EXISTS (\n        SELECT 1 FROM "@,
        staging,
        " AS "@,
        "s"@,
        "\n        WHERE "@,
        "."@,
        op,
        " IN ("@,
        literal("U"@),
        ", "@,
        literal("M"@),
        ")"@,
        group,
        own,
        having + word + union,
    );
    let counted = "EXISTS (\n        SELECT 1 FROM "@ + staging + " AS "@ + "s"@
        + "\n        WHERE "@ + writes(plan).text + group + own;
    lemma_between(word, counted, having, word, union);
    let before = word + (counted + having) + word;
    lemma_selection(
        before,
        union,
        listed("r."@, names.keys, ""@, ", "@),
        "\n            FROM "@,
        staging,
        " AS "@,
        "r"@,
        "\n            WHERE "@,
        "."@,
        op,
        " = "@,
        literal("D"@),
    );
    let first = union + listed("r."@, names.keys, ""@, ", "@) + "\n            FROM "@ + staging
        + " AS "@ + "r"@ + "\n            WHERE "@ + deletes(plan).text;
    lemma_second_selection(
        before,
        first,
        "\n            UNION ALL\n            SELECT "@,
        paired("r."@, names.old, " AS "@, names.keys, ", "@),
        "\n            FROM "@,
        staging,
        " AS "@,
        "r"@,
        "\n            WHERE "@,
        "."@,
        op,
        " = "@,
        literal("M"@),
    );
    let selected = first + "\n            UNION ALL\n            SELECT "@ + paired(
        "r."@,
        names.old,
        " AS "@,
        names.keys,
        ", "@,
    ) + "\n            FROM "@ + staging + " AS "@ + "r"@ + "\n            WHERE "@ + moves(plan).text;
    lemma_union_end(
        before,
        selected,
        "\n        ) AS "@,
        "released"@,
        group,
        listed("released."@, names.keys, ""@, ", "@),
        having,
        "\n) AS invalid_batch"@,
    );
}

/// The validation statement of a plan is the query over its staged rows and its target.
pub proof fn law_the_validation_statement(plan: ApplyPlan, rows: Seq<Row>, target: Set<Row>)
    requires
        plan_follows(plan, plan.staging_name@),
        plan.table@.primary_key.len() > 0,
    ensures
        plan.validation_sql@ == query(plan, rows, target).text,
{
    lemma_names(plan);
    let names = names_model(plan.table@, plan.staging_name@);
    lemma_row_test_text(plan, rows, target, names.repeated_key());
    lemma_group_texts(plan, rows);
    lemma_rest(
        "SELECT (\n    "@ + row_test(plan, rows, target).text,
        "\n    OR "@,
        group_test(names.staging, rows, "s"@, writes(plan), names.keys).text,
        union_test(
            names.staging,
            rows,
            "r"@,
            deletes(plan),
            names.keys,
            moves(plan),
            names.old,
            "released"@,
        ).text,
        "\n) AS invalid_batch"@,
    );
}

} // verus!
