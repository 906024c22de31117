//! Plans of the statements that apply one table batch.

use crate::schema::{
    column_names, law_planned_table, plan_create_table, table_model, well_planned, CreateTablePlan,
    SchemaError, SchemaFault, TableView,
};
use crate::source::{clone_texts, QualifiedName, TableSchema};
use crate::sql::{
    all_quotable, identifier_render_fault, list_quoted, listed, literal, pair_quoted, paired,
    quotable, quote_identifier, quote_qualified_name, quote_valid, quote_valid_literal, quoted,
    quoted_list, quoted_name, SqlRenderError,
};
use crate::storage::TargetStorage;
use crate::text::{
    begins_with, decimal, join, joined, law_decimals_differ, lemma_decimal_digits,
    lemma_signed_decimal_digits, render_decimal, render_signed, same_text, signed_decimal,
    starts_with, texts,
};
use vstd::prelude::*;

verus! {

// ---------------------------------------------------------------------------------------------
// Control columns
// ---------------------------------------------------------------------------------------------

/// The prefix of control columns with the given number.
pub open spec fn control_prefix(number: nat) -> Seq<char> {
    if number == 0 {
        "__pg2cb_"@
    } else {
        "__pg2cb"@ + decimal(number) + "_"@
    }
}

/// No name begins with the prefix of this number.
pub open spec fn prefix_is_free(names: Seq<Seq<char>>, number: nat) -> bool {
    forall|i: int| 0 <= i < names.len() ==> !begins_with(#[trigger] names[i], control_prefix(number))
}

/// The smallest number whose prefix is free.
pub open spec fn is_first_free(names: Seq<Seq<char>>, number: nat) -> bool {
    &&& prefix_is_free(names, number)
    &&& forall|k: nat| k < number ==> !#[trigger] prefix_is_free(names, k)
}

/// The prefix of the control columns beside the given column names.
pub open spec fn free_prefix(names: Seq<Seq<char>>) -> Seq<char> {
    control_prefix(choose|number: nat| is_first_free(names, number))
}

/// A name begins with the prefix of one number at most.
proof fn lemma_prefixes_exclude(name: Seq<char>, j: nat, k: nat)
    requires
        begins_with(name, control_prefix(j)),
        begins_with(name, control_prefix(k)),
    ensures
        j == k,
{
    reveal_strlit("__pg2cb_");
    reveal_strlit("__pg2cb");
    reveal_strlit("_");
    let digits_j = if j == 0 {
        Seq::empty()
    } else {
        decimal(j)
    };
    let digits_k = if k == 0 {
        Seq::empty()
    } else {
        decimal(k)
    };
    lemma_decimal_digits(j);
    lemma_decimal_digits(k);
    assert(control_prefix(j) =~= "__pg2cb"@ + digits_j + "_"@);
    assert(control_prefix(k) =~= "__pg2cb"@ + digits_k + "_"@);
    let pj = control_prefix(j);
    let pk = control_prefix(k);
    assert forall|i: int| 0 <= i < pj.len() implies name[i] == #[trigger] pj[i] by {
        assert(name.take(pj.len() as int)[i] == pj[i]);
    }
    assert forall|i: int| 0 <= i < pk.len() implies name[i] == #[trigger] pk[i] by {
        assert(name.take(pk.len() as int)[i] == pk[i]);
    }
    let end_j = 7 + digits_j.len();
    let end_k = 7 + digits_k.len();
    assert(pj[end_j as int] == '_');
    assert(pk[end_k as int] == '_');
    if digits_j.len() < digits_k.len() {
        assert(pk[end_j as int] == digits_k[digits_j.len() as int]);
        assert(false);
    }
    if digits_k.len() < digits_j.len() {
        assert(pj[end_k as int] == digits_j[digits_k.len() as int]);
        assert(false);
    }
    assert forall|i: int| 0 <= i < digits_j.len() implies digits_j[i] == digits_k[i] by {
        assert(pj[7 + i] == digits_j[i]);
        assert(pk[7 + i] == digits_k[i]);
    }
    assert(digits_j =~= digits_k);
    law_decimals_differ(j, k);
}

/// Each number below `count` is blocked by a name of its own.
pub open spec fn blocks(names: Seq<Seq<char>>, blockers: Seq<int>) -> bool {
    forall|k: int|
        0 <= k < blockers.len() ==> {
            &&& 0 <= #[trigger] blockers[k] < names.len()
            &&& begins_with(names[blockers[k]], control_prefix(k as nat))
        }
}

/// There are not more blocked numbers than names.
proof fn lemma_blockers_fit(names: Seq<Seq<char>>, blockers: Seq<int>)
    requires
        blocks(names, blockers),
    ensures
        blockers.len() <= names.len(),
{
    assert(blockers.no_duplicates()) by {
        assert forall|a: int, b: int|
            0 <= a < blockers.len() && 0 <= b < blockers.len() && a != b implies blockers[a]
            != blockers[b] by {
            if blockers[a] == blockers[b] {
                lemma_prefixes_exclude(names[blockers[a]], a as nat, b as nat);
            }
        }
    }
    let range = vstd::set_lib::set_int_range(0, names.len() as int);
    vstd::set_lib::lemma_int_range(0, names.len() as int);
    blockers.unique_seq_to_set();
    assert(blockers.to_set().subset_of(range)) by {
        assert forall|p: int| blockers.to_set().contains(p) implies range.contains(p) by {
            let k = choose|k: int| 0 <= k < blockers.len() && blockers[k] == p;
            assert(0 <= blockers[k] < names.len());
        }
    }
    vstd::set_lib::lemma_len_subset(blockers.to_set(), range);
}

proof fn lemma_first_free_unique(names: Seq<Seq<char>>, a: nat, b: nat)
    requires
        is_first_free(names, a),
        is_first_free(names, b),
    ensures
        a == b,
{
    if a < b {
        assert(!prefix_is_free(names, a));
    }
    if b < a {
        assert(!prefix_is_free(names, b));
    }
}

fn render_prefix(number: u64) -> (r: String)
    ensures
        r@ == control_prefix(number as nat),
{
    if number == 0 {
        "__pg2cb_".to_string()
    } else {
        let mut out = "__pg2cb".to_string();
        out.append(render_decimal(number).as_str());
        out.append("_");
        out
    }
}

/// The prefix of control columns that no source column begins with.
pub fn unused_control_prefix(table: &CreateTablePlan) -> (r: String)
    ensures
        r@ == free_prefix(column_names(table@.columns)),
        exists|number: nat|
            #[trigger] is_first_free(column_names(table@.columns), number) && r@ == control_prefix(
                number,
            ),
{
    let ghost names = column_names(table@.columns);
    let ghost mut blockers: Seq<int> = Seq::empty();
    let mut number: u64 = 0;
    loop
        invariant
            names == column_names(table@.columns),
            blockers.len() == number,
            blocks(names, blockers),
            forall|k: nat| k < number ==> !#[trigger] prefix_is_free(names, k),
        decreases names.len() - number,
    {
        proof {
            lemma_blockers_fit(names, blockers);
        }
        let candidate = render_prefix(number);
        let mut i: usize = 0;
        let mut taken = false;
        while i < table.columns.len() && !taken
            invariant
                i <= table.columns.len(),
                names == column_names(table@.columns),
                candidate@ == control_prefix(number as nat),
                !taken ==> forall|k: int|
                    0 <= k < i ==> !begins_with(#[trigger] names[k], candidate@),
                taken ==> i < table.columns.len() && begins_with(names[i as int], candidate@),
            decreases table.columns.len() - i, if taken { 0int } else { 1int },
        {
            if starts_with(table.columns[i].name.as_str(), candidate.as_str()) {
                taken = true;
            } else {
                i = i + 1;
            }
        }
        if !taken {
            proof {
                assert(prefix_is_free(names, number as nat));
                assert(is_first_free(names, number as nat));
                let chosen = choose|number: nat| is_first_free(names, number);
                lemma_first_free_unique(names, number as nat, chosen);
            }
            return candidate;
        }
        proof {
            blockers = blockers.push(i as int);
            assert(blocks(names, blockers));
            lemma_blockers_fit(names, blockers);
            assert(!prefix_is_free(names, number as nat));
            assert(names.len() == table.columns@.len());
        }
        number = number + 1;
    }
}

// ---------------------------------------------------------------------------------------------
// Statement texts
// ---------------------------------------------------------------------------------------------

/// The names that the statements of one plan are made of.
pub struct ApplyNames {
    /// The quoted target table.
    pub target: Seq<char>,
    /// The quoted staging table.
    pub staging: Seq<char>,
    /// The quoted operation column.
    pub operation: Seq<char>,
    /// The quoted flag column that tells whether a row carries an old key.
    pub moved: Seq<char>,
    /// The key columns in key order.
    pub keys: Seq<Seq<char>>,
    /// The staging columns of the old key, in key order.
    pub old: Seq<Seq<char>>,
    /// All table columns in table order.
    pub columns: Seq<Seq<char>>,
    /// The columns outside the key, in table order.
    pub data: Seq<Seq<char>>,
    /// Their presence flag columns.
    pub present: Seq<Seq<char>>,
}

impl ApplyNames {
    pub open spec fn key_join(self) -> Seq<char> {
        paired("t."@, self.keys, " = s."@, self.keys, " AND "@)
    }

    pub open spec fn old_key_join(self) -> Seq<char> {
        paired("t."@, self.keys, " = s."@, self.old, " AND "@)
    }

    pub open spec fn target_missing(self) -> Seq<char> {
        "(t."@ + quoted(self.keys[0]) + " IS NULL)"@
    }

    pub open spec fn old_target_missing(self) -> Seq<char> {
        "(old_t."@ + quoted(self.keys[0]) + " IS NULL)"@
    }

    pub open spec fn all_present(self) -> Seq<char> {
        if self.present.len() == 0 {
            "TRUE"@
        } else {
            listed("s."@, self.present, ""@, " AND "@)
        }
    }

    pub open spec fn destination_released(self) -> Seq<char> {
        "EXISTS (\n                SELECT 1\n                FROM "@ + self.staging
            + " AS r\n                WHERE (r."@ + self.operation + " = "@ + literal("D"@)
            + " AND ("@ + paired("r."@, self.keys, " = s."@, self.keys, " AND "@)
            + "))\n                   OR (r."@ + self.operation + " = "@ + literal("M"@)
            + " AND ("@ + paired("r."@, self.old, " = s."@, self.keys, " AND "@)
            + "))\n            )"@
    }

    /// The join of each staged row with the target rows at its new and its old key.
    pub open spec fn staged_rows(self) -> Seq<char> {
        "SELECT (\n    EXISTS (\n        SELECT 1\n        FROM "@ + self.staging
            + " AS s\n        LEFT JOIN "@ + self.target + " AS t ON "@ + self.key_join()
            + "\n        LEFT JOIN "@ + self.target + " AS old_t ON "@ + paired(
            "old_t."@,
            self.keys,
            " = s."@,
            self.old,
            " AND "@,
        ) + "\n        WHERE s."@
    }

    /// The conditions under which one staged row is invalid.
    pub open spec fn invalid_row(self) -> Seq<char> {
        self.operation + " NOT IN ("@ + literal("U"@) + ", "@ + literal("D"@) + ", "@ + literal("M"@)
            + ")\n           OR "@ + listed("s."@, self.keys, " IS NULL"@, " OR "@)
            + "\n           OR (s."@ + self.operation + " IN ("@ + literal("U"@) + ", "@ + literal(
            "D"@,
        ) + ") AND ("@ + "s."@ + self.moved + " OR ("@ + listed(
            "s."@,
            self.old,
            " IS NOT NULL"@,
            " OR "@,
        ) + ")))\n           OR (s."@ + self.operation + " = "@ + literal("M"@) + " AND (NOT "@
            + "s."@ + self.moved + " OR ("@ + listed("s."@, self.old, " IS NULL"@, " OR "@)
            + ") OR ("@ + paired("s."@, self.keys, " = s."@, self.old, " AND "@)
            + ")))\n           OR (s."@ + self.operation + " = "@ + literal("M"@) + " AND "@
            + self.old_target_missing() + ")\n           OR (s."@ + self.operation + " = "@
            + literal("M"@) + " AND NOT "@ + self.target_missing() + " AND NOT ("@
            + self.destination_released() + "))\n           OR (s."@ + self.operation + " = "@
            + literal("U"@) + " AND ("@ + self.target_missing() + " OR ("@
            + self.destination_released() + ")) AND NOT ("@ + self.all_present() + "))\n    )"@
    }

    /// The condition that two staged rows write or release one key.
    pub open spec fn repeated_key(self) -> Seq<char> {
        "\n    OR EXISTS (\n        SELECT 1 FROM "@ + self.staging + " AS s\n        WHERE s."@
            + self.operation + " IN ("@ + literal("U"@) + ", "@ + literal("M"@)
            + ")\n        GROUP BY "@ + listed("s."@, self.keys, ""@, ", "@)
            + "\n        HAVING count(*) > 1\n    )\n    OR EXISTS (\n        SELECT 1\n        FROM (\n            SELECT "@
            + listed("r."@, self.keys, ""@, ", "@) + "\n            FROM "@ + self.staging
            + " AS r\n            WHERE r."@ + self.operation + " = "@ + literal("D"@)
            + "\n            UNION ALL\n            SELECT "@ + paired(
            "r."@,
            self.old,
            " AS "@,
            self.keys,
            ", "@,
        ) + "\n            FROM "@ + self.staging + " AS r\n            WHERE r."@ + self.operation
            + " = "@ + literal("M"@) + "\n        ) AS released\n        GROUP BY "@ + listed(
            "released."@,
            self.keys,
            ""@,
            ", "@,
        ) + "\n        HAVING count(*) > 1\n    )\n) AS invalid_batch"@
    }

    pub open spec fn validation_text(self) -> Seq<char> {
        self.staged_rows() + self.invalid_row() + self.repeated_key()
    }

    pub open spec fn delete_text(self) -> Seq<char> {
        "DELETE FROM "@ + self.target + " AS t\nUSING "@ + self.staging + " AS s\nWHERE s."@
            + self.operation + " = "@ + literal("D"@) + " AND "@ + self.key_join()
    }

    pub open spec fn assignment(self, i: int) -> Seq<char> {
        "    "@ + quoted(self.data[i]) + " = CASE WHEN s."@ + quoted(self.present[i]) + " THEN s."@
            + quoted(self.data[i]) + " ELSE t."@ + quoted(self.data[i]) + " END"@
    }

    /// Keeps the target's value where the source sent none.
    pub open spec fn assignments(self) -> Seq<char> {
        joined(Seq::new(self.data.len(), |i: int| self.assignment(i)), ",\n"@)
    }

    pub open spec fn materialize_moves_text(self) -> Option<Seq<char>> {
        if self.present.len() == 0 {
            None
        } else {
            Some(
                "UPDATE "@ + self.staging + " AS s\nSET\n"@ + self.assignments() + "\nFROM "@
                    + self.target + " AS t\nWHERE s."@ + self.operation + " = "@ + literal("M"@)
                    + " AND "@ + self.old_key_join(),
            )
        }
    }

    pub open spec fn delete_moved_text(self) -> Seq<char> {
        "DELETE FROM "@ + self.target + " AS t\nUSING "@ + self.staging + " AS s\nWHERE s."@
            + self.operation + " = "@ + literal("M"@) + " AND "@ + self.old_key_join()
    }

    pub open spec fn move_text(self) -> Seq<char> {
        "INSERT INTO "@ + self.target + " ("@ + quoted_list(self.columns) + ")\nSELECT "@ + listed(
            "s."@,
            self.columns,
            ""@,
            ", "@,
        ) + "\nFROM "@ + self.staging + " AS s\nWHERE s."@ + self.operation + " = "@ + literal(
            "M"@,
        )
    }

    pub open spec fn update_text(self) -> Option<Seq<char>> {
        if self.present.len() == 0 {
            None
        } else {
            Some(
                "UPDATE "@ + self.target + " AS t\nSET\n"@ + self.assignments() + "\nFROM "@
                    + self.staging + " AS s\nWHERE s."@ + self.operation + " = "@ + literal("U"@)
                    + " AND "@ + self.key_join(),
            )
        }
    }

    pub open spec fn insert_text(self) -> Seq<char> {
        "INSERT INTO "@ + self.target + " ("@ + quoted_list(self.columns) + ")\nSELECT "@ + listed(
            "s."@,
            self.columns,
            ""@,
            ", "@,
        ) + "\nFROM "@ + self.staging + " AS s\nWHERE s."@ + self.operation + " = "@ + literal("U"@)
            + "\n  AND NOT EXISTS (SELECT 1 FROM "@ + self.target + " AS t WHERE "@
            + self.key_join() + ")"@
    }

    /// The lists fit together and hold valid identifiers only.
    pub open spec fn usable(self) -> bool {
        &&& self.keys.len() > 0
        &&& self.old.len() == self.keys.len()
        &&& self.present.len() == self.data.len()
        &&& all_quotable(self.keys)
        &&& all_quotable(self.old)
        &&& all_quotable(self.columns)
        &&& all_quotable(self.data)
        &&& all_quotable(self.present)
    }
}

struct Names {
    target: String,
    staging: String,
    operation: String,
    moved: String,
    keys: Vec<String>,
    old: Vec<String>,
    columns: Vec<String>,
    data: Vec<String>,
    present: Vec<String>,
}

impl View for Names {
    type V = ApplyNames;

    closed spec fn view(&self) -> ApplyNames {
        ApplyNames {
            target: self.target@,
            staging: self.staging@,
            operation: self.operation@,
            moved: self.moved@,
            keys: texts(self.keys@),
            old: texts(self.old@),
            columns: texts(self.columns@),
            data: texts(self.data@),
            present: texts(self.present@),
        }
    }
}

fn operation_literal(operation: &'static str) -> (r: String)
    requires
        operation == "U" || operation == "D" || operation == "M",
    ensures
        r@ == literal(operation@),
{
    proof {
        reveal_strlit("U");
        reveal_strlit("D");
        reveal_strlit("M");
    }
    quote_valid_literal(operation)
}

impl Names {
    fn key_join(&self) -> (r: String)
        requires
            self@.usable(),
        ensures
            r@ == self@.key_join(),
    {
        pair_quoted("t.", &self.keys, " = s.", &self.keys, " AND ")
    }

    fn old_key_join(&self) -> (r: String)
        requires
            self@.usable(),
        ensures
            r@ == self@.old_key_join(),
    {
        pair_quoted("t.", &self.keys, " = s.", &self.old, " AND ")
    }

    fn first_key(&self) -> (r: String)
        requires
            self@.usable(),
        ensures
            r@ == quoted(self@.keys[0]),
    {
        proof {
            assert(quotable(self@.keys[0]));
        }
        quote_valid(self.keys[0].as_str())
    }

    fn target_missing(&self) -> (r: String)
        requires
            self@.usable(),
        ensures
            r@ == self@.target_missing(),
    {
        let mut out = "(t.".to_string();
        out.append(self.first_key().as_str());
        out.append(" IS NULL)");
        out
    }

    fn old_target_missing(&self) -> (r: String)
        requires
            self@.usable(),
        ensures
            r@ == self@.old_target_missing(),
    {
        let mut out = "(old_t.".to_string();
        out.append(self.first_key().as_str());
        out.append(" IS NULL)");
        out
    }

    fn all_present(&self) -> (r: String)
        requires
            self@.usable(),
        ensures
            r@ == self@.all_present(),
    {
        if self.present.len() == 0 {
            "TRUE".to_string()
        } else {
            list_quoted("s.", &self.present, "", " AND ")
        }
    }

    fn destination_released(&self) -> (r: String)
        requires
            self@.usable(),
        ensures
            r@ == self@.destination_released(),
    {
        let mut out = "EXISTS (\n                SELECT 1\n                FROM ".to_string();
        out.append(self.staging.as_str());
        out.append(" AS r\n                WHERE (r.");
        out.append(self.operation.as_str());
        out.append(" = ");
        out.append(operation_literal("D").as_str());
        out.append(" AND (");
        out.append(pair_quoted("r.", &self.keys, " = s.", &self.keys, " AND ").as_str());
        out.append("))\n                   OR (r.");
        out.append(self.operation.as_str());
        out.append(" = ");
        out.append(operation_literal("M").as_str());
        out.append(" AND (");
        out.append(pair_quoted("r.", &self.old, " = s.", &self.keys, " AND ").as_str());
        out.append("))\n            )");
        out
    }

    fn staged_rows(&self) -> (r: String)
        requires
            self@.usable(),
        ensures
            r@ == self@.staged_rows(),
    {
        let mut out = "SELECT (\n    EXISTS (\n        SELECT 1\n        FROM ".to_string();
        out.append(self.staging.as_str());
        out.append(" AS s\n        LEFT JOIN ");
        out.append(self.target.as_str());
        out.append(" AS t ON ");
        out.append(self.key_join().as_str());
        out.append("\n        LEFT JOIN ");
        out.append(self.target.as_str());
        out.append(" AS old_t ON ");
        out.append(pair_quoted("old_t.", &self.keys, " = s.", &self.old, " AND ").as_str());
        out.append("\n        WHERE s.");
        out
    }

    fn invalid_row(&self) -> (r: String)
        requires
            self@.usable(),
        ensures
            r@ == self@.invalid_row(),
    {
        let upsert = operation_literal("U");
        let delete = operation_literal("D");
        let move_op = operation_literal("M");
        let mut out = self.operation.clone();
        out.append(" NOT IN (");
        out.append(upsert.as_str());
        out.append(", ");
        out.append(delete.as_str());
        out.append(", ");
        out.append(move_op.as_str());
        out.append(")\n           OR ");
        out.append(list_quoted("s.", &self.keys, " IS NULL", " OR ").as_str());
        out.append("\n           OR (s.");
        out.append(self.operation.as_str());
        out.append(" IN (");
        out.append(upsert.as_str());
        out.append(", ");
        out.append(delete.as_str());
        out.append(") AND (");
        out.append("s.");
        out.append(self.moved.as_str());
        out.append(" OR (");
        out.append(list_quoted("s.", &self.old, " IS NOT NULL", " OR ").as_str());
        out.append(")))\n           OR (s.");
        out.append(self.operation.as_str());
        out.append(" = ");
        out.append(move_op.as_str());
        out.append(" AND (NOT ");
        out.append("s.");
        out.append(self.moved.as_str());
        out.append(" OR (");
        out.append(list_quoted("s.", &self.old, " IS NULL", " OR ").as_str());
        out.append(") OR (");
        out.append(pair_quoted("s.", &self.keys, " = s.", &self.old, " AND ").as_str());
        out.append(")))\n           OR (s.");
        out.append(self.operation.as_str());
        out.append(" = ");
        out.append(move_op.as_str());
        out.append(" AND ");
        out.append(self.old_target_missing().as_str());
        out.append(")\n           OR (s.");
        out.append(self.operation.as_str());
        out.append(" = ");
        out.append(move_op.as_str());
        out.append(" AND NOT ");
        out.append(self.target_missing().as_str());
        out.append(" AND NOT (");
        out.append(self.destination_released().as_str());
        out.append("))\n           OR (s.");
        out.append(self.operation.as_str());
        out.append(" = ");
        out.append(upsert.as_str());
        out.append(" AND (");
        out.append(self.target_missing().as_str());
        out.append(" OR (");
        out.append(self.destination_released().as_str());
        out.append(")) AND NOT (");
        out.append(self.all_present().as_str());
        out.append("))\n    )");
        out
    }

    fn repeated_key(&self) -> (r: String)
        requires
            self@.usable(),
        ensures
            r@ == self@.repeated_key(),
    {
        let mut out = "\n    OR EXISTS (\n        SELECT 1 FROM ".to_string();
        out.append(self.staging.as_str());
        out.append(" AS s\n        WHERE s.");
        out.append(self.operation.as_str());
        out.append(" IN (");
        out.append(operation_literal("U").as_str());
        out.append(", ");
        out.append(operation_literal("M").as_str());
        out.append(")\n        GROUP BY ");
        out.append(list_quoted("s.", &self.keys, "", ", ").as_str());
        out.append(
            "\n        HAVING count(*) > 1\n    )\n    OR EXISTS (\n        SELECT 1\n        FROM (\n            SELECT ",
        );
        out.append(list_quoted("r.", &self.keys, "", ", ").as_str());
        out.append("\n            FROM ");
        out.append(self.staging.as_str());
        out.append(" AS r\n            WHERE r.");
        out.append(self.operation.as_str());
        out.append(" = ");
        out.append(operation_literal("D").as_str());
        out.append("\n            UNION ALL\n            SELECT ");
        out.append(pair_quoted("r.", &self.old, " AS ", &self.keys, ", ").as_str());
        out.append("\n            FROM ");
        out.append(self.staging.as_str());
        out.append(" AS r\n            WHERE r.");
        out.append(self.operation.as_str());
        out.append(" = ");
        out.append(operation_literal("M").as_str());
        out.append("\n        ) AS released\n        GROUP BY ");
        out.append(list_quoted("released.", &self.keys, "", ", ").as_str());
        out.append("\n        HAVING count(*) > 1\n    )\n) AS invalid_batch");
        out
    }

    fn validation_sql(&self) -> (r: String)
        requires
            self@.usable(),
        ensures
            r@ == self@.validation_text(),
    {
        let mut out = self.staged_rows();
        out.append(self.invalid_row().as_str());
        out.append(self.repeated_key().as_str());
        out
    }

    fn delete_sql(&self) -> (r: String)
        requires
            self@.usable(),
        ensures
            r@ == self@.delete_text(),
    {
        let mut out = "DELETE FROM ".to_string();
        out.append(self.target.as_str());
        out.append(" AS t\nUSING ");
        out.append(self.staging.as_str());
        out.append(" AS s\nWHERE s.");
        out.append(self.operation.as_str());
        out.append(" = ");
        out.append(operation_literal("D").as_str());
        out.append(" AND ");
        out.append(self.key_join().as_str());
        out
    }

    fn assignments(&self) -> (r: String)
        requires
            self@.usable(),
        ensures
            r@ == self@.assignments(),
    {
        let ghost parts = Seq::new(self@.data.len(), |i: int| self@.assignment(i));
        let mut lines: Vec<String> = Vec::new();
        let mut i: usize = 0;
        while i < self.data.len()
            invariant
                i <= self.data.len(),
                self@.usable(),
                lines@.len() == i,
                forall|k: int| 0 <= k < i ==> (#[trigger] lines@[k])@ == self@.assignment(k),
            decreases self.data.len() - i,
        {
            proof {
                assert(quotable(self@.data[i as int]));
                assert(quotable(self@.present[i as int]));
            }
            let data = quote_valid(self.data[i].as_str());
            let present = quote_valid(self.present[i].as_str());
            let mut line = "    ".to_string();
            line.append(data.as_str());
            line.append(" = CASE WHEN s.");
            line.append(present.as_str());
            line.append(" THEN s.");
            line.append(data.as_str());
            line.append(" ELSE t.");
            line.append(data.as_str());
            line.append(" END");
            lines.push(line);
            i = i + 1;
        }
        proof {
            assert(texts(lines@) =~= parts);
        }
        join(&lines, ",\n")
    }

    fn materialize_moves_sql(&self) -> (r: Option<String>)
        requires
            self@.usable(),
        ensures
            match r {
                Some(text) => self@.materialize_moves_text() == Some(text@),
                None => self@.materialize_moves_text() is None,
            },
    {
        if self.present.len() == 0 {
            return None;
        }
        let mut out = "UPDATE ".to_string();
        out.append(self.staging.as_str());
        out.append(" AS s\nSET\n");
        out.append(self.assignments().as_str());
        out.append("\nFROM ");
        out.append(self.target.as_str());
        out.append(" AS t\nWHERE s.");
        out.append(self.operation.as_str());
        out.append(" = ");
        out.append(operation_literal("M").as_str());
        out.append(" AND ");
        out.append(self.old_key_join().as_str());
        Some(out)
    }

    fn delete_moved_sql(&self) -> (r: String)
        requires
            self@.usable(),
        ensures
            r@ == self@.delete_moved_text(),
    {
        let mut out = "DELETE FROM ".to_string();
        out.append(self.target.as_str());
        out.append(" AS t\nUSING ");
        out.append(self.staging.as_str());
        out.append(" AS s\nWHERE s.");
        out.append(self.operation.as_str());
        out.append(" = ");
        out.append(operation_literal("M").as_str());
        out.append(" AND ");
        out.append(self.old_key_join().as_str());
        out
    }

    fn move_sql(&self) -> (r: String)
        requires
            self@.usable(),
        ensures
            r@ == self@.move_text(),
    {
        let mut out = "INSERT INTO ".to_string();
        out.append(self.target.as_str());
        out.append(" (");
        out.append(list_quoted("", &self.columns, "", ", ").as_str());
        out.append(")\nSELECT ");
        out.append(list_quoted("s.", &self.columns, "", ", ").as_str());
        out.append("\nFROM ");
        out.append(self.staging.as_str());
        out.append(" AS s\nWHERE s.");
        out.append(self.operation.as_str());
        out.append(" = ");
        out.append(operation_literal("M").as_str());
        out
    }

    fn update_sql(&self) -> (r: Option<String>)
        requires
            self@.usable(),
        ensures
            match r {
                Some(text) => self@.update_text() == Some(text@),
                None => self@.update_text() is None,
            },
    {
        if self.present.len() == 0 {
            return None;
        }
        let mut out = "UPDATE ".to_string();
        out.append(self.target.as_str());
        out.append(" AS t\nSET\n");
        out.append(self.assignments().as_str());
        out.append("\nFROM ");
        out.append(self.staging.as_str());
        out.append(" AS s\nWHERE s.");
        out.append(self.operation.as_str());
        out.append(" = ");
        out.append(operation_literal("U").as_str());
        out.append(" AND ");
        out.append(self.key_join().as_str());
        Some(out)
    }

    fn insert_sql(&self) -> (r: String)
        requires
            self@.usable(),
        ensures
            r@ == self@.insert_text(),
    {
        let mut out = "INSERT INTO ".to_string();
        out.append(self.target.as_str());
        out.append(" (");
        out.append(list_quoted("", &self.columns, "", ", ").as_str());
        out.append(")\nSELECT ");
        out.append(list_quoted("s.", &self.columns, "", ", ").as_str());
        out.append("\nFROM ");
        out.append(self.staging.as_str());
        out.append(" AS s\nWHERE s.");
        out.append(self.operation.as_str());
        out.append(" = ");
        out.append(operation_literal("U").as_str());
        out.append("\n  AND NOT EXISTS (SELECT 1 FROM ");
        out.append(self.target.as_str());
        out.append(" AS t WHERE ");
        out.append(self.key_join().as_str());
        out.append(")");
        out
    }
}

// ---------------------------------------------------------------------------------------------
// Plans
// ---------------------------------------------------------------------------------------------

#[derive(Debug, Clone, PartialEq, Eq)]
pub enum ApplyPlanError {
    Schema(SchemaError),
    Sql(SqlRenderError),
}

#[derive(Debug, Clone, PartialEq, Eq)]
pub struct PresenceColumn {
    pub source_column_index: usize,
    pub source_column_name: String,
    pub staging_column_name: String,
}

#[derive(Debug, Clone, PartialEq, Eq)]
pub struct OldKeyColumn {
    pub source_column_index: usize,
    pub source_column_name: String,
    pub staging_column_name: String,
    pub type_sql: String,
}

#[derive(Debug, Clone, PartialEq, Eq)]
pub struct CopyLayout {
    pub operation_column: String,
    pub data_columns: Vec<String>,
    pub presence_columns: Vec<PresenceColumn>,
    pub old_key_present_column: String,
    pub old_key_columns: Vec<OldKeyColumn>,
}

/// Pure SQL plan for applying one already-collapsed table batch.
///
/// The caller executes these statements in order in one target transaction,
/// then advances the node checkpoint before committing.
#[derive(Debug, Clone, PartialEq, Eq)]
pub struct ApplyPlan {
    pub table: CreateTablePlan,
    pub staging_name: String,
    pub copy_layout: CopyLayout,
    pub create_staging_sql: String,
    pub copy_sql: String,
    pub validation_sql: String,
    pub materialize_moves_sql: Option<String>,
    pub delete_sql: String,
    pub delete_moved_sql: String,
    pub move_sql: String,
    pub update_sql: Option<String>,
    pub insert_sql: String,
}

/// The positions of the columns outside the key among the first `count`.
pub open spec fn data_positions_of(table: TableView, count: int) -> Seq<int>
    decreases count,
{
    if count <= 0 {
        Seq::empty()
    } else if table.primary_key.contains(table.columns[count - 1].name) {
        data_positions_of(table, count - 1)
    } else {
        data_positions_of(table, count - 1).push(count - 1)
    }
}

/// The positions of the columns outside the key.
pub open spec fn data_positions(table: TableView) -> Seq<int> {
    data_positions_of(table, table.columns.len() as int)
}

/// The position of the `i`-th key column.
pub open spec fn key_position(table: TableView, i: int) -> int {
    column_names(table.columns).index_of(table.primary_key[i])
}

pub open spec fn table_prefix(table: TableView) -> Seq<char> {
    free_prefix(column_names(table.columns))
}

pub open spec fn presence_name(table: TableView, position: int) -> Seq<char> {
    table_prefix(table) + "present_"@ + signed_decimal(table.columns[position].source_attnum as int)
}

pub open spec fn old_key_name(table: TableView, position: int) -> Seq<char> {
    table_prefix(table) + "old_"@ + signed_decimal(table.columns[position].source_attnum as int)
}

/// The names that the statements for a table are made of.
pub open spec fn names_model(table: TableView, staging: Seq<char>) -> ApplyNames {
    let data = data_positions(table);
    ApplyNames {
        target: quoted_name(table.target),
        staging: quoted(staging),
        operation: quoted(table_prefix(table) + "op"@),
        moved: quoted(table_prefix(table) + "old_key_present"@),
        keys: table.primary_key,
        old: Seq::new(
            table.primary_key.len(),
            |i: int| old_key_name(table, key_position(table, i)),
        ),
        columns: column_names(table.columns),
        data: Seq::new(data.len(), |i: int| table.columns[data[i]].name),
        present: Seq::new(data.len(), |i: int| presence_name(table, data[i])),
    }
}

/// The column definitions of the staging table.
pub open spec fn staging_definitions(table: TableView, names: ApplyNames) -> Seq<Seq<char>> {
    seq![
        "    "@ + names.operation + " character(1) NOT NULL CHECK ("@ + names.operation + " IN ("@
            + literal("U"@) + ", "@ + literal("D"@) + ", "@ + literal("M"@) + "))"@,
    ] + Seq::new(
        table.columns.len(),
        |i: int| "    "@ + quoted(table.columns[i].name) + " "@ + table.columns[i].type_sql,
    ) + Seq::new(
        names.present.len(),
        |i: int| "    "@ + quoted(names.present[i]) + " boolean NOT NULL"@,
    ) + seq!["    "@ + names.moved + " boolean NOT NULL"@] + Seq::new(
        names.old.len(),
        |i: int|
            "    "@ + quoted(names.old[i]) + " "@ + table.columns[key_position(table, i)].type_sql,
    )
}

pub open spec fn create_staging_text(table: TableView, names: ApplyNames) -> Seq<char> {
    "CREATE TEMPORARY TABLE "@ + names.staging + " (\n"@ + joined(
        staging_definitions(table, names),
        ",\n"@,
    ) + "\n)\nUSING heap\nON COMMIT DROP\nDISTRIBUTED BY ("@ + quoted_list(names.keys) + ")"@
}

/// The columns that COPY fills, in order.
pub open spec fn copy_columns(table: TableView, names: ApplyNames) -> Seq<Seq<char>> {
    seq![table_prefix(table) + "op"@] + names.columns + names.present + seq![
        table_prefix(table) + "old_key_present"@,
    ] + names.old
}

pub open spec fn copy_text(table: TableView, names: ApplyNames) -> Seq<char> {
    "COPY "@ + names.staging + " ("@ + quoted_list(copy_columns(table, names))
        + ") FROM STDIN WITH (FORMAT text, DELIMITER "@ + literal("\t"@) + ", NULL "@ + literal(
        "\\N"@,
    ) + ")"@
}

/// The layout of staged rows for a table.
pub open spec fn layout_follows(layout: CopyLayout, table: TableView) -> bool {
    let data = data_positions(table);
    &&& layout.operation_column@ == table_prefix(table) + "op"@
    &&& texts(layout.data_columns@) == column_names(table.columns)
    &&& layout.old_key_present_column@ == table_prefix(table) + "old_key_present"@
    &&& layout.presence_columns@.len() == data.len()
    &&& forall|i: int|
        0 <= i < data.len() ==> presence_follows(#[trigger] layout.presence_columns@[i], table, data[i])
    &&& layout.old_key_columns@.len() == table.primary_key.len()
    &&& forall|i: int|
        0 <= i < table.primary_key.len() ==> old_key_follows(
            #[trigger] layout.old_key_columns@[i],
            table,
            key_position(table, i),
        )
}

pub open spec fn presence_follows(column: PresenceColumn, table: TableView, position: int) -> bool {
    &&& column.source_column_index == position
    &&& column.source_column_name@ == table.columns[position].name
    &&& column.staging_column_name@ == presence_name(table, position)
}

pub open spec fn old_key_follows(column: OldKeyColumn, table: TableView, position: int) -> bool {
    &&& column.source_column_index == position
    &&& column.source_column_name@ == table.columns[position].name
    &&& column.staging_column_name@ == old_key_name(table, position)
    &&& column.type_sql@ == table.columns[position].type_sql
}

/// The text of an optional statement.
pub open spec fn optional_text(text: Option<String>) -> Option<Seq<char>> {
    match text {
        Some(text) => Some(text@),
        None => None,
    }
}

/// The plan holds the statements for its table and the given staging name.
pub open spec fn plan_follows(plan: ApplyPlan, staging: Seq<char>) -> bool {
    let table = plan.table@;
    let names = names_model(table, staging);
    &&& plan.staging_name@ == staging
    &&& layout_follows(plan.copy_layout, table)
    &&& plan.create_staging_sql@ == create_staging_text(table, names)
    &&& plan.copy_sql@ == copy_text(table, names)
    &&& plan.validation_sql@ == names.validation_text()
    &&& optional_text(plan.materialize_moves_sql) == names.materialize_moves_text()
    &&& plan.delete_sql@ == names.delete_text()
    &&& plan.delete_moved_sql@ == names.delete_moved_text()
    &&& plan.move_sql@ == names.move_text()
    &&& optional_text(plan.update_sql) == names.update_text()
    &&& plan.insert_sql@ == names.insert_text()
}

proof fn lemma_prefix_quotable(table: TableView, suffix: Seq<char>, prefix: Seq<char>)
    requires
        prefix == table_prefix(table),
        exists|number: nat| prefix == #[trigger] control_prefix(number),
        !suffix.contains('\0'),
    ensures
        quotable(prefix + suffix),
{
    reveal_strlit("__pg2cb_");
    reveal_strlit("__pg2cb");
    reveal_strlit("_");
    let number = choose|number: nat| prefix == #[trigger] control_prefix(number);
    lemma_decimal_digits(number);
    let text = prefix + suffix;
    assert forall|i: int| 0 <= i < text.len() implies text[i] != '\0' by {
        if i < prefix.len() {
            assert(text[i] == prefix[i]);
        } else {
            assert(text[i] == suffix[i - prefix.len()]);
        }
    }
}

proof fn lemma_numbered_suffix(stem: Seq<char>, number: int)
    requires
        !stem.contains('\0'),
    ensures
        !(stem + signed_decimal(number)).contains('\0'),
{
    lemma_signed_decimal_digits(number);
    let text = stem + signed_decimal(number);
    assert forall|i: int| 0 <= i < text.len() implies text[i] != '\0' by {
        if i < stem.len() {
            assert(text[i] == stem[i]);
        } else {
            assert(text[i] == signed_decimal(number)[i - stem.len()]);
        }
    }
}

fn control_name(
    table: &CreateTablePlan,
    prefix: &str,
    stem: &'static str,
    position: usize,
) -> (r: String)
    requires
        position < table.columns.len(),
        prefix@ == table_prefix(table@),
        exists|number: nat| prefix@ == #[trigger] control_prefix(number),
        stem == "present_" || stem == "old_",
    ensures
        r@ == prefix@ + stem@ + signed_decimal(table@.columns[position as int].source_attnum as int),
        quotable(r@),
{
    proof {
        reveal_strlit("present_");
        reveal_strlit("old_");
        let number = table@.columns[position as int].source_attnum as int;
        lemma_numbered_suffix(stem@, number);
        lemma_prefix_quotable(table@, stem@ + signed_decimal(number), prefix@);
        assert(prefix@ + (stem@ + signed_decimal(number)) =~= prefix@ + stem@ + signed_decimal(
            number,
        ));
    }
    let mut out = prefix.to_string();
    out.append(stem);
    out.append(render_signed(table.columns[position].source_attnum as i64).as_str());
    out
}

fn is_key(table: &CreateTablePlan, name: &str) -> (r: bool)
    ensures
        r == table@.primary_key.contains(name@),
{
    let mut i: usize = 0;
    while i < table.primary_key.len()
        invariant
            i <= table.primary_key.len(),
            forall|k: int| 0 <= k < i ==> table.primary_key@[k]@ != name@,
        decreases table.primary_key.len() - i,
    {
        if same_text(table.primary_key[i].as_str(), name) {
            proof {
                assert(table@.primary_key[i as int] == name@);
            }
            return true;
        }
        i = i + 1;
    }
    proof {
        assert forall|k: int| 0 <= k < table@.primary_key.len() implies table@.primary_key[k]
            != name@ by {
            assert(table.primary_key@[k]@ != name@);
        }
    }
    false
}

fn plan_presence(table: &CreateTablePlan, prefix: &str) -> (r: Vec<PresenceColumn>)
    requires
        prefix@ == table_prefix(table@),
        exists|number: nat| prefix@ == #[trigger] control_prefix(number),
    ensures
        r@.len() == data_positions(table@).len(),
        forall|i: int|
            0 <= i < r@.len() ==> {
                &&& presence_follows(#[trigger] r@[i], table@, data_positions(table@)[i])
                &&& quotable(r@[i].staging_column_name@)
                &&& 0 <= data_positions(table@)[i] < table@.columns.len()
            },
{
    let mut out: Vec<PresenceColumn> = Vec::new();
    let mut i: usize = 0;
    while i < table.columns.len()
        invariant
            i <= table.columns.len(),
            prefix@ == table_prefix(table@),
            exists|number: nat| prefix@ == #[trigger] control_prefix(number),
            out@.len() == data_positions_of(table@, i as int).len(),
            forall|k: int|
                0 <= k < out@.len() ==> {
                    &&& presence_follows(
                        #[trigger] out@[k],
                        table@,
                        data_positions_of(table@, i as int)[k],
                    )
                    &&& quotable(out@[k].staging_column_name@)
                    &&& 0 <= data_positions_of(table@, i as int)[k] < table@.columns.len()
                },
        decreases table.columns.len() - i,
    {
        let name = table.columns[i].name.as_str();
        proof {
            assert(table@.columns[i as int].name == name@);
        }
        if !is_key(table, name) {
            out.push(
                PresenceColumn {
                    source_column_index: i,
                    source_column_name: table.columns[i].name.clone(),
                    staging_column_name: control_name(table, prefix, "present_", i),
                },
            );
        }
        i = i + 1;
    }
    out
}

fn find_column(table: &CreateTablePlan, name: &str) -> (r: usize)
    requires
        column_names(table@.columns).contains(name@),
        column_names(table@.columns).no_duplicates(),
    ensures
        r < table.columns.len(),
        r == column_names(table@.columns).index_of(name@),
        table@.columns[r as int].name == name@,
{
    let ghost names = column_names(table@.columns);
    let mut i: usize = 0;
    while i < table.columns.len()
        invariant
            i <= table.columns.len(),
            names == column_names(table@.columns),
            names.contains(name@),
            names.no_duplicates(),
            forall|k: int| 0 <= k < i ==> names[k] != name@,
        decreases table.columns.len() - i,
    {
        if same_text(table.columns[i].name.as_str(), name) {
            proof {
                assert(names[i as int] == name@);
                let at = names.index_of(name@);
                assert(0 <= at < names.len() && names[at] == name@);
            }
            return i;
        }
        i = i + 1;
    }
    proof {
        let at = names.index_of(name@);
        assert(names[at] == name@);
        assert(false);
    }
    0
}

fn plan_old_keys(table: &CreateTablePlan, prefix: &str) -> (r: Vec<OldKeyColumn>)
    requires
        well_planned(table@),
        prefix@ == table_prefix(table@),
        exists|number: nat| prefix@ == #[trigger] control_prefix(number),
    ensures
        r@.len() == table@.primary_key.len(),
        forall|i: int|
            0 <= i < r@.len() ==> {
                &&& old_key_follows(#[trigger] r@[i], table@, key_position(table@, i))
                &&& quotable(r@[i].staging_column_name@)
                &&& 0 <= key_position(table@, i) < table@.columns.len()
                &&& table@.columns[key_position(table@, i)].name == table@.primary_key[i]
            },
{
    let mut out: Vec<OldKeyColumn> = Vec::new();
    let mut i: usize = 0;
    while i < table.primary_key.len()
        invariant
            i <= table.primary_key.len(),
            well_planned(table@),
            prefix@ == table_prefix(table@),
            exists|number: nat| prefix@ == #[trigger] control_prefix(number),
            out@.len() == i,
            forall|k: int|
                0 <= k < i ==> {
                    &&& old_key_follows(#[trigger] out@[k], table@, key_position(table@, k))
                    &&& quotable(out@[k].staging_column_name@)
                    &&& 0 <= key_position(table@, k) < table@.columns.len()
                    &&& table@.columns[key_position(table@, k)].name == table@.primary_key[k]
                },
        decreases table.primary_key.len() - i,
    {
        proof {
            assert(column_names(table@.columns).contains(table@.primary_key[i as int]));
        }
        let at = find_column(table, table.primary_key[i].as_str());
        out.push(
            OldKeyColumn {
                source_column_index: at,
                source_column_name: table.columns[at].name.clone(),
                staging_column_name: control_name(table, prefix, "old_", at),
                type_sql: table.columns[at].type_sql.clone(),
            },
        );
        i = i + 1;
    }
    out
}

fn boolean_definition(quoted_column: &str) -> (r: String)
    ensures
        r@ == "    "@ + quoted_column@ + " boolean NOT NULL"@,
{
    let mut out = "    ".to_string();
    out.append(quoted_column);
    out.append(" boolean NOT NULL");
    out
}

fn typed_definition(name: &str, type_sql: &str) -> (r: String)
    requires
        quotable(name@),
    ensures
        r@ == "    "@ + quoted(name@) + " "@ + type_sql@,
{
    let mut out = "    ".to_string();
    out.append(quote_valid(name).as_str());
    out.append(" ");
    out.append(type_sql);
    out
}

fn plan_create_staging(
    table: &CreateTablePlan,
    names: &Names,
    old_keys: &Vec<OldKeyColumn>,
) -> (r: String)
    requires
        names@.usable(),
        names@.columns == column_names(table@.columns),
        old_keys@.len() == names@.old.len(),
        forall|i: int|
            0 <= i < old_keys@.len() ==> {
                &&& (#[trigger] old_keys@[i]).staging_column_name@ == names@.old[i]
                &&& old_keys@[i].type_sql@ == table@.columns[key_position(table@, i)].type_sql
            },
    ensures
        r@ == create_staging_text(table@, names@),
{
    let ghost t = table@;
    let ghost n = names@;
    let mut lines: Vec<String> = Vec::new();
    let mut first = "    ".to_string();
    first.append(names.operation.as_str());
    first.append(" character(1) NOT NULL CHECK (");
    first.append(names.operation.as_str());
    first.append(" IN (");
    first.append(operation_literal("U").as_str());
    first.append(", ");
    first.append(operation_literal("D").as_str());
    first.append(", ");
    first.append(operation_literal("M").as_str());
    first.append("))");
    lines.push(first);
    let ghost head = seq![first@];
    let ghost columns = Seq::new(
        t.columns.len(),
        |i: int| "    "@ + quoted(t.columns[i].name) + " "@ + t.columns[i].type_sql,
    );
    let ghost flags = Seq::new(
        n.present.len(),
        |i: int| "    "@ + quoted(n.present[i]) + " boolean NOT NULL"@,
    );
    let ghost moved = seq!["    "@ + n.moved + " boolean NOT NULL"@];
    let ghost old = Seq::new(
        n.old.len(),
        |i: int| "    "@ + quoted(n.old[i]) + " "@ + t.columns[key_position(t, i)].type_sql,
    );
    proof {
        assert(texts(lines@) =~= head + columns.take(0));
    }
    let mut i: usize = 0;
    while i < table.columns.len()
        invariant
            i <= table.columns.len(),
            t == table@,
            n == names@,
            n.columns == column_names(t.columns),
            n.usable(),
            columns == Seq::new(
                t.columns.len(),
                |i: int| "    "@ + quoted(t.columns[i].name) + " "@ + t.columns[i].type_sql,
            ),
            texts(lines@) == head + columns.take(i as int),
        decreases table.columns.len() - i,
    {
        let ghost before = texts(lines@);
        proof {
            assert(quotable(n.columns[i as int]));
        }
        lines.push(
            typed_definition(table.columns[i].name.as_str(), table.columns[i].type_sql.as_str()),
        );
        proof {
            assert(texts(lines@) =~= before.push(columns[i as int]));
            assert(texts(lines@) =~= head + columns.take(i + 1));
        }
        i = i + 1;
    }
    proof {
        assert(texts(lines@) =~= head + columns + flags.take(0));
    }
    let mut j: usize = 0;
    while j < names.present.len()
        invariant
            j <= names.present.len(),
            n == names@,
            n.usable(),
            flags == Seq::new(
                n.present.len(),
                |i: int| "    "@ + quoted(n.present[i]) + " boolean NOT NULL"@,
            ),
            texts(lines@) == head + columns + flags.take(j as int),
        decreases names.present.len() - j,
    {
        let ghost before = texts(lines@);
        proof {
            assert(quotable(n.present[j as int]));
        }
        lines.push(boolean_definition(quote_valid(names.present[j].as_str()).as_str()));
        proof {
            assert(texts(lines@) =~= before.push(flags[j as int]));
            assert(texts(lines@) =~= head + columns + flags.take(j + 1));
        }
        j = j + 1;
    }
    let ghost before_moved = texts(lines@);
    lines.push(boolean_definition(names.moved.as_str()));
    proof {
        assert(texts(lines@) =~= before_moved + moved);
        assert(texts(lines@) =~= head + columns + flags + moved + old.take(0));
    }
    let mut k: usize = 0;
    while k < old_keys.len()
        invariant
            k <= old_keys.len(),
            t == table@,
            n == names@,
            n.usable(),
            old_keys@.len() == n.old.len(),
            forall|i: int|
                0 <= i < old_keys@.len() ==> {
                    &&& (#[trigger] old_keys@[i]).staging_column_name@ == n.old[i]
                    &&& old_keys@[i].type_sql@ == t.columns[key_position(t, i)].type_sql
                },
            old == Seq::new(
                n.old.len(),
                |i: int| "    "@ + quoted(n.old[i]) + " "@ + t.columns[key_position(t, i)].type_sql,
            ),
            texts(lines@) == head + columns + flags + moved + old.take(k as int),
        decreases old_keys.len() - k,
    {
        let ghost before = texts(lines@);
        proof {
            assert(quotable(n.old[k as int]));
        }
        lines.push(
            typed_definition(
                old_keys[k].staging_column_name.as_str(),
                old_keys[k].type_sql.as_str(),
            ),
        );
        proof {
            assert(texts(lines@) =~= before.push(old[k as int]));
            assert(texts(lines@) =~= head + columns + flags + moved + old.take(k + 1));
        }
        k = k + 1;
    }
    proof {
        assert(texts(lines@) =~= staging_definitions(t, n));
    }
    let mut out = "CREATE TEMPORARY TABLE ".to_string();
    out.append(names.staging.as_str());
    out.append(" (\n");
    out.append(join(&lines, ",\n").as_str());
    out.append("\n)\nUSING heap\nON COMMIT DROP\nDISTRIBUTED BY (");
    out.append(list_quoted("", &names.keys, "", ", ").as_str());
    out.append(")");
    out
}

proof fn lemma_data_positions(table: TableView, count: int)
    requires
        0 <= count <= table.columns.len(),
    ensures
        forall|i: int|
            0 <= i < data_positions_of(table, count).len() ==> 0 <= #[trigger] data_positions_of(
                table,
                count,
            )[i] < count,
    decreases count,
{
    if count > 0 {
        lemma_data_positions(table, count - 1);
        let before = data_positions_of(table, count - 1);
        let after = data_positions_of(table, count);
        assert forall|i: int| 0 <= i < after.len() implies 0 <= #[trigger] after[i] < count by {
            if i < before.len() {
                assert(0 <= before[i] < count - 1);
                assert(after[i] == before[i]);
            }
        }
    }
}

fn column_name_list(table: &CreateTablePlan) -> (r: Vec<String>)
    ensures
        texts(r@) == column_names(table@.columns),
{
    let mut out: Vec<String> = Vec::new();
    let mut i: usize = 0;
    while i < table.columns.len()
        invariant
            i <= table.columns.len(),
            out@.len() == i,
            forall|k: int| 0 <= k < i ==> (#[trigger] out@[k])@ == table.columns@[k].name@,
        decreases table.columns.len() - i,
    {
        out.push(table.columns[i].name.clone());
        i = i + 1;
    }
    proof {
        assert(texts(out@) =~= column_names(table@.columns));
    }
    out
}

fn plan_names(
    table: &CreateTablePlan,
    quoted_target: String,
    quoted_staging: String,
    prefix: &str,
    presence: &Vec<PresenceColumn>,
    old_keys: &Vec<OldKeyColumn>,
    Ghost(staging): Ghost<Seq<char>>,
) -> (r: Names)
    requires
        well_planned(table@),
        quoted_target@ == quoted_name(table@.target),
        quoted_staging@ == quoted(staging),
        prefix@ == table_prefix(table@),
        exists|number: nat| prefix@ == #[trigger] control_prefix(number),
        presence@.len() == data_positions(table@).len(),
        forall|i: int|
            0 <= i < presence@.len() ==> {
                &&& presence_follows(#[trigger] presence@[i], table@, data_positions(table@)[i])
                &&& quotable(presence@[i].staging_column_name@)
                &&& 0 <= data_positions(table@)[i] < table@.columns.len()
            },
        old_keys@.len() == table@.primary_key.len(),
        forall|i: int|
            0 <= i < old_keys@.len() ==> {
                &&& old_key_follows(#[trigger] old_keys@[i], table@, key_position(table@, i))
                &&& quotable(old_keys@[i].staging_column_name@)
            },
    ensures
        r@ == names_model(table@, staging),
        r@.usable(),
{
    let ghost t = table@;
    let mut operation = prefix.to_string();
    operation.append("op");
    let mut moved = prefix.to_string();
    moved.append("old_key_present");
    proof {
        reveal_strlit("op");
        reveal_strlit("old_key_present");
        lemma_prefix_quotable(t, "op"@, prefix@);
        lemma_prefix_quotable(t, "old_key_present"@, prefix@);
    }
    let mut data: Vec<String> = Vec::new();
    let mut present: Vec<String> = Vec::new();
    let mut i: usize = 0;
    while i < presence.len()
        invariant
            i <= presence.len(),
            data@.len() == i,
            present@.len() == i,
            forall|k: int| 0 <= k < i ==> (#[trigger] data@[k])@ == presence@[k].source_column_name@,
            forall|k: int|
                0 <= k < i ==> (#[trigger] present@[k])@ == presence@[k].staging_column_name@,
        decreases presence.len() - i,
    {
        data.push(presence[i].source_column_name.clone());
        present.push(presence[i].staging_column_name.clone());
        i = i + 1;
    }
    let mut old: Vec<String> = Vec::new();
    let mut j: usize = 0;
    while j < old_keys.len()
        invariant
            j <= old_keys.len(),
            old@.len() == j,
            forall|k: int|
                0 <= k < j ==> (#[trigger] old@[k])@ == old_keys@[k].staging_column_name@,
        decreases old_keys.len() - j,
    {
        old.push(old_keys[j].staging_column_name.clone());
        j = j + 1;
    }
    let names = Names {
        target: quoted_target,
        staging: quoted_staging,
        operation: quote_valid(operation.as_str()),
        moved: quote_valid(moved.as_str()),
        keys: clone_texts(&table.primary_key),
        old,
        columns: column_name_list(table),
        data,
        present,
    };
    proof {
        let model = names_model(t, staging);
        let positions = data_positions(t);
        assert forall|k: int| 0 <= k < names@.data.len() implies names@.data[k] == model.data[k]
            && names@.present[k] == model.present[k] by {
            assert(presence_follows(presence@[k], t, positions[k]));
        }
        assert forall|k: int| 0 <= k < names@.old.len() implies names@.old[k] == model.old[k] by {
            assert(old_key_follows(old_keys@[k], t, key_position(t, k)));
        }
        assert(names@.data =~= model.data);
        assert(names@.present =~= model.present);
        assert(names@.old =~= model.old);
        assert forall|k: int| 0 <= k < names@.data.len() implies quotable(
            #[trigger] names@.data[k],
        ) by {
            assert(presence_follows(presence@[k], t, positions[k]));
            assert(quotable(column_names(t.columns)[positions[k]]));
        }
        assert forall|k: int| 0 <= k < names@.present.len() implies quotable(
            #[trigger] names@.present[k],
        ) by {
            assert(quotable(presence@[k].staging_column_name@));
        }
        assert forall|k: int| 0 <= k < names@.old.len() implies quotable(
            #[trigger] names@.old[k],
        ) by {
            assert(quotable(old_keys@[k].staging_column_name@));
        }
    }
    names
}

fn plan_copy(table: &CreateTablePlan, names: &Names, prefix: &str) -> (r: String)
    requires
        names@.usable(),
        prefix@ == table_prefix(table@),
        exists|number: nat| prefix@ == #[trigger] control_prefix(number),
    ensures
        r@ == copy_text(table@, names@),
{
    let ghost n = names@;
    let mut columns: Vec<String> = Vec::new();
    let mut operation = prefix.to_string();
    operation.append("op");
    let mut moved = prefix.to_string();
    moved.append("old_key_present");
    proof {
        reveal_strlit("op");
        reveal_strlit("old_key_present");
        lemma_prefix_quotable(table@, "op"@, prefix@);
        lemma_prefix_quotable(table@, "old_key_present"@, prefix@);
    }
    columns.push(operation);
    let mut data = clone_texts(&names.columns);
    columns.append(&mut data);
    let mut present = clone_texts(&names.present);
    columns.append(&mut present);
    columns.push(moved);
    let mut old = clone_texts(&names.old);
    columns.append(&mut old);
    proof {
        let all = copy_columns(table@, n);
        assert(texts(columns@) =~= all);
        assert forall|i: int| 0 <= i < all.len() implies quotable(#[trigger] all[i]) by {
            let a = 1 + n.columns.len();
            let b = a + n.present.len();
            if i == 0 {
            } else if i < a {
                assert(all[i] == n.columns[i - 1]);
                assert(quotable(n.columns[i - 1]));
            } else if i < b {
                assert(all[i] == n.present[i - a]);
                assert(quotable(n.present[i - a]));
            } else if i == b {
            } else {
                assert(all[i] == n.old[i - b - 1]);
                assert(quotable(n.old[i - b - 1]));
            }
        }
        reveal_strlit("\t");
        reveal_strlit("\\N");
    }
    let mut out = "COPY ".to_string();
    out.append(names.staging.as_str());
    out.append(" (");
    out.append(list_quoted("", &columns, "", ", ").as_str());
    out.append(") FROM STDIN WITH (FORMAT text, DELIMITER ");
    out.append(quote_valid_literal("\t").as_str());
    out.append(", NULL ");
    out.append(quote_valid_literal("\\N").as_str());
    out.append(")");
    out
}

/// The presence flags of a plan point at columns of its table.
pub open spec fn presence_in_range(plan: ApplyPlan) -> bool {
    forall|i: int|
        0 <= i < plan.copy_layout.presence_columns@.len() ==> (
        #[trigger] plan.copy_layout.presence_columns@[i]).source_column_index
            < plan.table.columns@.len()
}

/// Puts the statements of a plan together.
#[verifier::rlimit(60)]
fn assemble(
    table: CreateTablePlan,
    quoted_target: String,
    quoted_staging: String,
    staging_name: &str,
    prefix: String,
    presence_columns: Vec<PresenceColumn>,
    old_key_columns: Vec<OldKeyColumn>,
) -> (r: ApplyPlan)
    requires
        well_planned(table@),
        quoted_target@ == quoted_name(table@.target),
        quoted_staging@ == quoted(staging_name@),
        prefix@ == table_prefix(table@),
        exists|number: nat| prefix@ == #[trigger] control_prefix(number),
        presence_columns@.len() == data_positions(table@).len(),
        forall|i: int|
            0 <= i < presence_columns@.len() ==> {
                &&& presence_follows(
                    #[trigger] presence_columns@[i],
                    table@,
                    data_positions(table@)[i],
                )
                &&& quotable(presence_columns@[i].staging_column_name@)
                &&& 0 <= data_positions(table@)[i] < table@.columns.len()
            },
        old_key_columns@.len() == table@.primary_key.len(),
        forall|i: int|
            0 <= i < old_key_columns@.len() ==> {
                &&& old_key_follows(#[trigger] old_key_columns@[i], table@, key_position(table@, i))
                &&& quotable(old_key_columns@[i].staging_column_name@)
            },
    ensures
        r.table == table,
        plan_follows(r, staging_name@),
        presence_in_range(r),
{
    let names = plan_names(
        &table,
        quoted_target,
        quoted_staging,
        prefix.as_str(),
        &presence_columns,
        &old_key_columns,
        Ghost(staging_name@),
    );
    let create_staging_sql = plan_create_staging(&table, &names, &old_key_columns);
    let copy_sql = plan_copy(&table, &names, prefix.as_str());
    let validation_sql = names.validation_sql();
    let materialize_moves_sql = names.materialize_moves_sql();
    let delete_sql = names.delete_sql();
    let delete_moved_sql = names.delete_moved_sql();
    let move_sql = names.move_sql();
    let update_sql = names.update_sql();
    let insert_sql = names.insert_sql();
    let mut operation_column = prefix.clone();
    operation_column.append("op");
    let mut old_key_present_column = prefix;
    old_key_present_column.append("old_key_present");
    ApplyPlan {
            staging_name: staging_name.to_string(),
            copy_layout: CopyLayout {
                operation_column,
                data_columns: column_name_list(&table),
                presence_columns,
                old_key_present_column,
                old_key_columns,
            },
            table,
            create_staging_sql,
            copy_sql,
            validation_sql,
            materialize_moves_sql,
            delete_sql,
            delete_moved_sql,
            move_sql,
            update_sql,
            insert_sql,
        }
}

/// Plans a typed temporary staging table and colocated current-state apply SQL.
///
/// `U` upserts a stable key, `D` deletes a stable key, and `M` moves a row to a
/// new primary key. A false presence flag means the source sent no value because the change left
/// it alone; it is valid only when the target can supply the prior value.
/// Move rows are materialized before any old key is released, so chains and
/// swaps do not depend on statement snapshots or temporary unique-key gaps.
pub fn plan_apply(source: &TableSchema, target: QualifiedName, staging_name: &str) -> (r: Result<
    ApplyPlan,
    ApplyPlanError,
>)
    ensures
        ({
            let table = table_model(*source, target@, TargetStorage::AoColumn);
            match r {
                Ok(plan) => {
                    &&& table == Ok::<TableView, SchemaFault>(plan.table@)
                    &&& quotable(staging_name@)
                    &&& plan_follows(plan, staging_name@)
                    &&& presence_in_range(plan)
                    &&& exists|number: nat| #[trigger]
                        is_first_free(column_names(plan.table@.columns), number)
                },
                Err(ApplyPlanError::Schema(e)) => table == Err::<TableView, SchemaFault>(e@),
                Err(ApplyPlanError::Sql(e)) => table is Ok && identifier_render_fault(staging_name@)
                    == Some(e),
            }
        }),
{
    let ghost target_view = target@;
    let table = match plan_create_table(source, target) {
        Err(e) => return Err(ApplyPlanError::Schema(e)),
        Ok(table) => table,
    };
    proof {
        law_planned_table(*source, target_view, TargetStorage::AoColumn);
    }
    let quoted_target = match quote_qualified_name(&table.target) {
        Err(e) => return Err(ApplyPlanError::Sql(e)),
        Ok(text) => text,
    };
    let quoted_staging = match quote_identifier(staging_name) {
        Err(e) => return Err(ApplyPlanError::Sql(e)),
        Ok(text) => text,
    };
    let prefix = unused_control_prefix(&table);
    proof {
        let number = choose|number: nat|
            #[trigger] is_first_free(column_names(table@.columns), number) && prefix@
                == control_prefix(number);
        assert(prefix@ == control_prefix(number));
        lemma_data_positions(table@, table@.columns.len() as int);
    }
    let presence_columns = plan_presence(&table, prefix.as_str());
    let old_key_columns = plan_old_keys(&table, prefix.as_str());
    Ok(
        assemble(
            table,
            quoted_target,
            quoted_staging,
            staging_name,
            prefix,
            presence_columns,
            old_key_columns,
        ),
    )
}

// ---------------------------------------------------------------------------------------------
// Laws
// ---------------------------------------------------------------------------------------------

proof fn lemma_prefixed_names_are_new(names: Seq<Seq<char>>, prefix: Seq<char>, suffix: Seq<char>)
    requires
        forall|i: int| 0 <= i < names.len() ==> !begins_with(#[trigger] names[i], prefix),
    ensures
        !names.contains(prefix + suffix),
{
    if names.contains(prefix + suffix) {
        let i = choose|i: int| 0 <= i < names.len() && names[i] == prefix + suffix;
        assert((prefix + suffix).take(prefix.len() as int) =~= prefix);
        assert(begins_with(names[i], prefix));
    }
}

proof fn lemma_search_ends(names: Seq<Seq<char>>, blockers: Seq<int>)
    requires
        blocks(names, blockers),
        forall|k: nat| k < blockers.len() ==> !#[trigger] prefix_is_free(names, k),
    ensures
        exists|number: nat| #[trigger] is_first_free(names, number),
    decreases names.len() - blockers.len(),
{
    lemma_blockers_fit(names, blockers);
    let number = blockers.len();
    if prefix_is_free(names, number) {
        assert(is_first_free(names, number));
    } else {
        let i = choose|i: int|
            0 <= i < names.len() && begins_with(#[trigger] names[i], control_prefix(number));
        let more = blockers.push(i);
        assert(blocks(names, more));
        lemma_blockers_fit(names, more);
        lemma_search_ends(names, more);
    }
}

/// Whatever the columns of a table are called, there is a first control prefix that none of them
/// begins with, and it is the one that a plan uses.
pub proof fn law_a_control_prefix_is_free(names: Seq<Seq<char>>)
    ensures
        exists|number: nat| #[trigger]
            is_first_free(names, number) && free_prefix(names) == control_prefix(number),
        forall|i: int|
            0 <= i < names.len() ==> !begins_with(#[trigger] names[i], free_prefix(names)),
{
    lemma_search_ends(names, Seq::empty());
    let number = choose|number: nat| is_first_free(names, number);
    assert(is_first_free(names, number));
    assert(free_prefix(names) == control_prefix(number));
}

/// No control column of the staging table has the name of a table column, for any table.
pub proof fn law_control_columns_are_new(table: TableView, staging: Seq<char>)
    ensures
        ({
            let columns = column_names(table.columns);
            let names = names_model(table, staging);
            &&& !columns.contains(table_prefix(table) + "op"@)
            &&& !columns.contains(table_prefix(table) + "old_key_present"@)
            &&& forall|i: int|
                0 <= i < names.present.len() ==> !columns.contains(#[trigger] names.present[i])
            &&& forall|i: int|
                0 <= i < names.old.len() ==> !columns.contains(#[trigger] names.old[i])
        }),
{
    let columns = column_names(table.columns);
    let names = names_model(table, staging);
    let prefix = table_prefix(table);
    law_a_control_prefix_is_free(columns);
    lemma_prefixed_names_are_new(columns, prefix, "op"@);
    lemma_prefixed_names_are_new(columns, prefix, "old_key_present"@);
    assert forall|i: int| 0 <= i < names.present.len() implies !columns.contains(
        #[trigger] names.present[i],
    ) by {
        let position = data_positions(table)[i];
        let tail = "present_"@ + signed_decimal(table.columns[position].source_attnum as int);
        lemma_prefixed_names_are_new(columns, prefix, tail);
        assert(prefix + tail =~= names.present[i]);
    }
    assert forall|i: int| 0 <= i < names.old.len() implies !columns.contains(
        #[trigger] names.old[i],
    ) by {
        let position = key_position(table, i);
        let tail = "old_"@ + signed_decimal(table.columns[position].source_attnum as int);
        lemma_prefixed_names_are_new(columns, prefix, tail);
        assert(prefix + tail =~= names.old[i]);
    }
}

/// What the columns of the staging table are called: a table column by its own name, and every
/// control column by the free prefix, its purpose and the number of the column that it is about.
pub proof fn law_names_of_staging_columns(plan: ApplyPlan)
    requires
        plan_follows(plan, plan.staging_name@),
        well_planned(plan.table@),
    ensures
        ({
            let layout = plan.copy_layout;
            let table = plan.table@;
            let prefix = free_prefix(column_names(table.columns));
            &&& layout.operation_column@ == prefix + "op"@
            &&& layout.old_key_present_column@ == prefix + "old_key_present"@
            &&& layout.data_columns@.len() == table.columns.len()
            &&& forall|i: int|
                0 <= i < table.columns.len() ==> (#[trigger] layout.data_columns@[i])@
                    == table.columns[i].name
            &&& forall|i: int|
                0 <= i < layout.presence_columns@.len() ==> {
                    let column = #[trigger] layout.presence_columns@[i];
                    let source = table.columns[column.source_column_index as int];
                    &&& column.source_column_name@ == source.name
                    &&& column.staging_column_name@ == prefix + "present_"@ + signed_decimal(
                        source.source_attnum as int,
                    )
                }
            &&& layout.old_key_columns@.len() == table.primary_key.len()
            &&& forall|i: int|
                0 <= i < layout.old_key_columns@.len() ==> {
                    let column = #[trigger] layout.old_key_columns@[i];
                    let source = table.columns[column.source_column_index as int];
                    &&& column.source_column_name@ == table.primary_key[i]
                    &&& source.name == table.primary_key[i]
                    &&& column.type_sql@ == source.type_sql
                    &&& column.staging_column_name@ == prefix + "old_"@ + signed_decimal(
                        source.source_attnum as int,
                    )
                }
        }),
{
    let layout = plan.copy_layout;
    let table = plan.table@;
    let names = column_names(table.columns);
    assert forall|i: int| 0 <= i < table.columns.len() implies (#[trigger] layout.data_columns@[i])@
        == table.columns[i].name by {
        assert(texts(layout.data_columns@)[i] == names[i]);
    }
    assert(texts(layout.data_columns@).len() == names.len());
    assert forall|i: int| 0 <= i < layout.presence_columns@.len() implies presence_follows(
        #[trigger] layout.presence_columns@[i],
        table,
        data_positions(table)[i],
    ) by {}
    assert forall|i: int| 0 <= i < layout.old_key_columns@.len() implies {
        &&& old_key_follows(
            #[trigger] layout.old_key_columns@[i],
            table,
            key_position(table, i),
        )
        &&& table.columns[key_position(table, i)].name == table.primary_key[i]
    } by {
        assert(names.contains(table.primary_key[i]));
        assert(names[names.index_of(table.primary_key[i])] == table.primary_key[i]);
    }
}

/// The staging table is a temporary heap table, distributed by the key and dropped with the
/// transaction; the staged rows are copied into it as text, with tabs and `\\N` for NULL.
pub proof fn law_the_staging_table(plan: ApplyPlan)
    requires
        plan_follows(plan, plan.staging_name@),
    ensures
        ({
            let names = names_model(plan.table@, plan.staging_name@);
            let definitions = staging_definitions(plan.table@, names);
            let columns = copy_columns(plan.table@, names);
            &&& plan.create_staging_sql@ == "CREATE TEMPORARY TABLE "@ + quoted(plan.staging_name@)
                + " (\n"@ + joined(definitions, ",\n"@)
                + "\n)\nUSING heap\nON COMMIT DROP\nDISTRIBUTED BY ("@ + quoted_list(
                plan.table@.primary_key,
            ) + ")"@
            &&& plan.copy_sql@ == "COPY "@ + quoted(plan.staging_name@) + " ("@ + quoted_list(columns)
                + ") FROM STDIN WITH (FORMAT text, DELIMITER "@ + literal("\t"@) + ", NULL "@
                + literal("\\N"@) + ")"@
        }),
{
}

proof fn lemma_five_parts<A>(first: A, a: Seq<A>, b: Seq<A>, second: A, c: Seq<A>)
    ensures
        ({
            let whole = seq![first] + a + b + seq![second] + c;
            &&& whole.len() == 2 + a.len() + b.len() + c.len()
            &&& whole[0] == first
            &&& forall|i: int| 0 <= i < a.len() ==> whole[1 + i] == #[trigger] a[i]
            &&& forall|i: int| 0 <= i < b.len() ==> whole[1 + a.len() + i] == #[trigger] b[i]
            &&& whole[(1 + a.len() + b.len()) as int] == second
            &&& forall|i: int|
                0 <= i < c.len() ==> whole[2 + a.len() + b.len() + i] == #[trigger] c[i]
        }),
{
}

/// The staging table has one column for each control value and each table column, of the types
/// that the values have, and the rows are copied into exactly these columns, in this order.
#[verifier::spinoff_prover]
#[verifier::rlimit(60)]
pub proof fn law_the_staging_columns(plan: ApplyPlan)
    requires
        plan_follows(plan, plan.staging_name@),
    ensures
        ({
            let layout = plan.copy_layout;
            let table = plan.table@;
            let names = names_model(table, plan.staging_name@);
            let definitions = staging_definitions(table, names);
            let columns = copy_columns(table, names);
            let n = table.columns.len() as int;
            let p = layout.presence_columns@.len() as int;
            let operation = quoted(layout.operation_column@);
            &&& definitions.len() == 2 + n + p + table.primary_key.len()
            &&& columns.len() == definitions.len()
            &&& columns[0] == layout.operation_column@
            &&& definitions[0] == "    "@ + operation + " character(1) NOT NULL CHECK ("@ + operation
                + " IN ("@ + literal("U"@) + ", "@ + literal("D"@) + ", "@ + literal("M"@) + "))"@
            &&& forall|i: int|
                0 <= i < n ==> {
                    let column = #[trigger] table.columns[i];
                    &&& columns[1 + i] == column.name
                    &&& definitions[1 + i] == "    "@ + quoted(column.name) + " "@ + column.type_sql
                }
            &&& forall|i: int|
                0 <= i < p ==> {
                    let name = (#[trigger] layout.presence_columns@[i]).staging_column_name@;
                    &&& columns[1 + n + i] == name
                    &&& definitions[1 + n + i] == "    "@ + quoted(name) + " boolean NOT NULL"@
                }
            &&& columns[1 + n + p] == layout.old_key_present_column@
            &&& definitions[1 + n + p] == "    "@ + quoted(layout.old_key_present_column@)
                + " boolean NOT NULL"@
            &&& forall|i: int|
                0 <= i < table.primary_key.len() ==> {
                    let column = #[trigger] layout.old_key_columns@[i];
                    &&& columns[2 + n + p + i] == column.staging_column_name@
                    &&& definitions[2 + n + p + i] == "    "@ + quoted(column.staging_column_name@)
                        + " "@ + column.type_sql@
                }
        }),
{
    let layout = plan.copy_layout;
    let table = plan.table@;
    let names = names_model(table, plan.staging_name@);
    let definitions = staging_definitions(table, names);
    let columns = copy_columns(table, names);
    let n = table.columns.len() as int;
    let p = layout.presence_columns@.len() as int;
    let operation_definition = "    "@ + names.operation + " character(1) NOT NULL CHECK ("@
        + names.operation + " IN ("@ + literal("U"@) + ", "@ + literal("D"@) + ", "@ + literal("M"@)
        + "))"@;
    let data = Seq::new(
        table.columns.len(),
        |i: int| "    "@ + quoted(table.columns[i].name) + " "@ + table.columns[i].type_sql,
    );
    let present = Seq::new(
        names.present.len(),
        |i: int| "    "@ + quoted(names.present[i]) + " boolean NOT NULL"@,
    );
    let old = Seq::new(
        names.old.len(),
        |i: int|
            "    "@ + quoted(names.old[i]) + " "@ + table.columns[key_position(table, i)].type_sql,
    );
    lemma_five_parts(
        operation_definition,
        data,
        present,
        "    "@ + names.moved + " boolean NOT NULL"@,
        old,
    );
    lemma_five_parts(
        layout.operation_column@,
        names.columns,
        names.present,
        layout.old_key_present_column@,
        names.old,
    );
    assert forall|i: int| 0 <= i < n implies {
        let column = #[trigger] table.columns[i];
        &&& columns[1 + i] == column.name
        &&& definitions[1 + i] == "    "@ + quoted(column.name) + " "@ + column.type_sql
    } by {
        assert(names.columns[i] == table.columns[i].name);
        assert(data[i] == definitions[1 + i]);
    }
    assert forall|i: int| 0 <= i < p implies {
        let name = (#[trigger] layout.presence_columns@[i]).staging_column_name@;
        &&& columns[1 + n + i] == name
        &&& definitions[1 + n + i] == "    "@ + quoted(name) + " boolean NOT NULL"@
    } by {
        assert(presence_follows(layout.presence_columns@[i], table, data_positions(table)[i]));
        assert(names.present[i] == columns[1 + n + i]);
        assert(present[i] == definitions[1 + n + i]);
    }
    assert forall|i: int| 0 <= i < table.primary_key.len() implies {
        let column = #[trigger] layout.old_key_columns@[i];
        &&& columns[2 + n + p + i] == column.staging_column_name@
        &&& definitions[2 + n + p + i] == "    "@ + quoted(column.staging_column_name@) + " "@
            + column.type_sql@
    } by {
        assert(old_key_follows(layout.old_key_columns@[i], table, key_position(table, i)));
        assert(names.old[i] == columns[2 + n + p + i]);
        assert(old[i] == definitions[2 + n + p + i]);
    }
}

/// A planned batch is one of the planned table, staged under the given name.
pub proof fn law_planned_batches(
    source: TableSchema,
    target: QualifiedName,
    staging_name: &str,
    r: Result<ApplyPlan, ApplyPlanError>,
)
    requires
        call_ensures(plan_apply, (&source, target, staging_name), r),
    ensures
        r is Ok <==> table_model(source, target@, TargetStorage::AoColumn) is Ok && quotable(
            staging_name@,
        ),
        r matches Ok(plan) ==> plan.staging_name@ == staging_name@ && table_model(
            source,
            target@,
            TargetStorage::AoColumn,
        ) == Ok::<TableView, SchemaFault>(plan.table@),
{
}

} // verus!
