//! The source-side catalog model: names, types, columns and tables.

use crate::text::{contains_char, same_text};
use vstd::prelude::*;
use vstd::utf8::encode_utf8;

verus! {

/// PostgreSQL truncates longer identifiers, so a longer one names nothing.
pub const POSTGRES_IDENTIFIER_MAX_BYTES: usize = 63;

/// Why a catalog value is refused.
#[derive(Debug, PartialEq, Eq)]
pub enum CoreError {
    EmptyIdentifier,
    NulIdentifier,
    IdentifierTooLong,
    MissingPrimaryKey,
}

impl Clone for CoreError {
    fn clone(&self) -> (r: Self)
        ensures
            r == *self,
    {
        match self {
            CoreError::EmptyIdentifier => CoreError::EmptyIdentifier,
            CoreError::NulIdentifier => CoreError::NulIdentifier,
            CoreError::IdentifierTooLong => CoreError::IdentifierTooLong,
            CoreError::MissingPrimaryKey => CoreError::MissingPrimaryKey,
        }
    }
}

impl CoreError {
    pub open spec fn message_text(self) -> Seq<char> {
        match self {
            CoreError::EmptyIdentifier => "an identifier cannot be empty"@,
            CoreError::NulIdentifier => "an identifier cannot hold a NUL character"@,
            CoreError::IdentifierTooLong => "an identifier cannot exceed 63 bytes"@,
            CoreError::MissingPrimaryKey => "a replicated table must have a primary key"@,
        }
    }

    /// A sentence for operators.
    pub fn message(&self) -> (r: String)
        ensures
            r@ == self.message_text(),
    {
        match self {
            CoreError::EmptyIdentifier => "an identifier cannot be empty".to_string(),
            CoreError::NulIdentifier => "an identifier cannot hold a NUL character".to_string(),
            CoreError::IdentifierTooLong => "an identifier cannot exceed 63 bytes".to_string(),
            CoreError::MissingPrimaryKey => "a replicated table must have a primary key".to_string(),
        }
    }
}

/// The reason to refuse an identifier, if there is one.
pub open spec fn identifier_fault(identifier: Seq<char>) -> Option<CoreError> {
    if identifier.len() == 0 {
        Some(CoreError::EmptyIdentifier)
    } else if identifier.contains('\0') {
        Some(CoreError::NulIdentifier)
    } else if encode_utf8(identifier).len() > POSTGRES_IDENTIFIER_MAX_BYTES {
        Some(CoreError::IdentifierTooLong)
    } else {
        None
    }
}

fn check_identifier(identifier: &str) -> (r: Option<CoreError>)
    ensures
        r == identifier_fault(identifier@),
{
    if identifier.is_empty() {
        return Some(CoreError::EmptyIdentifier);
    }
    if contains_char(identifier, '\0') {
        return Some(CoreError::NulIdentifier);
    }
    if identifier.as_bytes().len() > POSTGRES_IDENTIFIER_MAX_BYTES {
        return Some(CoreError::IdentifierTooLong);
    }
    None
}

/// The model of a schema-qualified name.
pub struct NameView {
    pub schema: Seq<char>,
    pub name: Seq<char>,
}

impl NameView {
    /// `schema.name`, as shown to operators.
    pub open spec fn text(self) -> Seq<char> {
        self.schema + "."@ + self.name
    }

    /// The reason to refuse this name, if there is one.
    pub open spec fn fault(self) -> Option<CoreError> {
        if identifier_fault(self.schema) is Some {
            identifier_fault(self.schema)
        } else {
            identifier_fault(self.name)
        }
    }
}

/// A schema-qualified relation, type or collation name.
#[derive(Debug, PartialEq, Eq, Hash)]
pub struct QualifiedName {
    pub schema: String,
    pub name: String,
}

impl View for QualifiedName {
    type V = NameView;

    open spec fn view(&self) -> NameView {
        NameView { schema: self.schema@, name: self.name@ }
    }
}

impl Clone for QualifiedName {
    fn clone(&self) -> (r: Self)
        ensures
            r == *self,
    {
        QualifiedName { schema: self.schema.clone(), name: self.name.clone() }
    }
}

impl QualifiedName {
    /// Builds a name from two valid identifiers.
    pub fn new(schema: &str, name: &str) -> (r: Result<Self, CoreError>)
        ensures
            match r {
                Ok(made) => {
                    &&& (NameView { schema: schema@, name: name@ }).fault() is None
                    &&& made@ == (NameView { schema: schema@, name: name@ })
                },
                Err(e) => (NameView { schema: schema@, name: name@ }).fault() == Some(e),
            },
    {
        match check_identifier(schema) {
            Some(fault) => return Err(fault),
            None => {},
        }
        match check_identifier(name) {
            Some(fault) => return Err(fault),
            None => {},
        }
        Ok(QualifiedName { schema: schema.to_string(), name: name.to_string() })
    }

    /// Whether both names are the same.
    pub fn same(&self, other: &Self) -> (r: bool)
        ensures
            r == (self@ == other@),
    {
        same_text(&self.schema, &other.schema) && same_text(&self.name, &other.name)
    }

    /// `schema.name`, as shown to operators.
    pub fn display(&self) -> (r: String)
        ensures
            r@ == self@.text(),
    {
        let mut out = self.schema.clone();
        out.append(".");
        out.append(self.name.as_str());
        out
    }
}

/// Copies a list of texts.
pub fn clone_texts(list: &[String]) -> (r: Vec<String>)
    ensures
        r@ == list@,
{
    let mut out: Vec<String> = Vec::new();
    let mut i: usize = 0;
    while i < list.len()
        invariant
            i <= list.len(),
            out@ == list@.take(i as int),
        decreases list.len() - i,
    {
        out.push(list[i].clone());
        i = i + 1;
    }
    proof {
        assert(list@.take(i as int) =~= list@);
    }
    out
}

/// A source data type.
#[derive(Debug, PartialEq, Eq)]
pub struct PgType {
    pub oid: u32,
    pub name: QualifiedName,
    pub kind: PgTypeKind,
}

/// The shape of a source data type.
#[allow(inconsistent_fields)]
#[derive(Debug, PartialEq, Eq)]
pub enum PgTypeKind {
    Bool,
    Int2,
    Int4,
    Int8,
    Numeric { precision: Option<u16>, scale: Option<i16> },
    Float4,
    Float8,
    Text,
    VarChar { length: Option<u32> },
    Char { length: Option<u32> },
    Bytea,
    Date,
    Time { precision: Option<u8>, with_time_zone: bool },
    Timestamp { precision: Option<u8>, with_time_zone: bool },
    Interval { precision: Option<u8> },
    Uuid,
    Json,
    Jsonb,
    Inet,
    Cidr,
    MacAddr,
    MacAddr8,
    Bit { length: Option<u32>, varying: bool },
    Xml,
    Enum { labels: Vec<String> },
    Domain { base: Box<PgType>, constraints: Vec<String> },
    Array { element: Box<PgType> },
    Unsupported { reason: String },
}

/// How a source table is stored.
#[derive(Debug, Clone, Copy, PartialEq, Eq, Structural)]
pub enum TableKind {
    Ordinary,
    CitusDistributed,
    CitusReference,
}

/// Whether and how a column is generated from others.
#[derive(Debug, Clone, Copy, PartialEq, Eq, Structural)]
pub enum GeneratedColumn {
    Never,
    Stored,
    Virtual,
}

/// Whether and how a column is an identity column.
#[derive(Debug, Clone, Copy, PartialEq, Eq, Structural)]
pub enum IdentityColumn {
    Never,
    Always,
    ByDefault,
}

/// What the source sends to identify a changed row.
#[derive(Debug, Clone, Copy, PartialEq, Eq, Structural)]
pub enum ReplicaIdentity {
    Default,
    Nothing,
    Full,
    Index,
}

/// One column of a source table.
#[derive(Debug, PartialEq, Eq)]
pub struct ColumnSchema {
    pub attnum: i16,
    pub name: String,
    pub data_type: PgType,
    pub nullable: bool,
    /// The one-based position in the primary key.
    pub primary_key_ordinal: Option<u16>,
    pub generated: GeneratedColumn,
    pub identity: IdentityColumn,
    pub collation: Option<QualifiedName>,
}

/// One source table.
#[derive(Debug, PartialEq, Eq)]
pub struct TableSchema {
    pub relation_id: u32,
    pub generation: u64,
    pub name: QualifiedName,
    pub kind: TableKind,
    pub replica_identity: ReplicaIdentity,
    pub columns: Vec<ColumnSchema>,
    pub distribution_key: Vec<String>,
    pub partition_key: Vec<String>,
}

/// The primary-key ordinal of a column, zero for a column outside the key.
pub open spec fn ordinal_of(column: ColumnSchema) -> int {
    match column.primary_key_ordinal {
        Some(ordinal) => ordinal as int,
        None => 0,
    }
}

/// Puts `next` behind the last position whose rank is not above its own.
pub open spec fn placed(rank: spec_fn(int) -> int, order: Seq<int>, next: int) -> Seq<int>
    decreases order.len(),
{
    if order.len() == 0 || rank(order.last()) <= rank(next) {
        order.push(next)
    } else {
        placed(rank, order.drop_last(), next).push(order.last())
    }
}

/// The positions among the first `count` that are kept, by ascending rank; positions of one rank
/// stay in their order.
pub open spec fn ranked(
    kept: spec_fn(int) -> bool,
    rank: spec_fn(int) -> int,
    count: int,
) -> Seq<int>
    decreases count,
{
    if count <= 0 {
        Seq::empty()
    } else if kept(count - 1) {
        placed(rank, ranked(kept, rank, count - 1), count - 1)
    } else {
        ranked(kept, rank, count - 1)
    }
}

/// The positions of key columns.
pub open spec fn in_key(columns: Seq<ColumnSchema>) -> spec_fn(int) -> bool {
    |p: int| columns[p].primary_key_ordinal is Some
}

/// The ordinals of the columns, by position.
pub open spec fn ordinals(columns: Seq<ColumnSchema>) -> spec_fn(int) -> int {
    |p: int| ordinal_of(columns[p])
}

/// The positions of the key columns among the first `count`, by ascending ordinal.
pub open spec fn key_order_of(columns: Seq<ColumnSchema>, count: int) -> Seq<int> {
    ranked(in_key(columns), ordinals(columns), count)
}

/// The positions of the key columns, by ascending ordinal.
pub open spec fn key_order(columns: Seq<ColumnSchema>) -> Seq<int> {
    key_order_of(columns, columns.len() as int)
}

/// The positions as mathematical integers.
pub open spec fn positions(order: Seq<usize>) -> Seq<int> {
    Seq::new(order.len(), |i: int| order[i] as int)
}

fn column_ordinal(column: &ColumnSchema) -> (r: u16)
    ensures
        r == ordinal_of(*column),
{
    match column.primary_key_ordinal {
        Some(ordinal) => ordinal,
        None => 0,
    }
}

/// Puts a position at its place among the ones before it.
fn place(
    ranks: &Vec<i64>,
    order: &mut Vec<usize>,
    next: usize,
    Ghost(rank): Ghost<spec_fn(int) -> int>,
)
    requires
        next < ranks.len(),
        forall|k: int| 0 <= k < ranks@.len() ==> #[trigger] ranks@[k] == rank(k),
        forall|k: int| 0 <= k < old(order)@.len() ==> #[trigger] old(order)@[k] < ranks.len(),
    ensures
        positions(final(order)@) == placed(rank, positions(old(order)@), next as int),
        forall|k: int| 0 <= k < final(order)@.len() ==> #[trigger] final(order)@[k] < ranks.len(),
{
    let ghost before = positions(order@);
    let mut at: usize = order.len();
    proof {
        assert(before.take(at as int) =~= before);
        assert(before.skip(at as int) =~= Seq::empty());
        assert(placed(rank, before, next as int) + Seq::empty() =~= placed(
            rank,
            before,
            next as int,
        ));
    }
    while at > 0 && ranks[order[at - 1]] > ranks[next]
        invariant
            at <= order.len(),
            next < ranks.len(),
            forall|k: int| 0 <= k < ranks@.len() ==> #[trigger] ranks@[k] == rank(k),
            before == positions(order@),
            forall|k: int| 0 <= k < order@.len() ==> #[trigger] order@[k] < ranks.len(),
            placed(rank, before, next as int) == placed(rank, before.take(at as int), next as int)
                + before.skip(at as int),
        decreases at,
    {
        proof {
            let prefix = before.take(at as int);
            assert(prefix.drop_last() =~= before.take(at - 1));
            assert(prefix.last() == before[at - 1]);
            assert(placed(rank, prefix, next as int) + before.skip(at as int) =~= placed(
                rank,
                before.take(at - 1),
                next as int,
            ) + before.skip(at - 1));
        }
        at = at - 1;
    }
    proof {
        let prefix = before.take(at as int);
        assert(prefix.len() > 0 ==> prefix.last() == before[at - 1]);
        assert(placed(rank, prefix, next as int) == prefix.push(next as int));
    }
    order.insert(at, next);
    proof {
        assert(positions(order@) =~= before.take(at as int).push(next as int) + before.skip(
            at as int,
        ));
    }
}

/// The kept positions, by ascending rank.
pub(crate) fn rank_positions(
    keep: &Vec<bool>,
    ranks: &Vec<i64>,
    Ghost(kept): Ghost<spec_fn(int) -> bool>,
    Ghost(rank): Ghost<spec_fn(int) -> int>,
) -> (r: Vec<usize>)
    requires
        keep@.len() == ranks@.len(),
        forall|k: int| 0 <= k < keep@.len() ==> #[trigger] keep@[k] == kept(k),
        forall|k: int| 0 <= k < ranks@.len() ==> #[trigger] ranks@[k] == rank(k),
    ensures
        positions(r@) == ranked(kept, rank, keep@.len() as int),
        forall|i: int| 0 <= i < r@.len() ==> #[trigger] r@[i] < keep@.len(),
{
    let mut order: Vec<usize> = Vec::new();
    proof {
        assert(positions(order@) =~= ranked(kept, rank, 0));
    }
    let mut i: usize = 0;
    while i < keep.len()
        invariant
            i <= keep.len(),
            keep@.len() == ranks@.len(),
            forall|k: int| 0 <= k < keep@.len() ==> #[trigger] keep@[k] == kept(k),
            forall|k: int| 0 <= k < ranks@.len() ==> #[trigger] ranks@[k] == rank(k),
            positions(order@) == ranked(kept, rank, i as int),
            forall|k: int| 0 <= k < order@.len() ==> #[trigger] order@[k] < keep@.len(),
        decreases keep.len() - i,
    {
        if keep[i] {
            place(ranks, &mut order, i, Ghost(rank));
        }
        i = i + 1;
    }
    order
}

impl TableSchema {
    /// The positions of the key columns, by ascending ordinal.
    pub fn key_positions(&self) -> (r: Vec<usize>)
        ensures
            positions(r@) == key_order(self.columns@),
            forall|i: int| 0 <= i < r@.len() ==> #[trigger] r@[i] < self.columns@.len(),
    {
        let mut keep: Vec<bool> = Vec::new();
        let mut ranks: Vec<i64> = Vec::new();
        let mut i: usize = 0;
        while i < self.columns.len()
            invariant
                i <= self.columns.len(),
                keep@.len() == i,
                ranks@.len() == i,
                forall|k: int|
                    0 <= k < i ==> #[trigger] keep@[k] == in_key(self.columns@)(k),
                forall|k: int|
                    0 <= k < i ==> #[trigger] ranks@[k] == ordinals(self.columns@)(k),
            decreases self.columns.len() - i,
        {
            keep.push(self.columns[i].primary_key_ordinal.is_some());
            ranks.push(column_ordinal(&self.columns[i]) as i64);
            i = i + 1;
        }
        rank_positions(
            &keep,
            &ranks,
            Ghost(in_key(self.columns@)),
            Ghost(ordinals(self.columns@)),
        )
    }

    /// The key columns, by ascending ordinal.
    pub fn primary_key(&self) -> (r: Vec<&ColumnSchema>)
        ensures
            r@.len() == key_order(self.columns@).len(),
            forall|i: int|
                0 <= i < r@.len() ==> *(#[trigger] r@[i]) == self.columns@[key_order(
                    self.columns@,
                )[i]],
    {
        let order = self.key_positions();
        let mut out: Vec<&ColumnSchema> = Vec::new();
        let mut i: usize = 0;
        while i < order.len()
            invariant
                i <= order.len(),
                out@.len() == i,
                positions(order@) == key_order(self.columns@),
                forall|k: int| 0 <= k < order@.len() ==> #[trigger] order@[k] < self.columns@.len(),
                forall|k: int|
                    0 <= k < i ==> *(#[trigger] out@[k]) == self.columns@[positions(order@)[k]],
            decreases order.len() - i,
        {
            out.push(&self.columns[order[i]]);
            i = i + 1;
        }
        out
    }

    /// A replicated table needs a primary key.
    pub fn validate_supported(&self) -> (r: Result<(), CoreError>)
        ensures
            match r {
                Ok(()) => key_order(self.columns@).len() > 0,
                Err(e) => key_order(self.columns@).len() == 0 && e == CoreError::MissingPrimaryKey,
            },
    {
        if self.key_positions().len() == 0 {
            Err(CoreError::MissingPrimaryKey)
        } else {
            Ok(())
        }
    }
}

proof fn lemma_placed(rank: spec_fn(int) -> int, order: Seq<int>, next: int)
    ensures
        placed(rank, order, next).len() == order.len() + 1,
        placed(rank, order, next).contains(next),
        forall|p: int| #[trigger]
            order.contains(p) ==> placed(rank, order, next).contains(p),
        forall|p: int| #[trigger]
            placed(rank, order, next).contains(p) ==> p == next || order.contains(p),
        (forall|i: int, j: int|
            0 <= i < j < order.len() ==> rank(#[trigger] order[i]) <= rank(#[trigger] order[j])) ==> (forall|i: int, j: int|
            0 <= i < j < placed(rank, order, next).len() ==> rank(#[trigger] placed(rank, order, next)[i]) <= rank(#[trigger] placed(rank, order, next)[j])),
        order.no_duplicates() && !order.contains(next) ==> placed(
            rank,
            order,
            next,
        ).no_duplicates(),
    decreases order.len(),
{
    let result = placed(rank, order, next);
    if order.len() == 0 || rank(order.last()) <= rank(next) {
        assert(result[order.len() as int] == next);
        assert forall|p: int| order.contains(p) implies result.contains(p) by {
            let k = choose|k: int| 0 <= k < order.len() && order[k] == p;
            assert(result[k] == p);
        }
        assert forall|p: int| result.contains(p) implies p == next || order.contains(p) by {
            let k = choose|k: int| 0 <= k < result.len() && result[k] == p;
            if k < order.len() {
                assert(order[k] == p);
            }
        }
    } else {
        let front = order.drop_last();
        let inner = placed(rank, front, next);
        lemma_placed(rank, front, next);
        let k0 = choose|k: int| 0 <= k < inner.len() && inner[k] == next;
        assert(result[k0] == next);
        assert forall|p: int| order.contains(p) implies result.contains(p) by {
            let k = choose|k: int| 0 <= k < order.len() && order[k] == p;
            if k < front.len() {
                assert(front[k] == p);
                assert(front.contains(p));
                assert(inner.contains(p));
                let m = choose|m: int| 0 <= m < inner.len() && inner[m] == p;
                assert(result[m] == p);
            } else {
                assert(result[inner.len() as int] == p);
            }
        }
        assert forall|p: int| result.contains(p) implies p == next || order.contains(p) by {
            let k = choose|k: int| 0 <= k < result.len() && result[k] == p;
            if k < inner.len() {
                assert(inner[k] == p);
                assert(inner.contains(p));
                if p != next {
                    assert(front.contains(p));
                    let m = choose|m: int| 0 <= m < front.len() && front[m] == p;
                    assert(order[m] == p);
                }
            } else {
                assert(order[order.len() - 1] == p);
            }
        }
        if forall|i: int, j: int|
            0 <= i < j < order.len() ==> rank(#[trigger] order[i]) <= rank(#[trigger] order[j]) {
            assert forall|i: int, j: int| 0 <= i < j < front.len() implies rank(#[trigger] front[i]) <= rank(#[trigger] front[j]) by {
                assert(rank(order[i]) <= rank(order[j]));
            }
            assert forall|i: int, j: int| 0 <= i < j < result.len() implies rank(#[trigger] result[i]) <= rank(#[trigger] result[j]) by {
                if j < inner.len() {
                    assert(result[i] == inner[i] && result[j] == inner[j]);
                } else {
                    assert(inner[i] == result[i]);
                    assert(inner.contains(result[i]));
                    if result[i] != next {
                        assert(front.contains(result[i]));
                        let m = choose|m: int| 0 <= m < front.len() && front[m] == result[i];
                        assert(order[m] == result[i]);
                        assert(rank(order[m]) <= rank(order[order.len() - 1]));
                    }
                }
            }
        }
        if order.no_duplicates() && !order.contains(next) {
            assert forall|p: int| front.contains(p) implies order.contains(p) by {
                let m = choose|m: int| 0 <= m < front.len() && front[m] == p;
                assert(order[m] == p);
            }
            assert(inner.no_duplicates());
            assert forall|i: int, j: int|
                0 <= i < result.len() && 0 <= j < result.len() && i != j implies result[i]
                != result[j] by {
                if i < inner.len() && j < inner.len() {
                    assert(inner[i] != inner[j]);
                } else {
                    let k = if i < inner.len() {
                        i
                    } else {
                        j
                    };
                    assert(inner[k] == result[k]);
                    assert(inner.contains(result[k]));
                    if result[k] == order.last() {
                        assert(order[order.len() - 1] == result[k]);
                        if result[k] == next {
                            assert(order.contains(next));
                        } else {
                            assert(front.contains(result[k]));
                            let m = choose|m: int| 0 <= m < front.len() && front[m] == result[k];
                            assert(order[m] == order[order.len() - 1]);
                        }
                    }
                }
            }
        }
    }
}

/// The ranked positions are exactly the kept ones, each once, and their ranks never descend.
pub proof fn law_ranked_order(kept: spec_fn(int) -> bool, rank: spec_fn(int) -> int, count: int)
    ensures
        ranked(kept, rank, count).no_duplicates(),
        forall|p: int| #[trigger]
            ranked(kept, rank, count).contains(p) <==> 0 <= p < count && kept(p),
        forall|i: int, j: int|
            0 <= i < j < ranked(kept, rank, count).len() ==> rank(
                #[trigger] ranked(kept, rank, count)[i],
            ) <= rank(#[trigger] ranked(kept, rank, count)[j]),
    decreases count,
{
    if count > 0 {
        law_ranked_order(kept, rank, count - 1);
        let order = ranked(kept, rank, count - 1);
        if kept(count - 1) {
            assert(!order.contains(count - 1));
            lemma_placed(rank, order, count - 1);
            assert forall|p: int| #[trigger]
                ranked(kept, rank, count).contains(p) <==> 0 <= p < count && kept(p) by {
                assert(order.contains(p) <==> 0 <= p < count - 1 && kept(p));
            }
        }
    }
}

/// The key order holds exactly the positions of the key columns, each once, and their ordinals
/// never descend.
pub proof fn law_key_order(columns: Seq<ColumnSchema>, count: int)
    requires
        0 <= count <= columns.len(),
    ensures
        key_order_of(columns, count).no_duplicates(),
        forall|p: int| #[trigger]
            key_order_of(columns, count).contains(p) <==> 0 <= p < count
                && columns[p].primary_key_ordinal is Some,
        forall|i: int, j: int|
            0 <= i < j < key_order_of(columns, count).len() ==> ordinal_of(
                columns[#[trigger] key_order_of(columns, count)[i]],
            ) <= ordinal_of(columns[#[trigger] key_order_of(columns, count)[j]]),
{
    law_ranked_order(in_key(columns), ordinals(columns), count);
    let order = key_order_of(columns, count);
    assert forall|p: int| #[trigger] order.contains(p) <==> 0 <= p < count
        && columns[p].primary_key_ordinal is Some by {
        assert(order.contains(p) <==> 0 <= p < count && in_key(columns)(p));
    }
    assert forall|i: int, j: int| 0 <= i < j < order.len() implies ordinal_of(
        columns[#[trigger] order[i]],
    ) <= ordinal_of(columns[#[trigger] order[j]]) by {
        assert(ordinals(columns)(order[i]) <= ordinals(columns)(order[j]));
    }
}

/// A name is valid exactly where its schema and its own part are texts without NUL of 1 to 63 bytes.
pub proof fn law_which_names_are_valid(name: NameView)
    ensures
        name.fault() is None <==> {
            &&& name.schema.len() > 0
            &&& !name.schema.contains('\0')
            &&& encode_utf8(name.schema).len() <= 63
            &&& name.name.len() > 0
            &&& !name.name.contains('\0')
            &&& encode_utf8(name.name).len() <= 63
        },
{
}

} // verus!
