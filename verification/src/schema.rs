//! Source-schema to Cloudberry DDL planning.

use crate::source::{
    clone_texts, key_order, positions, ColumnSchema, CoreError, GeneratedColumn, NameView, PgType,
    PgTypeKind, QualifiedName, TableKind, TableSchema,
};
use crate::sql::{
    all_quotable, lemma_list_renders, list_render_fault, literal, name_render_fault, quotable,
    quote_identifier_list, quote_literal, quote_qualified_name, quote_valid, quoted, quoted_list,
    quoted_name, SqlRenderError,
};
use crate::storage::TargetStorage;
use crate::text::{
    append_joined, decimal, joined, render_decimal, render_signed, same_text, same_texts,
    signed_decimal, texts,
};
use vstd::prelude::*;

verus! {

pub const MAX_NUMERIC_PRECISION: u16 = 1_000;

pub const MAX_CHARACTER_LENGTH: u32 = 10_485_760;

pub const MAX_BIT_LENGTH: u32 = 83_886_080;

pub const MAX_DATETIME_PRECISION: u8 = 6;

/// Why a source schema cannot be planned on the target.
#[allow(inconsistent_fields)]
#[derive(Debug, Clone, PartialEq, Eq)]
pub enum SchemaError {
    Core(CoreError),
    Sql(SqlRenderError),
    /// The type is not supported by the Cloudberry 2.1 contract.
    UnsupportedType { data_type: String, reason: String },
    /// A type modifier is outside the target's range.
    InvalidTypmod { data_type: &'static str, reason: String },
    /// The table kind has not been unlocked for Cloudberry apply.
    UnsupportedTableKind(TableKind),
    DuplicateColumn(String),
    /// A primary-key ordinal is repeated or zero.
    InvalidPrimaryKeyOrdinal(u16),
    /// Conflicting definitions map to one target type.
    ConflictingUserType(String),
}

/// The model of a schema error.
#[allow(inconsistent_fields)]
pub enum SchemaFault {
    Core(CoreError),
    Sql(SqlRenderError),
    UnsupportedType { data_type: Seq<char>, reason: Seq<char> },
    InvalidTypmod { data_type: Seq<char>, reason: Seq<char> },
    UnsupportedTableKind(TableKind),
    DuplicateColumn(Seq<char>),
    InvalidPrimaryKeyOrdinal(u16),
    ConflictingUserType(Seq<char>),
}

impl View for SchemaError {
    type V = SchemaFault;

    open spec fn view(&self) -> SchemaFault {
        match self {
            SchemaError::Core(e) => SchemaFault::Core(*e),
            SchemaError::Sql(e) => SchemaFault::Sql(*e),
            SchemaError::UnsupportedType { data_type, reason } => SchemaFault::UnsupportedType {
                data_type: data_type@,
                reason: reason@,
            },
            SchemaError::InvalidTypmod { data_type, reason } => SchemaFault::InvalidTypmod {
                data_type: data_type@,
                reason: reason@,
            },
            SchemaError::UnsupportedTableKind(kind) => SchemaFault::UnsupportedTableKind(*kind),
            SchemaError::DuplicateColumn(name) => SchemaFault::DuplicateColumn(name@),
            SchemaError::InvalidPrimaryKeyOrdinal(ordinal) =>
                SchemaFault::InvalidPrimaryKeyOrdinal(*ordinal),
            SchemaError::ConflictingUserType(name) => SchemaFault::ConflictingUserType(name@),
        }
    }
}

#[derive(Debug, Clone, PartialEq, Eq)]
pub enum UserTypeDefinition {
    /// Ordered labels of a PostgreSQL enum.  Keeping the labels structured lets the target
    /// reconciler apply safe `ADD VALUE`/`RENAME VALUE` changes without parsing SQL text.
    Enum { labels: Vec<String> },
    /// The already-rendered base type of a constraint-free domain.
    Domain { base_sql: String },
}

/// The model of a user type's definition.
pub enum DefinitionView {
    Enum { labels: Seq<Seq<char>> },
    Domain { base_sql: Seq<char> },
}

impl View for UserTypeDefinition {
    type V = DefinitionView;

    open spec fn view(&self) -> DefinitionView {
        match self {
            UserTypeDefinition::Enum { labels } => DefinitionView::Enum { labels: texts(labels@) },
            UserTypeDefinition::Domain { base_sql } => DefinitionView::Domain {
                base_sql: base_sql@,
            },
        }
    }
}

#[derive(Debug, Clone, PartialEq, Eq)]
pub struct UserTypePlan {
    pub name: QualifiedName,
    pub create_sql: String,
    pub definition: UserTypeDefinition,
}

/// The model of a user type that a table needs.
pub struct UserTypeView {
    pub name: NameView,
    pub create_sql: Seq<char>,
    pub definition: DefinitionView,
}

impl View for UserTypePlan {
    type V = UserTypeView;

    open spec fn view(&self) -> UserTypeView {
        UserTypeView {
            name: self.name@,
            create_sql: self.create_sql@,
            definition: self.definition@,
        }
    }
}

/// The models of a list of user types.
pub open spec fn user_types(list: Seq<UserTypePlan>) -> Seq<UserTypeView> {
    Seq::new(list.len(), |i: int| list[i]@)
}

#[derive(Debug, Clone, PartialEq, Eq)]
pub struct TypePlan {
    pub sql: String,
    pub prerequisites: Vec<UserTypePlan>,
}

/// The rendering of a type: its SQL text and the user types to create before it.
pub struct TypeView {
    pub sql: Seq<char>,
    pub prerequisites: Seq<UserTypeView>,
}

impl View for TypePlan {
    type V = TypeView;

    open spec fn view(&self) -> TypeView {
        TypeView { sql: self.sql@, prerequisites: user_types(self.prerequisites@) }
    }
}

// ---------------------------------------------------------------------------------------------
// Built-in types with modifiers
// ---------------------------------------------------------------------------------------------

pub open spec fn typmod_fault(data_type: Seq<char>, reason: Seq<char>) -> SchemaFault {
    SchemaFault::InvalidTypmod { data_type, reason }
}

pub open spec fn numeric_text(precision: Option<u16>, scale: Option<i16>) -> Result<
    Seq<char>,
    SchemaFault,
> {
    match (precision, scale) {
        (None, None) => Ok("numeric"@),
        (None, Some(_)) => Err(
            typmod_fault("numeric"@, "scale cannot be specified without precision"@),
        ),
        (Some(p), s) => if !(1 <= p <= MAX_NUMERIC_PRECISION) {
            Err(typmod_fault("numeric"@, "precision must be between 1 and "@ + decimal(1000)))
        } else {
            match s {
                None => Ok("numeric("@ + decimal(p as nat) + ")"@),
                Some(s) => if s < 0 {
                    Err(
                        typmod_fault(
                            "numeric"@,
                            "negative scale is a PostgreSQL 15+ feature absent from the PG14-based target"@,
                        ),
                    )
                } else if s > p {
                    Err(
                        typmod_fault(
                            "numeric"@,
                            "scale must not exceed precision on Cloudberry 2.1"@,
                        ),
                    )
                } else {
                    Ok("numeric("@ + decimal(p as nat) + ","@ + signed_decimal(s as int) + ")"@)
                },
            }
        },
    }
}

pub open spec fn sized_text(name: Seq<char>, length: Option<u32>, most: nat) -> Result<
    Seq<char>,
    SchemaFault,
> {
    match length {
        None => Ok(name),
        Some(n) => if 1 <= n <= most {
            Ok(name + "("@ + decimal(n as nat) + ")"@)
        } else {
            Err(typmod_fault(name, "length must be between 1 and "@ + decimal(most)))
        },
    }
}

pub open spec fn precision_text(name: Seq<char>, precision: Option<u8>) -> Result<
    Seq<char>,
    SchemaFault,
> {
    match precision {
        None => Ok(""@),
        Some(p) => if p <= MAX_DATETIME_PRECISION {
            Ok("("@ + decimal(p as nat) + ")"@)
        } else {
            Err(typmod_fault(name, "precision must be at most "@ + decimal(6)))
        },
    }
}

pub open spec fn datetime_text(name: Seq<char>, precision: Option<u8>, with_time_zone: bool) -> Result<
    Seq<char>,
    SchemaFault,
> {
    match precision_text(name, precision) {
        Err(f) => Err(f),
        Ok(suffix) => Ok(
            name + suffix + (if with_time_zone {
                " with time zone"@
            } else {
                " without time zone"@
            }),
        ),
    }
}

pub open spec fn interval_text(precision: Option<u8>) -> Result<Seq<char>, SchemaFault> {
    match precision_text("interval"@, precision) {
        Err(f) => Err(f),
        Ok(suffix) => Ok("interval"@ + suffix),
    }
}

pub open spec fn bit_text(length: Option<u32>, varying: bool) -> Result<Seq<char>, SchemaFault> {
    sized_text(
        if varying {
            "bit varying"@
        } else {
            "bit"@
        },
        length,
        MAX_BIT_LENGTH as nat,
    )
}

/// The executable outcome `r` stands for the modelled outcome.
pub open spec fn renders(r: Result<String, SchemaError>, model: Result<Seq<char>, SchemaFault>) -> bool {
    match r {
        Ok(text) => model == Ok::<Seq<char>, SchemaFault>(text@),
        Err(e) => model == Err::<Seq<char>, SchemaFault>(e@),
    }
}

fn invalid_typmod(data_type: &'static str, reason: String) -> (r: SchemaError)
    ensures
        r@ == typmod_fault(data_type@, reason@),
{
    SchemaError::InvalidTypmod { data_type, reason }
}

fn validate_precision(precision: u16) -> (r: Result<(), SchemaError>)
    ensures
        match r {
            Ok(()) => 1 <= precision <= MAX_NUMERIC_PRECISION,
            Err(e) => {
                &&& !(1 <= precision <= MAX_NUMERIC_PRECISION)
                &&& e@ == typmod_fault(
                    "numeric"@,
                    "precision must be between 1 and "@ + decimal(1000),
                )
            },
        },
{
    if 1 <= precision && precision <= MAX_NUMERIC_PRECISION {
        Ok(())
    } else {
        let mut reason = "precision must be between 1 and ".to_string();
        reason.append(render_decimal(MAX_NUMERIC_PRECISION as u64).as_str());
        Err(invalid_typmod("numeric", reason))
    }
}

fn numeric_sql(precision: Option<u16>, scale: Option<i16>) -> (r: Result<String, SchemaError>)
    ensures
        renders(r, numeric_text(precision, scale)),
{
    match precision {
        None => match scale {
            None => Ok("numeric".to_string()),
            Some(_) => Err(
                invalid_typmod(
                    "numeric",
                    "scale cannot be specified without precision".to_string(),
                ),
            ),
        },
        Some(p) => {
            match validate_precision(p) {
                Err(e) => return Err(e),
                Ok(()) => {},
            }
            match scale {
                None => {
                    let mut out = "numeric(".to_string();
                    out.append(render_decimal(p as u64).as_str());
                    out.append(")");
                    Ok(out)
                },
                Some(s) => {
                    if s < 0 {
                        return Err(
                            invalid_typmod(
                                "numeric",
                                "negative scale is a PostgreSQL 15+ feature absent from the PG14-based target".to_string(),
                            ),
                        );
                    }
                    if s as u16 > p {
                        return Err(
                            invalid_typmod(
                                "numeric",
                                "scale must not exceed precision on Cloudberry 2.1".to_string(),
                            ),
                        );
                    }
                    let mut out = "numeric(".to_string();
                    out.append(render_decimal(p as u64).as_str());
                    out.append(",");
                    out.append(render_signed(s as i64).as_str());
                    out.append(")");
                    Ok(out)
                },
            }
        },
    }
}

fn sized_sql(data_type: &'static str, length: Option<u32>, most: u32) -> (r: Result<
    String,
    SchemaError,
>)
    ensures
        renders(r, sized_text(data_type@, length, most as nat)),
{
    match length {
        None => Ok(data_type.to_string()),
        Some(n) => {
            if 1 <= n && n <= most {
                let mut out = data_type.to_string();
                out.append("(");
                out.append(render_decimal(n as u64).as_str());
                out.append(")");
                Ok(out)
            } else {
                let mut reason = "length must be between 1 and ".to_string();
                reason.append(render_decimal(most as u64).as_str());
                Err(invalid_typmod(data_type, reason))
            }
        },
    }
}

fn character_sql(data_type: &'static str, length: Option<u32>) -> (r: Result<String, SchemaError>)
    ensures
        renders(r, sized_text(data_type@, length, MAX_CHARACTER_LENGTH as nat)),
{
    sized_sql(data_type, length, MAX_CHARACTER_LENGTH)
}

fn bit_sql(length: Option<u32>, varying: bool) -> (r: Result<String, SchemaError>)
    ensures
        renders(r, bit_text(length, varying)),
{
    if varying {
        sized_sql("bit varying", length, MAX_BIT_LENGTH)
    } else {
        sized_sql("bit", length, MAX_BIT_LENGTH)
    }
}

fn precision_suffix(data_type: &'static str, precision: Option<u8>) -> (r: Result<
    String,
    SchemaError,
>)
    ensures
        renders(r, precision_text(data_type@, precision)),
{
    match precision {
        None => Ok("".to_string()),
        Some(p) => {
            if p <= MAX_DATETIME_PRECISION {
                let mut out = "(".to_string();
                out.append(render_decimal(p as u64).as_str());
                out.append(")");
                Ok(out)
            } else {
                let mut reason = "precision must be at most ".to_string();
                reason.append(render_decimal(MAX_DATETIME_PRECISION as u64).as_str());
                Err(invalid_typmod(data_type, reason))
            }
        },
    }
}

fn datetime_sql(data_type: &'static str, precision: Option<u8>, with_time_zone: bool) -> (r: Result<
    String,
    SchemaError,
>)
    ensures
        renders(r, datetime_text(data_type@, precision, with_time_zone)),
{
    match precision_suffix(data_type, precision) {
        Err(e) => Err(e),
        Ok(suffix) => {
            let mut out = data_type.to_string();
            out.append(suffix.as_str());
            if with_time_zone {
                out.append(" with time zone");
            } else {
                out.append(" without time zone");
            }
            Ok(out)
        },
    }
}

fn interval_sql(precision: Option<u8>) -> (r: Result<String, SchemaError>)
    ensures
        renders(r, interval_text(precision)),
{
    match precision_suffix("interval", precision) {
        Err(e) => Err(e),
        Ok(suffix) => {
            let mut out = "interval".to_string();
            out.append(suffix.as_str());
            Ok(out)
        },
    }
}

// ---------------------------------------------------------------------------------------------
// Types of columns
// ---------------------------------------------------------------------------------------------

/// A type that needs no user type.
pub open spec fn built_in(sql: Result<Seq<char>, SchemaFault>) -> Result<TypeView, SchemaFault> {
    match sql {
        Ok(sql) => Ok(TypeView { sql, prerequisites: Seq::empty() }),
        Err(f) => Err(f),
    }
}

pub open spec fn unsupported(data_type: PgType, reason: Seq<char>) -> SchemaFault {
    SchemaFault::UnsupportedType { data_type: data_type.name@.text(), reason }
}

/// Some text of the list holds a NUL character.
pub open spec fn some_nul(list: Seq<Seq<char>>) -> bool {
    exists|i: int| 0 <= i < list.len() && (#[trigger] list[i]).contains('\0')
}

/// The literals of a list, joined by a comma and a blank.
pub open spec fn literal_list(list: Seq<Seq<char>>) -> Seq<char> {
    joined(Seq::new(list.len(), |i: int| literal(list[i])), ", "@)
}

pub open spec fn enum_type(data_type: PgType, labels: Seq<Seq<char>>, schema: Seq<char>) -> Result<
    TypeView,
    SchemaFault,
> {
    let name = NameView { schema, name: data_type.name.name@ };
    if labels.len() == 0 {
        Err(unsupported(data_type, "enum has no labels"@))
    } else if !labels.no_duplicates() {
        Err(unsupported(data_type, "enum has duplicate labels"@))
    } else if name.fault() is Some {
        Err(SchemaFault::Core(name.fault()->0))
    } else if some_nul(labels) {
        Err(SchemaFault::Sql(SqlRenderError::NulByte { kind: "literal" }))
    } else {
        Ok(
            TypeView {
                sql: quoted_name(name),
                prerequisites: seq![
                    UserTypeView {
                        name,
                        create_sql: "CREATE TYPE "@ + quoted_name(name) + " AS ENUM ("@
                            + literal_list(labels) + ")"@,
                        definition: DefinitionView::Enum { labels },
                    },
                ],
            },
        )
    }
}

pub open spec fn domain_type(data_type: PgType, base: TypeView, schema: Seq<char>) -> Result<
    TypeView,
    SchemaFault,
> {
    let name = NameView { schema, name: data_type.name.name@ };
    if name.fault() is Some {
        Err(SchemaFault::Core(name.fault()->0))
    } else {
        Ok(
            TypeView {
                sql: quoted_name(name),
                prerequisites: base.prerequisites.push(
                    UserTypeView {
                        name,
                        create_sql: "CREATE DOMAIN "@ + quoted_name(name) + " AS "@ + base.sql,
                        definition: DefinitionView::Domain { base_sql: base.sql },
                    },
                ),
            },
        )
    }
}

/// The target rendering of a source type, with its user types in the given schema.
pub open spec fn type_model(data_type: PgType, schema: Seq<char>) -> Result<TypeView, SchemaFault>
    decreases data_type,
{
    match data_type.kind {
        PgTypeKind::Bool => built_in(Ok("boolean"@)),
        PgTypeKind::Int2 => built_in(Ok("smallint"@)),
        PgTypeKind::Int4 => built_in(Ok("integer"@)),
        PgTypeKind::Int8 => built_in(Ok("bigint"@)),
        PgTypeKind::Numeric { precision, scale } => built_in(numeric_text(precision, scale)),
        PgTypeKind::Float4 => built_in(Ok("real"@)),
        PgTypeKind::Float8 => built_in(Ok("double precision"@)),
        PgTypeKind::Text => built_in(Ok("text"@)),
        PgTypeKind::VarChar { length } => built_in(
            sized_text("character varying"@, length, MAX_CHARACTER_LENGTH as nat),
        ),
        PgTypeKind::Char { length } => built_in(
            sized_text("character"@, length, MAX_CHARACTER_LENGTH as nat),
        ),
        PgTypeKind::Bytea => built_in(Ok("bytea"@)),
        PgTypeKind::Date => built_in(Ok("date"@)),
        PgTypeKind::Time { precision, with_time_zone } => built_in(
            datetime_text("time"@, precision, with_time_zone),
        ),
        PgTypeKind::Timestamp { precision, with_time_zone } => built_in(
            datetime_text("timestamp"@, precision, with_time_zone),
        ),
        PgTypeKind::Interval { precision } => built_in(interval_text(precision)),
        PgTypeKind::Uuid => built_in(Ok("uuid"@)),
        PgTypeKind::Json => built_in(Ok("json"@)),
        PgTypeKind::Jsonb => built_in(Ok("jsonb"@)),
        PgTypeKind::Inet => built_in(Ok("inet"@)),
        PgTypeKind::Cidr => built_in(Ok("cidr"@)),
        PgTypeKind::MacAddr => built_in(Ok("macaddr"@)),
        PgTypeKind::MacAddr8 => built_in(Ok("macaddr8"@)),
        PgTypeKind::Bit { length, varying } => built_in(bit_text(length, varying)),
        PgTypeKind::Xml => Err(
            unsupported(data_type, "XML is outside the verified current-state type contract"@),
        ),
        PgTypeKind::Enum { labels } => enum_type(data_type, texts(labels@), schema),
        PgTypeKind::Domain { base, constraints } => if constraints@.len() > 0 {
            Err(unsupported(data_type, "raw domain constraints are not safe to replay"@))
        } else {
            match type_model(*base, schema) {
                Err(f) => Err(f),
                Ok(base) => domain_type(data_type, base, schema),
            }
        },
        PgTypeKind::Array { element } => match type_model(*element, schema) {
            Err(f) => Err(f),
            Ok(element) => Ok(
                TypeView { sql: element.sql + "[]"@, prerequisites: element.prerequisites },
            ),
        },
        PgTypeKind::Unsupported { reason } => Err(unsupported(data_type, reason@)),
    }
}

fn unsupported_type(data_type: &PgType, reason: &str) -> (r: SchemaError)
    ensures
        r@ == unsupported(*data_type, reason@),
{
    SchemaError::UnsupportedType {
        data_type: data_type.name.display(),
        reason: reason.to_string(),
    }
}

/// Whether the text stands among the first `count` of the list.
pub fn contains_before(list: &Vec<String>, count: usize, text: &str) -> (r: bool)
    requires
        count <= list.len(),
    ensures
        r == texts(list@).take(count as int).contains(text@),
{
    let mut i: usize = 0;
    while i < count
        invariant
            i <= count <= list.len(),
            forall|j: int| 0 <= j < i ==> list@[j]@ != text@,
        decreases count - i,
    {
        if same_text(list[i].as_str(), text) {
            proof {
                assert(texts(list@).take(count as int)[i as int] == text@);
            }
            return true;
        }
        i = i + 1;
    }
    false
}

/// Whether some text occurs twice in the list.
pub fn has_duplicates(list: &Vec<String>) -> (r: bool)
    ensures
        r == !texts(list@).no_duplicates(),
{
    let ghost all = texts(list@);
    let mut i: usize = 0;
    while i < list.len()
        invariant
            i <= list.len(),
            all == texts(list@),
            forall|a: int, b: int| 0 <= a < b < i ==> all[a] != all[b],
        decreases list.len() - i,
    {
        if contains_before(list, i, list[i].as_str()) {
            proof {
                let a = choose|a: int|
                    0 <= a < i && all.take(i as int)[a] == list@[i as int]@;
                assert(all[a] == all[i as int]);
            }
            return true;
        }
        proof {
            assert forall|a: int, b: int| 0 <= a < b < i + 1 implies all[a] != all[b] by {
                if b == i {
                    assert(all.take(i as int)[a] == all[a]);
                }
            }
        }
        i = i + 1;
    }
    false
}

fn render_labels(labels: &Vec<String>) -> (r: Result<String, SqlRenderError>)
    ensures
        match r {
            Ok(text) => !some_nul(texts(labels@)) && text@ == literal_list(texts(labels@)),
            Err(e) => some_nul(texts(labels@)) && e == (SqlRenderError::NulByte {
                kind: "literal",
            }),
        },
{
    let ghost all = texts(labels@);
    let ghost parts = Seq::new(all.len(), |i: int| literal(all[i]));
    let mut out = String::new();
    let mut i: usize = 0;
    while i < labels.len()
        invariant
            i <= labels.len(),
            all == texts(labels@),
            parts == Seq::new(all.len(), |i: int| literal(all[i])),
            forall|k: int| 0 <= k < i ==> !(#[trigger] all[k]).contains('\0'),
            out@ == joined(parts.take(i as int), ", "@),
        decreases labels.len() - i,
    {
        match quote_literal(labels[i].as_str()) {
            Err(e) => {
                proof {
                    assert(all[i as int].contains('\0'));
                }
                return Err(e);
            },
            Ok(text) => {
                proof {
                    assert(parts.take(i + 1) =~= parts.take(i as int).push(parts[i as int]));
                }
                append_joined(&mut out, i == 0, ", ", text.as_str(), Ghost(parts.take(i as int)));
            },
        }
        i = i + 1;
    }
    proof {
        assert(parts.take(i as int) =~= parts);
    }
    Ok(out)
}

/// What planning a type did to the list of user types before it.
pub open spec fn type_planned(
    r: Result<String, SchemaError>,
    before: Seq<UserTypeView>,
    after: Seq<UserTypeView>,
    model: Result<TypeView, SchemaFault>,
) -> bool {
    match r {
        Ok(sql) => match model {
            Ok(plan) => sql@ == plan.sql && after == before + plan.prerequisites,
            Err(_) => false,
        },
        Err(e) => model == Err::<TypeView, SchemaFault>(e@),
    }
}

/// An outcome without user types.
fn plain(r: Result<String, SchemaError>, Ghost(before): Ghost<Seq<UserTypeView>>) -> (q: Result<
    String,
    SchemaError,
>)
    ensures
        q == r,
        forall|m: Result<Seq<char>, SchemaFault>| #[trigger]
            renders(r, m) ==> type_planned(q, before, before, built_in(m)),
{
    proof {
        assert(before + Seq::empty() =~= before);
    }
    r
}

fn plan_type_inner(
    data_type: &PgType,
    target_type_schema: &str,
    prerequisites: &mut Vec<UserTypePlan>,
) -> (r: Result<String, SchemaError>)
    ensures
        type_planned(
            r,
            user_types(old(prerequisites)@),
            user_types(final(prerequisites)@),
            type_model(*data_type, target_type_schema@),
        ),
    decreases *data_type,
{
    let ghost before = user_types(prerequisites@);
    match &data_type.kind {
        PgTypeKind::Bool => plain(Ok("boolean".to_string()), Ghost(before)),
        PgTypeKind::Int2 => plain(Ok("smallint".to_string()), Ghost(before)),
        PgTypeKind::Int4 => plain(Ok("integer".to_string()), Ghost(before)),
        PgTypeKind::Int8 => plain(Ok("bigint".to_string()), Ghost(before)),
        PgTypeKind::Numeric { precision, scale } => plain(
            numeric_sql(*precision, *scale),
            Ghost(before),
        ),
        PgTypeKind::Float4 => plain(Ok("real".to_string()), Ghost(before)),
        PgTypeKind::Float8 => plain(Ok("double precision".to_string()), Ghost(before)),
        PgTypeKind::Text => plain(Ok("text".to_string()), Ghost(before)),
        PgTypeKind::VarChar { length } => plain(
            character_sql("character varying", *length),
            Ghost(before),
        ),
        PgTypeKind::Char { length } => plain(character_sql("character", *length), Ghost(before)),
        PgTypeKind::Bytea => plain(Ok("bytea".to_string()), Ghost(before)),
        PgTypeKind::Date => plain(Ok("date".to_string()), Ghost(before)),
        PgTypeKind::Time { precision, with_time_zone } => plain(
            datetime_sql("time", *precision, *with_time_zone),
            Ghost(before),
        ),
        PgTypeKind::Timestamp { precision, with_time_zone } => plain(
            datetime_sql("timestamp", *precision, *with_time_zone),
            Ghost(before),
        ),
        PgTypeKind::Interval { precision } => plain(interval_sql(*precision), Ghost(before)),
        PgTypeKind::Uuid => plain(Ok("uuid".to_string()), Ghost(before)),
        PgTypeKind::Json => plain(Ok("json".to_string()), Ghost(before)),
        PgTypeKind::Jsonb => plain(Ok("jsonb".to_string()), Ghost(before)),
        PgTypeKind::Inet => plain(Ok("inet".to_string()), Ghost(before)),
        PgTypeKind::Cidr => plain(Ok("cidr".to_string()), Ghost(before)),
        PgTypeKind::MacAddr => plain(Ok("macaddr".to_string()), Ghost(before)),
        PgTypeKind::MacAddr8 => plain(Ok("macaddr8".to_string()), Ghost(before)),
        PgTypeKind::Bit { length, varying } => plain(bit_sql(*length, *varying), Ghost(before)),
        PgTypeKind::Xml => Err(
            unsupported_type(
                data_type,
                "XML is outside the verified current-state type contract",
            ),
        ),
        PgTypeKind::Enum { labels } => {
            if labels.len() == 0 {
                return Err(unsupported_type(data_type, "enum has no labels"));
            }
            if has_duplicates(labels) {
                return Err(unsupported_type(data_type, "enum has duplicate labels"));
            }
            let target_name = match QualifiedName::new(
                target_type_schema,
                data_type.name.name.as_str(),
            ) {
                Err(e) => return Err(SchemaError::Core(e)),
                Ok(name) => name,
            };
            let rendered_labels = match render_labels(labels) {
                Err(e) => return Err(SchemaError::Sql(e)),
                Ok(text) => text,
            };
            let quoted_target = match quote_qualified_name(&target_name) {
                Err(e) => return Err(SchemaError::Sql(e)),
                Ok(text) => text,
            };
            let mut create_sql = "CREATE TYPE ".to_string();
            create_sql.append(quoted_target.as_str());
            create_sql.append(" AS ENUM (");
            create_sql.append(rendered_labels.as_str());
            create_sql.append(")");
            let plan = UserTypePlan {
                name: target_name,
                create_sql,
                definition: UserTypeDefinition::Enum { labels: clone_texts(labels) },
            };
            let ghost added = plan@;
            prerequisites.push(plan);
            proof {
                assert(user_types(prerequisites@) =~= before + seq![added]);
            }
            Ok(quoted_target)
        },
        PgTypeKind::Domain { base, constraints } => {
            if constraints.len() > 0 {
                return Err(
                    unsupported_type(data_type, "raw domain constraints are not safe to replay"),
                );
            }
            let base_sql = match plan_type_inner(base, target_type_schema, prerequisites) {
                Err(e) => return Err(e),
                Ok(sql) => sql,
            };
            let ghost middle = user_types(prerequisites@);
            let target_name = match QualifiedName::new(
                target_type_schema,
                data_type.name.name.as_str(),
            ) {
                Err(e) => return Err(SchemaError::Core(e)),
                Ok(name) => name,
            };
            let quoted_target = match quote_qualified_name(&target_name) {
                Err(e) => return Err(SchemaError::Sql(e)),
                Ok(text) => text,
            };
            let mut create_sql = "CREATE DOMAIN ".to_string();
            create_sql.append(quoted_target.as_str());
            create_sql.append(" AS ");
            create_sql.append(base_sql.as_str());
            let plan = UserTypePlan {
                name: target_name,
                create_sql,
                definition: UserTypeDefinition::Domain { base_sql },
            };
            let ghost added = plan@;
            prerequisites.push(plan);
            proof {
                let model = type_model(**base, target_type_schema@)->Ok_0;
                assert(user_types(prerequisites@) =~= middle.push(added));
                assert(middle.push(added) =~= before + model.prerequisites.push(added));
            }
            Ok(quoted_target)
        },
        PgTypeKind::Array { element } => {
            match plan_type_inner(element, target_type_schema, prerequisites) {
                Err(e) => Err(e),
                Ok(sql) => {
                    let mut out = sql;
                    out.append("[]");
                    Ok(out)
                },
            }
        },
        PgTypeKind::Unsupported { reason } => Err(unsupported_type(data_type, reason.as_str())),
    }
}

/// Maps a source PostgreSQL type to an exact Cloudberry 2.1 DDL type.
///
/// User-defined enum and constraint-free domain types are recreated in the
/// mapped target schema and returned as prerequisite DDL.
pub fn plan_type(data_type: &PgType, target_type_schema: &str) -> (r: Result<TypePlan, SchemaError>)
    ensures
        match r {
            Ok(plan) => type_model(*data_type, target_type_schema@) == Ok::<TypeView, SchemaFault>(
                plan@,
            ),
            Err(e) => type_model(*data_type, target_type_schema@) == Err::<TypeView, SchemaFault>(
                e@,
            ),
        },
{
    let mut prerequisites: Vec<UserTypePlan> = Vec::new();
    match plan_type_inner(data_type, target_type_schema, &mut prerequisites) {
        Err(e) => Err(e),
        Ok(sql) => {
            proof {
                let model = type_model(*data_type, target_type_schema@)->Ok_0;
                assert(user_types(prerequisites@) =~= model.prerequisites);
            }
            Ok(TypePlan { sql, prerequisites })
        },
    }
}

// ---------------------------------------------------------------------------------------------
// Tables
// ---------------------------------------------------------------------------------------------

/// The first user type whose displayed name is `key`.
pub open spec fn find_type(list: Seq<UserTypeView>, key: Seq<char>) -> Option<UserTypeView>
    decreases list.len(),
{
    if list.len() == 0 {
        None
    } else if find_type(list.drop_last(), key) is Some {
        find_type(list.drop_last(), key)
    } else if list.last().name.text() == key {
        Some(list.last())
    } else {
        None
    }
}

/// The user types of a table with those of one more column; the displayed name of the first type
/// that is defined in two ways where there is one.
pub open spec fn merged(known: Seq<UserTypeView>, added: Seq<UserTypeView>) -> Result<
    Seq<UserTypeView>,
    Seq<char>,
>
    decreases added.len(),
{
    if added.len() == 0 {
        Ok(known)
    } else {
        match merged(known, added.drop_last()) {
            Err(key) => Err(key),
            Ok(list) => match find_type(list, added.last().name.text()) {
                None => Ok(list.push(added.last())),
                Some(existing) => if existing == added.last() {
                    Ok(list)
                } else {
                    Err(added.last().name.text())
                },
            },
        }
    }
}

impl UserTypePlan {
    /// Whether both plans create the same type in the same way.
    pub fn same(&self, other: &Self) -> (r: bool)
        ensures
            r == (self@ == other@),
    {
        self.name.same(&other.name) && same_text(
            self.create_sql.as_str(),
            other.create_sql.as_str(),
        ) && match (&self.definition, &other.definition) {
            (
                UserTypeDefinition::Enum { labels: a },
                UserTypeDefinition::Enum { labels: b },
            ) => same_texts(a, b),
            (
                UserTypeDefinition::Domain { base_sql: a },
                UserTypeDefinition::Domain { base_sql: b },
            ) => same_text(a.as_str(), b.as_str()),
            _ => false,
        }
    }
}

proof fn lemma_find_first(list: Seq<UserTypeView>, key: Seq<char>, at: int)
    requires
        0 <= at < list.len(),
        find_type(list.take(at), key) is None,
        list[at].name.text() == key,
    ensures
        find_type(list, key) == Some(list[at]),
    decreases list.len(),
{
    if at == list.len() - 1 {
        assert(list.drop_last() =~= list.take(at));
    } else {
        assert(list.drop_last().take(at) =~= list.take(at));
        lemma_find_first(list.drop_last(), key, at);
    }
}

/// The position of the first user type with the displayed name `key`.
fn position_of_type(list: &Vec<UserTypePlan>, key: &str) -> (r: Option<usize>)
    ensures
        match r {
            Some(at) => at < list.len() && find_type(user_types(list@), key@) == Some(
                list@[at as int]@,
            ),
            None => find_type(user_types(list@), key@) is None,
        },
{
    let ghost all = user_types(list@);
    let mut i: usize = 0;
    while i < list.len()
        invariant
            i <= list.len(),
            all == user_types(list@),
            find_type(all.take(i as int), key@) is None,
        decreases list.len() - i,
    {
        if same_text(list[i].name.display().as_str(), key) {
            proof {
                lemma_find_first(all, key@, i as int);
            }
            return Some(i);
        }
        proof {
            assert(all.take(i + 1).drop_last() =~= all.take(i as int));
        }
        i = i + 1;
    }
    proof {
        assert(all.take(i as int) =~= all);
    }
    None
}

/// Adds the user types of one column to those of the table.
fn merge_types(known: &mut Vec<UserTypePlan>, added: Vec<UserTypePlan>) -> (r: Result<(), String>)
    ensures
        match r {
            Ok(()) => merged(user_types(old(known)@), user_types(added@)) == Ok::<
                Seq<UserTypeView>,
                Seq<char>,
            >(user_types(final(known)@)),
            Err(key) => merged(user_types(old(known)@), user_types(added@)) == Err::<
                Seq<UserTypeView>,
                Seq<char>,
            >(key@),
        },
{
    let ghost start = user_types(known@);
    let ghost all = user_types(added@);
    let mut rest = added;
    let ghost mut done: int = 0;
    while rest.len() > 0
        invariant
            start == user_types(old(known)@),
            all == user_types(added@),
            0 <= done <= all.len(),
            user_types(rest@) == all.skip(done),
            rest.len() == all.len() - done,
            merged(start, all.take(done)) == Ok::<Seq<UserTypeView>, Seq<char>>(user_types(known@)),
        decreases rest.len(),
    {
        let next = rest.remove(0);
        proof {
            assert(next@ == all[done]) by {
                assert(all.skip(done)[0] == all[done]);
            }
            assert(user_types(rest@) =~= all.skip(done + 1)) by {
                assert forall|k: int| 0 <= k < rest@.len() implies user_types(rest@)[k] == all.skip(
                    done + 1,
                )[k] by {
                    assert(all.skip(done)[k + 1] == all[done + 1 + k]);
                }
            }
            assert(all.take(done + 1).drop_last() =~= all.take(done));
            assert(all.take(done + 1).last() == all[done]);
        }
        let key = next.name.display();
        match position_of_type(known, key.as_str()) {
            Some(at) => {
                if !known[at].same(&next) {
                    proof {
                        lemma_merge_conflict(start, all, done + 1, key@);
                    }
                    return Err(key);
                }
            },
            None => {
                let ghost before = user_types(known@);
                known.push(next);
                proof {
                    assert(user_types(known@) =~= before.push(all[done]));
                }
            },
        }
        proof {
            done = done + 1;
        }
    }
    proof {
        assert(all.take(done) =~= all);
    }
    Ok(())
}

/// A conflict found early stays the outcome.
proof fn lemma_merge_conflict(
    known: Seq<UserTypeView>,
    added: Seq<UserTypeView>,
    count: int,
    key: Seq<char>,
)
    requires
        0 <= count <= added.len(),
        merged(known, added.take(count)) == Err::<Seq<UserTypeView>, Seq<char>>(key),
    ensures
        merged(known, added) == Err::<Seq<UserTypeView>, Seq<char>>(key),
    decreases added.len(),
{
    if count == added.len() {
        assert(added.take(count) =~= added);
    } else {
        assert(added.drop_last().take(count) =~= added.take(count));
        lemma_merge_conflict(known, added.drop_last(), count, key);
    }
}

#[derive(Debug, Clone, PartialEq, Eq)]
pub struct ColumnPlan {
    pub source_attnum: i16,
    pub name: String,
    pub type_sql: String,
    pub nullable: bool,
    pub primary_key_ordinal: Option<u16>,
}

/// The model of a planned column.
pub struct ColumnView {
    pub source_attnum: i16,
    pub name: Seq<char>,
    pub type_sql: Seq<char>,
    pub nullable: bool,
    pub primary_key_ordinal: Option<u16>,
}

impl View for ColumnPlan {
    type V = ColumnView;

    open spec fn view(&self) -> ColumnView {
        ColumnView {
            source_attnum: self.source_attnum,
            name: self.name@,
            type_sql: self.type_sql@,
            nullable: self.nullable,
            primary_key_ordinal: self.primary_key_ordinal,
        }
    }
}

/// The models of a list of planned columns.
pub open spec fn column_views(list: Seq<ColumnPlan>) -> Seq<ColumnView> {
    Seq::new(list.len(), |i: int| list[i]@)
}

/// The ` COLLATE` clause of a column. Collations of the system catalog keep their schema; all
/// others are expected in the target schema.
pub open spec fn collation_model(column: ColumnSchema, schema: Seq<char>) -> Result<
    Seq<char>,
    SchemaFault,
> {
    match column.collation {
        None => Ok(""@),
        Some(source) => {
            let mapped = NameView { schema, name: source.name@ };
            if source.schema@ == "pg_catalog"@ {
                match name_render_fault(source@) {
                    Some(e) => Err(SchemaFault::Sql(e)),
                    None => Ok(" COLLATE "@ + quoted_name(source@)),
                }
            } else if mapped.fault() is Some {
                Err(SchemaFault::Core(mapped.fault()->0))
            } else {
                Ok(" COLLATE "@ + quoted_name(mapped))
            }
        },
    }
}

/// The planned columns of a table and the user types they need.
pub struct ColumnsView {
    pub columns: Seq<ColumnView>,
    pub types: Seq<UserTypeView>,
}

/// The plan of one more column behind those that are already planned.
pub open spec fn next_column(
    columns: Seq<ColumnSchema>,
    at: int,
    done: ColumnsView,
    schema: Seq<char>,
) -> Result<ColumnsView, SchemaFault> {
    let column = columns[at];
    if exists|k: int| 0 <= k < at && (#[trigger] columns[k]).name@ == column.name@ {
        Err(SchemaFault::DuplicateColumn(column.name@))
    } else if column.primary_key_ordinal is Some && (column.primary_key_ordinal->0 == 0 || exists|
        k: int,
    |
        0 <= k < at && (#[trigger] columns[k]).primary_key_ordinal == column.primary_key_ordinal) {
        Err(SchemaFault::InvalidPrimaryKeyOrdinal(column.primary_key_ordinal->0))
    } else if column.generated == GeneratedColumn::Virtual {
        Err(
            unsupported(
                column.data_type,
                "virtual generated columns cannot be materialized from pgoutput"@,
            ),
        )
    } else {
        match type_model(column.data_type, schema) {
            Err(f) => Err(f),
            Ok(mapped) => match merged(done.types, mapped.prerequisites) {
                Err(key) => Err(SchemaFault::ConflictingUserType(key)),
                Ok(types) => match collation_model(column, schema) {
                    Err(f) => Err(f),
                    Ok(collation) => Ok(
                        ColumnsView {
                            columns: done.columns.push(
                                ColumnView {
                                    source_attnum: column.attnum,
                                    name: column.name@,
                                    type_sql: mapped.sql + collation,
                                    nullable: column.nullable,
                                    primary_key_ordinal: column.primary_key_ordinal,
                                },
                            ),
                            types,
                        },
                    ),
                },
            },
        }
    }
}

/// The plan of the first `count` columns. The first column that fails decides the failure.
pub open spec fn columns_model(
    columns: Seq<ColumnSchema>,
    count: int,
    schema: Seq<char>,
) -> Result<ColumnsView, SchemaFault>
    decreases count,
{
    if count <= 0 {
        Ok(ColumnsView { columns: Seq::empty(), types: Seq::empty() })
    } else {
        match columns_model(columns, count - 1, schema) {
            Err(f) => Err(f),
            Ok(done) => next_column(columns, count - 1, done, schema),
        }
    }
}

/// The names of the key columns, by ascending ordinal.
pub open spec fn key_names(columns: Seq<ColumnSchema>) -> Seq<Seq<char>> {
    Seq::new(key_order(columns).len(), |i: int| columns[key_order(columns)[i]].name@)
}

/// The definition of one column inside `CREATE TABLE`.
pub open spec fn column_definition(column: ColumnView) -> Seq<char> {
    "    "@ + quoted(column.name) + " "@ + column.type_sql + (if column.nullable {
        ""@
    } else {
        " NOT NULL"@
    })
}

pub open spec fn create_table_text(
    target: NameView,
    columns: Seq<ColumnView>,
    primary_key: Seq<Seq<char>>,
    storage: TargetStorage,
) -> Seq<char> {
    let definitions = Seq::new(columns.len(), |i: int| column_definition(columns[i])).push(
        "    PRIMARY KEY ("@ + quoted_list(primary_key) + ")"@,
    );
    "CREATE TABLE "@ + quoted_name(target) + " (\n"@ + joined(definitions, ",\n"@) + "\n)\n"@
        + storage.clause()@ + "\nDISTRIBUTED BY ("@ + quoted_list(primary_key) + ")"@
}

/// The names of planned columns.
pub open spec fn column_names(columns: Seq<ColumnView>) -> Seq<Seq<char>> {
    Seq::new(columns.len(), |i: int| columns[i].name)
}

#[derive(Debug, Clone, PartialEq, Eq)]
pub struct CreateTablePlan {
    pub target: QualifiedName,
    pub storage: TargetStorage,
    pub columns: Vec<ColumnPlan>,
    pub primary_key: Vec<String>,
    pub distribution_key: Vec<String>,
    pub prerequisites: Vec<UserTypePlan>,
    pub create_sql: String,
}

/// The model of a planned table.
pub struct TableView {
    pub target: NameView,
    pub storage: TargetStorage,
    pub columns: Seq<ColumnView>,
    pub primary_key: Seq<Seq<char>>,
    pub distribution_key: Seq<Seq<char>>,
    pub prerequisites: Seq<UserTypeView>,
    pub create_sql: Seq<char>,
}

impl View for CreateTablePlan {
    type V = TableView;

    open spec fn view(&self) -> TableView {
        TableView {
            target: self.target@,
            storage: self.storage,
            columns: column_views(self.columns@),
            primary_key: texts(self.primary_key@),
            distribution_key: texts(self.distribution_key@),
            prerequisites: user_types(self.prerequisites@),
            create_sql: self.create_sql@,
        }
    }
}

impl ColumnPlan {
    /// Whether both plans create the same column.
    pub fn same(&self, other: &Self) -> (r: bool)
        ensures
            r == (self@ == other@),
    {
        let same_ordinal = match (self.primary_key_ordinal, other.primary_key_ordinal) {
            (None, None) => true,
            (Some(a), Some(b)) => a == b,
            _ => false,
        };
        same_ordinal && self.source_attnum == other.source_attnum && self.nullable
            == other.nullable && same_text(self.name.as_str(), other.name.as_str()) && same_text(
            self.type_sql.as_str(),
            other.type_sql.as_str(),
        )
    }
}

impl CreateTablePlan {
    fn same_columns(&self, other: &Self) -> (r: bool)
        ensures
            r == (self@.columns == other@.columns),
    {
        if self.columns.len() != other.columns.len() {
            proof {
                assert(self@.columns.len() != other@.columns.len());
            }
            return false;
        }
        let mut i: usize = 0;
        while i < self.columns.len()
            invariant
                i <= self.columns.len() == other.columns.len(),
                forall|k: int| 0 <= k < i ==> self@.columns[k] == #[trigger] other@.columns[k],
            decreases self.columns.len() - i,
        {
            if !self.columns[i].same(&other.columns[i]) {
                proof {
                    assert(self@.columns[i as int] != other@.columns[i as int]);
                }
                return false;
            }
            i = i + 1;
        }
        proof {
            assert(self@.columns =~= other@.columns);
        }
        true
    }

    fn same_prerequisites(&self, other: &Self) -> (r: bool)
        ensures
            r == (self@.prerequisites == other@.prerequisites),
    {
        if self.prerequisites.len() != other.prerequisites.len() {
            proof {
                assert(self@.prerequisites.len() != other@.prerequisites.len());
            }
            return false;
        }
        let mut i: usize = 0;
        while i < self.prerequisites.len()
            invariant
                i <= self.prerequisites.len() == other.prerequisites.len(),
                forall|k: int|
                    0 <= k < i ==> self@.prerequisites[k] == #[trigger] other@.prerequisites[k],
            decreases self.prerequisites.len() - i,
        {
            if !self.prerequisites[i].same(&other.prerequisites[i]) {
                proof {
                    assert(self@.prerequisites[i as int] != other@.prerequisites[i as int]);
                }
                return false;
            }
            i = i + 1;
        }
        proof {
            assert(self@.prerequisites =~= other@.prerequisites);
        }
        true
    }

    /// Whether both plans create the same table in the same way.
    pub fn same(&self, other: &Self) -> (r: bool)
        ensures
            r == (self@ == other@),
    {
        self.target.same(&other.target) && self.storage == other.storage && self.same_columns(
            other,
        ) && same_texts(&self.primary_key, &other.primary_key) && same_texts(
            &self.distribution_key,
            &other.distribution_key,
        ) && self.same_prerequisites(other) && same_text(
            self.create_sql.as_str(),
            other.create_sql.as_str(),
        )
    }
}

/// The plan of a business table: its columns in source order, distributed by the complete source
/// primary key.
pub open spec fn table_model(source: TableSchema, target: NameView, storage: TargetStorage) -> Result<
    TableView,
    SchemaFault,
> {
    let columns = source.columns@;
    if key_order(columns).len() == 0 {
        Err(SchemaFault::Core(CoreError::MissingPrimaryKey))
    } else if source.kind == TableKind::CitusReference {
        Err(SchemaFault::UnsupportedTableKind(source.kind))
    } else {
        match columns_model(columns, columns.len() as int, target.schema) {
            Err(f) => Err(f),
            Ok(planned) => if list_render_fault(column_names(planned.columns)) is Some {
                Err(SchemaFault::Sql(list_render_fault(column_names(planned.columns))->0))
            } else if name_render_fault(target) is Some {
                Err(SchemaFault::Sql(name_render_fault(target)->0))
            } else {
                Ok(
                    TableView {
                        target,
                        storage,
                        columns: planned.columns,
                        primary_key: key_names(columns),
                        distribution_key: key_names(columns),
                        prerequisites: planned.types,
                        create_sql: create_table_text(
                            target,
                            planned.columns,
                            key_names(columns),
                            storage,
                        ),
                    },
                )
            },
        }
    }
}

fn collation_sql(column: &ColumnSchema, schema: &str) -> (r: Result<String, SchemaError>)
    ensures
        renders(r, collation_model(*column, schema@)),
{
    match &column.collation {
        None => Ok("".to_string()),
        Some(source) => {
            let rendered = if same_text(source.schema.as_str(), "pg_catalog") {
                quote_qualified_name(source)
            } else {
                match QualifiedName::new(schema, source.name.as_str()) {
                    Err(e) => return Err(SchemaError::Core(e)),
                    Ok(mapped) => quote_qualified_name(&mapped),
                }
            };
            match rendered {
                Err(e) => Err(SchemaError::Sql(e)),
                Ok(name) => {
                    let mut out = " COLLATE ".to_string();
                    out.append(name.as_str());
                    Ok(out)
                },
            }
        },
    }
}

fn name_taken(columns: &Vec<ColumnSchema>, at: usize) -> (r: bool)
    requires
        at < columns.len(),
    ensures
        r == exists|k: int|
            0 <= k < at && (#[trigger] columns@[k]).name@ == columns@[at as int].name@,
{
    let mut k: usize = 0;
    while k < at
        invariant
            k <= at < columns.len(),
            forall|j: int| 0 <= j < k ==> (#[trigger] columns@[j]).name@ != columns@[at as int].name@,
        decreases at - k,
    {
        if same_text(columns[k].name.as_str(), columns[at].name.as_str()) {
            return true;
        }
        k = k + 1;
    }
    false
}

fn ordinal_taken(columns: &Vec<ColumnSchema>, at: usize, ordinal: u16) -> (r: bool)
    requires
        at <= columns.len(),
    ensures
        r == exists|k: int|
            0 <= k < at && (#[trigger] columns@[k]).primary_key_ordinal == Some(ordinal),
{
    let mut k: usize = 0;
    while k < at
        invariant
            k <= at <= columns.len(),
            forall|j: int|
                0 <= j < k ==> (#[trigger] columns@[j]).primary_key_ordinal != Some(ordinal),
        decreases at - k,
    {
        match columns[k].primary_key_ordinal {
            Some(other) => {
                if other == ordinal {
                    return true;
                }
            },
            None => {},
        }
        k = k + 1;
    }
    false
}

fn plan_column(
    columns: &Vec<ColumnSchema>,
    at: usize,
    schema: &str,
    planned: &mut Vec<ColumnPlan>,
    types: &mut Vec<UserTypePlan>,
) -> (r: Result<(), SchemaError>)
    requires
        at < columns.len(),
    ensures
        ({
            let before = ColumnsView {
                columns: column_views(old(planned)@),
                types: user_types(old(types)@),
            };
            let model = next_column(columns@, at as int, before, schema@);
            match r {
                Ok(()) => {
                    &&& model is Ok
                    &&& model->Ok_0.columns == column_views(final(planned)@)
                    &&& model->Ok_0.types == user_types(final(types)@)
                },
                Err(e) => model == Err::<ColumnsView, SchemaFault>(e@),
            }
        }),
{
    let column = &columns[at];
    if name_taken(columns, at) {
        return Err(SchemaError::DuplicateColumn(column.name.clone()));
    }
    match column.primary_key_ordinal {
        Some(ordinal) => {
            if ordinal == 0 || ordinal_taken(columns, at, ordinal) {
                return Err(SchemaError::InvalidPrimaryKeyOrdinal(ordinal));
            }
        },
        None => {},
    }
    if column.generated == GeneratedColumn::Virtual {
        return Err(
            unsupported_type(
                &column.data_type,
                "virtual generated columns cannot be materialized from pgoutput",
            ),
        );
    }
    let mapped = match plan_type(&column.data_type, schema) {
        Err(e) => return Err(e),
        Ok(mapped) => mapped,
    };
    match merge_types(types, mapped.prerequisites) {
        Err(key) => return Err(SchemaError::ConflictingUserType(key)),
        Ok(()) => {},
    }
    let collation = match collation_sql(column, schema) {
        Err(e) => return Err(e),
        Ok(text) => text,
    };
    let mut type_sql = mapped.sql;
    type_sql.append(collation.as_str());
    let plan = ColumnPlan {
        source_attnum: column.attnum,
        name: column.name.clone(),
        type_sql,
        nullable: column.nullable,
        primary_key_ordinal: column.primary_key_ordinal,
    };
    let ghost before = column_views(planned@);
    let ghost added = plan@;
    planned.push(plan);
    proof {
        assert(column_views(planned@) =~= before.push(added));
    }
    Ok(())
}

/// The first failure among the names of planned columns, if there is one.
fn check_column_names(columns: &Vec<ColumnPlan>) -> (r: Result<(), SqlRenderError>)
    ensures
        match r {
            Ok(()) => list_render_fault(column_names(column_views(columns@))) is None,
            Err(e) => list_render_fault(column_names(column_views(columns@))) == Some(e),
        },
{
    let mut names: Vec<String> = Vec::new();
    let mut i: usize = 0;
    while i < columns.len()
        invariant
            i <= columns.len(),
            names@.len() == i,
            forall|k: int| 0 <= k < i ==> (#[trigger] names@[k])@ == columns@[k].name@,
        decreases columns.len() - i,
    {
        names.push(columns[i].name.clone());
        i = i + 1;
    }
    proof {
        assert(texts(names@) =~= column_names(column_views(columns@)));
        lemma_list_renders(texts(names@));
    }
    match quote_identifier_list(&names) {
        Ok(_) => Ok(()),
        Err(e) => Err(e),
    }
}

fn render_create_table(
    target: &QualifiedName,
    columns: &Vec<ColumnPlan>,
    primary_key: &Vec<String>,
    storage: TargetStorage,
) -> (r: Result<String, SqlRenderError>)
    requires
        list_render_fault(column_names(column_views(columns@))) is None ==> all_quotable(
            texts(primary_key@),
        ),
    ensures
        ({
            let names = column_names(column_views(columns@));
            match r {
                Ok(text) => {
                    &&& list_render_fault(names) is None
                    &&& name_render_fault(target@) is None
                    &&& text@ == create_table_text(
                        target@,
                        column_views(columns@),
                        texts(primary_key@),
                        storage,
                    )
                },
                Err(e) => if list_render_fault(names) is Some {
                    list_render_fault(names) == Some(e)
                } else {
                    name_render_fault(target@) == Some(e)
                },
            }
        }),
{
    match check_column_names(columns) {
        Err(e) => return Err(e),
        Ok(()) => {},
    }
    let ghost views = column_views(columns@);
    let ghost parts = Seq::new(views.len(), |i: int| column_definition(views[i]));
    proof {
        lemma_list_renders(column_names(views));
        lemma_list_renders(texts(primary_key@));
    }
    let mut definitions = String::new();
    let mut i: usize = 0;
    while i < columns.len()
        invariant
            i <= columns.len(),
            views == column_views(columns@),
            parts == Seq::new(views.len(), |i: int| column_definition(views[i])),
            all_quotable(column_names(views)),
            definitions@ == joined(parts.take(i as int), ",\n"@),
        decreases columns.len() - i,
    {
        proof {
            assert(quotable(column_names(views)[i as int]));
            assert(parts.take(i + 1) =~= parts.take(i as int).push(parts[i as int]));
        }
        let mut part = "    ".to_string();
        part.append(quote_valid(columns[i].name.as_str()).as_str());
        part.append(" ");
        part.append(columns[i].type_sql.as_str());
        if columns[i].nullable {
            part.append("");
        } else {
            part.append(" NOT NULL");
        }
        append_joined(
            &mut definitions,
            i == 0,
            ",\n",
            part.as_str(),
            Ghost(parts.take(i as int)),
        );
        i = i + 1;
    }
    let quoted_key = match quote_identifier_list(primary_key) {
        Err(e) => return Err(e),
        Ok(text) => text,
    };
    let mut key_part = "    PRIMARY KEY (".to_string();
    key_part.append(quoted_key.as_str());
    key_part.append(")");
    proof {
        assert(parts.take(i as int) =~= parts);
    }
    append_joined(&mut definitions, columns.len() == 0, ",\n", key_part.as_str(), Ghost(parts));
    let quoted_target = match quote_qualified_name(target) {
        Err(e) => return Err(e),
        Ok(text) => text,
    };
    let mut out = "CREATE TABLE ".to_string();
    out.append(quoted_target.as_str());
    out.append(" (\n");
    out.append(definitions.as_str());
    out.append("\n)\n");
    out.append(storage.create_clause());
    out.append("\nDISTRIBUTED BY (");
    out.append(quoted_key.as_str());
    out.append(")");
    Ok(out)
}

fn key_name_list(source: &TableSchema) -> (r: Vec<String>)
    ensures
        texts(r@) == key_names(source.columns@),
{
    let order = source.key_positions();
    let mut out: Vec<String> = Vec::new();
    let mut i: usize = 0;
    while i < order.len()
        invariant
            i <= order.len(),
            out@.len() == i,
            positions(order@) == key_order(source.columns@),
            forall|k: int| 0 <= k < order@.len() ==> #[trigger] order@[k] < source.columns@.len(),
            forall|k: int|
                0 <= k < i ==> (#[trigger] out@[k])@ == source.columns@[positions(
                    order@,
                )[k]].name@,
        decreases order.len() - i,
    {
        out.push(source.columns[order[i]].name.clone());
        i = i + 1;
    }
    proof {
        assert(texts(out@) =~= key_names(source.columns@));
    }
    out
}

/// The planned columns carry the names, numbers and key ordinals of the source columns, in order.
pub proof fn lemma_columns_follow_source(
    columns: Seq<ColumnSchema>,
    count: int,
    schema: Seq<char>,
)
    requires
        0 <= count <= columns.len(),
        columns_model(columns, count, schema) is Ok,
    ensures
        ({
            let planned = columns_model(columns, count, schema)->Ok_0.columns;
            &&& planned.len() == count
            &&& forall|i: int|
                0 <= i < count ==> {
                    &&& (#[trigger] planned[i]).name == columns[i].name@
                    &&& planned[i].source_attnum == columns[i].attnum
                    &&& planned[i].nullable == columns[i].nullable
                    &&& planned[i].primary_key_ordinal == columns[i].primary_key_ordinal
                }
            &&& forall|i: int, j: int|
                0 <= i < j < count ==> (#[trigger] columns[i]).name@ != (
                #[trigger] columns[j]).name@
            &&& forall|i: int|
                0 <= i < count ==> (#[trigger] columns[i]).primary_key_ordinal != Some(0u16)
            &&& forall|i: int, j: int|
                0 <= i < j < count && (#[trigger] columns[i]).primary_key_ordinal is Some
                    ==> columns[i].primary_key_ordinal != (
                #[trigger] columns[j]).primary_key_ordinal
        }),
    decreases count,
{
    if count > 0 {
        lemma_columns_follow_source(columns, count - 1, schema);
    }
}

proof fn lemma_key_names_quotable(columns: Seq<ColumnSchema>, planned: Seq<ColumnView>)
    requires
        planned.len() == columns.len(),
        forall|i: int| 0 <= i < planned.len() ==> (#[trigger] planned[i]).name == columns[i].name@,
        all_quotable(column_names(planned)),
    ensures
        all_quotable(key_names(columns)),
{
    crate::source::law_key_order(columns, columns.len() as int);
    assert forall|i: int| 0 <= i < key_names(columns).len() implies quotable(
        #[trigger] key_names(columns)[i],
    ) by {
        let p = key_order(columns)[i];
        assert(key_order(columns).contains(p));
        assert(quotable(column_names(planned)[p]));
    }
}

/// Builds a business table with an explicit physical storage profile.
pub fn plan_create_table_with_storage(
    source: &TableSchema,
    target: QualifiedName,
    storage: TargetStorage,
) -> (r: Result<CreateTablePlan, SchemaError>)
    ensures
        match r {
            Ok(plan) => table_model(*source, target@, storage) == Ok::<TableView, SchemaFault>(
                plan@,
            ),
            Err(e) => table_model(*source, target@, storage) == Err::<TableView, SchemaFault>(e@),
        },
{
    match source.validate_supported() {
        Err(e) => return Err(SchemaError::Core(e)),
        Ok(()) => {},
    }
    match source.kind {
        TableKind::Ordinary | TableKind::CitusDistributed => {},
        other => return Err(SchemaError::UnsupportedTableKind(other)),
    }
    let mut columns: Vec<ColumnPlan> = Vec::new();
    let mut prerequisites: Vec<UserTypePlan> = Vec::new();
    proof {
        assert(column_views(columns@) =~= Seq::empty());
        assert(user_types(prerequisites@) =~= Seq::empty());
    }
    let mut i: usize = 0;
    while i < source.columns.len()
        invariant
            i <= source.columns.len(),
            key_order(source.columns@).len() > 0,
            source.kind != TableKind::CitusReference,
            columns_model(source.columns@, i as int, target.schema@) == Ok::<
                ColumnsView,
                SchemaFault,
            >(
                ColumnsView {
                    columns: column_views(columns@),
                    types: user_types(prerequisites@),
                },
            ),
        decreases source.columns.len() - i,
    {
        match plan_column(
            &source.columns,
            i,
            target.schema.as_str(),
            &mut columns,
            &mut prerequisites,
        ) {
            Err(e) => {
                proof {
                    lemma_first_column_fault(
                        source.columns@,
                        i + 1,
                        source.columns@.len() as int,
                        target.schema@,
                    );
                }
                return Err(e);
            },
            Ok(()) => {},
        }
        i = i + 1;
    }
    let primary_key = key_name_list(source);
    proof {
        let planned = column_views(columns@);
        lemma_columns_follow_source(
            source.columns@,
            source.columns@.len() as int,
            target.schema@,
        );
        lemma_list_renders(column_names(planned));
        if list_render_fault(column_names(planned)) is None {
            lemma_key_names_quotable(source.columns@, planned);
        }
    }
    match render_create_table(&target, &columns, &primary_key, storage) {
        Err(e) => Err(SchemaError::Sql(e)),
        Ok(create_sql) => Ok(
            CreateTablePlan {
                target,
                storage,
                columns,
                distribution_key: clone_texts(&primary_key),
                primary_key,
                prerequisites,
                create_sql,
            },
        ),
    }
}

/// The first column that fails decides the failure of the table.
proof fn lemma_first_column_fault(
    columns: Seq<ColumnSchema>,
    count: int,
    more: int,
    schema: Seq<char>,
)
    requires
        0 <= count <= more,
        columns_model(columns, count, schema) is Err,
    ensures
        columns_model(columns, more, schema) == columns_model(columns, count, schema),
    decreases more,
{
    if count < more {
        lemma_first_column_fault(columns, count, more - 1, schema);
    }
}

/// Builds a business table whose distribution key is the complete source PK.
pub fn plan_create_table(source: &TableSchema, target: QualifiedName) -> (r: Result<
    CreateTablePlan,
    SchemaError,
>)
    ensures
        match r {
            Ok(plan) => table_model(*source, target@, TargetStorage::AoColumn) == Ok::<
                TableView,
                SchemaFault,
            >(plan@),
            Err(e) => table_model(*source, target@, TargetStorage::AoColumn) == Err::<
                TableView,
                SchemaFault,
            >(e@),
        },
{
    plan_create_table_with_storage(source, target, TargetStorage::default())
}

/// What holds of every planned table.
pub open spec fn well_planned(table: TableView) -> bool {
    let names = column_names(table.columns);
    &&& table.primary_key.len() > 0
    &&& table.primary_key.no_duplicates()
    &&& table.distribution_key == table.primary_key
    &&& names.no_duplicates()
    &&& all_quotable(names)
    &&& all_quotable(table.primary_key)
    &&& name_render_fault(table.target) is None
    &&& forall|i: int|
        0 <= i < table.primary_key.len() ==> names.contains(#[trigger] table.primary_key[i])
    &&& forall|i: int|
        0 <= i < names.len() ==> (table.primary_key.contains(#[trigger] names[i])
            <==> table.columns[i].primary_key_ordinal is Some)
}

/// A planned table is distributed by its complete primary key; the key is not empty, names each
/// key column once and names nothing else; all names are distinct and can be quoted; and the
/// columns are those of the source in their order, with their numbers and key ordinals.
pub proof fn law_planned_table(source: TableSchema, target: NameView, storage: TargetStorage)
    requires
        table_model(source, target, storage) is Ok,
    ensures
        ({
            let table = table_model(source, target, storage)->Ok_0;
            &&& well_planned(table)
            &&& table.target == target
            &&& table.storage == storage
            &&& table.columns.len() == source.columns@.len()
            &&& forall|i: int|
                0 <= i < table.columns.len() ==> {
                    &&& (#[trigger] table.columns[i]).name == source.columns@[i].name@
                    &&& table.columns[i].source_attnum == source.columns@[i].attnum
                    &&& table.columns[i].nullable == source.columns@[i].nullable
                    &&& table.columns[i].primary_key_ordinal
                        == source.columns@[i].primary_key_ordinal
                }
        }),
{
    let columns = source.columns@;
    let table = table_model(source, target, storage)->Ok_0;
    let names = column_names(table.columns);
    let order = key_order(columns);
    lemma_columns_follow_source(columns, columns.len() as int, target.schema);
    lemma_list_renders(names);
    lemma_key_names_quotable(columns, table.columns);
    crate::source::law_key_order(columns, columns.len() as int);
    assert forall|i: int| 0 <= i < table.primary_key.len() implies names.contains(
        #[trigger] table.primary_key[i],
    ) by {
        assert(order.contains(order[i]));
        assert(names[order[i]] == table.primary_key[i]);
    }
    assert(table.primary_key.no_duplicates()) by {
        assert forall|i: int, j: int|
            0 <= i < table.primary_key.len() && 0 <= j < table.primary_key.len() && i
                != j implies table.primary_key[i] != table.primary_key[j] by {
            assert(order.contains(order[i]));
            assert(order.contains(order[j]));
            assert(order[i] != order[j]);
            if order[i] < order[j] {
                assert(columns[order[i]].name@ != columns[order[j]].name@);
            } else {
                assert(columns[order[j]].name@ != columns[order[i]].name@);
            }
        }
    }
    assert(names.no_duplicates()) by {
        assert forall|i: int, j: int|
            0 <= i < names.len() && 0 <= j < names.len() && i != j implies names[i]
            != names[j] by {
            if i < j {
                assert(columns[i].name@ != columns[j].name@);
            } else {
                assert(columns[j].name@ != columns[i].name@);
            }
        }
    }
    assert forall|i: int| 0 <= i < names.len() implies (table.primary_key.contains(
        #[trigger] names[i],
    ) <==> table.columns[i].primary_key_ordinal is Some) by {
        if table.columns[i].primary_key_ordinal is Some {
            assert(order.contains(i));
            let k = choose|k: int| 0 <= k < order.len() && order[k] == i;
            assert(table.primary_key[k] == names[i]);
        }
        if table.primary_key.contains(names[i]) {
            let k = choose|k: int|
                0 <= k < table.primary_key.len() && table.primary_key[k] == names[i];
            assert(order.contains(order[k]));
            assert(names[order[k]] == names[i]);
            assert(order[k] == i);
        }
    }
}

/// The key of a planned table names its columns by ascending ordinal.
pub proof fn law_the_key_follows_its_ordinals(
    source: TableSchema,
    target: NameView,
    storage: TargetStorage,
    i: int,
    j: int,
    p: int,
    q: int,
)
    requires
        table_model(source, target, storage) is Ok,
        0 <= i < j < table_model(source, target, storage)->Ok_0.primary_key.len(),
        0 <= p < source.columns@.len(),
        0 <= q < source.columns@.len(),
        source.columns@[p].name@ == table_model(source, target, storage)->Ok_0.primary_key[i],
        source.columns@[q].name@ == table_model(source, target, storage)->Ok_0.primary_key[j],
    ensures
        source.columns@[p].primary_key_ordinal is Some,
        source.columns@[q].primary_key_ordinal is Some,
        source.columns@[p].primary_key_ordinal->0 < source.columns@[q].primary_key_ordinal->0,
{
    let columns = source.columns@;
    let order = key_order(columns);
    lemma_columns_follow_source(columns, columns.len() as int, target.schema);
    crate::source::law_key_order(columns, columns.len() as int);
    let a = order[i];
    let b = order[j];
    assert(order.contains(a) && order.contains(b));
    assert(columns[a].name@ == columns[p].name@);
    assert(columns[b].name@ == columns[q].name@);
    assert(a == p) by {
        if a < p {
            assert(columns[a].name@ != columns[p].name@);
        }
        if p < a {
            assert(columns[p].name@ != columns[a].name@);
        }
    }
    assert(b == q) by {
        if b < q {
            assert(columns[b].name@ != columns[q].name@);
        }
        if q < b {
            assert(columns[q].name@ != columns[b].name@);
        }
    }
    assert(crate::source::ordinal_of(columns[a]) <= crate::source::ordinal_of(columns[b]));
    if a < b {
        assert(columns[a].primary_key_ordinal != columns[b].primary_key_ordinal);
    } else {
        assert(a != b);
        assert(columns[b].primary_key_ordinal != columns[a].primary_key_ordinal);
    }
}

/// The type of a planned column is the target text of its source type in the target's schema,
/// followed by its collation where it has one. A collation of the system catalog keeps its schema;
/// any other one is taken from the target's schema.
pub proof fn law_planned_column_types(
    source: TableSchema,
    target: NameView,
    storage: TargetStorage,
    at: int,
)
    requires
        table_model(source, target, storage) is Ok,
        0 <= at < source.columns@.len(),
    ensures
        ({
            let column = source.columns@[at];
            let planned = table_model(source, target, storage)->Ok_0.columns[at];
            let mapped = type_model(column.data_type, target.schema);
            &&& mapped is Ok
            &&& column.generated != GeneratedColumn::Virtual
            &&& column.collation is None ==> planned.type_sql == mapped->Ok_0.sql
            &&& column.collation matches Some(collation) ==> {
                &&& collation.schema@ == "pg_catalog"@ ==> planned.type_sql == mapped->Ok_0.sql
                    + " COLLATE "@ + quoted_name(collation@)
                &&& collation.schema@ != "pg_catalog"@ ==> planned.type_sql == mapped->Ok_0.sql
                    + " COLLATE "@ + quoted_name(
                    NameView { schema: target.schema, name: collation.name@ },
                )
            }
        }),
{
    lemma_column_planned(source.columns@, source.columns@.len() as int, target.schema, at);
    let column = source.columns@[at];
    let mapped = type_model(column.data_type, target.schema)->Ok_0;
    reveal_strlit("");
    assert(mapped.sql + ""@ =~= mapped.sql);
    if column.collation is Some {
        let collation = column.collation->0;
        let kept = quoted_name(collation@);
        let taken = quoted_name(NameView { schema: target.schema, name: collation.name@ });
        assert(mapped.sql + (" COLLATE "@ + kept) =~= mapped.sql + " COLLATE "@ + kept);
        assert(mapped.sql + (" COLLATE "@ + taken) =~= mapped.sql + " COLLATE "@ + taken);
    }
}

proof fn lemma_column_planned(
    columns: Seq<ColumnSchema>,
    count: int,
    schema: Seq<char>,
    at: int,
)
    requires
        0 <= at < count <= columns.len(),
        columns_model(columns, count, schema) is Ok,
    ensures
        ({
            let planned = columns_model(columns, count, schema)->Ok_0.columns;
            &&& planned.len() == count
            &&& type_model(columns[at].data_type, schema) is Ok
            &&& collation_model(columns[at], schema) is Ok
            &&& columns[at].generated != GeneratedColumn::Virtual
            &&& planned[at].type_sql == type_model(columns[at].data_type, schema)->Ok_0.sql
                + collation_model(columns[at], schema)->Ok_0
        }),
    decreases count,
{
    lemma_columns_follow_source(columns, count, schema);
    lemma_columns_follow_source(columns, count - 1, schema);
    if at < count - 1 {
        lemma_column_planned(columns, count - 1, schema, at);
    }
}

/// A table of types that need no user type is planned exactly where it has a key, is no reference
/// table, names no column and no key ordinal twice, counts ordinals from one, has no virtual
/// column, and its types, collations and names can be written.
pub proof fn law_which_tables_are_planned(
    source: TableSchema,
    target: NameView,
    storage: TargetStorage,
)
    requires
        forall|i: int|
            0 <= i < source.columns@.len() ==> (type_model(
                (#[trigger] source.columns@[i]).data_type,
                target.schema,
            ) matches Ok(mapped) ==> mapped.prerequisites.len() == 0),
    ensures
        table_model(source, target, storage) is Ok <==> {
            let columns = source.columns@;
            &&& exists|i: int|
                0 <= i < columns.len() && (#[trigger] columns[i]).primary_key_ordinal is Some
            &&& source.kind != TableKind::CitusReference
            &&& forall|i: int, j: int|
                0 <= i < j < columns.len() ==> (#[trigger] columns[i]).name@ != (
                #[trigger] columns[j]).name@
            &&& forall|i: int|
                0 <= i < columns.len() ==> (#[trigger] columns[i]).primary_key_ordinal != Some(0u16)
            &&& forall|i: int, j: int|
                0 <= i < j < columns.len() && (#[trigger] columns[i]).primary_key_ordinal is Some
                    ==> columns[i].primary_key_ordinal != (#[trigger] columns[j]).primary_key_ordinal
            &&& forall|i: int|
                0 <= i < columns.len() ==> {
                    &&& (#[trigger] columns[i]).generated != GeneratedColumn::Virtual
                    &&& type_model(columns[i].data_type, target.schema) is Ok
                    &&& collation_model(columns[i], target.schema) is Ok
                    &&& columns[i].name@.len() > 0
                    &&& !columns[i].name@.contains('\0')
                }
            &&& name_render_fault(target) is None
        },
{
    let columns = source.columns@;
    let count = columns.len() as int;
    let order = key_order(columns);
    crate::source::law_key_order(columns, count);
    assert(order.len() > 0 <==> exists|i: int|
        0 <= i < columns.len() && (#[trigger] columns[i]).primary_key_ordinal is Some) by {
        if order.len() > 0 {
            assert(order.contains(order[0]));
            assert(columns[order[0]].primary_key_ordinal is Some);
        }
        if exists|i: int|
            0 <= i < columns.len() && (#[trigger] columns[i]).primary_key_ordinal is Some {
            let i = choose|i: int|
                0 <= i < columns.len() && (#[trigger] columns[i]).primary_key_ordinal is Some;
            assert(order.contains(i));
        }
    }
    lemma_which_columns_are_planned(columns, count, target.schema);
    if columns_model(columns, count, target.schema) is Ok {
        let planned = columns_model(columns, count, target.schema)->Ok_0.columns;
        lemma_columns_follow_source(columns, count, target.schema);
        let names = column_names(planned);
        lemma_list_renders(names);
        assert(all_quotable(names) <==> forall|i: int|
            0 <= i < columns.len() ==> (#[trigger] columns[i]).name@.len() > 0
                && !columns[i].name@.contains('\0')) by {
            assert forall|i: int| 0 <= i < columns.len() implies names[i] == (
            #[trigger] columns[i]).name@ by {
                assert(planned[i].name == columns[i].name@);
            }
            if all_quotable(names) {
                assert forall|i: int| 0 <= i < columns.len() implies (
                #[trigger] columns[i]).name@.len() > 0 && !columns[i].name@.contains('\0') by {
                    assert(quotable(names[i]));
                }
            }
            if forall|i: int|
                0 <= i < columns.len() ==> (#[trigger] columns[i]).name@.len() > 0
                    && !columns[i].name@.contains('\0') {
                assert forall|i: int| 0 <= i < names.len() implies quotable(
                    #[trigger] names[i],
                ) by {
                    assert(names[i] == columns[i].name@);
                }
            }
        }
    }
}

proof fn lemma_which_columns_are_planned(columns: Seq<ColumnSchema>, count: int, schema: Seq<char>)
    requires
        0 <= count <= columns.len(),
        forall|i: int|
            0 <= i < columns.len() ==> (type_model((#[trigger] columns[i]).data_type, schema) matches Ok(
                mapped,
            ) ==> mapped.prerequisites.len() == 0),
    ensures
        columns_model(columns, count, schema) is Ok <==> {
            &&& forall|i: int, j: int|
                0 <= i < j < count ==> (#[trigger] columns[i]).name@ != (
                #[trigger] columns[j]).name@
            &&& forall|i: int|
                0 <= i < count ==> (#[trigger] columns[i]).primary_key_ordinal != Some(0u16)
            &&& forall|i: int, j: int|
                0 <= i < j < count && (#[trigger] columns[i]).primary_key_ordinal is Some
                    ==> columns[i].primary_key_ordinal != (#[trigger] columns[j]).primary_key_ordinal
            &&& forall|i: int|
                0 <= i < count ==> {
                    &&& (#[trigger] columns[i]).generated != GeneratedColumn::Virtual
                    &&& type_model(columns[i].data_type, schema) is Ok
                    &&& collation_model(columns[i], schema) is Ok
                }
        },
    decreases count,
{
    if count > 0 {
        lemma_which_columns_are_planned(columns, count - 1, schema);
        let last = columns[count - 1];
        if columns_model(columns, count, schema) is Ok {
            lemma_columns_follow_source(columns, count, schema);
        } else if columns_model(columns, count - 1, schema) is Ok {
            if exists|k: int| 0 <= k < count - 1 && (#[trigger] columns[k]).name@ == last.name@ {
                let k = choose|k: int|
                    0 <= k < count - 1 && (#[trigger] columns[k]).name@ == last.name@;
                assert(columns[k].name@ == columns[count - 1].name@);
            } else if last.primary_key_ordinal is Some && exists|k: int|
                0 <= k < count - 1 && (#[trigger] columns[k]).primary_key_ordinal
                    == last.primary_key_ordinal {
                let k = choose|k: int|
                    0 <= k < count - 1 && (#[trigger] columns[k]).primary_key_ordinal
                        == last.primary_key_ordinal;
                assert(columns[k].primary_key_ordinal == columns[count - 1].primary_key_ordinal);
            }
        }
    }
}

/// The text that creates a planned table: the quoted name, one line for each column in order that
/// ends in NOT NULL exactly where the column is not nullable, the primary key, the storage options
/// and the distribution by the same key.
pub proof fn law_create_table_text(source: TableSchema, target: NameView, storage: TargetStorage)
    requires
        table_model(source, target, storage) is Ok,
    ensures
        ({
            let table = table_model(source, target, storage)->Ok_0;
            let key = joined(
                Seq::new(table.primary_key.len(), |i: int| quoted(table.primary_key[i])),
                ", "@,
            );
            let lines = Seq::new(
                table.columns.len(),
                |i: int|
                    if source.columns@[i].nullable {
                        "    "@ + quoted(source.columns@[i].name@) + " "@
                            + table.columns[i].type_sql
                    } else {
                        "    "@ + quoted(source.columns@[i].name@) + " "@
                            + table.columns[i].type_sql + " NOT NULL"@
                    },
            );
            table.create_sql == "CREATE TABLE "@ + quoted_name(target) + " (\n"@ + joined(
                lines.push("    PRIMARY KEY ("@ + key + ")"@),
                ",\n"@,
            ) + "\n)\n"@ + storage.clause()@ + "\nDISTRIBUTED BY ("@ + key + ")"@
        }),
{
    law_planned_table(source, target, storage);
    reveal_strlit("");
    let table = table_model(source, target, storage)->Ok_0;
    let keys = table.primary_key;
    let bare = Seq::new(keys.len(), |i: int| quoted(keys[i]));
    let plain = Seq::new(keys.len(), |i: int| ""@ + quoted(keys[i]) + ""@);
    assert forall|i: int| 0 <= i < keys.len() implies plain[i] == bare[i] by {
        assert(""@ + quoted(keys[i]) + ""@ =~= quoted(keys[i]));
    }
    assert(plain =~= bare);
    let lines = Seq::new(
        table.columns.len(),
        |i: int|
            if source.columns@[i].nullable {
                "    "@ + quoted(source.columns@[i].name@) + " "@ + table.columns[i].type_sql
            } else {
                "    "@ + quoted(source.columns@[i].name@) + " "@ + table.columns[i].type_sql
                    + " NOT NULL"@
            },
    );
    let definitions = Seq::new(table.columns.len(), |i: int| column_definition(table.columns[i]));
    assert forall|i: int| 0 <= i < lines.len() implies lines[i] == definitions[i] by {
        let column = table.columns[i];
        assert(column.name == source.columns@[i].name@);
        assert(column.nullable == source.columns@[i].nullable);
        let text = "    "@ + quoted(column.name) + " "@ + column.type_sql;
        assert(text + ""@ =~= text);
    }
    assert(lines =~= definitions);
}

/// A type that is known is kept, one that is new is added behind the others, and one whose name is
/// known with another definition is refused.
pub proof fn law_user_types_are_merged(known: Seq<UserTypeView>, added: UserTypeView)
    ensures
        find_type(known, added.name.text()) is None ==> merged(known, seq![added]) == Ok::<
            Seq<UserTypeView>,
            Seq<char>,
        >(known.push(added)),
        find_type(known, added.name.text()) == Some(added) ==> merged(known, seq![added]) == Ok::<
            Seq<UserTypeView>,
            Seq<char>,
        >(known),
        find_type(known, added.name.text()) matches Some(other) && other != added ==> merged(
            known,
            seq![added],
        ) == Err::<Seq<UserTypeView>, Seq<char>>(added.name.text()),
        merged(known, Seq::empty()) == Ok::<Seq<UserTypeView>, Seq<char>>(known),
{
    assert(seq![added].drop_last() =~= Seq::empty());
    assert(merged(known, Seq::empty()) == Ok::<Seq<UserTypeView>, Seq<char>>(known));
}

/// A merged list keeps every known type and holds every added one, and nothing else.
pub proof fn law_merged_types(known: Seq<UserTypeView>, added: Seq<UserTypeView>)
    requires
        merged(known, added) is Ok,
    ensures
        known.is_prefix_of(merged(known, added)->Ok_0),
        forall|t: UserTypeView|
            #[trigger] merged(known, added)->Ok_0.contains(t) <==> known.contains(t)
                || added.contains(t),
    decreases added.len(),
{
    let all = merged(known, added)->Ok_0;
    if added.len() > 0 {
        let front = added.drop_last();
        let last = added.last();
        law_merged_types(known, front);
        let list = merged(known, front)->Ok_0;
        match find_type(list, last.name.text()) {
            Some(_) => {
                lemma_found_type(list, last.name.text());
                assert(list.contains(last));
            },
            None => {},
        }
        assert forall|t: UserTypeView| #[trigger] all.contains(t) <==> known.contains(t)
            || added.contains(t) by {
            if added.contains(t) {
                let i = choose|i: int| 0 <= i < added.len() && added[i] == t;
                if i < front.len() {
                    assert(front[i] == t);
                    assert(list.contains(t));
                    let k = choose|k: int| 0 <= k < list.len() && list[k] == t;
                    assert(all[k] == t);
                } else if all.len() > list.len() {
                    assert(all[list.len() as int] == t);
                }
            }
            if known.contains(t) {
                let k = choose|k: int| 0 <= k < known.len() && known[k] == t;
                assert(all[k] == t);
            }
            if all.contains(t) {
                let k = choose|k: int| 0 <= k < all.len() && all[k] == t;
                if k < list.len() {
                    assert(list[k] == t);
                    assert(list.contains(t));
                    if front.contains(t) {
                        let i = choose|i: int| 0 <= i < front.len() && front[i] == t;
                        assert(added[i] == t);
                    }
                } else {
                    assert(added[added.len() - 1] == t);
                }
            }
        }
    }
}

/// A found type stands in the list under its name, and no type is found only where none has it.
pub proof fn lemma_found_type(list: Seq<UserTypeView>, key: Seq<char>)
    ensures
        find_type(list, key) matches Some(found) ==> list.contains(found) && found.name.text()
            == key,
        find_type(list, key) is None ==> forall|i: int|
            0 <= i < list.len() ==> (#[trigger] list[i]).name.text() != key,
    decreases list.len(),
{
    if list.len() > 0 {
        let front = list.drop_last();
        lemma_found_type(front, key);
        match find_type(list, key) {
            Some(found) => {
                if find_type(front, key) is Some {
                    let k = choose|k: int| 0 <= k < front.len() && front[k] == found;
                    assert(list[k] == found);
                } else {
                    assert(list[list.len() - 1] == found);
                }
            },
            None => {
                assert forall|i: int| 0 <= i < list.len() implies (#[trigger] list[i]).name.text()
                    != key by {
                    if i < front.len() {
                        assert(front[i] == list[i]);
                    }
                }
            },
        }
    }
}

/// An enum is planned exactly where it has labels, none twice and none with NUL, and its name is
/// valid in the target's schema; a domain exactly where it carries no constraint, its base is
/// planned and its name is valid; an array exactly where its element is. XML is never planned.
pub proof fn law_which_user_types_are_planned(data_type: PgType, schema: Seq<char>)
    ensures
        data_type.kind matches PgTypeKind::Enum { labels } ==> (type_model(data_type, schema)
            is Ok <==> {
            &&& labels@.len() > 0
            &&& texts(labels@).no_duplicates()
            &&& forall|i: int|
                0 <= i < labels@.len() ==> !(#[trigger] texts(labels@)[i]).contains('\0')
            &&& (NameView { schema, name: data_type.name.name@ }).fault() is None
        }),
        data_type.kind matches PgTypeKind::Domain { base, constraints } ==> (type_model(
            data_type,
            schema,
        ) is Ok <==> {
            &&& constraints@.len() == 0
            &&& type_model(*base, schema) is Ok
            &&& (NameView { schema, name: data_type.name.name@ }).fault() is None
        }),
        data_type.kind matches PgTypeKind::Array { element } ==> (type_model(data_type, schema)
            is Ok <==> type_model(*element, schema) is Ok),
        data_type.kind is Xml || data_type.kind is Unsupported ==> type_model(data_type, schema)
            is Err,
{
}

/// What is created for a user type: an enum with its labels in order, or a domain over its base
/// behind the types that the base needs. Either is written by its name in the target's schema, and
/// an array by its element and a pair of brackets.
pub proof fn law_planned_user_types(data_type: PgType, schema: Seq<char>)
    requires
        type_model(data_type, schema) is Ok,
    ensures
        ({
            let plan = type_model(data_type, schema)->Ok_0;
            let name = NameView { schema, name: data_type.name.name@ };
            &&& data_type.kind matches PgTypeKind::Enum { labels } ==> {
                &&& plan.sql == quoted_name(name)
                &&& plan.prerequisites.len() == 1
                &&& plan.prerequisites[0].name == name
                &&& plan.prerequisites[0].definition == (DefinitionView::Enum {
                    labels: texts(labels@),
                })
                &&& plan.prerequisites[0].create_sql == "CREATE TYPE "@ + quoted_name(name)
                    + " AS ENUM ("@ + joined(
                    Seq::new(labels@.len(), |i: int| literal(labels@[i]@)),
                    ", "@,
                ) + ")"@
            }
            &&& data_type.kind matches PgTypeKind::Domain { base, constraints } ==> {
                let inner = type_model(*base, schema)->Ok_0;
                &&& plan.sql == quoted_name(name)
                &&& plan.prerequisites.len() == inner.prerequisites.len() + 1
                &&& plan.prerequisites.drop_last() == inner.prerequisites
                &&& plan.prerequisites.last().name == name
                &&& plan.prerequisites.last().definition == (DefinitionView::Domain {
                    base_sql: inner.sql,
                })
                &&& plan.prerequisites.last().create_sql == "CREATE DOMAIN "@ + quoted_name(name)
                    + " AS "@ + inner.sql
            }
            &&& data_type.kind matches PgTypeKind::Array { element } ==> {
                let inner = type_model(*element, schema)->Ok_0;
                &&& plan.sql == inner.sql + "[]"@
                &&& plan.prerequisites == inner.prerequisites
            }
        }),
{
    let plan = type_model(data_type, schema)->Ok_0;
    match data_type.kind {
        PgTypeKind::Enum { labels } => {
            assert(Seq::new(labels@.len(), |i: int| literal(labels@[i]@)) =~= Seq::new(
                texts(labels@).len(),
                |i: int| literal(texts(labels@)[i]),
            ));
        },
        PgTypeKind::Domain { base, constraints } => {
            let inner = type_model(*base, schema)->Ok_0;
            assert(plan.prerequisites.drop_last() =~= inner.prerequisites);
        },
        _ => {},
    }
}

/// A table that is planned without a storage is planned append-optimized by column.
pub proof fn law_the_storage_that_is_planned_by_default(
    source: TableSchema,
    target: QualifiedName,
    plain: Result<CreateTablePlan, SchemaError>,
    stored: Result<CreateTablePlan, SchemaError>,
)
    requires
        call_ensures(plan_create_table, (&source, target), plain),
        call_ensures(
            plan_create_table_with_storage,
            (&source, target, TargetStorage::AoColumn),
            stored,
        ),
    ensures
        plain is Ok <==> stored is Ok,
        plain matches Ok(plan) ==> plan@ == stored->Ok_0@,
        plain matches Err(e) ==> e@ == stored->Err_0@,
{
}

} // verus!
