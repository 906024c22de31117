//! How PostgreSQL reads the name of a built-in type, and that the planned names read back.

use crate::schema::{datetime_text, type_model, SchemaFault};
use crate::source::{PgType, PgTypeKind};
use crate::text::{decimal, law_digits_read_back, lemma_decimal_digits, number_of};
use vstd::prelude::*;

verus! {

/// The built-in types, as their names without modifiers tell them apart.
#[allow(inconsistent_fields)]
#[derive(Debug, Clone, Copy, PartialEq, Eq)]
pub enum BaseType {
    Boolean,
    SmallInt,
    Integer,
    BigInt,
    Numeric,
    Real,
    DoublePrecision,
    Text,
    CharacterVarying,
    Character,
    Bytea,
    Date,
    TimeWithZone,
    TimeWithoutZone,
    TimestampWithZone,
    TimestampWithoutZone,
    Interval,
    Uuid,
    Json,
    Jsonb,
    Inet,
    Cidr,
    MacAddr,
    MacAddr8,
    Bit,
    BitVarying,
}

/// What the name of a type says: the type and the numbers between its parentheses.
#[verifier::ext_equal]
pub struct TypeName {
    pub base: BaseType,
    pub modifiers: Seq<nat>,
}

/// The type of a name without modifiers.
pub open spec fn base_of(words: Seq<char>) -> Option<BaseType> {
    if words == "boolean"@ {
        Some(BaseType::Boolean)
    } else if words == "smallint"@ {
        Some(BaseType::SmallInt)
    } else if words == "integer"@ {
        Some(BaseType::Integer)
    } else if words == "bigint"@ {
        Some(BaseType::BigInt)
    } else if words == "numeric"@ {
        Some(BaseType::Numeric)
    } else if words == "real"@ {
        Some(BaseType::Real)
    } else if words == "double precision"@ {
        Some(BaseType::DoublePrecision)
    } else if words == "text"@ {
        Some(BaseType::Text)
    } else if words == "character varying"@ {
        Some(BaseType::CharacterVarying)
    } else if words == "character"@ {
        Some(BaseType::Character)
    } else if words == "bytea"@ {
        Some(BaseType::Bytea)
    } else if words == "date"@ {
        Some(BaseType::Date)
    } else if words == "time with time zone"@ {
        Some(BaseType::TimeWithZone)
    } else if words == "time without time zone"@ {
        Some(BaseType::TimeWithoutZone)
    } else if words == "timestamp with time zone"@ {
        Some(BaseType::TimestampWithZone)
    } else if words == "timestamp without time zone"@ {
        Some(BaseType::TimestampWithoutZone)
    } else if words == "interval"@ {
        Some(BaseType::Interval)
    } else if words == "uuid"@ {
        Some(BaseType::Uuid)
    } else if words == "json"@ {
        Some(BaseType::Json)
    } else if words == "jsonb"@ {
        Some(BaseType::Jsonb)
    } else if words == "inet"@ {
        Some(BaseType::Inet)
    } else if words == "cidr"@ {
        Some(BaseType::Cidr)
    } else if words == "macaddr"@ {
        Some(BaseType::MacAddr)
    } else if words == "macaddr8"@ {
        Some(BaseType::MacAddr8)
    } else if words == "bit"@ {
        Some(BaseType::Bit)
    } else if words == "bit varying"@ {
        Some(BaseType::BitVarying)
    } else {
        None
    }
}

/// The place of the first character `c` from `from` on, or the length where there is none.
pub open spec fn place_of(text: Seq<char>, c: char, from: int) -> int
    decreases text.len() - from,
{
    if from >= text.len() {
        text.len() as int
    } else if text[from] == c {
        from
    } else {
        place_of(text, c, from + 1)
    }
}

/// The numbers of a list that is separated by commas.
pub open spec fn numbers_in(list: Seq<char>) -> Option<Seq<nat>>
    decreases list.len(),
{
    let comma = place_of(list, ',', 0);
    if comma < 0 || comma >= list.len() {
        match number_of(list, 10) {
            Some(n) => Some(seq![n]),
            None => None,
        }
    } else {
        match (number_of(list.take(comma), 10), numbers_in(list.skip(comma + 1))) {
            (Some(n), Some(rest)) => Some(seq![n] + rest),
            _ => None,
        }
    }
}

/// Reads the name of a type: what stands between the parentheses are its modifiers, and the rest
/// names the type.
pub open spec fn read_type_name(text: Seq<char>) -> Option<TypeName> {
    let opening = place_of(text, '(', 0);
    if opening >= text.len() {
        match base_of(text) {
            Some(base) => Some(TypeName { base, modifiers: Seq::empty() }),
            None => None,
        }
    } else {
        let closing = place_of(text, ')', opening);
        if closing >= text.len() {
            None
        } else {
            match (
                base_of(text.take(opening) + text.skip(closing + 1)),
                numbers_in(text.subrange(opening + 1, closing)),
            ) {
                (Some(base), Some(modifiers)) => Some(TypeName { base, modifiers }),
                _ => None,
            }
        }
    }
}

/// What the name of a source type says, for the built-in ones.
pub open spec fn name_of_kind(kind: PgTypeKind) -> Option<TypeName> {
    let plain = |base: BaseType| Some(TypeName { base, modifiers: Seq::<nat>::empty() });
    match kind {
        PgTypeKind::Bool => plain(BaseType::Boolean),
        PgTypeKind::Int2 => plain(BaseType::SmallInt),
        PgTypeKind::Int4 => plain(BaseType::Integer),
        PgTypeKind::Int8 => plain(BaseType::BigInt),
        PgTypeKind::Numeric { precision, scale } => Some(
            TypeName {
                base: BaseType::Numeric,
                modifiers: match (precision, scale) {
                    (Some(p), Some(s)) => seq![p as nat, s as nat],
                    (Some(p), None) => seq![p as nat],
                    _ => Seq::empty(),
                },
            },
        ),
        PgTypeKind::Float4 => plain(BaseType::Real),
        PgTypeKind::Float8 => plain(BaseType::DoublePrecision),
        PgTypeKind::Text => plain(BaseType::Text),
        PgTypeKind::VarChar { length } => Some(
            TypeName { base: BaseType::CharacterVarying, modifiers: sized(length) },
        ),
        PgTypeKind::Char { length } => Some(
            TypeName { base: BaseType::Character, modifiers: sized(length) },
        ),
        PgTypeKind::Bytea => plain(BaseType::Bytea),
        PgTypeKind::Date => plain(BaseType::Date),
        PgTypeKind::Time { precision, with_time_zone } => Some(
            TypeName {
                base: if with_time_zone {
                    BaseType::TimeWithZone
                } else {
                    BaseType::TimeWithoutZone
                },
                modifiers: precise(precision),
            },
        ),
        PgTypeKind::Timestamp { precision, with_time_zone } => Some(
            TypeName {
                base: if with_time_zone {
                    BaseType::TimestampWithZone
                } else {
                    BaseType::TimestampWithoutZone
                },
                modifiers: precise(precision),
            },
        ),
        PgTypeKind::Interval { precision } => Some(
            TypeName { base: BaseType::Interval, modifiers: precise(precision) },
        ),
        PgTypeKind::Uuid => plain(BaseType::Uuid),
        PgTypeKind::Json => plain(BaseType::Json),
        PgTypeKind::Jsonb => plain(BaseType::Jsonb),
        PgTypeKind::Inet => plain(BaseType::Inet),
        PgTypeKind::Cidr => plain(BaseType::Cidr),
        PgTypeKind::MacAddr => plain(BaseType::MacAddr),
        PgTypeKind::MacAddr8 => plain(BaseType::MacAddr8),
        PgTypeKind::Bit { length, varying } => Some(
            TypeName {
                base: if varying {
                    BaseType::BitVarying
                } else {
                    BaseType::Bit
                },
                modifiers: sized(length),
            },
        ),
        _ => None,
    }
}

/// The modifiers that an optional length gives.
pub open spec fn sized(length: Option<u32>) -> Seq<nat> {
    match length {
        None => Seq::empty(),
        Some(n) => seq![n as nat],
    }
}

/// The modifiers that an optional precision gives.
pub open spec fn precise(precision: Option<u8>) -> Seq<nat> {
    match precision {
        None => Seq::empty(),
        Some(n) => seq![n as nat],
    }
}

/// The character occurs nowhere in the text.
pub open spec fn lacks(text: Seq<char>, c: char) -> bool {
    forall|i: int| 0 <= i < text.len() ==> text[i] != c
}

proof fn lemma_place(text: Seq<char>, c: char, from: int, at: int)
    requires
        0 <= from <= at <= text.len(),
        forall|i: int| from <= i < at ==> text[i] != c,
        at < text.len() ==> text[at] == c,
    ensures
        place_of(text, c, from) == at,
    decreases at - from,
{
    if from < at {
        lemma_place(text, c, from + 1, at);
    }
}

proof fn lemma_lacks(text: Seq<char>, c: char, from: int)
    requires
        0 <= from <= text.len(),
        place_of(text, c, from) == text.len(),
    ensures
        forall|i: int| from <= i < text.len() ==> text[i] != c,
    decreases text.len() - from,
{
    if from < text.len() {
        lemma_lacks(text, c, from + 1);
    }
}

/// The digits of a number hold no character that separates.
proof fn lemma_decimal_lacks(n: nat)
    ensures
        lacks(decimal(n), '('),
        lacks(decimal(n), ')'),
        lacks(decimal(n), ','),
        number_of(decimal(n), 10) == Some(n),
{
    lemma_decimal_digits(n);
    law_digits_read_back(n, 10);
}

proof fn lemma_one_number(n: nat)
    ensures
        numbers_in(decimal(n)) == Some(seq![n]),
{
    lemma_decimal_lacks(n);
    lemma_place(decimal(n), ',', 0, decimal(n).len() as int);
}

proof fn lemma_two_numbers(a: nat, b: nat)
    ensures
        numbers_in(decimal(a) + seq![','] + decimal(b)) == Some(seq![a, b]),
        lacks(decimal(a) + seq![','] + decimal(b), ')'),
{
    let list = decimal(a) + seq![','] + decimal(b);
    lemma_decimal_lacks(a);
    lemma_decimal_lacks(b);
    lemma_one_number(b);
    let comma = decimal(a).len() as int;
    lemma_place(list, ',', 0, comma);
    assert(list.take(comma) =~= decimal(a));
    assert(list.skip(comma + 1) =~= decimal(b));
    assert(seq![a] + seq![b] =~= seq![a, b]);
}

/// A name with modifiers reads as its words and the numbers between them.
proof fn lemma_reads_with(front: Seq<char>, list: Seq<char>, tail: Seq<char>)
    requires
        lacks(front, '('),
        lacks(list, ')'),
    ensures
        read_type_name(front + seq!['('] + list + seq![')'] + tail) == (match (
            base_of(front + tail),
            numbers_in(list),
        ) {
            (Some(base), Some(modifiers)) => Some(TypeName { base, modifiers }),
            _ => None,
        }),
{
    let text = front + seq!['('] + list + seq![')'] + tail;
    let opening = front.len() as int;
    let closing = opening + 1 + list.len();
    lemma_place(text, '(', 0, opening);
    assert forall|i: int| opening <= i < closing implies text[i] != ')' by {
        if i > opening {
            assert(text[i] == list[i - opening - 1]);
        }
    }
    lemma_place(text, ')', opening, closing);
    assert(text.take(opening) =~= front);
    assert(text.skip(closing + 1) =~= tail);
    assert(text.subrange(opening + 1, closing) =~= list);
}

/// A name without modifiers reads as its words.
proof fn lemma_reads_plain(words: Seq<char>)
    requires
        lacks(words, '('),
    ensures
        read_type_name(words) == (match base_of(words) {
            Some(base) => Some(TypeName { base, modifiers: Seq::empty() }),
            None => None,
        }),
{
    lemma_place(words, '(', 0, words.len() as int);
}

/// Every type has its own name.
proof fn lemma_base_names()
    ensures
        base_of("boolean"@) == Some(BaseType::Boolean),
        base_of("smallint"@) == Some(BaseType::SmallInt),
        base_of("integer"@) == Some(BaseType::Integer),
        base_of("bigint"@) == Some(BaseType::BigInt),
        base_of("numeric"@) == Some(BaseType::Numeric),
        base_of("real"@) == Some(BaseType::Real),
        base_of("double precision"@) == Some(BaseType::DoublePrecision),
        base_of("text"@) == Some(BaseType::Text),
        base_of("character varying"@) == Some(BaseType::CharacterVarying),
        base_of("character"@) == Some(BaseType::Character),
        base_of("bytea"@) == Some(BaseType::Bytea),
        base_of("date"@) == Some(BaseType::Date),
        base_of("time with time zone"@) == Some(BaseType::TimeWithZone),
        base_of("time without time zone"@) == Some(BaseType::TimeWithoutZone),
        base_of("timestamp with time zone"@) == Some(BaseType::TimestampWithZone),
        base_of("timestamp without time zone"@) == Some(BaseType::TimestampWithoutZone),
        base_of("interval"@) == Some(BaseType::Interval),
        base_of("uuid"@) == Some(BaseType::Uuid),
        base_of("json"@) == Some(BaseType::Json),
        base_of("jsonb"@) == Some(BaseType::Jsonb),
        base_of("inet"@) == Some(BaseType::Inet),
        base_of("cidr"@) == Some(BaseType::Cidr),
        base_of("macaddr"@) == Some(BaseType::MacAddr),
        base_of("macaddr8"@) == Some(BaseType::MacAddr8),
        base_of("bit"@) == Some(BaseType::Bit),
        base_of("bit varying"@) == Some(BaseType::BitVarying),
{
    reveal_strlit("boolean");
    reveal_strlit("smallint");
    reveal_strlit("integer");
    reveal_strlit("bigint");
    reveal_strlit("numeric");
    reveal_strlit("real");
    reveal_strlit("double precision");
    reveal_strlit("text");
    reveal_strlit("character varying");
    reveal_strlit("character");
    reveal_strlit("bytea");
    reveal_strlit("date");
    reveal_strlit("time with time zone");
    reveal_strlit("time without time zone");
    reveal_strlit("timestamp with time zone");
    reveal_strlit("timestamp without time zone");
    reveal_strlit("interval");
    reveal_strlit("uuid");
    reveal_strlit("json");
    reveal_strlit("jsonb");
    reveal_strlit("inet");
    reveal_strlit("cidr");
    reveal_strlit("macaddr");
    reveal_strlit("macaddr8");
    reveal_strlit("bit");
    reveal_strlit("bit varying");
    assert("boolean"@.len() == 7);
    assert("smallint"@.len() == 8);
    assert("integer"@.len() == 7);
    assert("bigint"@.len() == 6);
    assert("numeric"@.len() == 7);
    assert("real"@.len() == 4);
    assert("double precision"@.len() == 16);
    assert("text"@.len() == 4);
    assert("character varying"@.len() == 17);
    assert("character"@.len() == 9);
    assert("bytea"@.len() == 5);
    assert("date"@.len() == 4);
    assert("time with time zone"@.len() == 19);
    assert("time without time zone"@.len() == 22);
    assert("timestamp with time zone"@.len() == 24);
    assert("timestamp without time zone"@.len() == 27);
    assert("interval"@.len() == 8);
    assert("uuid"@.len() == 4);
    assert("json"@.len() == 4);
    assert("jsonb"@.len() == 5);
    assert("inet"@.len() == 4);
    assert("cidr"@.len() == 4);
    assert("macaddr"@.len() == 7);
    assert("macaddr8"@.len() == 8);
    assert("bit"@.len() == 3);
    assert("bit varying"@.len() == 11);
    assert("boolean"@[0] == 'b');
    assert("integer"@[0] == 'i');
    assert("numeric"@[0] == 'n');
    assert("macaddr"@[0] == 'm');
    assert("smallint"@[0] == 's');
    assert("interval"@[0] == 'i');
    assert("macaddr8"@[0] == 'm');
    assert("real"@[0] == 'r');
    assert("text"@[0] == 't');
    assert("date"@[0] == 'd');
    assert("uuid"@[0] == 'u');
    assert("json"@[0] == 'j');
    assert("inet"@[0] == 'i');
    assert("cidr"@[0] == 'c');
    assert("bytea"@[0] == 'b');
    assert("jsonb"@[0] == 'j');
}

/// No name holds a parenthesis.
#[verifier::rlimit(60)]
proof fn lemma_names_lack_parentheses()
    ensures
        lacks("boolean"@, '('),
        lacks("smallint"@, '('),
        lacks("integer"@, '('),
        lacks("bigint"@, '('),
        lacks("numeric"@, '('),
        lacks("real"@, '('),
        lacks("double precision"@, '('),
        lacks("text"@, '('),
        lacks("character varying"@, '('),
        lacks("character"@, '('),
        lacks("bytea"@, '('),
        lacks("date"@, '('),
        lacks("time with time zone"@, '('),
        lacks("time without time zone"@, '('),
        lacks("timestamp with time zone"@, '('),
        lacks("timestamp without time zone"@, '('),
        lacks("interval"@, '('),
        lacks("uuid"@, '('),
        lacks("json"@, '('),
        lacks("jsonb"@, '('),
        lacks("inet"@, '('),
        lacks("cidr"@, '('),
        lacks("macaddr"@, '('),
        lacks("macaddr8"@, '('),
        lacks("bit"@, '('),
        lacks("bit varying"@, '('),
{
    reveal_with_fuel(place_of, 30);
    reveal_strlit("boolean");
    reveal_strlit("smallint");
    reveal_strlit("integer");
    reveal_strlit("bigint");
    reveal_strlit("numeric");
    reveal_strlit("real");
    reveal_strlit("double precision");
    reveal_strlit("text");
    reveal_strlit("character varying");
    reveal_strlit("character");
    reveal_strlit("bytea");
    reveal_strlit("date");
    reveal_strlit("time with time zone");
    reveal_strlit("time without time zone");
    reveal_strlit("timestamp with time zone");
    reveal_strlit("timestamp without time zone");
    reveal_strlit("interval");
    reveal_strlit("uuid");
    reveal_strlit("json");
    reveal_strlit("jsonb");
    reveal_strlit("inet");
    reveal_strlit("cidr");
    reveal_strlit("macaddr");
    reveal_strlit("macaddr8");
    reveal_strlit("bit");
    reveal_strlit("bit varying");
    lemma_lacks("boolean"@, '(', 0);
    lemma_lacks("smallint"@, '(', 0);
    lemma_lacks("integer"@, '(', 0);
    lemma_lacks("bigint"@, '(', 0);
    lemma_lacks("numeric"@, '(', 0);
    lemma_lacks("real"@, '(', 0);
    lemma_lacks("double precision"@, '(', 0);
    lemma_lacks("text"@, '(', 0);
    lemma_lacks("character varying"@, '(', 0);
    lemma_lacks("character"@, '(', 0);
    lemma_lacks("bytea"@, '(', 0);
    lemma_lacks("date"@, '(', 0);
    lemma_lacks("time with time zone"@, '(', 0);
    lemma_lacks("time without time zone"@, '(', 0);
    lemma_lacks("timestamp with time zone"@, '(', 0);
    lemma_lacks("timestamp without time zone"@, '(', 0);
    lemma_lacks("interval"@, '(', 0);
    lemma_lacks("uuid"@, '(', 0);
    lemma_lacks("json"@, '(', 0);
    lemma_lacks("jsonb"@, '(', 0);
    lemma_lacks("inet"@, '(', 0);
    lemma_lacks("cidr"@, '(', 0);
    lemma_lacks("macaddr"@, '(', 0);
    lemma_lacks("macaddr8"@, '(', 0);
    lemma_lacks("bit"@, '(', 0);
    lemma_lacks("bit varying"@, '(', 0);
}
/// A literal with its parentheses is the words, the numbers and the rest.
proof fn lemma_sized_reads(name: Seq<char>, n: nat)
    requires
        lacks(name, '('),
    ensures
        read_type_name(name + "("@ + decimal(n) + ")"@) == (match base_of(name) {
            Some(base) => Some(TypeName { base, modifiers: seq![n] }),
            None => None,
        }),
{
    reveal_strlit("(");
    reveal_strlit(")");
    lemma_decimal_lacks(n);
    lemma_one_number(n);
    lemma_reads_with(name, decimal(n), Seq::empty());
    assert(name + Seq::<char>::empty() =~= name);
    assert(name + "("@ + decimal(n) + ")"@ =~= name + seq!['('] + decimal(n) + seq![')']
        + Seq::<char>::empty());
}

proof fn lemma_precision_reads(name: Seq<char>, n: nat, tail: Seq<char>)
    requires
        lacks(name, '('),
    ensures
        read_type_name(name + ("("@ + decimal(n) + ")"@) + tail) == (match base_of(name + tail) {
            Some(base) => Some(TypeName { base, modifiers: seq![n] }),
            None => None,
        }),
{
    reveal_strlit("(");
    reveal_strlit(")");
    lemma_decimal_lacks(n);
    lemma_one_number(n);
    lemma_reads_with(name, decimal(n), tail);
    assert(name + ("("@ + decimal(n) + ")"@) + tail =~= name + seq!['('] + decimal(n) + seq![')']
        + tail);
}

proof fn lemma_numeric_reads(p: nat, s: nat)
    ensures
        read_type_name("numeric("@ + decimal(p) + ","@ + decimal(s) + ")"@) == Some(
            TypeName { base: BaseType::Numeric, modifiers: seq![p, s] },
        ),
        read_type_name("numeric("@ + decimal(p) + ")"@) == Some(
            TypeName { base: BaseType::Numeric, modifiers: seq![p] },
        ),
{
    reveal_strlit("numeric(");
    reveal_strlit("numeric");
    reveal_strlit(",");
    reveal_strlit(")");
    lemma_base_names();
    lemma_names_lack_parentheses();
    let name = "numeric"@;
    assert("numeric("@ =~= name + seq!['(']);
    assert(name + Seq::<char>::empty() =~= name);
    lemma_decimal_lacks(p);
    lemma_one_number(p);
    lemma_reads_with(name, decimal(p), Seq::empty());
    assert("numeric("@ + decimal(p) + ")"@ =~= name + seq!['('] + decimal(p) + seq![')']
        + Seq::<char>::empty());
    lemma_two_numbers(p, s);
    let list = decimal(p) + seq![','] + decimal(s);
    lemma_reads_with(name, list, Seq::empty());
    assert("numeric("@ + decimal(p) + ","@ + decimal(s) + ")"@ =~= name + seq!['('] + list
        + seq![')'] + Seq::<char>::empty());
}

proof fn lemma_datetime_words()
    ensures
        "time"@ + " with time zone"@ == "time with time zone"@,
        "time"@ + " without time zone"@ == "time without time zone"@,
        "timestamp"@ + " with time zone"@ == "timestamp with time zone"@,
        "timestamp"@ + " without time zone"@ == "timestamp without time zone"@,
        lacks("time"@, '('),
        lacks("timestamp"@, '('),
{
    reveal_strlit("time");
    reveal_strlit("timestamp");
    reveal_strlit(" with time zone");
    reveal_strlit(" without time zone");
    reveal_strlit("time with time zone");
    reveal_strlit("time without time zone");
    reveal_strlit("timestamp with time zone");
    reveal_strlit("timestamp without time zone");
    assert("time"@ + " with time zone"@ =~= "time with time zone"@);
    assert("time"@ + " without time zone"@ =~= "time without time zone"@);
    assert("timestamp"@ + " with time zone"@ =~= "timestamp with time zone"@);
    assert("timestamp"@ + " without time zone"@ =~= "timestamp without time zone"@);
    reveal_with_fuel(place_of, 10);
    lemma_lacks("time"@, '(', 0);
    lemma_lacks("timestamp"@, '(', 0);
}

/// The name of every planned built-in type reads back as that type and its modifiers: the length,
/// the precision and scale and whether there is a time zone all stand in it.
#[verifier::rlimit(60)]
pub proof fn law_type_name_reads_back(data_type: PgType, schema: Seq<char>)
    requires
        name_of_kind(data_type.kind) is Some,
        type_model(data_type, schema) is Ok,
    ensures
        read_type_name(type_model(data_type, schema)->Ok_0.sql) == name_of_kind(data_type.kind),
        type_model(data_type, schema)->Ok_0.prerequisites.len() == 0,
{
    lemma_base_names();
    lemma_names_lack_parentheses();
    lemma_datetime_words();
    let sql = type_model(data_type, schema)->Ok_0.sql;
    match data_type.kind {
        PgTypeKind::Numeric { precision, scale } => match (precision, scale) {
            (Some(p), Some(s)) => {
                lemma_numeric_reads(p as nat, s as nat);
            },
            (Some(p), None) => {
                lemma_numeric_reads(p as nat, 0);
            },
            _ => {
                lemma_reads_plain(sql);
            },
        },
        PgTypeKind::VarChar { length } => match length {
            Some(n) => {
                lemma_sized_reads("character varying"@, n as nat);
            },
            None => {
                lemma_reads_plain(sql);
            },
        },
        PgTypeKind::Char { length } => match length {
            Some(n) => {
                lemma_sized_reads("character"@, n as nat);
            },
            None => {
                lemma_reads_plain(sql);
            },
        },
        PgTypeKind::Bit { length, varying } => match length {
            Some(n) => {
                lemma_sized_reads("bit"@, n as nat);
                lemma_sized_reads("bit varying"@, n as nat);
            },
            None => {
                lemma_reads_plain(sql);
            },
        },
        PgTypeKind::Time { precision, with_time_zone } => {
            lemma_datetime_reads("time"@, precision, with_time_zone, sql);
        },
        PgTypeKind::Timestamp { precision, with_time_zone } => {
            lemma_datetime_reads("timestamp"@, precision, with_time_zone, sql);
        },
        PgTypeKind::Interval { precision } => match precision {
            Some(n) => {
                lemma_precision_reads("interval"@, n as nat, Seq::empty());
                assert("interval"@ + Seq::<char>::empty() =~= "interval"@);
                assert(sql + Seq::<char>::empty() =~= sql);
            },
            None => {
                reveal_strlit("");
                assert("interval"@ + ""@ =~= "interval"@);
                lemma_reads_plain("interval"@);
            },
        },
        _ => {
            lemma_reads_plain(sql);
        },
    }
}

proof fn lemma_datetime_reads(
    name: Seq<char>,
    precision: Option<u8>,
    with_time_zone: bool,
    sql: Seq<char>,
)
    requires
        name == "time"@ || name == "timestamp"@,
        datetime_text(name, precision, with_time_zone) == Ok::<Seq<char>, SchemaFault>(sql),
    ensures
        read_type_name(sql) == Some(
            TypeName {
                base: if name == "time"@ {
                    if with_time_zone {
                        BaseType::TimeWithZone
                    } else {
                        BaseType::TimeWithoutZone
                    }
                } else {
                    if with_time_zone {
                        BaseType::TimestampWithZone
                    } else {
                        BaseType::TimestampWithoutZone
                    }
                },
                modifiers: precise(precision),
            },
        ),
{
    lemma_base_names();
    lemma_names_lack_parentheses();
    lemma_datetime_words();
    reveal_strlit("time");
    reveal_strlit("timestamp");
    assert("time"@.len() == 4 && "timestamp"@.len() == 9);
    let tail = if with_time_zone {
        " with time zone"@
    } else {
        " without time zone"@
    };
    match precision {
        Some(n) => {
            lemma_precision_reads(name, n as nat, tail);
        },
        None => {
            reveal_strlit("");
            assert(name + ""@ =~= name);
            lemma_reads_plain(name + tail);
        },
    }
}

/// The mapping loses nothing: built-in source types of different kinds or with different modifiers
/// never have the same target name.
pub proof fn law_type_names_differ(a: PgType, b: PgType, schema: Seq<char>)
    requires
        name_of_kind(a.kind) is Some,
        name_of_kind(b.kind) is Some,
        type_model(a, schema) is Ok,
        type_model(b, schema) is Ok,
        a.kind != b.kind,
    ensures
        type_model(a, schema)->Ok_0.sql != type_model(b, schema)->Ok_0.sql,
{
    law_type_name_reads_back(a, schema);
    law_type_name_reads_back(b, schema);
    lemma_kind_reads_back(a, schema);
    lemma_kind_reads_back(b, schema);
}

/// The kind that the name of a type stands for.
spec fn kind_of(name: TypeName) -> PgTypeKind {
    let length = if name.modifiers.len() == 0 {
        None
    } else {
        Some(name.modifiers[0] as u32)
    };
    let precision = if name.modifiers.len() == 0 {
        None
    } else {
        Some(name.modifiers[0] as u8)
    };
    match name.base {
        BaseType::Boolean => PgTypeKind::Bool,
        BaseType::SmallInt => PgTypeKind::Int2,
        BaseType::Integer => PgTypeKind::Int4,
        BaseType::BigInt => PgTypeKind::Int8,
        BaseType::Numeric => PgTypeKind::Numeric {
            precision: if name.modifiers.len() == 0 {
                None
            } else {
                Some(name.modifiers[0] as u16)
            },
            scale: if name.modifiers.len() < 2 {
                None
            } else {
                Some(name.modifiers[1] as i16)
            },
        },
        BaseType::Real => PgTypeKind::Float4,
        BaseType::DoublePrecision => PgTypeKind::Float8,
        BaseType::Text => PgTypeKind::Text,
        BaseType::CharacterVarying => PgTypeKind::VarChar { length },
        BaseType::Character => PgTypeKind::Char { length },
        BaseType::Bytea => PgTypeKind::Bytea,
        BaseType::Date => PgTypeKind::Date,
        BaseType::TimeWithZone => PgTypeKind::Time { precision, with_time_zone: true },
        BaseType::TimeWithoutZone => PgTypeKind::Time { precision, with_time_zone: false },
        BaseType::TimestampWithZone => PgTypeKind::Timestamp { precision, with_time_zone: true },
        BaseType::TimestampWithoutZone => PgTypeKind::Timestamp {
            precision,
            with_time_zone: false,
        },
        BaseType::Interval => PgTypeKind::Interval { precision },
        BaseType::Uuid => PgTypeKind::Uuid,
        BaseType::Json => PgTypeKind::Json,
        BaseType::Jsonb => PgTypeKind::Jsonb,
        BaseType::Inet => PgTypeKind::Inet,
        BaseType::Cidr => PgTypeKind::Cidr,
        BaseType::MacAddr => PgTypeKind::MacAddr,
        BaseType::MacAddr8 => PgTypeKind::MacAddr8,
        BaseType::Bit => PgTypeKind::Bit { length, varying: false },
        BaseType::BitVarying => PgTypeKind::Bit { length, varying: true },
    }
}

#[verifier::spinoff_prover]
#[verifier::rlimit(60)]
proof fn lemma_kind_reads_back(data_type: PgType, schema: Seq<char>)
    requires
        name_of_kind(data_type.kind) is Some,
        type_model(data_type, schema) is Ok,
    ensures
        kind_of(name_of_kind(data_type.kind)->0) == data_type.kind,
{
    let name = name_of_kind(data_type.kind)->0;
    match data_type.kind {
        PgTypeKind::Numeric { precision, scale } => {
            assert(kind_of(name) == data_type.kind);
        },
        PgTypeKind::VarChar { length } => {
            assert(kind_of(name) == data_type.kind);
        },
        PgTypeKind::Char { length } => {
            assert(kind_of(name) == data_type.kind);
        },
        PgTypeKind::Bit { length, varying } => {
            assert(kind_of(name) == data_type.kind);
        },
        PgTypeKind::Time { precision, with_time_zone } => {
            assert(kind_of(name) == data_type.kind);
        },
        PgTypeKind::Timestamp { precision, with_time_zone } => {
            assert(kind_of(name) == data_type.kind);
        },
        PgTypeKind::Interval { precision } => {
            assert(kind_of(name) == data_type.kind);
        },
        _ => {
            assert(kind_of(name) == data_type.kind);
        },
    }
}

/// A built-in type is planned exactly where its modifiers are within the limits of the target: a
/// precision of numbers from 1 to 1000 with a scale from 0 up to it, lengths of characters up to
/// 10485760 and of bits up to 83886080, and a precision of times of at most 6.
pub proof fn law_built_in_types_are_planned(data_type: PgType, schema: Seq<char>)
    requires
        name_of_kind(data_type.kind) is Some,
    ensures
        type_model(data_type, schema) is Ok <==> match data_type.kind {
            PgTypeKind::Numeric { precision, scale } => match precision {
                Some(p) => 1 <= p <= 1000 && (scale matches Some(s) ==> 0 <= s <= p),
                None => scale is None,
            },
            PgTypeKind::VarChar { length } => length matches Some(n) ==> 1 <= n <= 10485760,
            PgTypeKind::Char { length } => length matches Some(n) ==> 1 <= n <= 10485760,
            PgTypeKind::Bit { length, varying } => length matches Some(n) ==> 1 <= n <= 83886080,
            PgTypeKind::Time { precision, with_time_zone } => precision matches Some(n) ==> n <= 6,
            PgTypeKind::Timestamp { precision, with_time_zone } => precision matches Some(n) ==> n
                <= 6,
            PgTypeKind::Interval { precision } => precision matches Some(n) ==> n <= 6,
            _ => true,
        },
{
}

} // verus!
