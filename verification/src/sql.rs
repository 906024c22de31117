//! Safe SQL identifier and literal rendering.

use crate::source::{NameView, QualifiedName};
use crate::text::{append_joined, characters, contains_char, digit_char, joined, render_digit, texts};
use vstd::prelude::*;

verus! {

#[derive(Debug, PartialEq, Eq)]
pub enum SqlRenderError {
    /// SQL identifiers cannot be empty.
    EmptyIdentifier,
    /// The value contains a NUL character.
    NulByte { kind: &'static str },
}

impl Clone for SqlRenderError {
    fn clone(&self) -> (r: Self)
        ensures
            r == *self,
    {
        match self {
            SqlRenderError::EmptyIdentifier => SqlRenderError::EmptyIdentifier,
            SqlRenderError::NulByte { kind } => SqlRenderError::NulByte { kind: *kind },
        }
    }
}

/// Every element replaced by its rendering, in order.
pub open spec fn rendered<A, B>(source: Seq<A>, unit: spec_fn(A) -> Seq<B>) -> Seq<B>
    decreases source.len(),
{
    if source.len() == 0 {
        Seq::empty()
    } else {
        rendered(source.drop_last(), unit) + unit(source.last())
    }
}

/// A rendering can also be taken apart at its front.
pub proof fn lemma_rendered_front<A, B>(source: Seq<A>, unit: spec_fn(A) -> Seq<B>)
    requires
        source.len() > 0,
    ensures
        rendered(source, unit) == unit(source[0]) + rendered(source.drop_first(), unit),
    decreases source.len(),
{
    if source.len() == 1 {
        assert(source.drop_last() =~= Seq::empty());
        assert(source.drop_first() =~= Seq::empty());
        assert(rendered(source, unit) =~= unit(source[0]) + rendered(source.drop_first(), unit));
    } else {
        lemma_rendered_front(source.drop_last(), unit);
        assert(source.drop_last().drop_first() =~= source.drop_first().drop_last());
        assert(rendered(source, unit) =~= unit(source[0]) + rendered(source.drop_first(), unit));
    }
}

/// Extends a rendering by one element at its end.
pub proof fn lemma_rendered_push<A, B>(source: Seq<A>, next: A, unit: spec_fn(A) -> Seq<B>)
    ensures
        rendered(source.push(next), unit) == rendered(source, unit) + unit(next),
{
    assert(source.push(next).drop_last() =~= source);
}

/// A value that PostgreSQL accepts between double quotes.
pub open spec fn quotable(identifier: Seq<char>) -> bool {
    identifier.len() > 0 && !identifier.contains('\0')
}

/// The rendering of one character inside a quoted identifier.
pub open spec fn identifier_unit() -> spec_fn(char) -> Seq<char> {
    |c: char|
        if c == '"' {
            seq!['"', '"']
        } else {
            seq![c]
        }
}

/// The identifier between double quotes, with each inner double quote doubled.
pub open spec fn quoted(identifier: Seq<char>) -> Seq<char> {
    seq!['"'] + rendered(identifier, identifier_unit()) + seq!['"']
}

/// The quoted schema, a dot and the quoted name.
pub open spec fn quoted_name(name: NameView) -> Seq<char> {
    quoted(name.schema) + "."@ + quoted(name.name)
}

/// The failure of rendering an identifier, if there is one.
pub open spec fn identifier_render_fault(identifier: Seq<char>) -> Option<SqlRenderError> {
    if identifier.len() == 0 {
        Some(SqlRenderError::EmptyIdentifier)
    } else if identifier.contains('\0') {
        Some(SqlRenderError::NulByte { kind: "identifier" })
    } else {
        None
    }
}

/// The failure of rendering a qualified name, if there is one.
pub open spec fn name_render_fault(name: NameView) -> Option<SqlRenderError> {
    if identifier_render_fault(name.schema) is Some {
        identifier_render_fault(name.schema)
    } else {
        identifier_render_fault(name.name)
    }
}

/// Renders an identifier that is known to be valid.
pub fn quote_valid(identifier: &str) -> (r: String)
    requires
        quotable(identifier@),
    ensures
        r@ == quoted(identifier@),
{
    let chars = characters(identifier);
    let mut out = String::new();
    out.push('"');
    proof {
        assert(out@ =~= seq!['"'] + rendered(identifier@.take(0), identifier_unit()));
    }
    let mut i: usize = 0;
    while i < chars.len()
        invariant
            i <= chars.len(),
            chars@ == identifier@,
            out@ == seq!['"'] + rendered(identifier@.take(i as int), identifier_unit()),
        decreases chars.len() - i,
    {
        let ghost before = out@;
        let c = chars[i];
        if c == '"' {
            out.push('"');
        }
        out.push(c);
        proof {
            assert(identifier@.take(i + 1) =~= identifier@.take(i as int).push(c));
            lemma_rendered_push(identifier@.take(i as int), c, identifier_unit());
            assert(out@ =~= before + identifier_unit()(c));
            assert(out@ =~= seq!['"'] + rendered(identifier@.take(i + 1), identifier_unit()));
        }
        i = i + 1;
    }
    out.push('"');
    proof {
        assert(identifier@.take(i as int) =~= identifier@);
        assert(out@ =~= quoted(identifier@));
    }
    out
}

/// Quotes one PostgreSQL identifier without relying on the server's search path.
pub fn quote_identifier(identifier: &str) -> (r: Result<String, SqlRenderError>)
    ensures
        match r {
            Ok(text) => quotable(identifier@) && text@ == quoted(identifier@),
            Err(e) => identifier_render_fault(identifier@) == Some(e),
        },
{
    if identifier.is_empty() {
        return Err(SqlRenderError::EmptyIdentifier);
    }
    if contains_char(identifier, '\0') {
        return Err(SqlRenderError::NulByte { kind: "identifier" });
    }
    Ok(quote_valid(identifier))
}

/// Quotes a schema-qualified PostgreSQL name.
pub fn quote_qualified_name(name: &QualifiedName) -> (r: Result<String, SqlRenderError>)
    ensures
        match r {
            Ok(text) => name_render_fault(name@) is None && text@ == quoted_name(name@),
            Err(e) => name_render_fault(name@) == Some(e),
        },
{
    match quote_identifier(name.schema.as_str()) {
        Err(e) => Err(e),
        Ok(schema) => match quote_identifier(name.name.as_str()) {
            Err(e) => Err(e),
            Ok(local) => {
                let mut out = schema;
                out.append(".");
                out.append(local.as_str());
                Ok(out)
            },
        },
    }
}

/// A Unicode control character.
pub open spec fn is_control(c: char) -> bool {
    c as int <= 0x1f || 0x7f <= c as int <= 0x9f
}

/// The rendering of one character inside an escape-string literal.
pub open spec fn literal_unit() -> spec_fn(char) -> Seq<char> {
    |c: char|
        if c == '\'' {
            seq!['\'', '\'']
        } else if c == '\\' {
            seq!['\\', '\\']
        } else if c == '\n' {
            seq!['\\', 'n']
        } else if c == '\r' {
            seq!['\\', 'r']
        } else if c == '\t' {
            seq!['\\', 't']
        } else if c == '\u{8}' {
            seq!['\\', 'b']
        } else if c == '\u{c}' {
            seq!['\\', 'f']
        } else if is_control(c) {
            seq![
                '\\',
                'u',
                '0',
                '0',
                digit_char(c as int / 16),
                digit_char(c as int % 16),
            ]
        } else {
            seq![c]
        }
}

/// The escape-string literal of a value.
pub open spec fn literal(value: Seq<char>) -> Seq<char> {
    seq!['E', '\''] + rendered(value, literal_unit()) + seq!['\'']
}

/// Appends the rendering of one character of an escape-string literal.
fn push_literal_unit(out: &mut String, c: char)
    ensures
        final(out)@ == old(out)@ + literal_unit()(c),
{
    let ghost before = out@;
    if c == '\'' {
        out.push('\'');
        out.push('\'');
    } else if c == '\\' {
        out.push('\\');
        out.push('\\');
    } else if c == '\n' {
        out.push('\\');
        out.push('n');
    } else if c == '\r' {
        out.push('\\');
        out.push('r');
    } else if c == '\t' {
        out.push('\\');
        out.push('t');
    } else if c == '\u{8}' {
        out.push('\\');
        out.push('b');
    } else if c == '\u{c}' {
        out.push('\\');
        out.push('f');
    } else if c <= '\u{1f}' || ('\u{7f}' <= c && c <= '\u{9f}') {
        let code: u64 = c as u64;
        out.push('\\');
        out.push('u');
        out.push('0');
        out.push('0');
        out.push(render_digit(code / 16));
        out.push(render_digit(code % 16));
    } else {
        out.push(c);
    }
    proof {
        assert(out@ =~= before + literal_unit()(c));
    }
}

/// Renders a literal that is known to hold no NUL character.
pub fn quote_valid_literal(value: &str) -> (r: String)
    requires
        !value@.contains('\0'),
    ensures
        r@ == literal(value@),
{
    let chars = characters(value);
    let mut out = String::new();
    out.push('E');
    out.push('\'');
    proof {
        assert(out@ =~= seq!['E', '\''] + rendered(value@.take(0), literal_unit()));
    }
    let mut i: usize = 0;
    while i < chars.len()
        invariant
            i <= chars.len(),
            chars@ == value@,
            out@ == seq!['E', '\''] + rendered(value@.take(i as int), literal_unit()),
        decreases chars.len() - i,
    {
        let ghost before = out@;
        let c = chars[i];
        push_literal_unit(&mut out, c);
        proof {
            assert(value@.take(i + 1) =~= value@.take(i as int).push(c));
            lemma_rendered_push(value@.take(i as int), c, literal_unit());
            assert(out@ =~= seq!['E', '\''] + rendered(value@.take(i + 1), literal_unit()));
        }
        i = i + 1;
    }
    out.push('\'');
    proof {
        assert(value@.take(i as int) =~= value@);
        assert(out@ =~= literal(value@));
    }
    out
}

/// Quotes a PostgreSQL escape-string literal.
///
/// Escape strings make the result independent from `standard_conforming_strings`.
pub fn quote_literal(value: &str) -> (r: Result<String, SqlRenderError>)
    ensures
        match r {
            Ok(text) => !value@.contains('\0') && text@ == literal(value@),
            Err(e) => value@.contains('\0') && e == (SqlRenderError::NulByte { kind: "literal" }),
        },
{
    if contains_char(value, '\0') {
        return Err(SqlRenderError::NulByte { kind: "literal" });
    }
    Ok(quote_valid_literal(value))
}

/// The quoted identifiers of a list, each between `before` and `after`, joined by `separator`.
pub open spec fn listed(
    before: Seq<char>,
    names: Seq<Seq<char>>,
    after: Seq<char>,
    separator: Seq<char>,
) -> Seq<char> {
    joined(Seq::new(names.len(), |i: int| before + quoted(names[i]) + after), separator)
}

/// The quoted identifiers of two lists, pair by pair, joined by `separator`.
pub open spec fn paired(
    before: Seq<char>,
    left: Seq<Seq<char>>,
    between: Seq<char>,
    right: Seq<Seq<char>>,
    separator: Seq<char>,
) -> Seq<char> {
    joined(
        Seq::new(left.len(), |i: int| before + quoted(left[i]) + between + quoted(right[i])),
        separator,
    )
}

/// Every identifier of the list can be quoted.
pub open spec fn all_quotable(names: Seq<Seq<char>>) -> bool {
    forall|i: int| 0 <= i < names.len() ==> quotable(#[trigger] names[i])
}

/// Renders a list of valid identifiers, each between `before` and `after`.
pub fn list_quoted(before: &str, names: &Vec<String>, after: &str, separator: &str) -> (r: String)
    requires
        all_quotable(texts(names@)),
    ensures
        r@ == listed(before@, texts(names@), after@, separator@),
{
    let ghost parts = Seq::new(
        names@.len(),
        |i: int| before@ + quoted(texts(names@)[i]) + after@,
    );
    let mut out = String::new();
    let mut i: usize = 0;
    while i < names.len()
        invariant
            i <= names.len(),
            all_quotable(texts(names@)),
            parts == Seq::new(names@.len(), |i: int| before@ + quoted(texts(names@)[i]) + after@),
            out@ == joined(parts.take(i as int), separator@),
        decreases names.len() - i,
    {
        proof {
            assert(quotable(texts(names@)[i as int]));
            assert(parts.take(i + 1) =~= parts.take(i as int).push(parts[i as int]));
        }
        let mut part = before.to_string();
        part.append(quote_valid(names[i].as_str()).as_str());
        part.append(after);
        append_joined(&mut out, i == 0, separator, part.as_str(), Ghost(parts.take(i as int)));
        i = i + 1;
    }
    proof {
        assert(parts.take(i as int) =~= parts);
        assert(texts(names@).len() == names@.len());
    }
    out
}

/// Renders two lists of valid identifiers pair by pair.
pub fn pair_quoted(
    before: &str,
    left: &Vec<String>,
    between: &str,
    right: &Vec<String>,
    separator: &str,
) -> (r: String)
    requires
        left.len() == right.len(),
        all_quotable(texts(left@)),
        all_quotable(texts(right@)),
    ensures
        r@ == paired(before@, texts(left@), between@, texts(right@), separator@),
{
    let ghost parts = Seq::new(
        left@.len(),
        |i: int| before@ + quoted(texts(left@)[i]) + between@ + quoted(texts(right@)[i]),
    );
    let mut out = String::new();
    let mut i: usize = 0;
    while i < left.len()
        invariant
            i <= left.len() == right.len(),
            all_quotable(texts(left@)),
            all_quotable(texts(right@)),
            parts == Seq::new(
                left@.len(),
                |i: int| before@ + quoted(texts(left@)[i]) + between@ + quoted(texts(right@)[i]),
            ),
            out@ == joined(parts.take(i as int), separator@),
        decreases left.len() - i,
    {
        proof {
            assert(quotable(texts(left@)[i as int]));
            assert(quotable(texts(right@)[i as int]));
            assert(parts.take(i + 1) =~= parts.take(i as int).push(parts[i as int]));
        }
        let mut part = before.to_string();
        part.append(quote_valid(left[i].as_str()).as_str());
        part.append(between);
        part.append(quote_valid(right[i].as_str()).as_str());
        append_joined(&mut out, i == 0, separator, part.as_str(), Ghost(parts.take(i as int)));
        i = i + 1;
    }
    proof {
        assert(parts.take(i as int) =~= parts);
    }
    out
}

/// The first failure of rendering the identifiers of a list, if there is one.
pub open spec fn list_render_fault(names: Seq<Seq<char>>) -> Option<SqlRenderError>
    decreases names.len(),
{
    if names.len() == 0 {
        None
    } else if list_render_fault(names.drop_last()) is Some {
        list_render_fault(names.drop_last())
    } else {
        identifier_render_fault(names.last())
    }
}

/// A list renders exactly when each of its identifiers does.
pub proof fn lemma_list_renders(names: Seq<Seq<char>>)
    ensures
        list_render_fault(names) is None <==> all_quotable(names),
    decreases names.len(),
{
    if names.len() > 0 {
        lemma_list_renders(names.drop_last());
        if list_render_fault(names) is None {
            assert forall|i: int| 0 <= i < names.len() implies quotable(#[trigger] names[i]) by {
                if i < names.len() - 1 {
                    assert(names.drop_last()[i] == names[i]);
                    assert(quotable(names.drop_last()[i]));
                }
            }
        }
        if all_quotable(names) {
            assert forall|i: int| 0 <= i < names.drop_last().len() implies quotable(
                #[trigger] names.drop_last()[i],
            ) by {
                assert(quotable(names[i]));
            }
            assert(quotable(names[names.len() - 1]));
        }
    }
}

/// The quoted identifiers of a list, joined by a comma and a blank.
pub open spec fn quoted_list(names: Seq<Seq<char>>) -> Seq<char> {
    listed(""@, names, ""@, ", "@)
}

/// Quotes every identifier of a list and joins them by a comma and a blank.
pub fn quote_identifier_list(values: &Vec<String>) -> (r: Result<String, SqlRenderError>)
    ensures
        match r {
            Ok(text) => all_quotable(texts(values@)) && text@ == quoted_list(texts(values@)),
            Err(e) => list_render_fault(texts(values@)) == Some(e),
        },
{
    let ghost names = texts(values@);
    let mut i: usize = 0;
    while i < values.len()
        invariant
            i <= values.len(),
            names == texts(values@),
            list_render_fault(names.take(i as int)) is None,
        decreases values.len() - i,
    {
        proof {
            assert(names.take(i + 1).drop_last() =~= names.take(i as int));
            assert(names.take(i + 1).last() == values@[i as int]@);
        }
        match quote_identifier(values[i].as_str()) {
            Ok(_) => {},
            Err(e) => {
                proof {
                    lemma_first_render_fault(names, i as int);
                }
                return Err(e);
            },
        }
        i = i + 1;
    }
    proof {
        assert(names.take(i as int) =~= names);
        lemma_list_renders(names);
    }
    Ok(list_quoted("", values, "", ", "))
}

/// The first faulty identifier decides the failure of the whole list.
proof fn lemma_first_render_fault(names: Seq<Seq<char>>, at: int)
    requires
        0 <= at < names.len(),
        list_render_fault(names.take(at)) is None,
        identifier_render_fault(names[at]) is Some,
    ensures
        list_render_fault(names) == identifier_render_fault(names[at]),
    decreases names.len(),
{
    if at == names.len() - 1 {
        assert(names.take(at) =~= names.drop_last());
    } else {
        assert(names.drop_last().take(at) =~= names.take(at));
        lemma_first_render_fault(names.drop_last(), at);
    }
}

// ---------------------------------------------------------------------------------------------
// Reading rendered text back
// ---------------------------------------------------------------------------------------------

/// Adds a character in front of what was read.
pub open spec fn prepend(
    c: char,
    read: Option<(Seq<char>, Seq<char>)>,
) -> Option<(Seq<char>, Seq<char>)> {
    match read {
        Some((value, rest)) => Some((seq![c] + value, rest)),
        None => None,
    }
}

/// Reads the inside of a quoted identifier up to its closing double quote.
///
/// A doubled double quote stands for one; a single one closes the identifier. The result is the
/// identifier and the text after it.
pub open spec fn read_identifier_body(text: Seq<char>) -> Option<(Seq<char>, Seq<char>)>
    decreases text.len(),
{
    if text.len() == 0 {
        None
    } else if text[0] != '"' {
        prepend(text[0], read_identifier_body(text.skip(1)))
    } else if text.len() > 1 && text[1] == '"' {
        prepend('"', read_identifier_body(text.skip(2)))
    } else {
        Some((Seq::empty(), text.skip(1)))
    }
}

/// Reads one quoted identifier at the head of a text.
pub open spec fn read_identifier(text: Seq<char>) -> Option<(Seq<char>, Seq<char>)> {
    if text.len() > 0 && text[0] == '"' {
        read_identifier_body(text.skip(1))
    } else {
        None
    }
}

proof fn lemma_identifier_body_reads_back(identifier: Seq<char>, tail: Seq<char>)
    requires
        tail.len() > 0 ==> tail[0] != '"',
    ensures
        read_identifier_body(rendered(identifier, identifier_unit()) + seq!['"'] + tail) == Some(
            (identifier, tail),
        ),
    decreases identifier.len(),
{
    let unit = identifier_unit();
    let text = rendered(identifier, unit) + seq!['"'] + tail;
    if identifier.len() == 0 {
        assert(text =~= seq!['"'] + tail);
        assert(text.skip(1) =~= tail);
        assert(identifier =~= Seq::empty());
    } else {
        let rest = rendered(identifier.drop_first(), unit) + seq!['"'] + tail;
        lemma_rendered_front(identifier, unit);
        lemma_identifier_body_reads_back(identifier.drop_first(), tail);
        assert(text =~= unit(identifier[0]) + rest);
        if identifier[0] == '"' {
            assert(text.skip(2) =~= rest);
        } else {
            assert(text.skip(1) =~= rest);
        }
        assert(seq![identifier[0]] + identifier.drop_first() =~= identifier);
    }
}

/// A quoted identifier reads back as the identifier it was made from, and what follows it stays
/// outside, whatever characters the identifier holds.
pub proof fn law_quoted_identifier_reads_back(identifier: Seq<char>, tail: Seq<char>)
    requires
        tail.len() > 0 ==> tail[0] != '"',
    ensures
        read_identifier(quoted(identifier) + tail) == Some((identifier, tail)),
{
    lemma_identifier_body_reads_back(identifier, tail);
    let text = quoted(identifier) + tail;
    assert(text.skip(1) =~= rendered(identifier, identifier_unit()) + seq!['"'] + tail);
}

/// Two identifiers have the same quoted text only if they are the same.
pub proof fn law_quoted_identifiers_differ(a: Seq<char>, b: Seq<char>)
    ensures
        quoted(a) == quoted(b) <==> a == b,
{
    law_quoted_identifier_reads_back(a, Seq::empty());
    law_quoted_identifier_reads_back(b, Seq::empty());
    assert(quoted(a) + Seq::<char>::empty() =~= quoted(a));
    assert(quoted(b) + Seq::<char>::empty() =~= quoted(b));
}

/// Two qualified names have the same quoted text only if they are the same.
pub proof fn law_quoted_names_differ(a: NameView, b: NameView)
    ensures
        quoted_name(a) == quoted_name(b) <==> a == b,
{
    reveal_strlit(".");
    assert("."@ =~= seq!['.']);
    let tail_a = "."@ + quoted(a.name);
    let tail_b = "."@ + quoted(b.name);
    law_quoted_identifier_reads_back(a.schema, tail_a);
    law_quoted_identifier_reads_back(b.schema, tail_b);
    assert(quoted_name(a) =~= quoted(a.schema) + tail_a);
    assert(quoted_name(b) =~= quoted(b.schema) + tail_b);
    if quoted_name(a) == quoted_name(b) {
        assert(tail_a.skip(1) =~= quoted(a.name));
        assert(tail_b.skip(1) =~= quoted(b.name));
        law_quoted_identifiers_differ(a.name, b.name);
    }
}

/// The value of an upper-case hexadecimal digit.
pub open spec fn digit_value(c: char) -> int {
    if '0' <= c && c <= '9' {
        c as int - 48
    } else {
        c as int - 55
    }
}

/// Reads the inside of an escape-string literal up to its closing quote.
pub open spec fn read_literal_body(text: Seq<char>) -> Option<(Seq<char>, Seq<char>)>
    decreases text.len(),
{
    if text.len() == 0 {
        None
    } else if text[0] == '\'' {
        if text.len() > 1 && text[1] == '\'' {
            prepend('\'', read_literal_body(text.skip(2)))
        } else {
            Some((Seq::empty(), text.skip(1)))
        }
    } else if text[0] != '\\' {
        prepend(text[0], read_literal_body(text.skip(1)))
    } else if text.len() < 2 {
        None
    } else if text[1] == 'u' {
        if text.len() < 6 {
            None
        } else {
            prepend(
                (digit_value(text[2]) * 4096 + digit_value(text[3]) * 256 + digit_value(text[4])
                    * 16 + digit_value(text[5])) as char,
                read_literal_body(text.skip(6)),
            )
        }
    } else {
        let c = text[1];
        let meant = if c == 'n' {
            '\n'
        } else if c == 'r' {
            '\r'
        } else if c == 't' {
            '\t'
        } else if c == 'b' {
            '\u{8}'
        } else if c == 'f' {
            '\u{c}'
        } else {
            c
        };
        prepend(meant, read_literal_body(text.skip(2)))
    }
}

/// Reads one escape-string literal at the head of a text.
pub open spec fn read_literal(text: Seq<char>) -> Option<(Seq<char>, Seq<char>)> {
    if text.len() > 1 && text[0] == 'E' && text[1] == '\'' {
        read_literal_body(text.skip(2))
    } else {
        None
    }
}

proof fn lemma_control_digits(c: char)
    requires
        is_control(c),
    ensures
        digit_value(digit_char(c as int / 16)) == c as int / 16,
        digit_value(digit_char(c as int % 16)) == c as int % 16,
        digit_value('0') == 0,
        (digit_value('0') * 4096 + digit_value('0') * 256 + digit_value(digit_char(c as int / 16))
            * 16 + digit_value(digit_char(c as int % 16))) as char == c,
{
}

proof fn lemma_literal_body_reads_back(value: Seq<char>, tail: Seq<char>)
    requires
        tail.len() > 0 ==> tail[0] != '\'',
    ensures
        read_literal_body(rendered(value, literal_unit()) + seq!['\''] + tail) == Some(
            (value, tail),
        ),
    decreases value.len(),
{
    let unit = literal_unit();
    let text = rendered(value, unit) + seq!['\''] + tail;
    if value.len() == 0 {
        assert(text =~= seq!['\''] + tail);
        assert(text.skip(1) =~= tail);
        assert(value =~= Seq::empty());
    } else {
        let rest = rendered(value.drop_first(), unit) + seq!['\''] + tail;
        let c = value[0];
        lemma_rendered_front(value, unit);
        lemma_literal_body_reads_back(value.drop_first(), tail);
        assert(text =~= unit(c) + rest);
        assert(seq![c] + value.drop_first() =~= value);
        if unit(c).len() == 1 {
            assert(text.skip(1) =~= rest);
        } else if unit(c).len() == 2 {
            assert(text.skip(2) =~= rest);
        } else {
            assert(text.skip(6) =~= rest);
            lemma_control_digits(c);
        }
    }
}

/// An escape-string literal reads back as the value it was made from, and what follows it stays
/// outside, whatever characters the value holds.
pub proof fn law_literal_reads_back(value: Seq<char>, tail: Seq<char>)
    requires
        tail.len() > 0 ==> tail[0] != '\'',
    ensures
        read_literal(literal(value) + tail) == Some((value, tail)),
{
    lemma_literal_body_reads_back(value, tail);
    let text = literal(value) + tail;
    assert(text.skip(2) =~= rendered(value, literal_unit()) + seq!['\''] + tail);
}

} // verus!
