//! Text primitives: exact models of rendering, joining, searching and ordering.
//!
//! Every text is modelled by its sequence of Unicode scalar values.

use vstd::prelude::*;

verus! {

/// `String::push` appends one character.
pub assume_specification[ String::push ](s: &mut String, c: char)
    ensures
        final(s)@ == old(s)@.push(c),
;

/// Equality of string slices is equality of their characters.
pub assume_specification[ <str as PartialEq>::eq ](a: &str, b: &str) -> (r: bool)
    ensures
        r == (a@ == b@),
;

/// The characters of each text of a list.
pub open spec fn texts(list: Seq<String>) -> Seq<Seq<char>> {
    Seq::new(list.len(), |i: int| list[i]@)
}

/// `a` and `b` hold the same characters.
pub fn same_text(a: &str, b: &str) -> (r: bool)
    ensures
        r == (a@ == b@),
{
    a.eq(b)
}

/// Whether two lists hold the same texts.
pub fn same_texts(a: &[String], b: &[String]) -> (r: bool)
    ensures
        r == (texts(a@) == texts(b@)),
{
    if a.len() != b.len() {
        proof {
            assert(texts(a@).len() != texts(b@).len());
        }
        return false;
    }
    let mut i: usize = 0;
    while i < a.len()
        invariant
            i <= a.len(),
            a.len() == b.len(),
            forall|k: int| 0 <= k < i ==> (#[trigger] a@[k])@ == b@[k]@,
        decreases a.len() - i,
    {
        if !same_text(a[i].as_str(), b[i].as_str()) {
            proof {
                assert(texts(a@)[i as int] != texts(b@)[i as int]);
            }
            return false;
        }
        i = i + 1;
    }
    proof {
        assert(texts(a@) =~= texts(b@));
    }
    true
}

/// The characters of a text, one by one.
pub fn characters(s: &str) -> (r: Vec<char>)
    ensures
        r@ == s@,
{
    let mut out: Vec<char> = Vec::new();
    for c in it: s.chars()
        invariant
            out@ == it.seq().take(it.index()),
            it.seq() == s@,
    {
        out.push(c);
    }
    out
}

/// Whether `c` occurs in `s`.
pub fn contains_char(s: &str, c: char) -> (r: bool)
    ensures
        r == s@.contains(c),
{
    let chars = characters(s);
    let mut i: usize = 0;
    while i < chars.len()
        invariant
            i <= chars.len(),
            chars@ == s@,
            forall|j: int| 0 <= j < i ==> chars@[j] != c,
        decreases chars.len() - i,
    {
        if chars[i] == c {
            return true;
        }
        i = i + 1;
    }
    false
}

/// The parts in order, with `separator` between two neighbours.
pub open spec fn joined<A>(parts: Seq<Seq<A>>, separator: Seq<A>) -> Seq<A>
    decreases parts.len(),
{
    if parts.len() == 0 {
        Seq::empty()
    } else if parts.len() == 1 {
        parts[0]
    } else {
        joined(parts.drop_last(), separator) + separator + parts.last()
    }
}

/// Appends one more part to a joined text of the parts before it.
pub(crate) fn append_joined(
    text: &mut String,
    first: bool,
    separator: &str,
    part: &str,
    Ghost(parts): Ghost<Seq<Seq<char>>>,
)
    requires
        first == (parts.len() == 0),
        old(text)@ == joined(parts, separator@),
    ensures
        final(text)@ == joined(parts.push(part@), separator@),
{
    proof {
        assert(parts.push(part@).drop_last() =~= parts);
        if parts.len() == 0 {
            assert(Seq::<char>::empty() + part@ =~= part@);
        }
    }
    if !first {
        text.append(separator);
    }
    text.append(part);
}

/// Joins texts with a separator.
pub fn join(parts: &Vec<String>, separator: &str) -> (r: String)
    ensures
        r@ == joined(texts(parts@), separator@),
{
    let mut out = String::new();
    let mut i: usize = 0;
    while i < parts.len()
        invariant
            i <= parts.len(),
            out@ == joined(texts(parts@).take(i as int), separator@),
        decreases parts.len() - i,
    {
        let ghost done = texts(parts@).take(i as int);
        proof {
            assert(texts(parts@).take(i + 1) =~= done.push(parts@[i as int]@));
        }
        append_joined(&mut out, i == 0, separator, parts[i].as_str(), Ghost(done));
        i = i + 1;
    }
    proof {
        assert(texts(parts@).take(i as int) =~= texts(parts@));
    }
    out
}

/// The digit character of a value below sixteen, with upper-case letters.
pub open spec fn digit_char(d: int) -> char {
    if d < 10 {
        (48 + d) as char
    } else {
        (55 + d) as char
    }
}

/// The text of `n` in the given base, without leading zeros.
pub open spec fn digits(n: nat, base: nat) -> Seq<char>
    decreases n,
{
    if base < 2 || n < base {
        seq![digit_char(n as int)]
    } else {
        proof {
            lemma_quotient_smaller(n, base);
        }
        digits(n / base, base).push(digit_char((n % base) as int))
    }
}

pub proof fn lemma_quotient_smaller(n: nat, base: nat)
    requires
        2 <= base <= n,
    ensures
        n / base < n,
{
    assert(n / base < n) by (nonlinear_arith)
        requires
            2 <= base <= n,
    ;
}

/// The decimal text of a natural number.
pub open spec fn decimal(n: nat) -> Seq<char> {
    digits(n, 10)
}

/// The upper-case hexadecimal text of a natural number.
pub open spec fn hexadecimal(n: nat) -> Seq<char> {
    digits(n, 16)
}

/// The decimal text of an integer, with a minus sign in front of a negative one.
pub open spec fn signed_decimal(n: int) -> Seq<char> {
    if n < 0 {
        seq!['-'] + decimal((-n) as nat)
    } else {
        decimal(n as nat)
    }
}

/// Renders one digit.
pub fn render_digit(d: u64) -> (r: char)
    requires
        d < 16,
    ensures
        r == digit_char(d as int),
{
    if d < 10 {
        (48u8 + d as u8) as char
    } else {
        (55u8 + d as u8) as char
    }
}

fn render_digits(n: u64, base: u64) -> (r: String)
    requires
        2 <= base <= 16,
    ensures
        r@ == digits(n as nat, base as nat),
    decreases n,
{
    if n < base {
        let mut out = String::new();
        out.push(render_digit(n));
        proof {
            assert(out@ =~= seq![digit_char(n as int)]);
        }
        out
    } else {
        proof {
            lemma_quotient_smaller(n as nat, base as nat);
        }
        let mut out = render_digits(n / base, base);
        out.push(render_digit(n % base));
        out
    }
}

/// Renders an unsigned integer in decimal.
pub fn render_decimal(n: u64) -> (r: String)
    ensures
        r@ == decimal(n as nat),
{
    render_digits(n, 10)
}

/// Renders an unsigned integer in upper-case hexadecimal.
pub fn render_hexadecimal(n: u64) -> (r: String)
    ensures
        r@ == hexadecimal(n as nat),
{
    render_digits(n, 16)
}

/// Renders a signed integer in decimal.
pub fn render_signed(n: i64) -> (r: String)
    ensures
        r@ == signed_decimal(n as int),
{
    if n < 0 {
        let magnitude: u64 = if n == i64::MIN {
            9_223_372_036_854_775_808u64
        } else {
            (-n) as u64
        };
        let mut out = String::new();
        out.push('-');
        out.append(render_decimal(magnitude).as_str());
        proof {
            assert(Seq::<char>::empty().push('-') =~= seq!['-']);
        }
        out
    } else {
        render_decimal(n as u64)
    }
}

/// `text` begins with `prefix`.
pub open spec fn begins_with(text: Seq<char>, prefix: Seq<char>) -> bool {
    prefix.len() <= text.len() && text.take(prefix.len() as int) == prefix
}

/// Whether `text` begins with `prefix`.
pub fn starts_with(text: &str, prefix: &str) -> (r: bool)
    ensures
        r == begins_with(text@, prefix@),
{
    let t = characters(text);
    let p = characters(prefix);
    if p.len() > t.len() {
        return false;
    }
    let mut i: usize = 0;
    while i < p.len()
        invariant
            i <= p.len() <= t.len(),
            t@ == text@,
            p@ == prefix@,
            forall|j: int| 0 <= j < i ==> t@[j] == p@[j],
        decreases p.len() - i,
    {
        if t[i] != p[i] {
            proof {
                assert(text@.take(p.len() as int)[i as int] != prefix@[i as int]);
            }
            return false;
        }
        i = i + 1;
    }
    proof {
        assert(text@.take(prefix@.len() as int) =~= prefix@);
    }
    true
}

/// `pattern` occurs in `text` at position `at`.
pub open spec fn occurs_at(text: Seq<char>, pattern: Seq<char>, at: int) -> bool {
    0 <= at && at + pattern.len() <= text.len() && text.subrange(at, at + pattern.len()) == pattern
}

/// `pattern` occurs in `text` at position `at`, and no digit follows it there.
pub open spec fn ends_at(text: Seq<char>, pattern: Seq<char>, at: int) -> bool {
    &&& occurs_at(text, pattern, at)
    &&& at + pattern.len() == text.len() || !('0' <= text[at + pattern.len()] <= '9')
}

/// `pattern` occurs somewhere in `text` with no further digit behind it.
pub open spec fn ends_in(text: Seq<char>, pattern: Seq<char>) -> bool {
    exists|at: int| ends_at(text, pattern, at)
}

/// Whether `pattern` occurs in `text` with no further digit behind it.
pub fn contains_number(text: &str, pattern: &str) -> (r: bool)
    ensures
        r == ends_in(text@, pattern@),
{
    let t = characters(text);
    let p = characters(pattern);
    let mut at: usize = 0;
    while at <= t.len() && p.len() <= t.len() - at
        invariant
            at <= t.len() + 1,
            t@ == text@,
            p@ == pattern@,
            forall|k: int| 0 <= k < at ==> !ends_at(text@, pattern@, k),
        decreases t.len() + 1 - at,
    {
        let mut i: usize = 0;
        while i < p.len() && t[at + i] == p[i]
            invariant
                i <= p.len(),
                at + p.len() <= t.len(),
                forall|j: int| 0 <= j < i ==> t@[at + j] == p@[j],
            decreases p.len() - i,
        {
            i = i + 1;
        }
        if i == p.len() && (at + i == t.len() || t[at + i] < '0' || t[at + i] > '9') {
            proof {
                assert(t@.subrange(at as int, at + p@.len()) =~= p@);
                assert(ends_at(text@, pattern@, at as int));
            }
            return true;
        }
        proof {
            assert(!ends_at(text@, pattern@, at as int)) by {
                if i < p.len() && occurs_at(text@, pattern@, at as int) {
                    assert(text@.subrange(at as int, at + pattern@.len())[i as int] == pattern@[i as int]);
                }
            }
        }
        if at == t.len() {
            return false;
        }
        at = at + 1;
    }
    proof {
        assert forall|k: int| !ends_at(text@, pattern@, k) by {
            if ends_at(text@, pattern@, k) {
                assert(k >= at);
            }
        }
    }
    false
}

/// Lexicographic order of texts by code point.
pub open spec fn text_less(a: Seq<char>, b: Seq<char>) -> bool
    decreases a.len(),
{
    if b.len() == 0 {
        false
    } else if a.len() == 0 {
        true
    } else if a[0] != b[0] {
        (a[0] as int) < (b[0] as int)
    } else {
        text_less(a.drop_first(), b.drop_first())
    }
}

/// Whether `a` stands strictly before `b`.
pub fn is_text_less(a: &str, b: &str) -> (r: bool)
    ensures
        r == text_less(a@, b@),
{
    let x = characters(a);
    let y = characters(b);
    let mut i: usize = 0;
    proof {
        assert(a@.skip(0) =~= a@);
        assert(b@.skip(0) =~= b@);
    }
    while i < x.len() && i < y.len()
        invariant
            i <= x.len(),
            i <= y.len(),
            x@ == a@,
            y@ == b@,
            text_less(a@, b@) == text_less(a@.skip(i as int), b@.skip(i as int)),
        decreases x.len() - i,
    {
        proof {
            assert(a@.skip(i as int).drop_first() =~= a@.skip(i + 1));
            assert(b@.skip(i as int).drop_first() =~= b@.skip(i + 1));
        }
        if x[i] != y[i] {
            return x[i] < y[i];
        }
        i = i + 1;
    }
    y.len() > i
}

/// A decimal text is not empty and holds digits only.
pub proof fn lemma_decimal_digits(n: nat)
    ensures
        decimal(n).len() > 0,
        forall|i: int| 0 <= i < decimal(n).len() ==> '0' <= #[trigger] decimal(n)[i] <= '9',
    decreases n,
{
    if n >= 10 {
        lemma_quotient_smaller(n, 10);
        lemma_decimal_digits(n / 10);
    }
}

/// Two numbers have the same decimal text only if they are the same.
pub proof fn law_decimals_differ(a: nat, b: nat)
    ensures
        decimal(a) == decimal(b) <==> a == b,
    decreases a,
{
    if decimal(a) == decimal(b) {
        lemma_decimal_digits(a / 10);
        lemma_decimal_digits(b / 10);
        let last_a = decimal(a).last();
        let last_b = decimal(b).last();
        assert(last_a == last_b);
        if a >= 10 && b >= 10 {
            lemma_quotient_smaller(a, 10);
            assert(decimal(a).drop_last() =~= decimal(a / 10));
            assert(decimal(b).drop_last() =~= decimal(b / 10));
            law_decimals_differ(a / 10, b / 10);
            assert(digit_char((a % 10) as int) == digit_char((b % 10) as int));
            assert(a % 10 == b % 10);
        } else if a < 10 && b < 10 {
            assert(decimal(a)[0] == decimal(b)[0]);
        } else if a < 10 {
            assert(decimal(a).len() == 1);
            assert(decimal(b).len() == decimal(b / 10).len() + 1);
        } else {
            assert(decimal(b).len() == 1);
            assert(decimal(a).len() == decimal(a / 10).len() + 1);
        }
    }
}

/// A signed decimal text holds no NUL character.
pub proof fn lemma_signed_decimal_digits(n: int)
    ensures
        signed_decimal(n).len() > 0,
        !signed_decimal(n).contains('\0'),
{
    if n < 0 {
        lemma_decimal_digits((-n) as nat);
    } else {
        lemma_decimal_digits(n as nat);
    }
}

/// The value of a digit of the given base, in either case.
pub open spec fn digit_value_of(c: char, base: nat) -> Option<nat> {
    let value = if '0' <= c && c <= '9' {
        c as int - 48
    } else if 'A' <= c && c <= 'F' {
        c as int - 55
    } else if 'a' <= c && c <= 'f' {
        c as int - 87
    } else {
        -1
    };
    if 0 <= value < base {
        Some(value as nat)
    } else {
        None
    }
}

/// The number that the digits of a text stand for.
pub open spec fn number_of(text: Seq<char>, base: nat) -> Option<nat>
    decreases text.len(),
{
    if text.len() == 0 {
        Some(0)
    } else {
        match (number_of(text.drop_last(), base), digit_value_of(text.last(), base)) {
            (Some(front), Some(digit)) => Some(front * base + digit),
            _ => None,
        }
    }
}

/// The number of a text of one or more digits, if it is not above `most`.
pub open spec fn bounded_number(text: Seq<char>, base: nat, most: nat) -> Option<nat> {
    match number_of(text, base) {
        Some(n) => if text.len() > 0 && n <= most {
            Some(n)
        } else {
            None
        },
        None => None,
    }
}

fn digit_number(c: char, base: u64) -> (r: Option<u64>)
    requires
        2 <= base <= 16,
    ensures
        match r {
            Some(d) => digit_value_of(c, base as nat) == Some(d as nat) && d < base,
            None => digit_value_of(c, base as nat) is None,
        },
{
    let value: u64 = if '0' <= c && c <= '9' {
        c as u64 - 48
    } else if 'A' <= c && c <= 'F' {
        c as u64 - 55
    } else if 'a' <= c && c <= 'f' {
        c as u64 - 87
    } else {
        16
    };
    if value < base {
        Some(value)
    } else {
        None
    }
}

/// A number that is too large stays too large with more digits.
proof fn lemma_number_grows(text: Seq<char>, count: int, base: nat, most: nat)
    requires
        0 <= count <= text.len(),
        base >= 1,
        match number_of(text.take(count), base) {
            Some(n) => n > most,
            None => true,
        },
    ensures
        match number_of(text, base) {
            Some(n) => n > most,
            None => true,
        },
    decreases text.len(),
{
    if count == text.len() {
        assert(text.take(count) =~= text);
    } else {
        assert(text.drop_last().take(count) =~= text.take(count));
        lemma_number_grows(text.drop_last(), count, base, most);
        match number_of(text.drop_last(), base) {
            Some(front) => {
                assert(front * base >= front) by (nonlinear_arith)
                    requires
                        base >= 1,
                ;
            },
            None => {},
        }
    }
}

/// Reads the digits from position `from` on.
pub fn read_number(chars: &Vec<char>, from: usize, to: usize, base: u64, most: u64) -> (r: Option<
    u64,
>)
    requires
        from <= to <= chars.len(),
        2 <= base <= 16,
    ensures
        match r {
            Some(n) => bounded_number(
                chars@.subrange(from as int, to as int),
                base as nat,
                most as nat,
            ) == Some(n as nat),
            None => bounded_number(
                chars@.subrange(from as int, to as int),
                base as nat,
                most as nat,
            ) is None,
        },
{
    if from == to {
        return None;
    }
    let ghost text = chars@.subrange(from as int, to as int);
    let mut value: u64 = 0;
    let mut i: usize = from;
    proof {
        assert(text.take(0) =~= Seq::empty());
    }
    while i < to
        invariant
            from <= i <= to <= chars.len(),
            from < to,
            2 <= base <= 16,
            value <= most,
            text == chars@.subrange(from as int, to as int),
            number_of(text.take(i - from), base as nat) == Some(value as nat),
        decreases to - i,
    {
        proof {
            assert(text.take(i + 1 - from).drop_last() =~= text.take(i - from));
            assert(text.take(i + 1 - from).last() == chars@[i as int]);
        }
        match digit_number(chars[i], base) {
            None => {
                proof {
                    lemma_number_grows(text, i + 1 - from, base as nat, most as nat);
                }
                return None;
            },
            Some(d) => {
                proof {
                    assert(value * base <= 0xffff_ffff_ffff_ffff * 16) by (nonlinear_arith)
                        requires
                            value <= 0xffff_ffff_ffff_ffff,
                            base <= 16,
                    ;
                }
                let wide: u128 = value as u128 * base as u128 + d as u128;
                if wide > most as u128 {
                    proof {
                        lemma_number_grows(text, i + 1 - from, base as nat, most as nat);
                    }
                    return None;
                }
                value = wide as u64;
            },
        }
        i = i + 1;
    }
    proof {
        assert(text.take(i - from) =~= text);
    }
    Some(value)
}

/// The unsigned number of a decimal text with an optional plus sign.
pub open spec fn unsigned_number(text: Seq<char>, most: nat) -> Option<nat> {
    if text.len() > 0 && text[0] == '+' {
        bounded_number(text.skip(1), 10, most)
    } else {
        bounded_number(text, 10, most)
    }
}

/// Reads an unsigned decimal number.
pub fn parse_u64(text: &str) -> (r: Option<u64>)
    ensures
        match r {
            Some(n) => unsigned_number(text@, u64::MAX as nat) == Some(n as nat),
            None => unsigned_number(text@, u64::MAX as nat) is None,
        },
{
    let chars = characters(text);
    let from: usize = if chars.len() > 0 && chars[0] == '+' {
        1
    } else {
        0
    };
    proof {
        assert(chars@.subrange(from as int, chars@.len() as int) =~= chars@.skip(from as int));
        assert(text@.skip(0) =~= text@);
    }
    read_number(&chars, from, chars.len(), 10, u64::MAX)
}

/// Digits read back as the number they were made from.
pub proof fn law_digits_read_back(n: nat, base: nat)
    requires
        2 <= base <= 16,
    ensures
        digits(n, base).len() > 0,
        number_of(digits(n, base), base) == Some(n),
    decreases n,
{
    let text = digits(n, base);
    if n < base {
        assert(text.drop_last() =~= Seq::empty());
        assert(digit_value_of(text.last(), base) == Some(n));
        assert(0 * base == 0) by (nonlinear_arith);
        assert(number_of(text.drop_last(), base) == Some(0nat));
    } else {
        lemma_quotient_smaller(n, base);
        law_digits_read_back(n / base, base);
        assert(text.drop_last() =~= digits(n / base, base));
        let d = (n % base) as nat;
        assert(n % base < base) by (nonlinear_arith)
            requires
                base >= 2,
        ;
        assert(digit_value_of(text.last(), base) == Some(d));
        assert(n == (n / base) * base + n % base) by (nonlinear_arith)
            requires
                base >= 2,
        ;
        assert(number_of(text.drop_last(), base) == Some(n / base));
        assert(number_of(text, base) == Some(((n / base) * base + d) as nat));
    }
}

/// Every number that fits reads back from its decimal text.
pub proof fn law_decimal_reads_back(n: nat, most: nat)
    requires
        n <= most,
    ensures
        unsigned_number(decimal(n), most) == Some(n),
{
    law_digits_read_back(n, 10);
    lemma_decimal_digits(n);
    assert('0' <= decimal(n)[0] <= '9');
}

/// A text as Rust's `Debug` shows it, between double quotes and with escapes.
pub uninterp spec fn debug_text(value: Seq<char>) -> Seq<char>;

/// `Debug` of `str`, through `format!`. The contract claims only that the result depends on the
/// text alone; how characters are escaped is left unsaid.
#[verifier::external_body]
fn render_debug(value: &str) -> (r: String)
    ensures
        r@ == debug_text(value@),
{
    format!("{value:?}")
}

/// A list as Rust's `Debug` shows it, given what it shows of each member.
pub open spec fn debug_list(shown: Seq<Seq<char>>) -> Seq<char> {
    "["@ + joined(shown, ", "@) + "]"@
}

/// A list of texts as Rust's `Debug` shows it.
pub open spec fn debug_texts(list: Seq<Seq<char>>) -> Seq<char> {
    debug_list(Seq::new(list.len(), |i: int| debug_text(list[i])))
}

/// A list of numbers as Rust's `Debug` shows it.
pub open spec fn debug_numbers(list: Seq<i32>) -> Seq<char> {
    debug_list(Seq::new(list.len(), |i: int| signed_decimal(list[i] as int)))
}

/// An optional value as Rust's `Debug` shows it, given what it shows of the value.
pub open spec fn debug_option(shown: Option<Seq<char>>) -> Seq<char> {
    match shown {
        None => "None"@,
        Some(text) => "Some("@ + text + ")"@,
    }
}

/// An optional text as Rust's `Debug` shows it.
pub open spec fn debug_optional_text(value: Option<Seq<char>>) -> Seq<char> {
    debug_option(
        match value {
            None => None,
            Some(text) => Some(debug_text(text)),
        },
    )
}

/// An optional number as Rust's `Debug` shows it.
pub open spec fn debug_optional_number(value: Option<i64>) -> Seq<char> {
    debug_option(
        match value {
            None => None,
            Some(number) => Some(signed_decimal(number as int)),
        },
    )
}

/// Shows a text between double quotes.
pub fn show_text(value: &str) -> (r: String)
    ensures
        r@ == debug_text(value@),
{
    render_debug(value)
}

fn bracketed(parts: &Vec<String>) -> (r: String)
    ensures
        r@ == debug_list(texts(parts@)),
{
    let mut out = "[".to_string();
    out.append(join(parts, ", ").as_str());
    out.append("]");
    out
}

/// Shows a list of texts.
pub fn show_texts(list: &[String]) -> (r: String)
    ensures
        r@ == debug_texts(texts(list@)),
{
    let mut parts: Vec<String> = Vec::new();
    let mut i: usize = 0;
    while i < list.len()
        invariant
            i <= list.len(),
            parts@.len() == i,
            forall|k: int| 0 <= k < i ==> (#[trigger] parts@[k])@ == debug_text(list@[k]@),
        decreases list.len() - i,
    {
        parts.push(render_debug(list[i].as_str()));
        i = i + 1;
    }
    proof {
        let all = texts(list@);
        assert(texts(parts@) =~= Seq::new(all.len(), |i: int| debug_text(all[i])));
    }
    bracketed(&parts)
}

/// Shows a list of numbers.
pub fn show_numbers(list: &[i32]) -> (r: String)
    ensures
        r@ == debug_numbers(list@),
{
    let mut parts: Vec<String> = Vec::new();
    let mut i: usize = 0;
    while i < list.len()
        invariant
            i <= list.len(),
            parts@.len() == i,
            forall|k: int|
                0 <= k < i ==> (#[trigger] parts@[k])@ == signed_decimal(list@[k] as int),
        decreases list.len() - i,
    {
        parts.push(render_signed(list[i] as i64));
        i = i + 1;
    }
    proof {
        assert(texts(parts@) =~= Seq::new(list@.len(), |i: int| signed_decimal(list@[i] as int)));
    }
    bracketed(&parts)
}

/// Shows an optional value, given what is shown of the value.
pub fn show_option(shown: Option<String>) -> (r: String)
    ensures
        r@ == debug_option(
            match shown {
                None => None,
                Some(text) => Some(text@),
            },
        ),
{
    match shown {
        None => "None".to_string(),
        Some(text) => {
            let mut out = "Some(".to_string();
            out.append(text.as_str());
            out.append(")");
            out
        },
    }
}

/// Shows an optional text.
pub fn show_optional_text(value: Option<&str>) -> (r: String)
    ensures
        r@ == debug_optional_text(
            match value {
                None => None,
                Some(text) => Some(text@),
            },
        ),
{
    match value {
        None => show_option(None),
        Some(text) => show_option(Some(render_debug(text))),
    }
}

/// Shows an optional number.
pub fn show_optional_number(value: Option<i64>) -> (r: String)
    ensures
        r@ == debug_optional_number(value),
{
    match value {
        None => show_option(None),
        Some(number) => show_option(Some(render_signed(number))),
    }
}

/// The text of a truth value.
pub open spec fn truth_text(value: bool) -> Seq<char> {
    if value {
        "true"@
    } else {
        "false"@
    }
}

pub fn show_truth(value: bool) -> (r: &'static str)
    ensures
        r@ == truth_text(value),
{
    if value {
        "true"
    } else {
        "false"
    }
}

/// The digits: 0 to 9, then upper-case A to F.
pub proof fn law_digit_characters(d: int)
    requires
        0 <= d < 16,
    ensures
        digit_char(d) == "0123456789ABCDEF"@[d],
{
    reveal_strlit("0123456789ABCDEF");
}

/// The order of texts: at the first character where they differ the smaller one comes first, and
/// where one text ends there, it does.
pub proof fn law_text_order(a: Seq<char>, b: Seq<char>, at: int)
    requires
        0 <= at <= a.len(),
        at <= b.len(),
        forall|i: int| 0 <= i < at ==> a[i] == b[i],
    ensures
        at < a.len() && at < b.len() && a[at] != b[at] ==> (text_less(a, b) <==> (a[at] as int) < (
        b[at] as int)),
        at == a.len() ==> (text_less(a, b) <==> a.len() < b.len()),
        at == b.len() ==> !text_less(a, b),
    decreases at,
{
    if at > 0 {
        let x = a.drop_first();
        let y = b.drop_first();
        assert(a[0] == b[0]);
        assert forall|i: int| 0 <= i < at - 1 implies x[i] == y[i] by {
            assert(a[i + 1] == b[i + 1]);
        }
        law_text_order(x, y, at - 1);
    }
}

} // verus!
