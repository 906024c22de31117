//! Write-ahead-log positions.

use crate::text::{
    bounded_number, characters, hexadecimal, law_digits_read_back, read_number, render_hexadecimal,
};
use vstd::prelude::*;

verus! {

/// A position in the source's write-ahead log.
#[derive(Debug, Clone, Copy, PartialEq, Eq, PartialOrd, Ord, Hash, Structural)]
pub struct PgLsn {
    pub value: u64,
}

/// The most that one half of a position can hold.
pub const HALF_MAX: u64 = 4_294_967_295;

/// The text of a position: its upper and its lower half in hexadecimal.
pub open spec fn lsn_text(value: nat) -> Seq<char> {
    hexadecimal(value / 4_294_967_296) + "/"@ + hexadecimal(value % 4_294_967_296)
}

/// The text reads as a position, with its slash at `at`.
pub open spec fn reads_at(text: Seq<char>, at: int) -> Option<nat> {
    let high = bounded_number(text.take(at), 16, HALF_MAX as nat);
    let low = bounded_number(text.skip(at + 1), 16, HALF_MAX as nat);
    match (high, low) {
        (Some(h), Some(l)) => Some(h * 4_294_967_296 + l),
        _ => None,
    }
}

/// The position of the first slash at or behind `from`, the length of the text if there is none.
pub open spec fn slash_from(text: Seq<char>, from: int) -> int
    decreases text.len() - from,
{
    if from >= text.len() || from < 0 {
        text.len() as int
    } else if text[from] == '/' {
        from
    } else {
        slash_from(text, from + 1)
    }
}

/// The position that a text stands for.
pub open spec fn parsed_lsn(text: Seq<char>) -> Option<nat> {
    let at = slash_from(text, 0);
    if at >= text.len() {
        None
    } else {
        reads_at(text, at)
    }
}

impl PgLsn {
    pub fn new(value: u64) -> (r: Self)
        ensures
            r.value == value,
    {
        PgLsn { value }
    }

    /// The position before every record.
    pub fn zero() -> (r: Self)
        ensures
            r.value == 0,
    {
        PgLsn { value: 0 }
    }

    pub fn as_u64(&self) -> (r: u64)
        ensures
            r == self.value,
    {
        self.value
    }

    pub open spec fn text(self) -> Seq<char> {
        lsn_text(self.value as nat)
    }

    /// The text that PostgreSQL uses for the position.
    pub fn display(&self) -> (r: String)
        ensures
            r@ == self.text(),
    {
        let mut out = render_hexadecimal(self.value / 4_294_967_296);
        out.append("/");
        out.append(render_hexadecimal(self.value % 4_294_967_296).as_str());
        out
    }

    /// Reads the text that PostgreSQL uses for a position.
    pub fn parse(text: &str) -> (r: Option<Self>)
        ensures
            match r {
                Some(lsn) => parsed_lsn(text@) == Some(lsn.value as nat),
                None => parsed_lsn(text@) is None,
            },
    {
        let chars = characters(text);
        let mut at: usize = 0;
        while at < chars.len() && chars[at] != '/'
            invariant
                at <= chars.len(),
                chars@ == text@,
                slash_from(text@, 0) == slash_from(text@, at as int),
            decreases chars.len() - at,
        {
            at = at + 1;
        }
        if at == chars.len() {
            return None;
        }
        proof {
            assert(chars@.subrange(0, at as int) =~= text@.take(at as int));
            assert(chars@.subrange(at + 1, chars@.len() as int) =~= text@.skip(at + 1));
        }
        match (
            read_number(&chars, 0, at, 16, HALF_MAX),
            read_number(&chars, at + 1, chars.len(), 16, HALF_MAX),
        ) {
            (Some(high), Some(low)) => Some(PgLsn { value: high * 4_294_967_296 + low }),
            _ => None,
        }
    }
}

proof fn lemma_hexadecimal_has_no_slash(n: nat)
    ensures
        forall|i: int| 0 <= i < hexadecimal(n).len() ==> hexadecimal(n)[i] != '/',
    decreases n,
{
    if n >= 16 {
        crate::text::lemma_quotient_smaller(n, 16);
        lemma_hexadecimal_has_no_slash(n / 16);
        assert forall|i: int| 0 <= i < hexadecimal(n).len() implies hexadecimal(n)[i] != '/' by {
            if i < hexadecimal(n / 16).len() {
                assert(hexadecimal(n)[i] == hexadecimal(n / 16)[i]);
            }
        }
    }
}

proof fn lemma_first_slash(text: Seq<char>, from: int, at: int)
    requires
        0 <= from <= at < text.len(),
        text[at] == '/',
        forall|i: int| from <= i < at ==> text[i] != '/',
    ensures
        slash_from(text, from) == at,
    decreases at - from,
{
    if from < at {
        lemma_first_slash(text, from + 1, at);
    }
}

/// Every position reads back from its text.
pub proof fn law_lsn_reads_back(lsn: PgLsn)
    ensures
        parsed_lsn(lsn.text()) == Some(lsn.value as nat),
{
    let value = lsn.value as nat;
    let high = value / 4_294_967_296;
    let low = value % 4_294_967_296;
    let text = lsn.text();
    reveal_strlit("/");
    law_digits_read_back(high, 16);
    law_digits_read_back(low, 16);
    lemma_hexadecimal_has_no_slash(high);
    let at = hexadecimal(high).len() as int;
    assert(text[at] == '/');
    assert forall|i: int| 0 <= i < at implies text[i] != '/' by {
        assert(text[i] == hexadecimal(high)[i]);
    }
    lemma_first_slash(text, 0, at);
    assert(text.take(at) =~= hexadecimal(high));
    assert(text.skip(at + 1) =~= hexadecimal(low));
    assert(high * 4_294_967_296 + low == value);
}

/// The text of a position is its upper and its lower 32 bits in hexadecimal, with a slash between
/// them; a text with such halves around its only slash reads as that position, and no other does.
pub proof fn law_position_texts(high: nat, low: nat, text: Seq<char>)
    requires
        high <= 0xffff_ffff,
        low <= 0xffff_ffff,
    ensures
        lsn_text(high * 0x1_0000_0000 + low) == hexadecimal(high) + "/"@ + hexadecimal(low),
        parsed_lsn(hexadecimal(high) + "/"@ + hexadecimal(low)) == Some(
            high * 0x1_0000_0000 + low,
        ),
        !text.contains('/') ==> parsed_lsn(text) is None,
{
    let value = high * 0x1_0000_0000 + low;
    assert(value / 0x1_0000_0000 == high && value % 0x1_0000_0000 == low) by (nonlinear_arith)
        requires
            value == high * 0x1_0000_0000 + low,
            low <= 0xffff_ffff,
    ;
    assert(value <= u64::MAX) by (nonlinear_arith)
        requires
            value == high * 0x1_0000_0000 + low,
            high <= 0xffff_ffff,
            low <= 0xffff_ffff,
    ;
    law_lsn_reads_back(PgLsn { value: value as u64 });
    if !text.contains('/') {
        lemma_no_slash(text, 0);
    }
}

proof fn lemma_no_slash(text: Seq<char>, from: int)
    requires
        0 <= from <= text.len(),
        !text.contains('/'),
    ensures
        slash_from(text, from) == text.len(),
    decreases text.len() - from,
{
    if from < text.len() {
        assert(text[from] != '/');
        lemma_no_slash(text, from + 1);
    }
}

} // verus!
