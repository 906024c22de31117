//! Identifiers of pipelines, snapshot groups and runs.

use vstd::prelude::*;

verus! {

/// A universally unique identifier, held as its 128-bit value.
#[derive(Debug, Clone, Copy, PartialEq, Eq, Hash, Structural)]
pub struct Uuid {
    pub value: u128,
}

/// A lower-case hexadecimal digit.
pub open spec fn nibble_char(d: int) -> char {
    if d < 10 {
        (48 + d) as char
    } else {
        (87 + d) as char
    }
}

/// The last hexadecimal digits of a number, as many as the width says.
pub open spec fn nibbles(value: nat, width: nat) -> Seq<char>
    decreases width,
{
    if width == 0 {
        Seq::empty()
    } else {
        nibbles(value / 16, (width - 1) as nat).push(nibble_char((value % 16) as int))
    }
}

/// The hyphenated text of the identifier with the given value: its 32 hexadecimal digits in
/// groups of 8, 4, 4, 4 and 12.
pub open spec fn uuid_text(value: u128) -> Seq<char> {
    let text = nibbles(value as nat, 32);
    text.subrange(0, 8) + "-"@ + text.subrange(8, 12) + "-"@ + text.subrange(12, 16) + "-"@
        + text.subrange(16, 20) + "-"@ + text.subrange(20, 32)
}

/// `uuid::Uuid::to_string` renders the identifier with the given value as lower-case hexadecimal
/// digits in five groups with a hyphen between them.
#[verifier::external_body]
fn render_uuid(value: u128) -> (r: String)
    ensures
        r@ == uuid_text(value),
{
    uuid::Uuid::from_u128(value).to_string()
}

/// The bytes of a number, most significant first.
pub open spec fn big_endian(value: nat, width: nat) -> Seq<u8>
    decreases width,
{
    if width == 0 {
        Seq::empty()
    } else {
        big_endian(value / 256, (width - 1) as nat).push((value % 256) as u8)
    }
}

/// Bytes of one width tell the number.
pub proof fn law_big_endian_differs(a: nat, b: nat, width: nat)
    requires
        big_endian(a, width) == big_endian(b, width),
        a < pow256(width),
        b < pow256(width),
    ensures
        a == b,
    decreases width,
{
    if width > 0 {
        let x = big_endian(a, width);
        let y = big_endian(b, width);
        let w = (width - 1) as nat;
        assert(x.drop_last() =~= big_endian(a / 256, w));
        assert(y.drop_last() =~= big_endian(b / 256, w));
        assert(x.last() == y.last());
        assert(a / 256 < pow256(w));
        assert(b / 256 < pow256(w));
        law_big_endian_differs(a / 256, b / 256, w);
    }
}

/// The number of values that fit in the given number of bytes.
pub open spec fn pow256(width: nat) -> nat
    decreases width,
{
    if width == 0 {
        1
    } else {
        256 * pow256((width - 1) as nat)
    }
}

/// A number has as many bytes as its width says.
pub proof fn lemma_big_endian_len(value: nat, width: nat)
    ensures
        big_endian(value, width).len() == width,
    decreases width,
{
    if width > 0 {
        lemma_big_endian_len(value / 256, (width - 1) as nat);
    }
}

/// `uuid::Uuid::as_bytes` gives the sixteen bytes of the value, most significant first.
#[verifier::external_body]
fn uuid_bytes(value: u128) -> (r: [u8; 16])
    ensures
        r@ == big_endian(value as nat, 16),
{
    *uuid::Uuid::from_u128(value).as_bytes()
}

impl Uuid {
    pub fn from_u128(value: u128) -> (r: Self)
        ensures
            r.value == value,
    {
        Uuid { value }
    }

    /// The identifier of no object.
    pub fn nil() -> (r: Self)
        ensures
            r.value == 0,
    {
        Uuid { value: 0 }
    }

    pub fn is_nil(&self) -> (r: bool)
        ensures
            r == (self.value == 0),
    {
        self.value == 0
    }

    pub open spec fn text(self) -> Seq<char> {
        uuid_text(self.value)
    }

    /// The hyphenated text, as shown to operators.
    pub fn display(&self) -> (r: String)
        ensures
            r@ == self.text(),
    {
        render_uuid(self.value)
    }

    pub open spec fn octets(self) -> Seq<u8> {
        big_endian(self.value as nat, 16)
    }

    /// The sixteen bytes of the identifier.
    pub fn as_bytes(&self) -> (r: [u8; 16])
        ensures
            r@ == self.octets(),
    {
        uuid_bytes(self.value)
    }
}

/// The identity of one replication pipeline.
#[derive(Debug, Clone, Copy, PartialEq, Eq, Hash, Structural)]
pub struct PipelineId {
    pub uuid: Uuid,
}

impl PipelineId {
    pub fn from_uuid(uuid: Uuid) -> (r: Self)
        ensures
            r.uuid == uuid,
    {
        PipelineId { uuid }
    }

    pub fn as_uuid(&self) -> (r: Uuid)
        ensures
            r == self.uuid,
    {
        self.uuid
    }
}

/// The bytes of a number: the last one is its remainder by 256, and those before it are the bytes of
/// the quotient.
pub proof fn law_big_endian_bytes(value: nat, width: nat)
    ensures
        big_endian(value, 0).len() == 0,
        big_endian(value, width + 1).len() == width + 1,
        big_endian(value, width + 1).last() == value % 256,
        big_endian(value, width + 1).drop_last() == big_endian(value / 256, width),
{
    lemma_big_endian_len(value, width + 1);
    assert(big_endian(value, width + 1).drop_last() =~= big_endian(value / 256, width));
}

} // verus!
