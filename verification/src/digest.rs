//! Digests and the framing of what is digested.

use crate::ident::{big_endian, law_big_endian_differs, lemma_big_endian_len, nibble_char, pow256};
use sha2::Digest;
use vstd::prelude::*;

verus! {

/// Whether two digests are the same.
pub fn same_digest(a: &[u8; 32], b: &[u8; 32]) -> (r: bool)
    ensures
        r == (a@ == b@),
{
    let mut i: usize = 0;
    while i < 32
        invariant
            i <= 32,
            forall|k: int| 0 <= k < i ==> a@[k] == b@[k],
        decreases 32 - i,
    {
        if a[i] != b[i] {
            return false;
        }
        i = i + 1;
    }
    proof {
        assert(a@ =~= b@);
    }
    true
}

/// The digest that a vector of 32 bytes holds.
pub fn digest_from(bytes: &Vec<u8>) -> (r: Option<[u8; 32]>)
    ensures
        match r {
            Some(digest) => digest@ == bytes@,
            None => bytes@.len() != 32,
        },
{
    if bytes.len() != 32 {
        return None;
    }
    let mut out: [u8; 32] = [0u8; 32];
    let mut i: usize = 0;
    while i < 32
        invariant
            i <= 32,
            bytes.len() == 32,
            forall|k: int| 0 <= k < i ==> out@[k] == bytes@[k],
        decreases 32 - i,
    {
        out[i] = bytes[i];
        i = i + 1;
    }
    proof {
        assert(out@ =~= bytes@);
    }
    Some(out)
}

/// The SHA-256 digest of the given bytes.
pub uninterp spec fn sha256(data: Seq<u8>) -> Seq<u8>;

/// `sha2::Sha256::digest` gives the digest of the bytes; it depends on them alone and has 32
/// bytes.
#[verifier::external_body]
pub(crate) fn sha256_digest(data: &[u8]) -> (r: [u8; 32])
    ensures
        r@ == sha256(data@),
{
    sha2::Sha256::digest(data).into()
}

/// Appends a number in the given number of bytes, most significant first.
pub(crate) fn push_big_endian(out: &mut Vec<u8>, value: u64, width: usize)
    ensures
        final(out)@ == old(out)@ + big_endian(value as nat, width as nat),
    decreases width,
{
    let ghost before = out@;
    if width > 0 {
        push_big_endian(out, value / 256, width - 1);
        out.push((value % 256) as u8);
        proof {
            assert(out@ =~= before + big_endian(value as nat, width as nat));
        }
    } else {
        proof {
            assert(out@ =~= before + big_endian(value as nat, 0));
        }
    }
}

/// The number in the given number of bytes, most significant first.
pub fn be_bytes(value: u64, width: usize) -> (r: Vec<u8>)
    ensures
        r@ == big_endian(value as nat, width as nat),
{
    let mut out: Vec<u8> = Vec::new();
    push_big_endian(&mut out, value, width);
    proof {
        assert(out@ =~= big_endian(value as nat, width as nat));
    }
    out
}

/// A field behind its length.
pub open spec fn frame(field: Seq<u8>) -> Seq<u8> {
    big_endian(field.len(), 8) + field
}

/// Fields in order, each behind its length.
pub open spec fn framed(fields: Seq<Seq<u8>>) -> Seq<u8>
    decreases fields.len(),
{
    if fields.len() == 0 {
        Seq::empty()
    } else {
        framed(fields.drop_last()) + frame(fields.last())
    }
}

/// Appends one more field.
pub(crate) fn push_field(out: &mut Vec<u8>, field: &[u8], Ghost(fields): Ghost<Seq<Seq<u8>>>)
    requires
        old(out)@ == framed(fields),
    ensures
        final(out)@ == framed(fields.push(field@)),
{
    let ghost before = out@;
    push_big_endian(out, field.len() as u64, 8);
    let mut i: usize = 0;
    while i < field.len()
        invariant
            i <= field.len(),
            out@ == before + big_endian(field@.len(), 8) + field@.take(i as int),
        decreases field.len() - i,
    {
        out.push(field[i]);
        proof {
            assert(out@ =~= before + big_endian(field@.len(), 8) + field@.take(i + 1));
        }
        i = i + 1;
    }
    proof {
        assert(field@.take(i as int) =~= field@);
        assert(fields.push(field@).drop_last() =~= fields);
        assert(out@ =~= before + frame(field@));
    }
}

/// Two lower-case hexadecimal digits for each byte.
pub open spec fn hex_text(data: Seq<u8>) -> Seq<char>
    decreases data.len(),
{
    if data.len() == 0 {
        Seq::empty()
    } else {
        hex_text(data.drop_last()) + seq![
            nibble_char((data.last() / 16) as int),
            nibble_char((data.last() % 16) as int),
        ]
    }
}

fn render_nibble(d: u8) -> (r: char)
    requires
        d < 16,
    ensures
        r == nibble_char(d as int),
{
    if d < 10 {
        (48u8 + d) as char
    } else {
        (87u8 + d) as char
    }
}

/// Renders bytes as lower-case hexadecimal digits.
pub fn render_hex(data: &[u8]) -> (r: String)
    ensures
        r@ == hex_text(data@),
        r@.len() == 2 * data@.len(),
{
    let mut out = String::new();
    let mut i: usize = 0;
    proof {
        assert(out@ =~= hex_text(data@.take(0)));
    }
    while i < data.len()
        invariant
            i <= data.len(),
            out@ == hex_text(data@.take(i as int)),
            out@.len() == 2 * i,
        decreases data.len() - i,
    {
        let ghost before = out@;
        let byte: u8 = data[i];
        out.push(render_nibble(byte / 16));
        out.push(render_nibble(byte % 16));
        proof {
            let next = data@.take(i + 1);
            assert(next.drop_last() =~= data@.take(i as int));
            assert(out@ =~= before + seq![
                nibble_char((byte / 16) as int),
                nibble_char((byte % 16) as int),
            ]);
        }
        i = i + 1;
    }
    proof {
        assert(data@.take(i as int) =~= data@);
    }
    out
}

/// Every field is short enough for its length to fit in front of it.
pub open spec fn frameable(fields: Seq<Seq<u8>>) -> bool {
    forall|i: int| 0 <= i < fields.len() ==> (#[trigger] fields[i]).len() < pow256(8)
}

proof fn lemma_framed_front(fields: Seq<Seq<u8>>)
    requires
        fields.len() > 0,
    ensures
        framed(fields) == frame(fields[0]) + framed(fields.drop_first()),
    decreases fields.len(),
{
    if fields.len() == 1 {
        assert(fields.drop_last() =~= Seq::empty());
        assert(fields.drop_first() =~= Seq::empty());
        assert(framed(fields) =~= frame(fields[0]) + framed(fields.drop_first()));
    } else {
        lemma_framed_front(fields.drop_last());
        assert(fields.drop_last().drop_first() =~= fields.drop_first().drop_last());
        assert(framed(fields) =~= frame(fields[0]) + framed(fields.drop_first()));
    }
}

/// Framed bytes tell the fields: two lists of fields have the same framing only if they are the
/// same.
pub proof fn law_framing_is_unambiguous(a: Seq<Seq<u8>>, b: Seq<Seq<u8>>)
    requires
        frameable(a),
        frameable(b),
        framed(a) == framed(b),
    ensures
        a == b,
    decreases a.len(),
{
    if a.len() == 0 {
        if b.len() > 0 {
            lemma_framed_front(b);
            lemma_big_endian_len(b[0].len(), 8);
            assert(framed(b).len() >= 8);
        }
        assert(a =~= b);
    } else {
        lemma_framed_front(a);
        lemma_big_endian_len(a[0].len(), 8);
        assert(framed(a).len() >= 8);
        if b.len() == 0 {
            assert(false);
        }
        lemma_framed_front(b);
        lemma_big_endian_len(b[0].len(), 8);
        let text = framed(a);
        let x = a.drop_first();
        let y = b.drop_first();
        assert(text.take(8) =~= big_endian(a[0].len(), 8));
        assert(text.take(8) =~= big_endian(b[0].len(), 8));
        law_big_endian_differs(a[0].len(), b[0].len(), 8);
        let n = a[0].len() as int;
        assert(text.subrange(8, 8 + n) =~= a[0]);
        assert(text.subrange(8, 8 + n) =~= b[0]);
        assert(text.skip(8 + n) =~= framed(x));
        assert(text.skip(8 + n) =~= framed(y));
        assert forall|i: int| 0 <= i < x.len() implies (#[trigger] x[i]).len() < pow256(8) by {
            assert(a[i + 1].len() < pow256(8));
        }
        assert forall|i: int| 0 <= i < y.len() implies (#[trigger] y[i]).len() < pow256(8) by {
            assert(b[i + 1].len() < pow256(8));
        }
        law_framing_is_unambiguous(x, y);
        assert(a =~= seq![a[0]] + x);
        assert(b =~= seq![b[0]] + y);
    }
}

/// The hexadecimal text of bytes has two lower-case digits for each byte, the upper half first.
pub proof fn law_hex_text(data: Seq<u8>, i: int)
    ensures
        hex_text(data).len() == 2 * data.len(),
        0 <= i < data.len() ==> hex_text(data)[2 * i] == hex_digit(data[i] as int / 16)
            && hex_text(data)[2 * i + 1] == hex_digit(data[i] as int % 16),
    decreases data.len(),
{
    lemma_hex_digits();
    if data.len() > 0 {
        let front = data.drop_last();
        law_hex_text(front, i);
        if 0 <= i < front.len() {
            assert(front[i] == data[i]);
        }
    }
}

/// The lower-case hexadecimal digit of a number below 16.
pub open spec fn hex_digit(value: int) -> char {
    "0123456789abcdef"@[value]
}

/// The digit characters are those of `hex_digit`.
proof fn lemma_hex_digits()
    ensures
        forall|value: int| 0 <= value < 16 ==> #[trigger] nibble_char(value) == hex_digit(value),
{
    reveal_strlit("0123456789abcdef");
}

/// A field stands behind its length in eight bytes, and fields follow one another.
pub proof fn law_framing(fields: Seq<Seq<u8>>, field: Seq<u8>)
    ensures
        framed(Seq::empty()).len() == 0,
        framed(fields.push(field)) == framed(fields) + big_endian(field.len(), 8) + field,
{
    assert(fields.push(field).drop_last() =~= fields);
    assert(framed(fields) + (big_endian(field.len(), 8) + field) =~= framed(fields) + big_endian(
        field.len(),
        8,
    ) + field);
}

} // verus!
