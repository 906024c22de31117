//! PostgreSQL text COPY encoding.

use crate::change::{bytes_slice, Cell, CellView};
use crate::sql::{lemma_rendered_front, lemma_rendered_push, rendered};
use crate::text::joined;
use vstd::prelude::*;

verus! {

pub const BACKSPACE: u8 = 8;

pub const TAB: u8 = 9;

pub const NEWLINE: u8 = 10;

pub const VERTICAL_TAB: u8 = 11;

pub const FORM_FEED: u8 = 12;

pub const CARRIAGE_RETURN: u8 = 13;

pub const DIGIT_ZERO: u8 = 48;

pub const DIGIT_THREE: u8 = 51;

pub const UPPER_N: u8 = 78;

pub const BACKSLASH: u8 = 92;

pub const LOWER_B: u8 = 98;

pub const LOWER_F: u8 = 102;

pub const LOWER_N: u8 = 110;

pub const LOWER_R: u8 = 114;

pub const LOWER_T: u8 = 116;

pub const LOWER_V: u8 = 118;

#[derive(Debug, Clone, Copy, PartialEq, Eq, Structural)]
pub enum CopyEncodeError {
    /// COPY rows must contain at least one field.
    EmptyRow,
    /// An unchanged value has no field value; materialize it with a presence mask first.
    UnchangedToast,
    /// A binary value cannot be written through PostgreSQL text COPY.
    BinaryValue,
}

/// The rendering of one byte of a field.
pub open spec fn copy_unit() -> spec_fn(u8) -> Seq<u8> {
    |b: u8|
        if b == BACKSLASH {
            seq![BACKSLASH, BACKSLASH]
        } else if b == TAB {
            seq![BACKSLASH, LOWER_T]
        } else if b == NEWLINE {
            seq![BACKSLASH, LOWER_N]
        } else if b == CARRIAGE_RETURN {
            seq![BACKSLASH, LOWER_R]
        } else if b == BACKSPACE {
            seq![BACKSLASH, LOWER_B]
        } else if b == FORM_FEED {
            seq![BACKSLASH, LOWER_F]
        } else if b == VERTICAL_TAB {
            seq![BACKSLASH, LOWER_V]
        } else if b == 0 {
            seq![BACKSLASH, DIGIT_ZERO, DIGIT_ZERO, DIGIT_ZERO]
        } else {
            seq![b]
        }
}

/// The COPY text of a field; `None` is SQL NULL.
pub open spec fn field_text(value: Option<Seq<u8>>) -> Seq<u8> {
    match value {
        None => seq![BACKSLASH, UPPER_N],
        Some(bytes) => rendered(bytes, copy_unit()),
    }
}

/// The COPY text of a row: its fields between tabs, and a newline.
pub open spec fn row_text(fields: Seq<Option<Seq<u8>>>) -> Seq<u8> {
    joined(Seq::new(fields.len(), |i: int| field_text(fields[i])), seq![TAB]) + seq![NEWLINE]
}

/// The field value of a cell, or why it has none.
pub open spec fn cell_field(cell: CellView) -> Result<Option<Seq<u8>>, CopyEncodeError> {
    match cell {
        CellView::Null => Ok(None),
        CellView::UnchangedToast => Err(CopyEncodeError::UnchangedToast),
        CellView::Binary(_) => Err(CopyEncodeError::BinaryValue),
        CellView::Text(value) => Ok(Some(value)),
    }
}

/// The models of a list of cells.
pub open spec fn cell_views(cells: Seq<Cell>) -> Seq<CellView> {
    Seq::new(cells.len(), |i: int| cells[i]@)
}

/// The field values of cells that all have one; otherwise the failure of the first that has none.
pub open spec fn cell_fields(cells: Seq<CellView>) -> Result<
    Seq<Option<Seq<u8>>>,
    CopyEncodeError,
>
    decreases cells.len(),
{
    if cells.len() == 0 {
        Ok(Seq::empty())
    } else {
        match cell_fields(cells.drop_last()) {
            Err(e) => Err(e),
            Ok(fields) => match cell_field(cells.last()) {
                Err(e) => Err(e),
                Ok(field) => Ok(fields.push(field)),
            },
        }
    }
}

/// The COPY text of a row of cells.
pub open spec fn row_model(cells: Seq<CellView>) -> Result<Seq<u8>, CopyEncodeError> {
    if cells.len() == 0 {
        Err(CopyEncodeError::EmptyRow)
    } else {
        match cell_fields(cells) {
            Err(e) => Err(e),
            Ok(fields) => Ok(row_text(fields)),
        }
    }
}

fn push_byte(output: &mut Vec<u8>, byte: u8)
    ensures
        final(output)@ == old(output)@ + copy_unit()(byte),
{
    let ghost before = output@;
    if byte == BACKSLASH {
        output.push(BACKSLASH);
        output.push(BACKSLASH);
    } else if byte == TAB {
        output.push(BACKSLASH);
        output.push(LOWER_T);
    } else if byte == NEWLINE {
        output.push(BACKSLASH);
        output.push(LOWER_N);
    } else if byte == CARRIAGE_RETURN {
        output.push(BACKSLASH);
        output.push(LOWER_R);
    } else if byte == BACKSPACE {
        output.push(BACKSLASH);
        output.push(LOWER_B);
    } else if byte == FORM_FEED {
        output.push(BACKSLASH);
        output.push(LOWER_F);
    } else if byte == VERTICAL_TAB {
        output.push(BACKSLASH);
        output.push(LOWER_V);
    } else if byte == 0 {
        output.push(BACKSLASH);
        output.push(DIGIT_ZERO);
        output.push(DIGIT_ZERO);
        output.push(DIGIT_ZERO);
    } else {
        output.push(byte);
    }
    proof {
        assert(output@ =~= before + copy_unit()(byte));
    }
}

/// Appends the COPY text of a value.
pub(crate) fn encode_text_bytes(value: &[u8], output: &mut Vec<u8>)
    ensures
        final(output)@ == old(output)@ + field_text(Some(value@)),
{
    let ghost before = output@;
    proof {
        assert(rendered(value@.take(0), copy_unit()) =~= Seq::empty());
        assert(before + Seq::empty() =~= before);
    }
    let mut i: usize = 0;
    while i < value.len()
        invariant
            i <= value.len(),
            output@ == before + rendered(value@.take(i as int), copy_unit()),
        decreases value.len() - i,
    {
        push_byte(output, value[i]);
        proof {
            assert(value@.take(i + 1) =~= value@.take(i as int).push(value@[i as int]));
            lemma_rendered_push(value@.take(i as int), value@[i as int], copy_unit());
            assert(output@ =~= before + rendered(value@.take(i + 1), copy_unit()));
        }
        i = i + 1;
    }
    proof {
        assert(value@.take(i as int) =~= value@);
    }
}

/// Appends the COPY text of SQL NULL.
pub(crate) fn encode_null(output: &mut Vec<u8>)
    ensures
        final(output)@ == old(output)@ + field_text(None),
{
    let ghost before = output@;
    output.push(BACKSLASH);
    output.push(UPPER_N);
    proof {
        assert(output@ =~= before + field_text(None));
    }
}

fn encode_field_into(cell: &Cell, output: &mut Vec<u8>) -> (r: Result<(), CopyEncodeError>)
    ensures
        match r {
            Ok(()) => {
                &&& cell_field(cell@) is Ok
                &&& final(output)@ == old(output)@ + field_text(cell_field(cell@)->Ok_0)
            },
            Err(e) => cell_field(cell@) == Err::<Option<Seq<u8>>, CopyEncodeError>(e),
        },
{
    match cell {
        Cell::Null => {
            encode_null(output);
            Ok(())
        },
        Cell::UnchangedToast => Err(CopyEncodeError::UnchangedToast),
        Cell::Binary(_) => Err(CopyEncodeError::BinaryValue),
        Cell::Text(value) => {
            encode_text_bytes(bytes_slice(value), output);
            Ok(())
        },
    }
}

/// Encodes one cell as a PostgreSQL text COPY field.
///
/// `UnchangedToast` is deliberately rejected. Apply staging must represent it as
/// a NULL placeholder plus a false presence flag, never as SQL NULL by itself.
pub fn encode_field(cell: &Cell) -> (r: Result<Vec<u8>, CopyEncodeError>)
    ensures
        match r {
            Ok(text) => cell_field(cell@) is Ok && text@ == field_text(cell_field(cell@)->Ok_0),
            Err(e) => cell_field(cell@) == Err::<Option<Seq<u8>>, CopyEncodeError>(e),
        },
{
    let mut output: Vec<u8> = Vec::new();
    match encode_field_into(cell, &mut output) {
        Err(e) => Err(e),
        Ok(()) => {
            proof {
                assert(output@ =~= field_text(cell_field(cell@)->Ok_0));
            }
            Ok(output)
        },
    }
}

proof fn lemma_first_cell_fault(cells: Seq<CellView>, count: int)
    requires
        0 <= count <= cells.len(),
        cell_fields(cells.take(count)) is Err,
    ensures
        cell_fields(cells) == cell_fields(cells.take(count)),
    decreases cells.len(),
{
    if count < cells.len() {
        assert(cells.drop_last().take(count) =~= cells.take(count));
        lemma_first_cell_fault(cells.drop_last(), count);
    } else {
        assert(cells.take(count) =~= cells);
    }
}

/// The texts of fields.
pub open spec fn field_texts(fields: Seq<Option<Seq<u8>>>) -> Seq<Seq<u8>> {
    Seq::new(fields.len(), |i: int| field_text(fields[i]))
}

/// Encodes one complete PostgreSQL text COPY row, including its final newline.
pub fn encode_row(cells: &[Cell]) -> (r: Result<Vec<u8>, CopyEncodeError>)
    ensures
        match r {
            Ok(text) => row_model(cell_views(cells@)) == Ok::<Seq<u8>, CopyEncodeError>(text@),
            Err(e) => row_model(cell_views(cells@)) == Err::<Seq<u8>, CopyEncodeError>(e),
        },
{
    if cells.len() == 0 {
        return Err(CopyEncodeError::EmptyRow);
    }
    let ghost all = cell_views(cells@);
    let ghost mut fields: Seq<Option<Seq<u8>>> = Seq::empty();
    let mut output: Vec<u8> = Vec::new();
    proof {
        assert(cell_fields(all.take(0)) == Ok::<Seq<Option<Seq<u8>>>, CopyEncodeError>(fields));
        assert(field_texts(fields) =~= Seq::empty());
    }
    let mut i: usize = 0;
    while i < cells.len()
        invariant
            i <= cells.len(),
            all == cell_views(cells@),
            all.len() > 0,
            fields.len() == i,
            cell_fields(all.take(i as int)) == Ok::<Seq<Option<Seq<u8>>>, CopyEncodeError>(fields),
            output@ == joined(field_texts(fields), seq![TAB]),
        decreases cells.len() - i,
    {
        let ghost before = output@;
        proof {
            assert(all.take(i + 1).drop_last() =~= all.take(i as int));
            assert(all.take(i + 1).last() == all[i as int]);
        }
        if i > 0 {
            output.push(TAB);
        }
        match encode_field_into(&cells[i], &mut output) {
            Err(e) => {
                proof {
                    lemma_first_cell_fault(all, i + 1);
                }
                return Err(e);
            },
            Ok(()) => {},
        }
        proof {
            let field = cell_field(all[i as int])->Ok_0;
            let next = fields.push(field);
            assert(field_texts(next).drop_last() =~= field_texts(fields));
            assert(field_texts(next).last() == field_text(field));
            if i > 0 {
                assert(output@ =~= before + seq![TAB] + field_text(field));
            } else {
                assert(output@ =~= field_text(field));
            }
            fields = next;
        }
        i = i + 1;
    }
    output.push(NEWLINE);
    proof {
        assert(all.take(i as int) =~= all);
        assert(output@ =~= row_text(fields));
    }
    Ok(output)
}

// ---------------------------------------------------------------------------------------------
// Reading rows back
// ---------------------------------------------------------------------------------------------

/// Reads one byte of a field and tells how much text it takes.
pub open spec fn read_byte(text: Seq<u8>) -> (u8, int) {
    if text[0] != BACKSLASH || text.len() < 2 {
        (text[0], 1)
    } else if text[1] == LOWER_B {
        (BACKSPACE, 2)
    } else if text[1] == LOWER_F {
        (FORM_FEED, 2)
    } else if text[1] == LOWER_N {
        (NEWLINE, 2)
    } else if text[1] == LOWER_R {
        (CARRIAGE_RETURN, 2)
    } else if text[1] == LOWER_T {
        (TAB, 2)
    } else if text[1] == LOWER_V {
        (VERTICAL_TAB, 2)
    } else if text.len() >= 4 && DIGIT_ZERO <= text[1] <= DIGIT_THREE {
        (((text[1] - 48) * 64 + (text[2] - 48) * 8 + (text[3] - 48)) as u8, 4)
    } else {
        (text[1], 2)
    }
}

/// Reads a field up to the delimiter behind it.
pub open spec fn read_bytes(text: Seq<u8>) -> Option<(Seq<u8>, Seq<u8>)>
    decreases text.len(),
{
    if text.len() == 0 {
        None
    } else if text[0] == TAB || text[0] == NEWLINE {
        Some((Seq::empty(), text))
    } else {
        let (byte, size) = read_byte(text);
        if size > text.len() {
            None
        } else {
            match read_bytes(text.skip(size)) {
                None => None,
                Some((value, rest)) => Some((seq![byte] + value, rest)),
            }
        }
    }
}

/// Reads a field or the NULL marker.
pub open spec fn read_field(text: Seq<u8>) -> Option<(Option<Seq<u8>>, Seq<u8>)> {
    if text.len() > 2 && text[0] == BACKSLASH && text[1] == UPPER_N && (text[2] == TAB || text[2]
        == NEWLINE) {
        Some((None, text.skip(2)))
    } else {
        match read_bytes(text) {
            None => None,
            Some((value, rest)) => Some((Some(value), rest)),
        }
    }
}

/// Reads a row up to and over its newline.
pub open spec fn read_row(text: Seq<u8>) -> Option<(Seq<Option<Seq<u8>>>, Seq<u8>)>
    decreases text.len(),
{
    match read_field(text) {
        None => None,
        Some((field, rest)) => if rest.len() == 0 || rest.len() > text.len() {
            None
        } else if rest[0] == NEWLINE {
            Some((seq![field], rest.skip(1)))
        } else {
            match read_row(rest.skip(1)) {
                None => None,
                Some((fields, tail)) => Some((seq![field] + fields, tail)),
            }
        },
    }
}

proof fn lemma_bytes_read_back(value: Seq<u8>, tail: Seq<u8>)
    requires
        tail.len() > 0,
        tail[0] == TAB || tail[0] == NEWLINE,
    ensures
        read_bytes(rendered(value, copy_unit()) + tail) == Some((value, tail)),
    decreases value.len(),
{
    let unit = copy_unit();
    let text = rendered(value, unit) + tail;
    if value.len() == 0 {
        assert(text =~= tail);
        assert(value =~= Seq::empty());
    } else {
        let rest = rendered(value.drop_first(), unit) + tail;
        lemma_rendered_front(value, unit);
        lemma_bytes_read_back(value.drop_first(), tail);
        assert(text =~= unit(value[0]) + rest);
        assert(text.skip(unit(value[0]).len() as int) =~= rest);
        assert(seq![value[0]] + value.drop_first() =~= value);
        assert(read_byte(text).0 == value[0]);
        assert(read_byte(text).1 == unit(value[0]).len());
    }
}

/// A COPY field reads back as the value it was made from. In particular no value reads as NULL.
pub proof fn law_field_reads_back(value: Option<Seq<u8>>, tail: Seq<u8>)
    requires
        tail.len() > 0,
        tail[0] == TAB || tail[0] == NEWLINE,
    ensures
        read_field(field_text(value) + tail) == Some((value, tail)),
{
    let text = field_text(value) + tail;
    match value {
        None => {
            assert(text.skip(2) =~= tail);
        },
        Some(bytes) => {
            lemma_bytes_read_back(bytes, tail);
            if bytes.len() > 0 {
                lemma_rendered_front(bytes, copy_unit());
                let unit = copy_unit()(bytes[0]);
                assert(text[0] == unit[0]);
                if unit.len() > 1 {
                    assert(text[1] == unit[1]);
                }
            }
        },
    }
}

proof fn lemma_joined_front(parts: Seq<Seq<u8>>, separator: Seq<u8>)
    requires
        parts.len() > 1,
    ensures
        joined(parts, separator) == parts[0] + separator + joined(parts.drop_first(), separator),
    decreases parts.len(),
{
    let front = parts.drop_last();
    let rest = parts.drop_first();
    assert(rest.last() == parts.last());
    if parts.len() == 2 {
        assert(joined(front, separator) == parts[0]);
        assert(joined(rest, separator) == parts[1]);
    } else {
        lemma_joined_front(front, separator);
        assert(front.drop_first() =~= rest.drop_last());
        assert(joined(parts, separator) =~= parts[0] + separator + joined(rest, separator));
    }
}

/// A COPY row reads back as the fields it was made from, and what follows it stays outside.
pub proof fn law_row_reads_back(fields: Seq<Option<Seq<u8>>>, tail: Seq<u8>)
    requires
        fields.len() > 0,
    ensures
        read_row(row_text(fields) + tail) == Some((fields, tail)),
    decreases fields.len(),
{
    let parts = field_texts(fields);
    let text = row_text(fields) + tail;
    assert(row_text(fields) == joined(parts, seq![TAB]) + seq![NEWLINE]);
    if fields.len() == 1 {
        let rest = seq![NEWLINE] + tail;
        assert(text =~= field_text(fields[0]) + rest);
        law_field_reads_back(fields[0], rest);
        assert(rest.skip(1) =~= tail);
        assert(fields =~= seq![fields[0]]);
    } else {
        let others = fields.drop_first();
        let rest = seq![TAB] + (row_text(others) + tail);
        lemma_joined_front(parts, seq![TAB]);
        assert(parts.drop_first() =~= field_texts(others));
        assert(text =~= field_text(fields[0]) + rest);
        law_field_reads_back(fields[0], rest);
        assert(rest.skip(1) =~= row_text(others) + tail);
        law_row_reads_back(others, tail);
        assert(fields =~= seq![fields[0]] + others);
    }
}

/// Cells with the same field values are the same.
proof fn lemma_fields_tell_cells(a: Seq<CellView>, b: Seq<CellView>)
    requires
        cell_fields(a) is Ok,
        cell_fields(b) == cell_fields(a),
    ensures
        a == b,
    decreases a.len(),
{
    lemma_field_count(a);
    lemma_field_count(b);
    if a.len() > 0 {
        let fields = cell_fields(a)->Ok_0;
        assert(fields.drop_last() =~= cell_fields(a.drop_last())->Ok_0);
        assert(fields.drop_last() =~= cell_fields(b.drop_last())->Ok_0);
        lemma_fields_tell_cells(a.drop_last(), b.drop_last());
        assert(fields.last() == cell_field(a.last())->Ok_0);
        assert(fields.last() == cell_field(b.last())->Ok_0);
        assert(a.last() == b.last());
        assert(a =~= a.drop_last().push(a.last()));
        assert(b =~= b.drop_last().push(b.last()));
    } else {
        assert(a =~= b);
    }
}

/// Every cell has one field.
pub proof fn lemma_field_count(cells: Seq<CellView>)
    requires
        cell_fields(cells) is Ok,
    ensures
        cell_fields(cells)->Ok_0.len() == cells.len(),
    decreases cells.len(),
{
    if cells.len() > 0 {
        lemma_field_count(cells.drop_last());
    }
}

/// Two rows of cells have the same COPY text only if they are the same.
pub proof fn law_rows_differ(a: Seq<CellView>, b: Seq<CellView>)
    requires
        row_model(a) is Ok,
        row_model(b) == row_model(a),
    ensures
        a == b,
{
    let fa = cell_fields(a)->Ok_0;
    let fb = cell_fields(b)->Ok_0;
    lemma_field_count(a);
    lemma_field_count(b);
    law_row_reads_back(fa, Seq::empty());
    law_row_reads_back(fb, Seq::empty());
    lemma_fields_tell_cells(a, b);
}

/// How each byte of a value is written: a backslash stands for itself when doubled, control
/// characters that COPY knows are written by a letter behind one, NUL by its octal digits, and every
/// other byte as it is. NULL is a backslash and `N`.
pub proof fn law_copy_escapes(byte: u8)
    ensures
        field_text(None) == seq![92u8, 78u8],
        copy_unit()(92u8) == seq![92u8, 92u8],
        copy_unit()(9u8) == seq![92u8, 116u8],
        copy_unit()(10u8) == seq![92u8, 110u8],
        copy_unit()(13u8) == seq![92u8, 114u8],
        copy_unit()(8u8) == seq![92u8, 98u8],
        copy_unit()(12u8) == seq![92u8, 102u8],
        copy_unit()(11u8) == seq![92u8, 118u8],
        copy_unit()(0u8) == seq![92u8, 48u8, 48u8, 48u8],
        byte != 92 && byte != 0 && !(8 <= byte <= 13) ==> copy_unit()(byte) == seq![byte],
{
}

/// A row of cells is written exactly where it has a cell and each cell is NULL or a text.
pub proof fn law_which_rows_are_written(cells: Seq<CellView>)
    ensures
        row_model(cells) is Ok <==> {
            &&& cells.len() > 0
            &&& forall|i: int|
                0 <= i < cells.len() ==> (#[trigger] cells[i]) is Null || cells[i] is Text
        },
{
    lemma_which_cells_are_written(cells);
}

proof fn lemma_which_cells_are_written(cells: Seq<CellView>)
    ensures
        cell_fields(cells) is Ok <==> forall|i: int|
            0 <= i < cells.len() ==> (#[trigger] cells[i]) is Null || cells[i] is Text,
    decreases cells.len(),
{
    if cells.len() > 0 {
        let front = cells.drop_last();
        lemma_which_cells_are_written(front);
        if cell_fields(front) is Ok {
            assert forall|i: int| 0 <= i < front.len() implies (#[trigger] cells[i]) is Null
                || cells[i] is Text by {
                assert(front[i] == cells[i]);
            }
        }
        if forall|i: int| 0 <= i < cells.len() ==> (#[trigger] cells[i]) is Null || cells[i] is Text {
            assert forall|i: int| 0 <= i < front.len() implies (#[trigger] front[i]) is Null
                || front[i] is Text by {
                assert(front[i] == cells[i]);
            }
            assert(cells[cells.len() - 1] is Null || cells[cells.len() - 1] is Text);
        }
    }
}

} // verus!
