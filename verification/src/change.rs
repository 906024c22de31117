//! Replicated cell values.

use bytes::Bytes;
use vstd::prelude::*;

verus! {

/// A shared byte buffer.
#[verifier::external_type_specification]
#[verifier::external_body]
pub struct ExBytes(bytes::Bytes);

/// The bytes that a shared buffer holds.
pub uninterp spec fn bytes_of(buffer: bytes::Bytes) -> Seq<u8>;

/// `<Bytes as Deref>::deref` gives the bytes that the buffer holds.
#[verifier::external_body]
pub(crate) fn bytes_slice(buffer: &Bytes) -> (r: &[u8])
    ensures
        r@ == bytes_of(*buffer),
{
    &buffer[..]
}

/// `<Bytes as Clone>::clone` gives a buffer that holds the same bytes.
pub assume_specification[ <bytes::Bytes as Clone>::clone ](buffer: &bytes::Bytes) -> (r: bytes::Bytes)
    ensures
        bytes_of(r) == bytes_of(*buffer),
;

/// `<Bytes as From<Vec<u8>>>::from` gives a buffer that holds the bytes of the vector.
#[verifier::external_body]
pub(crate) fn bytes_from(bytes: Vec<u8>) -> (r: Bytes)
    ensures
        bytes_of(r) == bytes@,
{
    Bytes::from(bytes)
}

/// One column value of a replicated row.
#[derive(Debug, PartialEq, Eq)]
pub enum Cell {
    Null,
    /// The source did not send the value because the change left it alone.
    UnchangedToast,
    Text(Bytes),
    Binary(Bytes),
}

/// The model of a cell.
pub enum CellView {
    Null,
    UnchangedToast,
    Text(Seq<u8>),
    Binary(Seq<u8>),
}

impl View for Cell {
    type V = CellView;

    open spec fn view(&self) -> CellView {
        match self {
            Cell::Null => CellView::Null,
            Cell::UnchangedToast => CellView::UnchangedToast,
            Cell::Text(value) => CellView::Text(bytes_of(*value)),
            Cell::Binary(value) => CellView::Binary(bytes_of(*value)),
        }
    }
}

impl Clone for Cell {
    fn clone(&self) -> (r: Self)
        ensures
            r@ == self@,
    {
        match self {
            Cell::Null => Cell::Null,
            Cell::UnchangedToast => Cell::UnchangedToast,
            Cell::Text(value) => Cell::Text(value.clone()),
            Cell::Binary(value) => Cell::Binary(value.clone()),
        }
    }
}

} // verus!
