use vstd::prelude::*;

verus! {

/// Mathematical model of one table cell.
///
/// A floating-point cell is modelled by the character sequence of its decimal
/// rendering (see [`CellValue::Float`]), so the model stays within the values
/// the verifier can reason about.
pub enum CellView {
    Null,
    Boolean(bool),
    Integer(i64),
    Float(Seq<char>),
    Text(Seq<char>),
}

/// One table cell: the interchange representation for a single value of the
/// accumulated table, independent of the tabular engine's native columns.
///
/// The five variants are the only cell kinds the boundary exchanges. A
/// floating-point cell is carried as the shortest decimal rendering that reads
/// back to the same 64-bit value (the rendering Rust's formatter produces),
/// because this crate's verified code cannot hold native floating-point
/// values; the tabular engine parses the rendering back when a table is
/// re-materialized for it.
#[derive(Debug)]
pub enum CellValue {
    Null,
    Boolean(bool),
    Integer(i64),
    Float(String),
    Text(String),
}

impl View for CellValue {
    type V = CellView;

    open spec fn view(&self) -> CellView {
        match self {
            CellValue::Null => CellView::Null,
            CellValue::Boolean(b) => CellView::Boolean(*b),
            CellValue::Integer(i) => CellView::Integer(*i),
            CellValue::Float(s) => CellView::Float(s@),
            CellValue::Text(s) => CellView::Text(s@),
        }
    }
}

impl Clone for CellValue {
    fn clone(&self) -> (r: Self)
        ensures
            r@ == self@,
    {
        match self {
            CellValue::Null => CellValue::Null,
            CellValue::Boolean(b) => CellValue::Boolean(*b),
            CellValue::Integer(i) => CellValue::Integer(*i),
            CellValue::Float(s) => CellValue::Float(s.clone()),
            CellValue::Text(s) => CellValue::Text(s.clone()),
        }
    }
}

impl PartialEq for CellValue {
    fn eq(&self, other: &Self) -> (r: bool) {
        match (self, other) {
            (CellValue::Null, CellValue::Null) => true,
            (CellValue::Boolean(a), CellValue::Boolean(b)) => *a == *b,
            (CellValue::Integer(a), CellValue::Integer(b)) => *a == *b,
            (CellValue::Float(a), CellValue::Float(b)) => *a == *b,
            (CellValue::Text(a), CellValue::Text(b)) => *a == *b,
            _ => false,
        }
    }
}

impl vstd::std_specs::cmp::PartialEqSpecImpl for CellValue {
    open spec fn obeys_eq_spec() -> bool {
        true
    }

    open spec fn eq_spec(&self, other: &Self) -> bool {
        self@ == other@
    }
}

} // verus!
