use vstd::prelude::*;

use crate::cell::CellView;
use crate::table::{clone_names, schema_view, Row, Table, TableView};

verus! {

/// Mathematical model of one stream session.
pub struct SessionView {
    /// The operation name given at creation (informational; the descriptor
    /// supplied at finalization is authoritative).
    pub label: Seq<char>,
    /// The column order captured from the first chunk, once one arrived.
    pub schema: Option<Seq<Seq<char>>>,
    /// Every accumulated row, in arrival order.
    pub rows: Seq<Seq<(Seq<char>, CellView)>>,
}

/// One streaming session: accumulates decoded rows across chunk
/// submissions and remembers the column order the first chunk established.
pub struct StreamSession {
    pub operation_label: String,
    pub schema: Option<Vec<String>>,
    pub rows: Vec<Row>,
}

impl View for StreamSession {
    type V = SessionView;

    open spec fn view(&self) -> SessionView {
        SessionView {
            label: self.operation_label@,
            schema: schema_view(self.schema),
            rows: self.rows@.map_values(|r: Row| r@),
        }
    }
}

/// A fresh session: no schema yet, no rows.
pub open spec fn fresh_session(label: Seq<char>) -> SessionView {
    SessionView { label, schema: Option::None, rows: Seq::empty() }
}

/// The accumulated form of a decoded chunk: each of its rows pairs the
/// chunk's column names with that row's cells, in the chunk's column order.
pub open spec fn chunk_rows(chunk: TableView) -> Seq<Seq<(Seq<char>, CellView)>> {
    Seq::new(
        chunk.rows.len(),
        |i: int| Seq::new(chunk.names.len(), |j: int| (chunk.names[j], chunk.rows[i][j])),
    )
}

/// A session after absorbing one decoded chunk: the schema is captured from
/// the first chunk ever absorbed and immutable thereafter (later headers are
/// not validated against it); the chunk's rows are appended.
pub open spec fn absorbed(s: SessionView, chunk: TableView) -> SessionView {
    SessionView {
        label: s.label,
        schema: if s.schema is None {
            Option::Some(chunk.names)
        } else {
            s.schema
        },
        rows: s.rows + chunk_rows(chunk),
    }
}

/// Turn a decoded chunk into accumulated rows.
pub fn rows_from_chunk(chunk: &Table) -> (rows: Vec<Row>)
    requires
        chunk.wf(),
    ensures
        rows@.map_values(|r: Row| r@) == chunk_rows(chunk@),
{
    let nrows = chunk.rows.len();
    let ncols = chunk.names.len();
    let mut rows: Vec<Row> = Vec::new();
    let mut i: usize = 0;
    while i < nrows
        invariant
            0 <= i <= nrows,
            nrows == chunk@.rows.len(),
            ncols == chunk@.names.len(),
            chunk.wf(),
            rows@.len() == i,
            forall|a: int| 0 <= a < i ==> (#[trigger] rows@[a])@ == chunk_rows(chunk@)[a],
        decreases nrows - i,
    {
        let mut entries: Vec<(String, crate::cell::CellValue)> = Vec::new();
        let mut j: usize = 0;
        while j < ncols
            invariant
                0 <= j <= ncols,
                0 <= i < nrows,
                nrows == chunk@.rows.len(),
                ncols == chunk@.names.len(),
                chunk.wf(),
                entries@.len() == j,
                forall|b: int|
                    0 <= b < j ==> ((#[trigger] entries@[b]).0@ == chunk@.names[b]
                        && entries@[b].1@ == chunk@.rows[i as int][b]),
            decreases ncols - j,
        {
            proof {
                assert(chunk@.rows[i as int].len() == chunk@.names.len());
                assert(chunk@.rows[i as int] == chunk.rows@[i as int]@.map_values(
                    |c: crate::cell::CellValue| c@,
                ));
            }
            entries.push((chunk.names[j].clone(), chunk.rows[i][j].clone()));
            j = j + 1;
        }
        let row = Row { entries };
        proof {
            assert(row@ =~= chunk_rows(chunk@)[i as int]);
        }
        rows.push(row);
        i = i + 1;
    }
    proof {
        assert(rows@.map_values(|r: Row| r@) =~= chunk_rows(chunk@));
    }
    rows
}

impl StreamSession {
    /// A fresh session under an operation label.
    pub fn new(operation_label: String) -> (s: Self)
        ensures
            s@ == fresh_session(operation_label@),
    {
        let s = StreamSession { operation_label, schema: Option::None, rows: Vec::new() };
        proof {
            assert(s@.rows =~= fresh_session(s.operation_label@).rows);
        }
        s
    }

    /// Absorb one decoded chunk: capture the schema if none is set yet and
    /// append the chunk's rows. Returns the number of rows just absorbed and
    /// the new accumulated total.
    pub fn absorb_chunk(&mut self, chunk: &Table) -> (counts: (usize, usize))
        requires
            chunk.wf(),
        ensures
            final(self)@ == absorbed(old(self)@, chunk@),
            counts.0 == chunk@.rows.len(),
            counts.1 == final(self)@.rows.len(),
            final(self)@.rows.len() == old(self)@.rows.len() + chunk@.rows.len(),
    {
        if self.schema.is_none() {
            self.schema = Option::Some(clone_names(&chunk.names));
        }
        let mut fresh_rows = rows_from_chunk(chunk);
        let processed = fresh_rows.len();
        self.rows.append(&mut fresh_rows);
        let total = self.rows.len();
        proof {
            assert(self@.rows =~= absorbed(old(self)@, chunk@).rows);
            assert(self@.schema == absorbed(old(self)@, chunk@).schema);
        }
        (processed, total)
    }
}

} // verus!
