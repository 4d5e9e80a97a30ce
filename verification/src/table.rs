use vstd::prelude::*;

use crate::cell::{CellValue, CellView};

verus! {

/// One accumulated row: column name / cell pairs, in the order the chunk
/// decoder produced them. Lookups take the first entry carrying the name;
/// a name that does not occur reads as a null cell.
pub struct Row {
    pub entries: Vec<(String, CellValue)>,
}

impl View for Row {
    type V = Seq<(Seq<char>, CellView)>;

    open spec fn view(&self) -> Seq<(Seq<char>, CellView)> {
        self.entries@.map_values(|p: (String, CellValue)| (p.0@, p.1@))
    }
}

/// The cell a row holds under a column name: the first entry with that name,
/// or a null cell when the row has no such entry.
pub open spec fn row_lookup(r: Seq<(Seq<char>, CellView)>, name: Seq<char>) -> CellView
    decreases r.len(),
{
    if r.len() == 0 {
        CellView::Null
    } else if r[0].0 == name {
        r[0].1
    } else {
        row_lookup(r.drop_first(), name)
    }
}

proof fn lemma_row_lookup_skip(r: Seq<(Seq<char>, CellView)>, name: Seq<char>, i: int)
    requires
        0 <= i <= r.len(),
        forall|j: int| 0 <= j < i ==> (#[trigger] r[j]).0 != name,
    ensures
        row_lookup(r, name) == row_lookup(r.skip(i), name),
    decreases i,
{
    if i > 0 {
        lemma_row_lookup_skip(r.drop_first(), name, i - 1);
        assert(r.drop_first().skip(i - 1) =~= r.skip(i));
    } else {
        assert(r.skip(0) =~= r);
    }
}

impl Row {
    /// Read the cell stored under `name`, cloning it out of the row.
    pub fn lookup(&self, name: &String) -> (c: CellValue)
        ensures
            c@ == row_lookup(self@, name@),
    {
        let n = self.entries.len();
        let mut i: usize = 0;
        while i < n
            invariant
                0 <= i <= n,
                n == self.entries.len(),
                forall|j: int| 0 <= j < i ==> (#[trigger] self@[j]).0 != name@,
            decreases n - i,
        {
            if self.entries[i].0 == *name {
                proof {
                    lemma_row_lookup_skip(self@, name@, i as int);
                    assert(self@.skip(i as int)[0] == self@[i as int]);
                }
                return self.entries[i].1.clone();
            }
            i = i + 1;
        }
        proof {
            lemma_row_lookup_skip(self@, name@, n as int);
            assert(self@.skip(n as int) =~= Seq::<(Seq<char>, CellView)>::empty());
        }
        CellValue::Null
    }
}

/// Mathematical model of a rectangular table: column names plus one cell
/// sequence per row, each as long as the name sequence.
pub struct TableView {
    pub names: Seq<Seq<char>>,
    pub rows: Seq<Seq<CellView>>,
}

/// Rectangularity: every row has exactly one cell per column name.
pub open spec fn table_view_wf(t: TableView) -> bool {
    forall|i: int| 0 <= i < t.rows.len() ==> (#[trigger] t.rows[i]).len() == t.names.len()
}

/// Pairwise-distinct column names.
pub open spec fn distinct_names(names: Seq<Seq<char>>) -> bool {
    forall|i: int, j: int| 0 <= i < j < names.len() ==> names[i] != names[j]
}

/// A materialized table: the result form handed back to the caller, and the
/// form the engine boundary builds its frames from.
pub struct Table {
    pub names: Vec<String>,
    pub rows: Vec<Vec<CellValue>>,
}

impl View for Table {
    type V = TableView;

    open spec fn view(&self) -> TableView {
        TableView {
            names: self.names@.map_values(|n: String| n@),
            rows: self.rows@.map_values(|r: Vec<CellValue>| r@.map_values(|c: CellValue| c@)),
        }
    }
}

impl Table {
    pub open spec fn wf(&self) -> bool {
        table_view_wf(self@)
    }

    /// The table with no columns and no rows.
    pub fn empty() -> (t: Table)
        ensures
            t@.names.len() == 0,
            t@.rows.len() == 0,
            t.wf(),
    {
        Table { names: Vec::new(), rows: Vec::new() }
    }
}

/// The authoritative column order of a session: its schema when one was ever
/// captured, else the names of the first accumulated row, else no columns.
pub open spec fn spec_column_names(
    schema: Option<Seq<Seq<char>>>,
    rows: Seq<Seq<(Seq<char>, CellView)>>,
) -> Seq<Seq<char>> {
    match schema {
        Option::Some(names) => names,
        Option::None => if rows.len() > 0 {
            rows[0].map_values(|p: (Seq<char>, CellView)| p.0)
        } else {
            Seq::empty()
        },
    }
}

/// Re-materialization: the rectangular table that accumulated rows denote
/// under a column order. A row without some column contributes a null cell
/// at that column's position.
pub open spec fn spec_materialize(
    schema: Option<Seq<Seq<char>>>,
    rows: Seq<Seq<(Seq<char>, CellView)>>,
) -> TableView {
    let names = spec_column_names(schema, rows);
    TableView {
        names,
        rows: Seq::new(rows.len(), |i: int| Seq::new(names.len(), |j: int| row_lookup(rows[i], names[j]))),
    }
}

/// The view of an optional schema vector.
pub open spec fn schema_view(schema: Option<Vec<String>>) -> Option<Seq<Seq<char>>> {
    match schema {
        Option::Some(v) => Option::Some(v@.map_values(|n: String| n@)),
        Option::None => Option::None,
    }
}

/// Copy a list of column names.
pub fn clone_names(v: &Vec<String>) -> (r: Vec<String>)
    ensures
        r@.map_values(|n: String| n@) == v@.map_values(|n: String| n@),
{
    let mut r: Vec<String> = Vec::new();
    let n = v.len();
    let mut i: usize = 0;
    while i < n
        invariant
            0 <= i <= n,
            n == v.len(),
            r@.len() == i,
            forall|j: int| 0 <= j < i ==> (#[trigger] r@[j])@ == v@[j]@,
        decreases n - i,
    {
        r.push(v[i].clone());
        i = i + 1;
    }
    proof {
        assert(r@.map_values(|n: String| n@) =~= v@.map_values(|n: String| n@));
    }
    r
}

/// Build the rectangular table that the accumulated rows denote under the
/// session's column order.
pub fn materialize(schema: &Option<Vec<String>>, rows: &Vec<Row>) -> (t: Table)
    ensures
        t@ == spec_materialize(schema_view(*schema), rows@.map_values(|r: Row| r@)),
        t.wf(),
{
    let ghost rows_v = rows@.map_values(|r: Row| r@);
    let names: Vec<String> = match schema {
        Option::Some(v) => clone_names(v),
        Option::None => {
            if rows.len() > 0 {
                let mut first: Vec<String> = Vec::new();
                let m = rows[0].entries.len();
                let mut j: usize = 0;
                while j < m
                    invariant
                        0 <= j <= m,
                        rows@.len() > 0,
                        m == rows@[0].entries@.len(),
                        first@.len() == j,
                        forall|k: int| 0 <= k < j ==> (#[trigger] first@[k])@ == rows@[0].entries@[k].0@,
                    decreases m - j,
                {
                    first.push(rows[0].entries[j].0.clone());
                    j = j + 1;
                }
                first
            } else {
                Vec::new()
            }
        },
    };
    let ghost names_v = spec_column_names(schema_view(*schema), rows_v);
    proof {
        assert(names@.map_values(|n: String| n@) =~= names_v);
    }
    let mut grid: Vec<Vec<CellValue>> = Vec::new();
    let nrows = rows.len();
    let ncols = names.len();
    let mut i: usize = 0;
    while i < nrows
        invariant
            0 <= i <= nrows,
            nrows == rows@.len(),
            ncols == names@.len(),
            names@.map_values(|n: String| n@) == names_v,
            rows_v == rows@.map_values(|r: Row| r@),
            grid@.len() == i,
            forall|a: int| 0 <= a < i ==> (#[trigger] grid@[a])@.len() == ncols,
            forall|a: int, b: int|
                0 <= a < i && 0 <= b < ncols ==> (#[trigger] grid@[a]@[b])@ == row_lookup(
                    rows_v[a],
                    names_v[b],
                ),
        decreases nrows - i,
    {
        let mut line: Vec<CellValue> = Vec::new();
        let mut j: usize = 0;
        while j < ncols
            invariant
                0 <= j <= ncols,
                0 <= i < nrows,
                nrows == rows@.len(),
                ncols == names@.len(),
                names@.map_values(|n: String| n@) == names_v,
                rows_v == rows@.map_values(|r: Row| r@),
                line@.len() == j,
                forall|b: int| 0 <= b < j ==> (#[trigger] line@[b])@ == row_lookup(rows_v[i as int], names_v[b]),
            decreases ncols - j,
        {
            line.push(rows[i].lookup(&names[j]));
            j = j + 1;
        }
        grid.push(line);
        i = i + 1;
    }
    let t = Table { names, rows: grid };
    proof {
        let m = spec_materialize(schema_view(*schema), rows_v);
        assert forall|a: int| 0 <= a < t@.rows.len() implies #[trigger] t@.rows[a] =~= m.rows[a] by {
        }
        assert(t@.rows =~~= m.rows);
        assert(t@ =~~= m);
    }
    t
}

} // verus!
