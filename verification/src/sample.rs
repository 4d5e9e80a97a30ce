use vstd::prelude::*;

use crate::cell::{CellValue, CellView};
use crate::table::{Table, TableView};

verus! {

/// The fixed demonstration table: five people with age, salary and
/// department.
pub open spec fn sample_table_spec() -> TableView {
    TableView {
        names: seq!["name"@, "age"@, "salary"@, "department"@],
        rows: seq![
            seq![
                CellView::Text("Alice"@),
                CellView::Integer(25),
                CellView::Integer(50000),
                CellView::Text("Engineering"@),
            ],
            seq![
                CellView::Text("Bob"@),
                CellView::Integer(30),
                CellView::Integer(60000),
                CellView::Text("Sales"@),
            ],
            seq![
                CellView::Text("Charlie"@),
                CellView::Integer(35),
                CellView::Integer(70000),
                CellView::Text("Engineering"@),
            ],
            seq![
                CellView::Text("Diana"@),
                CellView::Integer(28),
                CellView::Integer(55000),
                CellView::Text("Marketing"@),
            ],
            seq![
                CellView::Text("Eve"@),
                CellView::Integer(32),
                CellView::Integer(65000),
                CellView::Text("Sales"@),
            ],
        ],
    }
}

fn sample_row(name: &str, age: i64, salary: i64, department: &str) -> (r: Vec<CellValue>)
    ensures
        r@.map_values(|c: CellValue| c@) == seq![
            CellView::Text(name@),
            CellView::Integer(age),
            CellView::Integer(salary),
            CellView::Text(department@),
        ],
{
    let mut r: Vec<CellValue> = Vec::new();
    r.push(CellValue::Text(name.to_owned()));
    r.push(CellValue::Integer(age));
    r.push(CellValue::Integer(salary));
    r.push(CellValue::Text(department.to_owned()));
    proof {
        assert(r@.map_values(|c: CellValue| c@) =~= seq![
            CellView::Text(name@),
            CellView::Integer(age),
            CellView::Integer(salary),
            CellView::Text(department@),
        ]);
    }
    r
}

/// Build the demonstration table.
pub fn sample_table() -> (t: Table)
    ensures
        t@ == sample_table_spec(),
        t.wf(),
{
    let mut names: Vec<String> = Vec::new();
    names.push("name".to_owned());
    names.push("age".to_owned());
    names.push("salary".to_owned());
    names.push("department".to_owned());
    let mut rows: Vec<Vec<CellValue>> = Vec::new();
    rows.push(sample_row("Alice", 25, 50000, "Engineering"));
    rows.push(sample_row("Bob", 30, 60000, "Sales"));
    rows.push(sample_row("Charlie", 35, 70000, "Engineering"));
    rows.push(sample_row("Diana", 28, 55000, "Marketing"));
    rows.push(sample_row("Eve", 32, 65000, "Sales"));
    let t = Table { names, rows };
    proof {
        assert(t@.names =~= sample_table_spec().names);
        assert(t@.rows =~~= sample_table_spec().rows);
    }
    t
}

} // verus!
