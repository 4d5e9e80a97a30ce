//! Verified passage between tables and engine frames, and the execution of a
//! deferred operation over a frame.

use vstd::prelude::*;

use crate::cell::CellValue;
use crate::descriptor::{Operation, OperationView};
use crate::engine;
use crate::table::{Table, TableView};
use polars::prelude::{AnyValue, DataFrame, Series};

verus! {

/// Read a frame back into a table, cell by cell.
pub(crate) fn extract_table(df: &DataFrame) -> (t: Table)
    requires
        engine::frame_wf(*df),
    ensures
        t@ == (TableView { names: engine::frame_names(*df), rows: engine::frame_cells(*df) }),
        t.wf(),
{
    let ncols = engine::df_width(df);
    let nrows = engine::df_height(df);
    let mut names: Vec<String> = Vec::new();
    let mut j: usize = 0;
    while j < ncols
        invariant
            0 <= j <= ncols,
            ncols == engine::frame_names(*df).len(),
            names@.len() == j,
            forall|b: int| 0 <= b < j ==> (#[trigger] names@[b])@ == engine::frame_names(*df)[b],
        decreases ncols - j,
    {
        names.push(engine::df_column_name(df, j));
        j = j + 1;
    }
    let mut grid: Vec<Vec<CellValue>> = Vec::new();
    let mut i: usize = 0;
    while i < nrows
        invariant
            0 <= i <= nrows,
            nrows == engine::frame_cells(*df).len(),
            ncols == engine::frame_names(*df).len(),
            engine::frame_wf(*df),
            grid@.len() == i,
            forall|a: int| 0 <= a < i ==> (#[trigger] grid@[a])@.len() == ncols,
            forall|a: int, b: int|
                0 <= a < i && 0 <= b < ncols ==> ((#[trigger] grid@[a]@[b])@ == engine::frame_cells(
                    *df,
                )[a][b]),
        decreases nrows - i,
    {
        let mut line: Vec<CellValue> = Vec::new();
        let mut b: usize = 0;
        while b < ncols
            invariant
                0 <= b <= ncols,
                0 <= i < nrows,
                nrows == engine::frame_cells(*df).len(),
                ncols == engine::frame_names(*df).len(),
                line@.len() == b,
                forall|k: int|
                    0 <= k < b ==> ((#[trigger] line@[k])@ == engine::frame_cells(*df)[i as int][k]),
            decreases ncols - b,
        {
            line.push(engine::df_cell_value(df, i, b));
            b = b + 1;
        }
        grid.push(line);
        i = i + 1;
    }
    let t = Table { names, rows: grid };
    proof {
        assert(t@.names =~= engine::frame_names(*df));
        assert forall|a: int| 0 <= a < t@.rows.len() implies #[trigger] t@.rows[a]
            =~= engine::frame_cells(*df)[a] by {}
        assert(t@.rows =~~= engine::frame_cells(*df));
        assert(t@ =~~= (TableView {
            names: engine::frame_names(*df),
            rows: engine::frame_cells(*df),
        }));
    }
    t
}

/// Hand a table to the engine as a frame, column by column.
///
/// The engine types each column after its first non-null value, so only a
/// table whose columns it stores exactly (see
/// [`engine::table_engine_exact`]) is claimed to arrive unchanged.
pub(crate) fn build_frame(t: &Table) -> (r: Result<DataFrame, String>)
    requires
        t.wf(),
    ensures
        match r {
            Ok(df) => {
                &&& engine::frame_names(df) == t@.names
                &&& engine::frame_wf(df)
                &&& (t@.names.len() > 0 ==> engine::frame_cells(df).len() == t@.rows.len())
                &&& (t@.names.len() == 0 ==> engine::frame_cells(df).len() == 0)
                &&& (engine::table_engine_exact(t@) && t@.names.len() > 0 ==> engine::frame_cells(
                    df,
                ) == t@.rows)
            },
            Err(_) => true,
        },
{
    let ncols = t.names.len();
    let nrows = t.rows.len();
    let mut cols: Vec<Series> = Vec::new();
    let mut j: usize = 0;
    while j < ncols
        invariant
            0 <= j <= ncols,
            ncols == t@.names.len(),
            nrows == t@.rows.len(),
            t.wf(),
            cols@.len() == j,
            forall|jj: int|
                0 <= jj < j ==> engine::series_label(#[trigger] cols@[jj]) == t@.names[jj],
            forall|jj: int|
                0 <= jj < j ==> engine::series_cells(#[trigger] cols@[jj]).len() == nrows,
            forall|jj: int|
                0 <= jj < j ==> (engine::column_exact(engine::table_column(t@, jj))
                    ==> engine::series_cells(#[trigger] cols@[jj]) == engine::table_column(t@, jj)),
        decreases ncols - j,
    {
        let mut vals: Vec<AnyValue> = Vec::new();
        let mut i: usize = 0;
        while i < nrows
            invariant
                0 <= i <= nrows,
                0 <= j < ncols,
                ncols == t@.names.len(),
                nrows == t@.rows.len(),
                t.wf(),
                vals@.len() == i,
                forall|k: int|
                    0 <= k < i ==> ((engine::cell_exact(t@.rows[k][j as int]) || t@.rows[k][j as int] is Boolean)
                        ==> engine::any_value_view(#[trigger] vals@[k]) == t@.rows[k][j as int]),
            decreases nrows - i,
        {
            proof {
                assert(t@.rows[i as int].len() == t@.names.len());
                assert(t@.rows[i as int] == t.rows@[i as int]@.map_values(|c: CellValue| c@));
            }
            vals.push(engine::cell_to_any(&t.rows[i][j]));
            i = i + 1;
        }
        let s = match engine::series_from_values(&t.names[j], vals) {
            Ok(s) => s,
            Err(e) => {
                return Err(e);
            },
        };
        proof {
            if engine::column_exact(engine::table_column(t@, j as int)) {
                assert forall|k: int| 0 <= k < nrows implies engine::any_value_view(
                    #[trigger] vals@[k],
                ) == engine::table_column(t@, j as int)[k] by {
                    assert(engine::cell_exact(engine::table_column(t@, j as int)[k]));
                }
                assert(vals@.map_values(|a: AnyValue| engine::any_value_view(a))
                    =~= engine::table_column(t@, j as int));
            }
        }
        cols.push(s);
        j = j + 1;
    }
    let df = match engine::df_from_columns(cols) {
        Ok(df) => df,
        Err(e) => {
            return Err(e);
        },
    };
    proof {
        assert(engine::frame_names(df) =~= t@.names);
        if engine::table_engine_exact(t@) && t@.names.len() > 0 {
            assert forall|a: int| 0 <= a < engine::frame_cells(df).len() implies
                #[trigger] engine::frame_cells(df)[a] =~= t@.rows[a] by {
                assert forall|b: int| 0 <= b < ncols implies engine::frame_cells(df)[a][b]
                    == t@.rows[a][b] by {
                    assert(engine::column_exact(engine::table_column(t@, b)));
                    assert(engine::series_cells(cols@[b]) == engine::table_column(t@, b));
                    assert(engine::table_column(t@, b)[a] == t@.rows[a][b]);
                }
            }
            assert(engine::frame_cells(df) =~~= t@.rows);
        }
    }
    Ok(df)
}

/// What a successful filter execution returns: the same columns, and — when
/// the engine stores the table exactly — exactly the rows that pass the
/// engine's `>=` test on the named column, in their original order.
pub open spec fn filter_post(
    tv: TableView,
    column: Seq<char>,
    threshold: Seq<char>,
    out: TableView,
) -> bool {
    &&& out.names == tv.names
    &&& tv.names.contains(column)
    &&& (engine::table_engine_exact(tv) && tv.names.len() > 0 ==> out.rows
        == engine::spec_filter_rows(tv.names, tv.rows, column, threshold))
}

/// What a successful group-and-sum execution returns: the group column and
/// the summed column as the two output columns and — when the engine stores
/// the table exactly — one row per distinct group value, each led by its
/// group's value. The engine chooses the row order and computes the sums.
pub open spec fn group_post(
    tv: TableView,
    group_column: Seq<char>,
    sum_column: Seq<char>,
    out: TableView,
) -> bool {
    &&& out.names == seq![group_column, sum_column]
    &&& tv.names.contains(group_column)
    &&& tv.names.contains(sum_column)
    &&& (engine::table_engine_exact(tv) && tv.names.len() > 0 ==> engine::group_sum_shape(
        tv.names,
        tv.rows,
        group_column,
        out.names,
        out.rows,
    ))
}

/// Run a filter or group-and-sum operation over a table through the engine's
/// deferred-evaluation path.
pub(crate) fn run_operation(t: &Table, op: &Operation) -> (r: Result<Table, String>)
    requires
        t.wf(),
        !(op@ is Pass),
    ensures
        match r {
            Ok(out) => out.wf() && match op@ {
                OperationView::Pass => false,
                OperationView::Filter { column, threshold } => filter_post(
                    t@,
                    column,
                    threshold,
                    out@,
                ),
                OperationView::GroupBySum { group_column, sum_column } => group_post(
                    t@,
                    group_column,
                    sum_column,
                    out@,
                ),
            },
            Err(_) => true,
        },
{
    let df = match build_frame(t) {
        Ok(df) => df,
        Err(e) => {
            return Err(e);
        },
    };
    let ghost in_names = engine::frame_names(df);
    let ghost in_cells = engine::frame_cells(df);
    match op {
        Operation::Pass => Err(String::new()),
        Operation::Filter { column, threshold } => {
            match engine::df_filter_ge(df, column.as_str(), threshold.as_str()) {
                Ok(out_df) => {
                    let out = extract_table(&out_df);
                    proof {
                        if engine::table_engine_exact(t@) && t@.names.len() > 0 {
                            assert(in_cells == t@.rows);
                        }
                    }
                    Ok(out)
                },
                Err(e) => Err(e),
            }
        },
        Operation::GroupBySum { group_column, sum_column } => {
            match engine::df_group_sum(df, group_column.as_str(), sum_column.as_str()) {
                Ok(out_df) => {
                    let out = extract_table(&out_df);
                    proof {
                        if engine::table_engine_exact(t@) && t@.names.len() > 0 {
                            assert(in_cells == t@.rows);
                        }
                    }
                    Ok(out)
                },
                Err(e) => Err(e),
            }
        },
    }
}

} // verus!
