//! The trusted boundary around the polars engine.
//!
//! Every function here is `external_body`: its contract states what the
//! engine call returns, as the engine's source and documentation show it, and
//! the rest of the crate is verified against these contracts. Frames and
//! engine values are opaque; their contents are named by the uninterpreted
//! functions below, which the contracts relate to the crate's own cell model.

use vstd::prelude::*;

use crate::cell::{CellValue, CellView};
use crate::table::{distinct_names, TableView};
use polars::prelude::{col, AnyValue, CsvReader, DataFrame, Expr, IntoLazy, LiteralValue, SerReader, Series};

verus! {

#[verifier::external_type_specification]
#[verifier::external_body]
pub struct ExDataFrame(DataFrame);

#[verifier::external_type_specification]
#[verifier::external_body]
pub struct ExSeries(Series);

#[verifier::external_type_specification]
#[verifier::external_body]
pub struct ExAnyValue<'a>(AnyValue<'a>);

/// The characters a byte sequence decodes to under UTF-8, when it is valid.
pub uninterp spec fn utf8_chars(bytes: Seq<u8>) -> Option<Seq<char>>;

/// The table a delimited-text chunk parses to under the engine's reader,
/// when the engine accepts it.
pub uninterp spec fn csv_table(text: Seq<char>) -> Option<TableView>;

/// The column names a frame holds.
pub uninterp spec fn frame_names(df: DataFrame) -> Seq<Seq<char>>;

/// The cells a frame holds, row-major, in the crate's cell model.
pub uninterp spec fn frame_cells(df: DataFrame) -> Seq<Seq<CellView>>;

/// The name a series carries.
pub uninterp spec fn series_label(s: Series) -> Seq<char>;

/// The cells a series holds, in the crate's cell model.
pub uninterp spec fn series_cells(s: Series) -> Seq<CellView>;

/// The cell model of one engine value.
pub uninterp spec fn any_value_view(v: AnyValue) -> CellView;

/// The engine's `>=` test of one cell against a threshold text read as a
/// floating-point literal: a fixed outcome per cell value and threshold.
pub uninterp spec fn engine_ge(v: CellView, threshold: Seq<char>) -> bool;

/// Whether a floating-point rendering reads back to the value it renders,
/// i.e. survives the engine boundary unchanged.
pub uninterp spec fn float_canonical(s: Seq<char>) -> bool;

/// A frame is rectangular: one cell per column name in every row.
pub open spec fn frame_wf(df: DataFrame) -> bool {
    forall|i: int|
        0 <= i < frame_cells(df).len() ==> (#[trigger] frame_cells(df)[i]).len() == frame_names(
            df,
        ).len()
}

/// A cell that crosses into the engine and back unchanged: null, integer and
/// text cells always do; a floating-point cell does when its rendering is
/// canonical; a boolean cell comes back as its textual rendering, so it does
/// not.
pub open spec fn cell_exact(c: CellView) -> bool {
    match c {
        CellView::Null => true,
        CellView::Boolean(_) => false,
        CellView::Integer(_) => true,
        CellView::Float(s) => float_canonical(s),
        CellView::Text(_) => true,
    }
}

/// A column the engine stores without change: all cells of one kind (nulls
/// aside), each crossing the boundary unchanged.
pub open spec fn column_exact(column: Seq<CellView>) -> bool {
    &&& forall|i: int| 0 <= i < column.len() ==> cell_exact(#[trigger] column[i])
    &&& {
        ||| forall|i: int|
            0 <= i < column.len() ==> (#[trigger] column[i] is Null || column[i] is Integer)
        ||| forall|i: int|
            0 <= i < column.len() ==> (#[trigger] column[i] is Null || column[i] is Float)
        ||| forall|i: int|
            0 <= i < column.len() ==> (#[trigger] column[i] is Null || column[i] is Text)
    }
}

/// Column `j` of a rectangular table model.
pub open spec fn table_column(t: TableView, j: int) -> Seq<CellView> {
    Seq::new(t.rows.len(), |i: int| t.rows[i][j])
}

/// A table the engine stores without change, column by column.
pub open spec fn table_engine_exact(t: TableView) -> bool {
    forall|j: int| 0 <= j < t.names.len() ==> column_exact(table_column(t, j))
}

/// The rows of a table that pass the engine's `>=` test on a column.
pub open spec fn spec_filter_rows(
    names: Seq<Seq<char>>,
    cells: Seq<Seq<CellView>>,
    column: Seq<char>,
    threshold: Seq<char>,
) -> Seq<Seq<CellView>> {
    cells.filter(|row: Seq<CellView>| engine_ge(row[col_of(names, column)], threshold))
}

/// The position of a column name (unique when the names are distinct).
pub open spec fn col_of(names: Seq<Seq<char>>, name: Seq<char>) -> int {
    choose|j: int| 0 <= j < names.len() && names[j] == name
}

/// The distinct values of the group column of a table model.
pub open spec fn group_values(names: Seq<Seq<char>>, cells: Seq<Seq<CellView>>, g: Seq<char>) -> Set<
    CellView,
> {
    cells.map_values(|row: Seq<CellView>| row[col_of(names, g)]).to_set()
}

/// What a grouped-and-summed frame holds: the group column and the sum column
/// as its two columns, one row per distinct group value, each carrying its
/// group's value first. The engine chooses the row order and computes the
/// sums.
pub open spec fn group_sum_shape(
    in_names: Seq<Seq<char>>,
    in_cells: Seq<Seq<CellView>>,
    g: Seq<char>,
    out_names: Seq<Seq<char>>,
    out_cells: Seq<Seq<CellView>>,
) -> bool {
    &&& out_cells.len() == group_values(in_names, in_cells, g).len()
    &&& forall|k: int|
        0 <= k < out_cells.len() ==> (#[trigger] out_cells[k]).len() == out_names.len()
            && group_values(in_names, in_cells, g).contains(out_cells[k][0])
    &&& forall|k1: int, k2: int|
        0 <= k1 < k2 < out_cells.len() ==> (#[trigger] out_cells[k1][0]) != (#[trigger] out_cells[k2][0])
}

/// Trusted: relies on `String::from_utf8`, which succeeds exactly on valid
/// UTF-8 and yields the decoded characters, a function of the bytes alone.
#[verifier::external_body]
pub(crate) fn decode_utf8(bytes: Vec<u8>) -> (r: Result<String, String>)
    ensures
        match r {
            Ok(s) => utf8_chars(bytes@) == Some(s@),
            Err(_) => utf8_chars(bytes@) is None,
        },
{
    match String::from_utf8(bytes) {
        Ok(s) => Ok(s),
        Err(e) => Err(format!("invalid chunk text: {}", e)),
    }
}

/// Trusted: relies on polars' `CsvReader` over an in-memory buffer. Success
/// and the decoded header and cells are a function of the text alone; a
/// parsed frame is rectangular and its column names are distinct (the reader
/// deduplicates them).
#[verifier::external_body]
pub(crate) fn parse_csv_text(text: &str) -> (r: Result<DataFrame, String>)
    ensures
        match r {
            Ok(df) => csv_table(text@) == Some(
                TableView { names: frame_names(df), rows: frame_cells(df) },
            ) && frame_wf(df) && distinct_names(frame_names(df)),
            Err(_) => csv_table(text@) is None,
        },
{
    let cur = std::io::Cursor::new(text.as_bytes());
    match CsvReader::new(cur).finish() {
        Ok(df) => Ok(df),
        Err(e) => Err(format!("{}", e)),
    }
}

/// Trusted: relies on `DataFrame::height`.
#[verifier::external_body]
pub(crate) fn df_height(df: &DataFrame) -> (h: usize)
    ensures
        h == frame_cells(*df).len(),
{
    df.height()
}

/// Trusted: relies on `DataFrame::width`.
#[verifier::external_body]
pub(crate) fn df_width(df: &DataFrame) -> (w: usize)
    ensures
        w == frame_names(*df).len(),
{
    df.width()
}

/// Trusted: relies on `DataFrame::get_column_names`.
#[verifier::external_body]
pub(crate) fn df_column_name(df: &DataFrame, j: usize) -> (name: String)
    requires
        j < frame_names(*df).len(),
    ensures
        name@ == frame_names(*df)[j as int],
{
    df.get_column_names()[j].to_string()
}

/// Trusted: relies on the series accessor `get`, reading one engine value and
/// rendering it in the crate's cell model: text stays text, 64-bit and 32-bit
/// integers read as integers, 64-bit floating values read as their decimal
/// rendering, missing values read as null, and every other engine type reads
/// as its textual rendering.
#[verifier::external_body]
pub(crate) fn df_cell_value(df: &DataFrame, i: usize, j: usize) -> (c: CellValue)
    requires
        i < frame_cells(*df).len(),
        j < frame_names(*df).len(),
    ensures
        c@ == frame_cells(*df)[i as int][j as int],
        c@ matches CellView::Float(s) ==> float_canonical(s),
{
    match df.get_columns()[j].get(i).unwrap_or(AnyValue::Null) {
        AnyValue::Null => CellValue::Null,
        AnyValue::Utf8(s) => CellValue::Text(s.to_string()),
        AnyValue::Utf8Owned(s) => CellValue::Text(s.to_string()),
        AnyValue::Int64(v) => CellValue::Integer(v),
        AnyValue::Int32(v) => CellValue::Integer(v as i64),
        AnyValue::Float64(v) => CellValue::Float(format!("{}", v)),
        other => CellValue::Text(format!("{}", other)),
    }
}

/// Trusted: builds the engine's dynamic value for one cell — null, boolean,
/// integer and text move over directly; a floating-point rendering is read
/// back with `str::parse` (an unreadable rendering reads as zero, so only a
/// canonical rendering is claimed to carry its model over).
#[verifier::external_body]
pub(crate) fn cell_to_any<'a>(c: &'a CellValue) -> (av: AnyValue<'a>)
    ensures
        cell_exact(c@) || c@ is Boolean ==> any_value_view(av) == c@,
{
    match c {
        CellValue::Null => AnyValue::Null,
        CellValue::Boolean(b) => AnyValue::Boolean(*b),
        CellValue::Integer(i) => AnyValue::Int64(*i),
        CellValue::Float(s) => AnyValue::Float64(s.as_str().parse().unwrap_or_default()),
        CellValue::Text(s) => AnyValue::Utf8(s.as_str()),
    }
}

/// Trusted: relies on `Series::from_any_values` in its lenient mode, which
/// types the column after its first non-null value. A column of one kind
/// whose cells all cross the boundary unchanged is stored exactly; the
/// length is kept in every case.
#[verifier::external_body]
pub(crate) fn series_from_values<'a>(name: &String, values: Vec<AnyValue<'a>>) -> (r: Result<
    Series,
    String,
>)
    ensures
        match r {
            Ok(s) => series_label(s) == name@ && series_cells(s).len() == values@.len() && (
            column_exact(values@.map_values(|a: AnyValue<'a>| any_value_view(a)))
                ==> series_cells(s) == values@.map_values(|a: AnyValue<'a>| any_value_view(a))),
            Err(_) => true,
        },
{
    match Series::from_any_values(name.as_str(), values.as_slice(), false) {
        Ok(s) => Ok(s),
        Err(e) => Err(format!("{}", e)),
    }
}

/// Trusted: relies on `DataFrame::new`, which checks that its columns carry
/// distinct names and equal lengths and otherwise stores them unchanged.
#[verifier::external_body]
pub(crate) fn df_from_columns(cols: Vec<Series>) -> (r: Result<DataFrame, String>)
    ensures
        match r {
            Ok(df) => {
                &&& frame_names(df) == cols@.map_values(|s: Series| series_label(s))
                &&& frame_wf(df)
                &&& frame_cells(df).len() == if cols@.len() == 0 {
                    0int
                } else {
                    series_cells(cols@[0]).len() as int
                }
                &&& forall|j: int|
                    0 <= j < cols@.len() ==> series_cells(#[trigger] cols@[j]).len()
                        == frame_cells(df).len()
                &&& forall|i: int, j: int|
                    0 <= i < frame_cells(df).len() && 0 <= j < cols@.len() ==> frame_cells(
                        df,
                    )[i][j] == series_cells(cols@[j])[i]
            },
            Err(_) => true,
        },
{
    match DataFrame::new(cols) {
        Ok(df) => Ok(df),
        Err(e) => Err(format!("{}", e)),
    }
}

/// Trusted: relies on the engine's deferred `filter` with a `gt_eq`
/// comparison of the named column against the threshold text read as a
/// floating-point literal (an unreadable threshold reads as zero, the
/// executor's lenient policy). On success the column exists and exactly the
/// rows whose cell passes the engine's `>=` test remain, in their original
/// order; the call fails when the plan cannot be executed, e.g. on a missing
/// or incomparable column.
#[verifier::external_body]
pub(crate) fn df_filter_ge(df: DataFrame, column: &str, threshold: &str) -> (r: Result<
    DataFrame,
    String,
>)
    ensures
        match r {
            Ok(out) => {
                &&& frame_names(out) == frame_names(df)
                &&& frame_names(df).contains(column@)
                &&& frame_wf(out)
                &&& frame_cells(out) == spec_filter_rows(
                    frame_names(df),
                    frame_cells(df),
                    column@,
                    threshold@,
                )
                &&& forall|i: int|
                    0 <= i < frame_cells(out).len() ==> engine_ge(
                        (#[trigger] frame_cells(out)[i])[col_of(frame_names(df), column@)],
                        threshold@,
                    )
            },
            Err(_) => true,
        },
{
    let e = col(column).gt_eq(Expr::Literal(LiteralValue::Float64(threshold.parse().unwrap_or_default())));
    match df.lazy().filter(e).collect() {
        Ok(out) => Ok(out),
        Err(err) => Err(format!("{}", err)),
    }
}

/// Trusted: relies on the engine's deferred `group_by` over the group column
/// with a `sum` aggregate of the sum column. On success both columns exist
/// in the input, the output carries the group column and the summed column
/// under their own names, and holds one row per distinct group value; the
/// engine chooses the row order and computes the sums.
#[verifier::external_body]
pub(crate) fn df_group_sum(df: DataFrame, group_column: &str, sum_column: &str) -> (r: Result<
    DataFrame,
    String,
>)
    ensures
        match r {
            Ok(out) => {
                &&& frame_names(df).contains(group_column@)
                &&& frame_names(df).contains(sum_column@)
                &&& frame_names(out) == seq![group_column@, sum_column@]
                &&& frame_wf(out)
                &&& group_sum_shape(
                    frame_names(df),
                    frame_cells(df),
                    group_column@,
                    frame_names(out),
                    frame_cells(out),
                )
            },
            Err(_) => true,
        },
{
    let plan = df.lazy().group_by([col(group_column)]).agg([col(sum_column).sum()]);
    match plan.collect() {
        Ok(out) => Ok(out),
        Err(err) => Err(format!("{}", err)),
    }
}

} // verus!
