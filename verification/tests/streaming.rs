use table_stream::cell::CellValue;
use table_stream::errors::StreamError;
use table_stream::store::SessionStore;
use table_stream::table::Table;

fn open(store: &mut SessionStore, label: &str) -> u64 {
    store.init_stream(label.to_owned()).expect("handle space exhausted")
}

fn submit(store: &mut SessionStore, handle: u64, text: &str) -> (usize, usize) {
    match store.submit_chunk(handle, text.as_bytes().to_vec()) {
        Ok(rc) => (rc.processed_rows, rc.total_accumulated),
        Err(e) => panic!("chunk refused: {:?}", e),
    }
}

fn results(store: &SessionStore, handle: u64, descriptor: &str) -> Table {
    match store.get_stream_results(handle, descriptor) {
        Ok(t) => t,
        Err(e) => panic!("finalization refused: {:?}", e),
    }
}

#[test]
fn unknown_handle_is_refused() {
    let mut store = SessionStore::new();
    let r = store.submit_chunk(7, b"a,b\n1,2\n".to_vec());
    assert!(matches!(r, Err(StreamError::SessionNotFound)));
    let r = store.get_stream_results(7, "filter:a:1");
    assert!(matches!(r, Err(StreamError::SessionNotFound)));
}

#[test]
fn closed_handle_is_refused() {
    let mut store = SessionStore::new();
    let h = open(&mut store, "noop");
    submit(&mut store, h, "a\n1\n");
    store.close_stream(h);
    let r = store.submit_chunk(h, b"a\n2\n".to_vec());
    assert!(matches!(r, Err(StreamError::SessionNotFound)));
    let r = store.get_stream_results(h, "");
    assert!(matches!(r, Err(StreamError::SessionNotFound)));
}

#[test]
fn close_of_unknown_handle_is_a_no_op() {
    let mut store = SessionStore::new();
    store.close_stream(99);
    let h = open(&mut store, "noop");
    assert_eq!(h, 1);
}

#[test]
fn handles_are_monotonic_and_never_reused() {
    let mut store = SessionStore::new();
    let h1 = open(&mut store, "a");
    let h2 = open(&mut store, "b");
    let h3 = open(&mut store, "c");
    assert_eq!((h1, h2, h3), (1, 2, 3));
    store.close_stream(h2);
    let h4 = open(&mut store, "d");
    assert_eq!(h4, 4);
}

#[test]
fn empty_session_returns_empty_table() {
    let mut store = SessionStore::new();
    let h = open(&mut store, "noop");
    for descriptor in ["", "filter:a:1", "groupby:a:b", "nonsense"] {
        let t = results(&store, h, descriptor);
        assert_eq!(t.names.len(), 0);
        assert_eq!(t.rows.len(), 0);
    }
}

#[test]
fn accumulation_totals_add_up() {
    let mut store = SessionStore::new();
    let h = open(&mut store, "noop");
    let (p1, t1) = submit(&mut store, h, "a,b\n1,2\n3,4\n");
    assert_eq!((p1, t1), (2, 2));
    let (p2, t2) = submit(&mut store, h, "a,b\n5,6\n");
    assert_eq!((p2, t2), (1, 3));
    assert!(t2 >= t1);
    assert_eq!(t2, p1 + p2);
    let (p3, t3) = submit(&mut store, h, "a,b\n7,8\n9,10\n");
    assert_eq!((p3, t3), (2, 5));
    assert_eq!(t3, p1 + p2 + p3);
}

#[test]
fn round_trip_preserves_cell_values() {
    let mut store = SessionStore::new();
    let h = open(&mut store, "noop");
    submit(&mut store, h, "i,t,f,n\n42,x,3.5,\n");
    let t = results(&store, h, "");
    assert_eq!(
        t.names,
        vec!["i".to_owned(), "t".to_owned(), "f".to_owned(), "n".to_owned()]
    );
    assert_eq!(t.rows.len(), 1);
    assert_eq!(t.rows[0][0], CellValue::Integer(42));
    assert_eq!(t.rows[0][1], CellValue::Text("x".to_owned()));
    assert_eq!(t.rows[0][2], CellValue::Float("3.5".to_owned()));
    assert_eq!(t.rows[0][3], CellValue::Null);
}

#[test]
fn finalization_is_idempotent() {
    let mut store = SessionStore::new();
    let h = open(&mut store, "noop");
    submit(&mut store, h, "col,tag\n10,a\n20,b\n30,c\n");
    for descriptor in ["", "filter:col:20"] {
        let first = results(&store, h, descriptor);
        let second = results(&store, h, descriptor);
        assert_eq!(first.names, second.names);
        assert_eq!(first.rows, second.rows);
    }
}

#[test]
fn filter_keeps_rows_at_or_above_threshold() {
    let mut store = SessionStore::new();
    let h = open(&mut store, "filter");
    submit(&mut store, h, "col,tag\n10,a\n20,b\n30,c\n");
    let t = results(&store, h, "filter:col:20");
    assert_eq!(t.names, vec!["col".to_owned(), "tag".to_owned()]);
    assert_eq!(t.rows.len(), 2);
    assert_eq!(t.rows[0][0], CellValue::Integer(20));
    assert_eq!(t.rows[0][1], CellValue::Text("b".to_owned()));
    assert_eq!(t.rows[1][0], CellValue::Integer(30));
    assert_eq!(t.rows[1][1], CellValue::Text("c".to_owned()));
}

#[test]
fn filter_works_on_floating_columns() {
    let mut store = SessionStore::new();
    let h = open(&mut store, "filter");
    submit(&mut store, h, "x\n1.5\n2.5\n");
    let t = results(&store, h, "filter:x:2");
    assert_eq!(t.rows.len(), 1);
    assert_eq!(t.rows[0][0], CellValue::Float("2.5".to_owned()));
}

#[test]
fn unreadable_threshold_reads_as_zero() {
    let mut store = SessionStore::new();
    let h = open(&mut store, "filter");
    submit(&mut store, h, "col\n10\n20\n30\n");
    let t = results(&store, h, "filter:col:oops");
    assert_eq!(t.rows.len(), 3);
}

#[test]
fn group_and_sum_partitions_rows() {
    let mut store = SessionStore::new();
    let h = open(&mut store, "groupby");
    submit(&mut store, h, "g,v\na,1\na,3\nb,5\n");
    let t = results(&store, h, "groupby:g:v");
    assert_eq!(t.names, vec!["g".to_owned(), "v".to_owned()]);
    assert_eq!(t.rows.len(), 2);
    let mut pairs: Vec<(String, i64)> = t
        .rows
        .iter()
        .map(|row| {
            let g = match &row[0] {
                CellValue::Text(s) => s.clone(),
                other => panic!("unexpected group cell: {:?}", other),
            };
            let v = match &row[1] {
                CellValue::Integer(i) => *i,
                other => panic!("unexpected sum cell: {:?}", other),
            };
            (g, v)
        })
        .collect();
    pairs.sort();
    assert_eq!(pairs, vec![("a".to_owned(), 4), ("b".to_owned(), 5)]);
}

#[test]
fn malformed_descriptor_passes_table_through() {
    let mut store = SessionStore::new();
    let h = open(&mut store, "noop");
    submit(&mut store, h, "col\n10\n20\n");
    let plain = results(&store, h, "");
    for descriptor in ["filter:col", "groupby:g", "shuffle:col:2", "filter", ":::"] {
        let t = results(&store, h, descriptor);
        assert_eq!(t.names, plain.names);
        assert_eq!(t.rows, plain.rows);
    }
}

#[test]
fn invalid_utf8_chunk_is_an_encoding_error() {
    let mut store = SessionStore::new();
    let h = open(&mut store, "noop");
    let r = store.submit_chunk(h, vec![0xff, 0xfe, 0xfd]);
    assert!(matches!(r, Err(StreamError::EncodingError(_))));
    let t = results(&store, h, "");
    assert_eq!(t.rows.len(), 0);
}

#[test]
fn unparseable_chunk_is_a_decode_error() {
    let mut store = SessionStore::new();
    let h = open(&mut store, "noop");
    let r = store.submit_chunk(h, Vec::new());
    assert!(matches!(r, Err(StreamError::DecodeError(_))));
    let t = results(&store, h, "");
    assert_eq!(t.rows.len(), 0);
}

#[test]
fn missing_column_is_an_engine_error() {
    let mut store = SessionStore::new();
    let h = open(&mut store, "filter");
    submit(&mut store, h, "col\n10\n");
    let r = store.get_stream_results(h, "filter:elsewhere:1");
    assert!(matches!(r, Err(StreamError::EngineComputeError(_))));
    let r = store.get_stream_results(h, "groupby:elsewhere:col");
    assert!(matches!(r, Err(StreamError::EngineComputeError(_))));
}

#[test]
fn schema_of_first_chunk_orders_the_result() {
    let mut store = SessionStore::new();
    let h = open(&mut store, "noop");
    submit(&mut store, h, "a,b\n1,2\n");
    submit(&mut store, h, "b,c\n5,6\n");
    let t = results(&store, h, "");
    assert_eq!(t.names, vec!["a".to_owned(), "b".to_owned()]);
    assert_eq!(t.rows.len(), 2);
    assert_eq!(t.rows[0][0], CellValue::Integer(1));
    assert_eq!(t.rows[0][1], CellValue::Integer(2));
    assert_eq!(t.rows[1][0], CellValue::Null);
    assert_eq!(t.rows[1][1], CellValue::Integer(5));
}

#[test]
fn sessions_do_not_interfere() {
    let mut store = SessionStore::new();
    let h1 = open(&mut store, "one");
    let h2 = open(&mut store, "two");
    submit(&mut store, h1, "a\n1\n");
    submit(&mut store, h2, "z\n9\n");
    let t1 = results(&store, h1, "");
    let t2 = results(&store, h2, "");
    assert_eq!(t1.names, vec!["a".to_owned()]);
    assert_eq!(t2.names, vec!["z".to_owned()]);
    assert_eq!(t1.rows[0][0], CellValue::Integer(1));
    assert_eq!(t2.rows[0][0], CellValue::Integer(9));
}

#[test]
fn boolean_columns_read_as_their_rendering() {
    let mut store = SessionStore::new();
    let h = open(&mut store, "noop");
    submit(&mut store, h, "flag\ntrue\nfalse\n");
    let t = results(&store, h, "");
    assert_eq!(t.rows[0][0], CellValue::Text("true".to_owned()));
    assert_eq!(t.rows[1][0], CellValue::Text("false".to_owned()));
}

#[test]
fn header_only_chunk_counts_no_rows() {
    let mut store = SessionStore::new();
    let h = open(&mut store, "noop");
    let (p, total) = submit(&mut store, h, "a,b\n");
    assert_eq!((p, total), (0, 0));
    let t = results(&store, h, "");
    assert_eq!(t.names.len(), 0);
    assert_eq!(t.rows.len(), 0);
}

#[test]
fn duplicate_header_names_are_disambiguated() {
    let mut store = SessionStore::new();
    let h = open(&mut store, "noop");
    submit(&mut store, h, "a,a\n1,2\n");
    let t = results(&store, h, "");
    assert_eq!(t.names.len(), 2);
    assert_ne!(t.names[0], t.names[1]);
    assert_eq!(t.rows[0].len(), 2);
}

#[test]
fn null_group_values_form_their_own_group() {
    let mut store = SessionStore::new();
    let h = open(&mut store, "groupby");
    submit(&mut store, h, "g,v\n,1\n,2\nb,3\n");
    let t = results(&store, h, "groupby:g:v");
    assert_eq!(t.rows.len(), 2);
    let nulls = t
        .rows
        .iter()
        .filter(|row| matches!(row[0], CellValue::Null))
        .count();
    assert_eq!(nulls, 1);
}
