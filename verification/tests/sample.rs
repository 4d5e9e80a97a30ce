use table_stream::cell::CellValue;
use table_stream::sample::sample_table;

#[test]
fn sample_table_has_the_demonstration_shape() {
    let t = sample_table();
    assert_eq!(
        t.names,
        vec![
            "name".to_owned(),
            "age".to_owned(),
            "salary".to_owned(),
            "department".to_owned()
        ]
    );
    assert_eq!(t.rows.len(), 5);
    assert_eq!(t.rows[0][0], CellValue::Text("Alice".to_owned()));
    assert_eq!(t.rows[0][1], CellValue::Integer(25));
    assert_eq!(t.rows[2][2], CellValue::Integer(70000));
    assert_eq!(t.rows[4][3], CellValue::Text("Sales".to_owned()));
}
