use etl_table::table::{ColType, Table, TableError, TableView, Value};

fn headers(names: &[&str]) -> Vec<String> {
    names.iter().map(|s| s.to_string()).collect()
}

fn row(cells: &[&str]) -> Vec<String> {
    cells.iter().map(|s| s.to_string()).collect()
}

#[test]
fn new_table_is_empty() {
    let t = Table::new();
    assert_eq!(t.num_cols(), 0);
    assert_eq!(t.rows.len(), 0);
    assert_eq!(t.alias_index.len(), 0);
}

#[test]
fn from_headers_names_and_positions() {
    let t = Table::from_headers(headers(&["a", "b", "c"]));
    assert_eq!(t.num_cols(), 3);
    assert_eq!(t.rows.len(), 0);
    assert_eq!(t.cols[0].header.canonical, "a");
    assert_eq!(t.cols[1].header.canonical, "b");
    assert_eq!(t.cols[2].header.canonical, "c");
    for col in &t.cols {
        assert!(col.header.aliases.is_empty());
        assert_eq!(col.kind, ColType::Any);
    }
    assert_eq!(t.col_index(&"a".to_string()), Some(0));
    assert_eq!(t.col_index(&"b".to_string()), Some(1));
    assert_eq!(t.col_index(&"c".to_string()), Some(2));
    assert_eq!(t.col_index(&"d".to_string()), None);
}

#[test]
fn from_headers_empty_list() {
    let t = Table::from_headers(Vec::new());
    assert_eq!(t.num_cols(), 0);
    assert_eq!(t.col_index(&"a".to_string()), None);
}

#[test]
fn from_headers_duplicate_name_resolves_to_last() {
    let t = Table::from_headers(headers(&["x", "y", "x"]));
    assert_eq!(t.num_cols(), 3);
    assert_eq!(t.cols[0].header.canonical, "x");
    assert_eq!(t.cols[2].header.canonical, "x");
    assert_eq!(t.col_index(&"x".to_string()), Some(2));
    assert_eq!(t.col_index(&"y".to_string()), Some(1));
}

#[test]
fn push_row_matching_width_appends_text_cells() {
    let mut t = Table::from_headers(headers(&["a", "b"]));
    let idx = t.push_row_from_strings(row(&["1", "2"])).unwrap();
    assert_eq!(idx, 0);
    assert_eq!(t.rows.len(), 1);
    assert_eq!(t.rows[0].cells[0], Value::Text("1".to_string()));
    assert_eq!(t.rows[0].cells[1], Value::Text("2".to_string()));
    let idx2 = t.push_row_from_strings(row(&["3", "4"])).unwrap();
    assert_eq!(idx2, 1);
    assert_eq!(t.rows[1].cells[0], Value::Text("3".to_string()));
}

#[test]
fn push_row_mismatched_width_fails_and_changes_nothing() {
    let mut t = Table::from_headers(headers(&["a", "b", "c"]));
    t.push_row_from_strings(row(&["1", "2", "3"])).unwrap();
    let r = t.push_row_from_strings(row(&["1", "2"]));
    assert_eq!(r, Err(TableError::ColumnCountMismatch { expected: 3, got: 2 }));
    assert_eq!(t.rows.len(), 1);
    let r2 = t.push_row_from_strings(Vec::new());
    assert_eq!(r2, Err(TableError::ColumnCountMismatch { expected: 3, got: 0 }));
    assert_eq!(t.rows.len(), 1);
}

#[test]
fn float_cells_compare_bitwise() {
    let a = Value::Float((1.5f64).to_bits());
    let b = Value::Float((1.5f64).to_bits());
    let c = Value::Float((2.5f64).to_bits());
    assert_eq!(a, b);
    assert_ne!(a, c);
}

#[test]
fn table_view_projects_without_copying() {
    let mut t = Table::from_headers(headers(&["a", "b"]));
    t.push_row_from_strings(row(&["1", "2"])).unwrap();
    t.push_row_from_strings(row(&["3", "4"])).unwrap();
    let v = TableView { table: &t, row_idx: vec![1, 0], col_idx: vec![1] };
    assert_eq!(v.cell(0, 0), Some(&Value::Text("4".to_string())));
    assert_eq!(v.cell(1, 0), Some(&Value::Text("2".to_string())));
    assert_eq!(v.cell(0, 1), None);
    assert_eq!(v.cell(2, 0), None);
}

#[test]
fn table_view_out_of_range_index_fails_soft() {
    let mut t = Table::from_headers(headers(&["a"]));
    t.push_row_from_strings(row(&["1"])).unwrap();
    let v = TableView { table: &t, row_idx: vec![7], col_idx: vec![0] };
    assert_eq!(v.cell(0, 0), None);
}
