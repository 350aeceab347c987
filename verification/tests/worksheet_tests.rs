use excelify::{cell_reference, col_to_letter, CellValue, Worksheet};

#[test]
fn test_new_worksheet() {
    let ws = Worksheet::new("Sheet1".to_string());
    assert_eq!(ws.name(), "Sheet1");
    assert!(ws.is_empty());
}

#[test]
fn test_write_and_get() {
    let mut ws = Worksheet::new("Test".to_string());
    ws.write_string(0, 0, "Hello".to_string());
    ws.write_number(0, 1, 42.0_f64.to_string());
    ws.write_boolean(1, 0, true);

    assert!(matches!(ws.get(0, 0), Some(CellValue::String(_))));
    assert!(matches!(ws.get(0, 1), Some(CellValue::Number(_))));
    assert!(matches!(ws.get(1, 0), Some(CellValue::Boolean(_))));
    assert!(ws.get(1, 1).is_none());
}

#[test]
fn test_dimensions() {
    let mut ws = Worksheet::new("Test".to_string());
    ws.write_string(5, 10, "value".to_string());
    assert_eq!(ws.dimensions(), (5, 10));
}

#[test]
fn test_col_to_letter() {
    assert_eq!(col_to_letter(0), "A");
    assert_eq!(col_to_letter(1), "B");
    assert_eq!(col_to_letter(25), "Z");
    assert_eq!(col_to_letter(26), "AA");
    assert_eq!(col_to_letter(27), "AB");
    assert_eq!(col_to_letter(701), "ZZ");
    assert_eq!(col_to_letter(702), "AAA");
}

#[test]
fn test_cell_reference() {
    assert_eq!(cell_reference(0, 0), "A1");
    assert_eq!(cell_reference(0, 1), "B1");
    assert_eq!(cell_reference(9, 2), "C10");
    assert_eq!(cell_reference(0, 26), "AA1");
}

#[test]
fn test_dimensions_monotonic() {
    let mut ws = Worksheet::new("Test".to_string());
    ws.write_string(5, 10, "far".to_string());
    ws.write_string(2, 1, "near".to_string());
    assert_eq!(ws.dimensions(), (5, 10));
}

#[test]
fn test_empty_write_advances_dimensions() {
    let mut ws = Worksheet::new("Test".to_string());
    ws.write(7, 3, CellValue::Empty);
    assert_eq!(ws.dimensions(), (7, 3));
    assert!(!ws.is_empty());
    assert!(matches!(ws.get(7, 3), Some(CellValue::Empty)));
}

#[test]
fn test_last_write_wins() {
    let mut ws = Worksheet::new("Test".to_string());
    ws.write_string(0, 0, "first".to_string());
    ws.write_string(0, 0, "second".to_string());
    match ws.get(0, 0) {
        Some(CellValue::String(s)) => assert_eq!(s, "second"),
        other => panic!("unexpected cell: {:?}", other),
    }
    assert_eq!(ws.cells().len(), 1);
}

#[test]
fn test_cells_sorted_row_major() {
    let mut ws = Worksheet::new("Test".to_string());
    ws.write_boolean(2, 0, true);
    ws.write_boolean(0, 1, true);
    ws.write_boolean(0, 0, true);
    ws.write_boolean(1, 5, true);
    let coords: Vec<(u32, u32)> = ws.cells().iter().map(|c| (c.row, c.col)).collect();
    assert_eq!(coords, vec![(0, 0), (0, 1), (1, 5), (2, 0)]);
}
