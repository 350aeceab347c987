use excelify::{CellValue, ExcelifyError, Workbook};

#[test]
fn test_new_workbook() {
    let wb = Workbook::new();
    assert_eq!(wb.worksheet_count(), 0);
}

#[test]
fn test_add_worksheet() {
    let mut wb = Workbook::new();
    let idx = wb.add_worksheet("Sheet1".to_string());
    assert_eq!(idx, 0);
    assert_eq!(wb.worksheet_count(), 1);
    assert_eq!(wb.get_worksheet(0).unwrap().name(), "Sheet1");
}

#[test]
fn test_write_to_worksheet() {
    let mut wb = Workbook::new();
    wb.add_worksheet("Sheet1".to_string());

    wb.write_string(0, 0, 0, "Hello".to_string()).unwrap();
    wb.write_number(0, 0, 1, 42.0_f64.to_string()).unwrap();
    wb.write_boolean(0, 1, 0, true).unwrap();

    let ws = wb.get_worksheet(0).unwrap();
    assert!(ws.get(0, 0).is_some());
    assert!(ws.get(0, 1).is_some());
    assert!(ws.get(1, 0).is_some());
}

#[test]
fn test_write_to_invalid_sheet() {
    let mut wb = Workbook::new();
    let result = wb.write_string(0, 0, 0, "Hello".to_string());
    assert!(result.is_err());
}

#[test]
fn test_invalid_sheet_error_and_state() {
    let mut wb = Workbook::new();
    wb.add_worksheet("Sheet1".to_string());
    wb.write_string(0, 0, 0, "kept".to_string()).unwrap();

    let result = wb.write_string(3, 1, 1, "lost".to_string());
    match result {
        Err(ExcelifyError::SheetNotFound(i)) => {
            assert_eq!(i, 3);
        },
        other => panic!("unexpected result: {:?}", other),
    }
    assert_eq!(wb.worksheet_count(), 1);
    let ws = wb.get_worksheet(0).unwrap();
    assert_eq!(ws.cells().len(), 1);
    assert!(ws.get(1, 1).is_none());
    assert!(wb.get_worksheet(3).is_none());
}

#[test]
fn test_sheet_not_found_message() {
    let e = ExcelifyError::SheetNotFound(12);
    assert_eq!(e.message(), "Sheet not found at index 12");
    let io = ExcelifyError::Io("broken pipe".to_string());
    assert_eq!(io.message(), "IO error: broken pipe");
    let zip = ExcelifyError::Zip("bad archive".to_string());
    assert_eq!(zip.message(), "ZIP error: bad archive");
    let xml = ExcelifyError::Xml("bad text".to_string());
    assert_eq!(xml.message(), "XML error: bad text");
    let r = ExcelifyError::InvalidCellReference("A0".to_string());
    assert_eq!(r.message(), "Invalid cell reference: A0");
}

#[test]
fn test_duplicate_sheet_names_retained() {
    let mut wb = Workbook::new();
    let a = wb.add_worksheet("Data".to_string());
    let b = wb.add_worksheet("Data".to_string());
    assert_eq!(a, 0);
    assert_eq!(b, 1);
    assert_eq!(wb.worksheet_count(), 2);
    assert_eq!(wb.get_worksheet(0).unwrap().name(), "Data");
    assert_eq!(wb.get_worksheet(1).unwrap().name(), "Data");
}

#[test]
fn test_typed_writes_round_trip() {
    let mut wb = Workbook::new();
    wb.add_worksheet("Sheet1".to_string());
    wb.write_string(0, 0, 0, "Hello".to_string()).unwrap();
    wb.write_number(0, 0, 1, 42.0_f64.to_string()).unwrap();
    wb.write_boolean(0, 1, 0, true).unwrap();

    let ws = wb.get_worksheet(0).unwrap();
    match ws.get(0, 0) {
        Some(CellValue::String(s)) => assert_eq!(s, "Hello"),
        other => panic!("unexpected cell: {:?}", other),
    }
    match ws.get(0, 1) {
        Some(CellValue::Number(n)) => assert_eq!(n, "42"),
        other => panic!("unexpected cell: {:?}", other),
    }
    match ws.get(1, 0) {
        Some(CellValue::Boolean(b)) => assert!(*b),
        other => panic!("unexpected cell: {:?}", other),
    }
    assert!(ws.get(1, 1).is_none());
}
