use excelify::writer::{write_cell, xml_escape, XlsxWriter};
use excelify::worksheet::Cell;
use excelify::{CellValue, Workbook, Worksheet};

const DECL: &str = "<?xml version=\"1.0\" encoding=\"UTF-8\" standalone=\"yes\"?>";

#[test]
fn test_xml_escape() {
    assert_eq!(xml_escape("plain text"), "plain text");
    assert_eq!(xml_escape("a&b<c>d\"e'f"), "a&amp;b&lt;c&gt;d&quot;e&apos;f");
    assert_eq!(xml_escape(""), "");
    assert_eq!(xml_escape("&&"), "&amp;&amp;");
}

#[test]
fn test_cell_xml_fragments() {
    let s = Cell { row: 0, col: 0, value: CellValue::String("Hello".to_string()) };
    assert_eq!(
        write_cell(&s),
        "<c r=\"A1\" t=\"inlineStr\"><is><t>Hello</t></is></c>"
    );
    let n = Cell { row: 0, col: 1, value: CellValue::Number("42.5".to_string()) };
    assert_eq!(write_cell(&n), "<c r=\"B1\"><v>42.5</v></c>");
    let b = Cell { row: 9, col: 2, value: CellValue::Boolean(true) };
    assert_eq!(write_cell(&b), "<c r=\"C10\" t=\"b\"><v>1</v></c>");
    let e = Cell { row: 3, col: 3, value: CellValue::Empty };
    assert_eq!(write_cell(&e), "");
}

#[test]
fn test_cell_xml_escapes_text() {
    let s = Cell { row: 0, col: 0, value: CellValue::String("a<b&c".to_string()) };
    assert_eq!(
        write_cell(&s),
        "<c r=\"A1\" t=\"inlineStr\"><is><t>a&lt;b&amp;c</t></is></c>"
    );
}

#[test]
fn test_content_types_part() {
    let mut wb = Workbook::new();
    wb.add_worksheet("Sheet1".to_string());
    let writer = XlsxWriter::new(&wb);
    let expected = format!(
        "{}{}{}{}",
        DECL,
        "<Types xmlns=\"http://schemas.openxmlformats.org/package/2006/content-types\"><Default Extension=\"rels\" ContentType=\"application/vnd.openxmlformats-package.relationships+xml\"/><Default Extension=\"xml\" ContentType=\"application/xml\"/><Override PartName=\"/xl/workbook.xml\" ContentType=\"application/vnd.openxmlformats-officedocument.spreadsheetml.sheet.main+xml\"/>",
        "<Override PartName=\"/xl/worksheets/sheet1.xml\" ContentType=\"application/vnd.openxmlformats-officedocument.spreadsheetml.worksheet+xml\"/>",
        "</Types>"
    );
    assert_eq!(writer.write_content_types(), expected);
}

#[test]
fn test_root_rels_part() {
    let wb = Workbook::new();
    let writer = XlsxWriter::new(&wb);
    let expected = format!(
        "{}{}",
        DECL,
        "<Relationships xmlns=\"http://schemas.openxmlformats.org/package/2006/relationships\"><Relationship Id=\"rId1\" Type=\"http://schemas.openxmlformats.org/officeDocument/2006/relationships/officeDocument\" Target=\"xl/workbook.xml\"/></Relationships>"
    );
    assert_eq!(writer.write_rels(), expected);
}

#[test]
fn test_workbook_xml_part() {
    let mut wb = Workbook::new();
    wb.add_worksheet("Sheet1".to_string());
    wb.add_worksheet("Budget".to_string());
    let writer = XlsxWriter::new(&wb);
    let expected = format!(
        "{}{}{}{}{}",
        DECL,
        "<workbook xmlns=\"http://schemas.openxmlformats.org/spreadsheetml/2006/main\" xmlns:r=\"http://schemas.openxmlformats.org/officeDocument/2006/relationships\"><sheets>",
        "<sheet name=\"Sheet1\" sheetId=\"1\" r:id=\"rId1\"/>",
        "<sheet name=\"Budget\" sheetId=\"2\" r:id=\"rId2\"/>",
        "</sheets></workbook>"
    );
    assert_eq!(writer.write_workbook_xml(), expected);
}

#[test]
fn test_workbook_xml_escapes_names() {
    let mut wb = Workbook::new();
    wb.add_worksheet("P&L <2024>".to_string());
    let writer = XlsxWriter::new(&wb);
    let xml = writer.write_workbook_xml();
    assert!(xml.contains("<sheet name=\"P&amp;L &lt;2024&gt;\" sheetId=\"1\" r:id=\"rId1\"/>"));
}

#[test]
fn test_workbook_rels_part() {
    let mut wb = Workbook::new();
    wb.add_worksheet("One".to_string());
    wb.add_worksheet("Two".to_string());
    let writer = XlsxWriter::new(&wb);
    let expected = format!(
        "{}{}{}{}{}",
        DECL,
        "<Relationships xmlns=\"http://schemas.openxmlformats.org/package/2006/relationships\">",
        "<Relationship Id=\"rId1\" Type=\"http://schemas.openxmlformats.org/officeDocument/2006/relationships/worksheet\" Target=\"worksheets/sheet1.xml\"/>",
        "<Relationship Id=\"rId2\" Type=\"http://schemas.openxmlformats.org/officeDocument/2006/relationships/worksheet\" Target=\"worksheets/sheet2.xml\"/>",
        "</Relationships>"
    );
    assert_eq!(writer.write_workbook_rels(), expected);
}

#[test]
fn test_worksheet_xml_empty_sheet() {
    let wb = Workbook::new();
    let writer = XlsxWriter::new(&wb);
    let ws = Worksheet::new("Sheet1".to_string());
    let expected = format!(
        "{}{}",
        DECL,
        "<worksheet xmlns=\"http://schemas.openxmlformats.org/spreadsheetml/2006/main\" xmlns:r=\"http://schemas.openxmlformats.org/officeDocument/2006/relationships\"><sheetData/></worksheet>"
    );
    assert_eq!(writer.write_worksheet_xml(&ws), expected);
}

#[test]
fn test_worksheet_xml_rows_and_cells() {
    let wb = Workbook::new();
    let writer = XlsxWriter::new(&wb);
    let mut ws = Worksheet::new("Sheet1".to_string());
    ws.write_string(0, 0, "Hello".to_string());
    ws.write_number(0, 1, 42.0_f64.to_string());
    ws.write_boolean(1, 0, true);
    let expected = format!(
        "{}{}{}{}{}",
        DECL,
        "<worksheet xmlns=\"http://schemas.openxmlformats.org/spreadsheetml/2006/main\" xmlns:r=\"http://schemas.openxmlformats.org/officeDocument/2006/relationships\"><sheetData>",
        "<row r=\"1\"><c r=\"A1\" t=\"inlineStr\"><is><t>Hello</t></is></c><c r=\"B1\"><v>42</v></c></row>",
        "<row r=\"2\"><c r=\"A2\" t=\"b\"><v>1</v></c></row>",
        "</sheetData></worksheet>"
    );
    assert_eq!(writer.write_worksheet_xml(&ws), expected);
}

#[test]
fn test_worksheet_xml_order_independent() {
    let wb = Workbook::new();
    let writer = XlsxWriter::new(&wb);

    let mut early_first = Worksheet::new("A".to_string());
    early_first.write_string(0, 0, "top".to_string());
    early_first.write_string(2, 0, "bottom".to_string());

    let mut late_first = Worksheet::new("B".to_string());
    late_first.write_string(2, 0, "bottom".to_string());
    late_first.write_string(0, 0, "top".to_string());

    let a = writer.write_worksheet_xml(&early_first);
    let b = writer.write_worksheet_xml(&late_first);
    assert_eq!(a, b);
    let row1 = a.find("<row r=\"1\">").unwrap();
    let row3 = a.find("<row r=\"3\">").unwrap();
    assert!(row1 < row3);
}

#[test]
fn test_worksheet_xml_omits_empty_cells_and_rows() {
    let wb = Workbook::new();
    let writer = XlsxWriter::new(&wb);
    let mut ws = Worksheet::new("Sheet1".to_string());
    ws.write(0, 0, CellValue::Empty);
    ws.write(0, 1, CellValue::Boolean(false));
    ws.write(5, 5, CellValue::Empty);
    let expected = format!(
        "{}{}{}{}",
        DECL,
        "<worksheet xmlns=\"http://schemas.openxmlformats.org/spreadsheetml/2006/main\" xmlns:r=\"http://schemas.openxmlformats.org/officeDocument/2006/relationships\"><sheetData>",
        "<row r=\"1\"><c r=\"B1\" t=\"b\"><v>0</v></c></row>",
        "</sheetData></worksheet>"
    );
    assert_eq!(writer.write_worksheet_xml(&ws), expected);
}

#[test]
fn test_worksheet_xml_all_empty_cells_self_closes() {
    let wb = Workbook::new();
    let writer = XlsxWriter::new(&wb);
    let mut ws = Worksheet::new("Sheet1".to_string());
    ws.write(3, 3, CellValue::Empty);
    let xml = writer.write_worksheet_xml(&ws);
    assert!(xml.contains("<sheetData/>"));
    assert!(!xml.contains("<row"));
}
