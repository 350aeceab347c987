use std::io::{Cursor, Read};
use excelify::Workbook;
use zip::ZipArchive;

fn part(archive: &mut ZipArchive<Cursor<Vec<u8>>>, name: &str) -> String {
    let mut text = String::new();
    archive.by_name(name).unwrap().read_to_string(&mut text).unwrap();
    text
}

#[test]
fn test_save_empty_sheet_has_all_parts() {
    let mut wb = Workbook::new();
    wb.add_worksheet("Sheet1".to_string());
    let bytes = wb.save().unwrap();

    let mut archive = ZipArchive::new(Cursor::new(bytes)).unwrap();
    assert_eq!(archive.len(), 5);
    let names: Vec<String> = (0..archive.len())
        .map(|i| archive.by_index(i).unwrap().name().to_string())
        .collect();
    assert_eq!(
        names,
        vec![
            "[Content_Types].xml",
            "_rels/.rels",
            "xl/workbook.xml",
            "xl/_rels/workbook.xml.rels",
            "xl/worksheets/sheet1.xml",
        ]
    );

    let sheet = part(&mut archive, "xl/worksheets/sheet1.xml");
    assert!(sheet.starts_with("<?xml version=\"1.0\" encoding=\"UTF-8\" standalone=\"yes\"?>"));
    assert!(sheet.ends_with("<sheetData/></worksheet>"));

    let wb_xml = part(&mut archive, "xl/workbook.xml");
    assert!(wb_xml.contains("<sheet name=\"Sheet1\" sheetId=\"1\" r:id=\"rId1\"/>"));

    let rels = part(&mut archive, "_rels/.rels");
    assert!(rels.contains("Id=\"rId1\""));
    assert!(rels.contains("Target=\"xl/workbook.xml\""));

    let ct = part(&mut archive, "[Content_Types].xml");
    assert!(ct.contains("<Override PartName=\"/xl/worksheets/sheet1.xml\""));
    assert!(ct.contains("<Override PartName=\"/xl/workbook.xml\""));

    let wb_rels = part(&mut archive, "xl/_rels/workbook.xml.rels");
    assert!(wb_rels.contains("Id=\"rId1\""));
    assert!(wb_rels.contains("Target=\"worksheets/sheet1.xml\""));
}

#[test]
fn test_save_serializes_rows_in_order() {
    let mut wb = Workbook::new();
    wb.add_worksheet("Sheet1".to_string());
    wb.write_string(0, 2, 0, "later row first".to_string()).unwrap();
    wb.write_string(0, 0, 0, "first row".to_string()).unwrap();
    let bytes = wb.save().unwrap();

    let mut archive = ZipArchive::new(Cursor::new(bytes)).unwrap();
    let sheet = part(&mut archive, "xl/worksheets/sheet1.xml");
    let row1 = sheet.find("<row r=\"1\">").unwrap();
    let row3 = sheet.find("<row r=\"3\">").unwrap();
    assert!(row1 < row3);
    assert!(sheet.contains("<c r=\"A1\" t=\"inlineStr\"><is><t>first row</t></is></c>"));
}

#[test]
fn test_save_two_sheets_numbering_consistent() {
    let mut wb = Workbook::new();
    wb.add_worksheet("One".to_string());
    wb.add_worksheet("Two".to_string());
    wb.write_number(1, 0, 0, 3.5_f64.to_string()).unwrap();
    let bytes = wb.save().unwrap();

    let mut archive = ZipArchive::new(Cursor::new(bytes)).unwrap();
    assert_eq!(archive.len(), 6);
    let wb_xml = part(&mut archive, "xl/workbook.xml");
    assert!(wb_xml.contains("<sheet name=\"One\" sheetId=\"1\" r:id=\"rId1\"/>"));
    assert!(wb_xml.contains("<sheet name=\"Two\" sheetId=\"2\" r:id=\"rId2\"/>"));
    let wb_rels = part(&mut archive, "xl/_rels/workbook.xml.rels");
    assert!(wb_rels.contains("Id=\"rId2\" Type=\"http://schemas.openxmlformats.org/officeDocument/2006/relationships/worksheet\" Target=\"worksheets/sheet2.xml\""));
    let sheet2 = part(&mut archive, "xl/worksheets/sheet2.xml");
    assert!(sheet2.contains("<row r=\"1\"><c r=\"A1\"><v>3.5</v></c></row>"));
}
