//! An in-memory spreadsheet model (workbook, worksheets, cells) and a
//! serializer that packs it into a minimal OOXML spreadsheet archive.

pub mod archive;
pub mod cell;
pub mod error;
pub mod workbook;
pub mod worksheet;
pub mod writer;

pub use cell::CellValue;
pub use error::ExcelifyError;
pub use workbook::Workbook;
pub use worksheet::{cell_reference, col_to_letter, Worksheet};
pub use writer::XlsxWriter;
