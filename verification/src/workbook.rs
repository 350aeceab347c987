use vstd::prelude::*;
use crate::cell::CellValue;
use crate::error::ExcelifyError;
use crate::worksheet::{Cell, Worksheet};
use crate::archive::zip_archive_entries;
use crate::writer::{spec_parts, XlsxWriter};

verus! {

/// An ordered, append-only collection of worksheets addressed by a stable,
/// zero-based integer index. Sheet names need not be unique.
#[derive(Debug)]
pub struct Workbook {
    worksheets: Vec<Worksheet>,
}

impl Workbook {
    /// The worksheets, in the order they were added.
    pub closed spec fn spec_sheets(&self) -> Seq<Worksheet> {
        self.worksheets@
    }

    /// Well-formed: every worksheet is.
    pub open spec fn wf(&self) -> bool {
        forall|i: int|
            0 <= i < self.spec_sheets().len() ==> (#[trigger] self.spec_sheets()[i]).wf()
    }

    /// A new workbook with no worksheets.
    pub fn new() -> (r: Workbook)
        ensures
            r.wf(),
            r.spec_sheets().len() == 0,
    {
        Workbook { worksheets: Vec::new() }
    }

    /// Appends a new empty worksheet and returns its permanent zero-based
    /// index. A name equal to an existing sheet's is permitted and kept.
    pub fn add_worksheet(&mut self, name: String) -> (r: usize)
        requires
            old(self).wf(),
        ensures
            final(self).wf(),
            r == old(self).spec_sheets().len(),
            final(self).spec_sheets().len() == old(self).spec_sheets().len() + 1,
            forall|i: int|
                0 <= i < old(self).spec_sheets().len() ==> final(self).spec_sheets()[i] == old(self).spec_sheets()[i],
            final(self).spec_sheets()[r as int].spec_name() == name@,
            final(self).spec_sheets()[r as int].spec_cells() == Seq::<Cell>::empty(),
            final(self).spec_sheets()[r as int].spec_max_row() == 0u32,
            final(self).spec_sheets()[r as int].spec_max_col() == 0u32,
    {
        let ws = Worksheet::new(name);
        self.worksheets.push(ws);
        self.worksheets.len() - 1
    }

    /// The worksheet at `index`, or nothing if the index is out of range.
    pub fn get_worksheet(&self, index: usize) -> (r: Option<&Worksheet>)
        ensures
            index < self.spec_sheets().len() ==> (r matches Some(w) && *w == self.spec_sheets()[
                index as int
            ]),
            index >= self.spec_sheets().len() ==> r is None,
    {
        if index < self.worksheets.len() {
            Some(&self.worksheets[index])
        } else {
            None
        }
    }

    /// The worksheets, in order.
    pub fn worksheets(&self) -> (r: &[Worksheet])
        ensures
            r@ == self.spec_sheets(),
    {
        self.worksheets.as_slice()
    }

    /// How many worksheets were added.
    pub fn worksheet_count(&self) -> (r: usize)
        ensures
            r == self.spec_sheets().len(),
    {
        self.worksheets.len()
    }

    /// Writes `value` at `(row, col)` on the worksheet at `sheet_index`.
    /// An out-of-range index fails with `SheetNotFound` before any state
    /// is touched; otherwise the write always succeeds.
    pub fn write(&mut self, sheet_index: usize, row: u32, col: u32, value: CellValue) -> (r:
        Result<(), ExcelifyError>)
        requires
            old(self).wf(),
            sheet_index < old(self).spec_sheets().len() ==> row < u32::MAX && col < u32::MAX,
        ensures
            final(self).wf(),
            sheet_index < old(self).spec_sheets().len() ==> {
                &&& r is Ok
                &&& final(self).spec_sheets().len() == old(self).spec_sheets().len()
                &&& forall|i: int|
                    0 <= i < old(self).spec_sheets().len() && i != sheet_index ==> final(self).spec_sheets()[i] == old(self).spec_sheets()[i]
                &&& final(self).spec_sheets()[sheet_index as int].spec_name() == old(self).spec_sheets()[sheet_index as int].spec_name()
                &&& final(self).spec_sheets()[sheet_index as int].spec_map() == old(self).spec_sheets()[sheet_index as int].spec_map().insert(
                    (row as int, col as int),
                    value,
                )
                &&& final(self).spec_sheets()[sheet_index as int].spec_max_row() == if row > old(self).spec_sheets()[sheet_index as int].spec_max_row() {
                    row
                } else {
                    old(self).spec_sheets()[sheet_index as int].spec_max_row()
                }
                &&& final(self).spec_sheets()[sheet_index as int].spec_max_col() == if col > old(self).spec_sheets()[sheet_index as int].spec_max_col() {
                    col
                } else {
                    old(self).spec_sheets()[sheet_index as int].spec_max_col()
                }
            },
            sheet_index >= old(self).spec_sheets().len() ==> (r matches Err(e) && e
                == ExcelifyError::SheetNotFound(sheet_index) && *final(self) == *old(self)),
    {
        if sheet_index < self.worksheets.len() {
            let ws = &mut self.worksheets[sheet_index];
            ws.write(row, col, value);
            Ok(())
        } else {
            Err(ExcelifyError::SheetNotFound(sheet_index))
        }
    }

    /// Writes a string cell; see `write`.
    pub fn write_string(&mut self, sheet_index: usize, row: u32, col: u32, value: String) -> (r:
        Result<(), ExcelifyError>)
        requires
            old(self).wf(),
            sheet_index < old(self).spec_sheets().len() ==> row < u32::MAX && col < u32::MAX,
        ensures
            final(self).wf(),
            sheet_index < old(self).spec_sheets().len() ==> {
                &&& r is Ok
                &&& final(self).spec_sheets().len() == old(self).spec_sheets().len()
                &&& forall|i: int|
                    0 <= i < old(self).spec_sheets().len() && i != sheet_index ==> final(self).spec_sheets()[i] == old(self).spec_sheets()[i]
                &&& final(self).spec_sheets()[sheet_index as int].spec_name() == old(self).spec_sheets()[sheet_index as int].spec_name()
                &&& final(self).spec_sheets()[sheet_index as int].spec_map() == old(self).spec_sheets()[sheet_index as int].spec_map().insert(
                    (row as int, col as int),
                    CellValue::String(value),
                )
                &&& final(self).spec_sheets()[sheet_index as int].spec_max_row() == if row > old(self).spec_sheets()[sheet_index as int].spec_max_row() {
                    row
                } else {
                    old(self).spec_sheets()[sheet_index as int].spec_max_row()
                }
                &&& final(self).spec_sheets()[sheet_index as int].spec_max_col() == if col > old(self).spec_sheets()[sheet_index as int].spec_max_col() {
                    col
                } else {
                    old(self).spec_sheets()[sheet_index as int].spec_max_col()
                }
            },
            sheet_index >= old(self).spec_sheets().len() ==> (r matches Err(e) && e
                == ExcelifyError::SheetNotFound(sheet_index) && *final(self) == *old(self)),
    {
        self.write(sheet_index, row, col, CellValue::String(value))
    }

    /// Writes a numeric cell — `value` is the number's decimal text
    /// rendering; see `write`.
    pub fn write_number(&mut self, sheet_index: usize, row: u32, col: u32, value: String) -> (r:
        Result<(), ExcelifyError>)
        requires
            old(self).wf(),
            sheet_index < old(self).spec_sheets().len() ==> row < u32::MAX && col < u32::MAX,
        ensures
            final(self).wf(),
            sheet_index < old(self).spec_sheets().len() ==> {
                &&& r is Ok
                &&& final(self).spec_sheets().len() == old(self).spec_sheets().len()
                &&& forall|i: int|
                    0 <= i < old(self).spec_sheets().len() && i != sheet_index ==> final(self).spec_sheets()[i] == old(self).spec_sheets()[i]
                &&& final(self).spec_sheets()[sheet_index as int].spec_name() == old(self).spec_sheets()[sheet_index as int].spec_name()
                &&& final(self).spec_sheets()[sheet_index as int].spec_map() == old(self).spec_sheets()[sheet_index as int].spec_map().insert(
                    (row as int, col as int),
                    CellValue::Number(value),
                )
                &&& final(self).spec_sheets()[sheet_index as int].spec_max_row() == if row > old(self).spec_sheets()[sheet_index as int].spec_max_row() {
                    row
                } else {
                    old(self).spec_sheets()[sheet_index as int].spec_max_row()
                }
                &&& final(self).spec_sheets()[sheet_index as int].spec_max_col() == if col > old(self).spec_sheets()[sheet_index as int].spec_max_col() {
                    col
                } else {
                    old(self).spec_sheets()[sheet_index as int].spec_max_col()
                }
            },
            sheet_index >= old(self).spec_sheets().len() ==> (r matches Err(e) && e
                == ExcelifyError::SheetNotFound(sheet_index) && *final(self) == *old(self)),
    {
        self.write(sheet_index, row, col, CellValue::Number(value))
    }

    /// Writes a boolean cell; see `write`.
    pub fn write_boolean(&mut self, sheet_index: usize, row: u32, col: u32, value: bool) -> (r:
        Result<(), ExcelifyError>)
        requires
            old(self).wf(),
            sheet_index < old(self).spec_sheets().len() ==> row < u32::MAX && col < u32::MAX,
        ensures
            final(self).wf(),
            sheet_index < old(self).spec_sheets().len() ==> {
                &&& r is Ok
                &&& final(self).spec_sheets().len() == old(self).spec_sheets().len()
                &&& forall|i: int|
                    0 <= i < old(self).spec_sheets().len() && i != sheet_index ==> final(self).spec_sheets()[i] == old(self).spec_sheets()[i]
                &&& final(self).spec_sheets()[sheet_index as int].spec_name() == old(self).spec_sheets()[sheet_index as int].spec_name()
                &&& final(self).spec_sheets()[sheet_index as int].spec_map() == old(self).spec_sheets()[sheet_index as int].spec_map().insert(
                    (row as int, col as int),
                    CellValue::Boolean(value),
                )
                &&& final(self).spec_sheets()[sheet_index as int].spec_max_row() == if row > old(self).spec_sheets()[sheet_index as int].spec_max_row() {
                    row
                } else {
                    old(self).spec_sheets()[sheet_index as int].spec_max_row()
                }
                &&& final(self).spec_sheets()[sheet_index as int].spec_max_col() == if col > old(self).spec_sheets()[sheet_index as int].spec_max_col() {
                    col
                } else {
                    old(self).spec_sheets()[sheet_index as int].spec_max_col()
                }
            },
            sheet_index >= old(self).spec_sheets().len() ==> (r matches Err(e) && e
                == ExcelifyError::SheetNotFound(sheet_index) && *final(self) == *old(self)),
    {
        self.write(sheet_index, row, col, CellValue::Boolean(value))
    }

    /// Serializes the workbook into a complete in-memory zip archive: on
    /// success the returned bytes decode to exactly `spec_parts(*self)`.
    /// The first container failure aborts the save and surfaces unchanged.
    /// Writing the bytes to a file is the caller's business.
    pub fn save(&self) -> (r: Result<Vec<u8>, ExcelifyError>)
        requires
            self.wf(),
        ensures
            r matches Ok(b) ==> zip_archive_entries(b@) == spec_parts(*self),
            r matches Err(e) ==> (e is Zip || e is Io),
    {
        let writer = XlsxWriter::new(self);
        writer.save()
    }
}

impl Default for Workbook {
    fn default() -> (r: Self)
        ensures
            r.wf(),
            r.spec_sheets().len() == 0,
    {
        Workbook::new()
    }
}

} // verus!
