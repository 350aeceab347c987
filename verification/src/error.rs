use vstd::prelude::*;
use vstd::string::StringExecFns;
use crate::worksheet::{spec_dec, u64_to_decimal};

verus! {

/// The library's error kinds: an out-of-range worksheet index, wrapped
/// filesystem, archive and XML-encoding failures, and a reserved kind for
/// malformed reference strings. The wrapped kinds carry the underlying
/// cause's message verbatim.
#[derive(Debug, Clone, PartialEq)]
pub enum ExcelifyError {
    SheetNotFound(usize),
    Io(String),
    Zip(String),
    Xml(String),
    InvalidCellReference(String),
}

/// The flat, user-facing message of an error.
pub open spec fn spec_error_message(e: ExcelifyError) -> Seq<char> {
    match e {
        ExcelifyError::SheetNotFound(i) => "Sheet not found at index "@ + spec_dec(i as nat),
        ExcelifyError::Io(s) => "IO error: "@ + s@,
        ExcelifyError::Zip(s) => "ZIP error: "@ + s@,
        ExcelifyError::Xml(s) => "XML error: "@ + s@,
        ExcelifyError::InvalidCellReference(s) => "Invalid cell reference: "@ + s@,
    }
}

impl ExcelifyError {
    /// Renders the error as a flat message for display by a caller.
    pub fn message(&self) -> (r: String)
        ensures
            r@ == spec_error_message(*self),
    {
        match self {
            ExcelifyError::SheetNotFound(i) => {
                let mut s = String::from_str("Sheet not found at index ");
                let d = u64_to_decimal(*i as u64);
                s.append(d.as_str());
                s
            },
            ExcelifyError::Io(m) => {
                let mut s = String::from_str("IO error: ");
                s.append(m.as_str());
                s
            },
            ExcelifyError::Zip(m) => {
                let mut s = String::from_str("ZIP error: ");
                s.append(m.as_str());
                s
            },
            ExcelifyError::Xml(m) => {
                let mut s = String::from_str("XML error: ");
                s.append(m.as_str());
                s
            },
            ExcelifyError::InvalidCellReference(m) => {
                let mut s = String::from_str("Invalid cell reference: ");
                s.append(m.as_str());
                s
            },
        }
    }
}

} // verus!
