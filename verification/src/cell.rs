use vstd::prelude::*;
use vstd::string::StringExecFns;

verus! {

/// One cell's content. A numeric cell holds the number's default decimal
/// text rendering, which is the only projection of it the serializer reads.
#[derive(Debug, Clone, PartialEq)]
pub enum CellValue {
    String(String),
    Number(String),
    Boolean(bool),
    Empty,
}

/// The textual projection of a cell value: what stands in the worksheet
/// XML as the `<v>` or inline-string content.
pub open spec fn spec_to_xlsx_value(v: CellValue) -> Seq<char> {
    match v {
        CellValue::String(s) => s@,
        CellValue::Number(n) => n@,
        CellValue::Boolean(b) => if b {
            "1"@
        } else {
            "0"@
        },
        CellValue::Empty => Seq::<char>::empty(),
    }
}

impl CellValue {
    /// The value's textual projection: a string returns itself, a number its
    /// decimal text, a boolean "1" or "0", and an empty cell the empty string.
    pub fn to_xlsx_value(&self) -> (r: String)
        ensures
            r@ == spec_to_xlsx_value(*self),
    {
        match self {
            CellValue::String(s) => s.clone(),
            CellValue::Number(n) => n.clone(),
            CellValue::Boolean(b) => if *b {
                String::from_str("1")
            } else {
                String::from_str("0")
            },
            CellValue::Empty => String::new(),
        }
    }

    /// The cell-type hint for the `t` attribute: "inlineStr" for strings,
    /// "b" for booleans, and none for numbers and empty cells.
    pub fn xlsx_type(&self) -> (r: Option<&'static str>)
        ensures
            match *self {
                CellValue::String(_) => r matches Some(t) && t@ == "inlineStr"@,
                CellValue::Boolean(_) => r matches Some(t) && t@ == "b"@,
                CellValue::Number(_) => r is None,
                CellValue::Empty => r is None,
            },
    {
        match self {
            CellValue::String(_) => Some("inlineStr"),
            CellValue::Number(_) => None,
            CellValue::Boolean(_) => Some("b"),
            CellValue::Empty => None,
        }
    }
}

impl Default for CellValue {
    fn default() -> (r: Self)
        ensures
            r == CellValue::Empty,
    {
        CellValue::Empty
    }
}

impl From<String> for CellValue {
    fn from(s: String) -> (r: CellValue) {
        CellValue::String(s)
    }
}

impl vstd::std_specs::convert::FromSpecImpl<String> for CellValue {
    open spec fn obeys_from_spec() -> bool {
        true
    }

    open spec fn from_spec(s: String) -> CellValue {
        CellValue::String(s)
    }
}

impl From<bool> for CellValue {
    fn from(b: bool) -> (r: CellValue) {
        CellValue::Boolean(b)
    }
}

impl vstd::std_specs::convert::FromSpecImpl<bool> for CellValue {
    open spec fn obeys_from_spec() -> bool {
        true
    }

    open spec fn from_spec(b: bool) -> CellValue {
        CellValue::Boolean(b)
    }
}

} // verus!
