use vstd::prelude::*;
use vstd::pervasive::unreached;
use vstd::std_specs::iter::IteratorSpec;
use vstd::string::StringExecFns;
use crate::archive::{zip_archive_entries, zip_entries, ZipBuilder};
use crate::cell::CellValue;
use crate::error::ExcelifyError;
use crate::workbook::Workbook;
use crate::worksheet::{
    cells_map, cells_sorted, spec_cell_ref, spec_dec, cell_reference, lemma_sorted_cells_canonical,
    u64_to_decimal, Cell, Worksheet,
};

verus! {

broadcast use vstd::string::group_string_axioms, vstd::seq_lib::group_seq_lib_default;

// ---------------------------------------------------------------------------
// XML text escaping.
// ---------------------------------------------------------------------------

/// The XML escape of one character: the five special characters become
/// entity references, every other character stands as itself.
pub open spec fn spec_esc_char(c: char) -> Seq<char> {
    if c == '&' {
        "&amp;"@
    } else if c == '<' {
        "&lt;"@
    } else if c == '>' {
        "&gt;"@
    } else if c == '"' {
        "&quot;"@
    } else if c == '\'' {
        "&apos;"@
    } else {
        seq![c]
    }
}

/// The XML escape of a string, character by character.
pub open spec fn spec_xml_escape(s: Seq<char>) -> Seq<char>
    decreases s.len(),
{
    if s.len() == 0 {
        Seq::<char>::empty()
    } else {
        spec_esc_char(s[0]) + spec_xml_escape(s.drop_first())
    }
}

/// Relies on String::push: appends exactly the one character.
#[verifier::external_body]
fn push_char(out: &mut String, c: char)
    ensures
        final(out)@ == old(out)@.push(c),
{
    out.push(c);
}

fn push_esc_char(out: &mut String, c: char)
    ensures
        final(out)@ == old(out)@ + spec_esc_char(c),
{
    match c {
        '&' => out.append("&amp;"),
        '<' => out.append("&lt;"),
        '>' => out.append("&gt;"),
        '"' => out.append("&quot;"),
        '\'' => out.append("&apos;"),
        _ => {
            push_char(out, c);
            proof {
                assert(old(out)@.push(c) =~= old(out)@ + seq![c]);
            }
        },
    }
}

/// XML-escapes the text, replacing `& < > " '` by their entity references.
pub fn xml_escape(s: &str) -> (r: String)
    ensures
        r@ == spec_xml_escape(s@),
{
    let mut out = String::new();
    let mut it = s.chars();
    loop
        invariant
            it.obeys_prophetic_iter_laws(),
            it.decrease() is Some,
            spec_xml_escape(s@) == out@ + spec_xml_escape(it.remaining()),
        ensures
            it.remaining().len() == 0,
            spec_xml_escape(s@) == out@ + spec_xml_escape(it.remaining()),
        decreases it.decrease()->0,
    {
        let ghost prev = it;
        let ghost out_prev = out@;
        let nx = it.next();
        match nx {
            Some(c) => {
                proof {
                    assert(prev.remaining().len() > 0);
                    assert(c == prev.remaining()[0]);
                    assert(it.remaining() == prev.remaining().drop_first());
                }
                push_esc_char(&mut out, c);
                proof {
                    assert(spec_xml_escape(prev.remaining()) == spec_esc_char(c)
                        + spec_xml_escape(it.remaining()));
                    assert((out_prev + spec_esc_char(c)) + spec_xml_escape(it.remaining())
                        =~= out_prev + (spec_esc_char(c) + spec_xml_escape(it.remaining())));
                }
            },
            None => {
                break ;
            },
        }
    }
    proof {
        assert(spec_xml_escape(it.remaining()) == Seq::<char>::empty());
        assert(out@ + Seq::<char>::empty() =~= out@);
    }
    out
}

// ---------------------------------------------------------------------------
// One cell's XML fragment.
// ---------------------------------------------------------------------------

/// The XML fragment of one cell: nothing for an empty cell, an inline
/// string, a bare numeric value, or a boolean with its type hint, each
/// carrying the A1-style reference of its coordinates.
pub open spec fn spec_cell_xml(c: Cell) -> Seq<char> {
    match c.value {
        CellValue::Empty => Seq::<char>::empty(),
        CellValue::String(s) => "<c r=\""@ + spec_cell_ref(c.row as nat, c.col as nat)
            + "\" t=\"inlineStr\"><is><t>"@ + spec_xml_escape(s@) + "</t></is></c>"@,
        CellValue::Number(n) => "<c r=\""@ + spec_cell_ref(c.row as nat, c.col as nat) + "\"><v>"@
            + spec_xml_escape(n@) + "</v></c>"@,
        CellValue::Boolean(b) => "<c r=\""@ + spec_cell_ref(c.row as nat, c.col as nat)
            + "\" t=\"b\"><v>"@ + (if b {
            "1"@
        } else {
            "0"@
        }) + "</v></c>"@,
    }
}

/// Builds the XML fragment of one cell.
pub fn write_cell(c: &Cell) -> (r: String)
    requires
        c.row < u32::MAX,
        c.col < u32::MAX,
    ensures
        r@ == spec_cell_xml(*c),
{
    match &c.value {
        CellValue::Empty => String::new(),
        CellValue::String(s) => {
            let mut out = String::from_str("<c r=\"");
            let cr = cell_reference(c.row, c.col);
            out.append(cr.as_str());
            out.append("\" t=\"inlineStr\"><is><t>");
            let e = xml_escape(s.as_str());
            out.append(e.as_str());
            out.append("</t></is></c>");
            proof {
                assert(out@ =~= spec_cell_xml(*c));
            }
            out
        },
        CellValue::Number(n) => {
            let mut out = String::from_str("<c r=\"");
            let cr = cell_reference(c.row, c.col);
            out.append(cr.as_str());
            out.append("\"><v>");
            let e = xml_escape(n.as_str());
            out.append(e.as_str());
            out.append("</v></c>");
            proof {
                assert(out@ =~= spec_cell_xml(*c));
            }
            out
        },
        CellValue::Boolean(b) => {
            let mut out = String::from_str("<c r=\"");
            let cr = cell_reference(c.row, c.col);
            out.append(cr.as_str());
            out.append("\" t=\"b\"><v>");
            if *b {
                out.append("1");
            } else {
                out.append("0");
            }
            out.append("</v></c>");
            proof {
                assert(out@ =~= spec_cell_xml(*c));
            }
            out
        },
    }
}

// ---------------------------------------------------------------------------
// The fixed parts and the per-sheet listings.
// ---------------------------------------------------------------------------

/// The XML declaration that opens every part.
pub open spec fn spec_xml_decl() -> Seq<char> {
    "<?xml version=\"1.0\" encoding=\"UTF-8\" standalone=\"yes\"?>"@
}

/// Everything of `[Content_Types].xml` before the per-sheet overrides: the
/// defaults for the `rels` and `xml` extensions and the workbook override.
pub open spec fn spec_ct_head() -> Seq<char> {
    spec_xml_decl()
        + "<Types xmlns=\"http://schemas.openxmlformats.org/package/2006/content-types\"><Default Extension=\"rels\" ContentType=\"application/vnd.openxmlformats-package.relationships+xml\"/><Default Extension=\"xml\" ContentType=\"application/xml\"/><Override PartName=\"/xl/workbook.xml\" ContentType=\"application/vnd.openxmlformats-officedocument.spreadsheetml.sheet.main+xml\"/>"@
}

/// The content-type override for the worksheet part at one-based position `i`.
pub open spec fn spec_ct_override(i: nat) -> Seq<char> {
    "<Override PartName=\"/xl/worksheets/sheet"@ + spec_dec(i)
        + ".xml\" ContentType=\"application/vnd.openxmlformats-officedocument.spreadsheetml.worksheet+xml\"/>"@
}

/// The overrides for worksheet parts 1 through `n`, in order.
pub open spec fn spec_ct_overrides(n: nat) -> Seq<char>
    decreases n,
{
    if n == 0 {
        Seq::<char>::empty()
    } else {
        spec_ct_overrides((n - 1) as nat) + spec_ct_override(n)
    }
}

/// The full `[Content_Types].xml` part for a workbook of `n` worksheets.
pub open spec fn spec_content_types(n: nat) -> Seq<char> {
    spec_ct_head() + spec_ct_overrides(n) + "</Types>"@
}

/// The full `_rels/.rels` part: exactly one relationship, `rId1`, pointing
/// at the workbook part.
pub open spec fn spec_root_rels() -> Seq<char> {
    spec_xml_decl()
        + "<Relationships xmlns=\"http://schemas.openxmlformats.org/package/2006/relationships\"><Relationship Id=\"rId1\" Type=\"http://schemas.openxmlformats.org/officeDocument/2006/relationships/officeDocument\" Target=\"xl/workbook.xml\"/></Relationships>"@
}

/// The names of a workbook's worksheets, in order.
pub open spec fn spec_sheet_names(wb: Workbook) -> Seq<Seq<char>> {
    Seq::new(wb.spec_sheets().len(), |i: int| wb.spec_sheets()[i].spec_name())
}

/// Everything of `xl/workbook.xml` before the sheet listing.
pub open spec fn spec_wb_head() -> Seq<char> {
    spec_xml_decl()
        + "<workbook xmlns=\"http://schemas.openxmlformats.org/spreadsheetml/2006/main\" xmlns:r=\"http://schemas.openxmlformats.org/officeDocument/2006/relationships\"><sheets>"@
}

/// The `<sheet>` listing for the sheet named `name` at one-based position
/// `i`: the position serves as `sheetId` and as relationship id alike.
pub open spec fn spec_sheet_entry(name: Seq<char>, i: nat) -> Seq<char> {
    "<sheet name=\""@ + spec_xml_escape(name) + "\" sheetId=\""@ + spec_dec(i) + "\" r:id=\"rId"@
        + spec_dec(i) + "\"/>"@
}

/// The listings for sheets 1 through `n`, in workbook order.
pub open spec fn spec_sheet_entries(names: Seq<Seq<char>>, n: nat) -> Seq<char>
    decreases n,
{
    if n == 0 {
        Seq::<char>::empty()
    } else {
        spec_sheet_entries(names, (n - 1) as nat) + spec_sheet_entry(names[n - 1], n)
    }
}

/// The full `xl/workbook.xml` part for a workbook with the given sheet names.
pub open spec fn spec_workbook_xml(names: Seq<Seq<char>>) -> Seq<char> {
    spec_wb_head() + spec_sheet_entries(names, names.len()) + "</sheets></workbook>"@
}

/// Everything of `xl/_rels/workbook.xml.rels` before the relationships.
pub open spec fn spec_wb_rels_head() -> Seq<char> {
    spec_xml_decl()
        + "<Relationships xmlns=\"http://schemas.openxmlformats.org/package/2006/relationships\">"@
}

/// The relationship for the worksheet part at one-based position `i`: its
/// id and its target file name carry the same number.
pub open spec fn spec_wb_rel(i: nat) -> Seq<char> {
    "<Relationship Id=\"rId"@ + spec_dec(i)
        + "\" Type=\"http://schemas.openxmlformats.org/officeDocument/2006/relationships/worksheet\" Target=\"worksheets/sheet"@
        + spec_dec(i) + ".xml\"/>"@
}

/// The relationships for worksheet parts 1 through `n`, in order.
pub open spec fn spec_wb_rels_entries(n: nat) -> Seq<char>
    decreases n,
{
    if n == 0 {
        Seq::<char>::empty()
    } else {
        spec_wb_rels_entries((n - 1) as nat) + spec_wb_rel(n)
    }
}

/// The full `xl/_rels/workbook.xml.rels` part for `n` worksheets.
pub open spec fn spec_workbook_rels(n: nat) -> Seq<char> {
    spec_wb_rels_head() + spec_wb_rels_entries(n) + "</Relationships>"@
}

// ---------------------------------------------------------------------------
// The worksheet parts: rows in strictly ascending row order, cells within a
// row in strictly ascending column order.
// ---------------------------------------------------------------------------

/// How many leading cells of `s` lie on `row`.
pub open spec fn spec_run_len(s: Seq<Cell>, row: int) -> int
    decreases s.len(),
{
    if s.len() == 0 || s[0].row as int != row {
        0
    } else {
        1 + spec_run_len(s.drop_first(), row)
    }
}

proof fn lemma_run_len_bounds(s: Seq<Cell>, row: int)
    ensures
        0 <= spec_run_len(s, row) <= s.len(),
    decreases s.len(),
{
    if s.len() > 0 && s[0].row as int == row {
        lemma_run_len_bounds(s.drop_first(), row);
    }
}

/// The run length is exactly the index of the first cell off `row` (or the
/// whole length, if none is).
proof fn lemma_run_len_is(s: Seq<Cell>, row: int, m: int)
    requires
        0 <= m <= s.len(),
        forall|t: int| 0 <= t < m ==> (#[trigger] s[t]).row as int == row,
        m == s.len() || s[m].row as int != row,
    ensures
        spec_run_len(s, row) == m,
    decreases s.len(),
{
    if m == 0 {
    } else {
        assert(s[0].row as int == row);
        assert(forall|t: int|
            0 <= t < m - 1 ==> (#[trigger] s.drop_first()[t]).row as int == row);
        if m - 1 < s.drop_first().len() {
            assert(s.drop_first()[m - 1] == s[m]);
        }
        lemma_run_len_is(s.drop_first(), row, m - 1);
    }
}

/// Whether any cell of `s` is non-empty; only such cells show in the XML.
pub open spec fn spec_has_content(s: Seq<Cell>) -> bool {
    exists|i: int| 0 <= i < s.len() && !((#[trigger] s[i]).value is Empty)
}

/// The XML fragments of a row group's cells, in order.
pub open spec fn spec_cells_xml(s: Seq<Cell>) -> Seq<char>
    decreases s.len(),
{
    if s.len() == 0 {
        Seq::<char>::empty()
    } else {
        spec_cells_xml(s.drop_last()) + spec_cell_xml(s.last())
    }
}

/// The `<row>` element of one group of cells on `row`, or nothing at all
/// if every cell of the group is empty.
pub open spec fn spec_row_xml(row: int, grp: Seq<Cell>) -> Seq<char> {
    if spec_has_content(grp) {
        "<row r=\""@ + spec_dec((row + 1) as nat) + "\">"@ + spec_cells_xml(grp) + "</row>"@
    } else {
        Seq::<char>::empty()
    }
}

/// The `<sheetData>` contents: one group per distinct row, in order.
pub open spec fn spec_rows_xml(s: Seq<Cell>) -> Seq<char>
    decreases s.len(),
    via spec_rows_xml_dec
{
    if s.len() == 0 {
        Seq::<char>::empty()
    } else {
        spec_row_xml(s[0].row as int, s.take(spec_run_len(s, s[0].row as int))) + spec_rows_xml(
            s.skip(spec_run_len(s, s[0].row as int)),
        )
    }
}

#[via_fn]
proof fn spec_rows_xml_dec(s: Seq<Cell>) {
    if s.len() > 0 {
        let row = s[0].row as int;
        lemma_run_len_bounds(s, row);
        lemma_run_len_bounds(s.drop_first(), row);
        assert(spec_run_len(s, row) == 1 + spec_run_len(s.drop_first(), row));
    }
}

/// Everything of a worksheet part before its sheet data.
pub open spec fn spec_ws_head() -> Seq<char> {
    spec_xml_decl()
        + "<worksheet xmlns=\"http://schemas.openxmlformats.org/spreadsheetml/2006/main\" xmlns:r=\"http://schemas.openxmlformats.org/officeDocument/2006/relationships\">"@
}

/// The full worksheet part for the given cells: an empty `<sheetData/>`
/// where nothing would show, the row groups otherwise.
pub open spec fn spec_worksheet_xml(cells: Seq<Cell>) -> Seq<char> {
    spec_ws_head() + (if spec_has_content(cells) {
        "<sheetData>"@ + spec_rows_xml(cells) + "</sheetData>"@
    } else {
        "<sheetData/>"@
    }) + "</worksheet>"@
}

/// The worksheet XML depends only on the grid contents: two sorted cell
/// sequences that denote the same coordinate map serialize identically, so
/// the order in which cells were written cannot show in the part.
pub proof fn lemma_worksheet_xml_canonical(a: Seq<Cell>, b: Seq<Cell>)
    requires
        cells_sorted(a),
        cells_sorted(b),
        cells_map(a) == cells_map(b),
    ensures
        spec_worksheet_xml(a) == spec_worksheet_xml(b),
{
    lemma_sorted_cells_canonical(a, b);
}

/// Whether any cell of `cells[from..to]` is non-empty.
fn has_content_range(cells: &Vec<Cell>, from: usize, to: usize) -> (r: bool)
    requires
        from <= to <= cells@.len(),
    ensures
        r <==> spec_has_content(cells@.subrange(from as int, to as int)),
{
    let mut any = false;
    let mut t = from;
    while t < to
        invariant
            from <= t <= to <= cells@.len(),
            any <==> exists|u: int|
                from <= u < t && !((#[trigger] cells@[u]).value is Empty),
        decreases to - t,
    {
        let ghost any_old = any;
        if !matches!(cells[t].value, CellValue::Empty) {
            any = true;
        }
        proof {
            if any {
                if any_old {
                } else {
                    assert(!(cells@[t as int].value is Empty));
                }
            } else {
                assert forall|u: int| from <= u < t + 1 implies (
                #[trigger] cells@[u]).value is Empty by {
                    if u < t {
                        assert(!(exists|w: int|
                            from <= w < t && !((#[trigger] cells@[w]).value is Empty)));
                    }
                }
            }
        }
        t += 1;
    }
    proof {
        let grp = cells@.subrange(from as int, to as int);
        if any {
            let u = choose|u: int|
                from <= u < to && !((#[trigger] cells@[u]).value is Empty);
            assert(grp[u - from] == cells@[u]);
            assert(spec_has_content(grp));
        } else {
            if spec_has_content(grp) {
                let v = choose|v: int| 0 <= v < grp.len() && !((#[trigger] grp[v]).value is Empty);
                assert(grp[v] == cells@[from + v]);
                assert(false);
            }
        }
    }
    any
}

/// Builds the `<sheetData>` contents for sorted cells: rows ascending,
/// cells within a row ascending, empty cells and all-empty rows omitted.
#[verifier::rlimit(60)]
fn rows_xml(cells: &Vec<Cell>) -> (r: String)
    requires
        cells_sorted(cells@),
        forall|t: int|
            0 <= t < cells@.len() ==> (#[trigger] cells@[t]).row < u32::MAX && cells@[t].col
                < u32::MAX,
    ensures
        r@ == spec_rows_xml(cells@),
{
    let n = cells.len();
    let mut out = String::new();
    let mut i: usize = 0;
    proof {
        assert(cells@.skip(0) =~= cells@);
    }
    while i < n
        invariant
            cells_sorted(cells@),
            forall|t: int|
                0 <= t < cells@.len() ==> (#[trigger] cells@[t]).row < u32::MAX && cells@[t].col
                    < u32::MAX,
            n == cells@.len(),
            i <= n,
            spec_rows_xml(cells@) == out@ + spec_rows_xml(cells@.skip(i as int)),
        decreases n - i,
    {
        let ghost out_start = out@;
        let row = cells[i].row;
        let mut j = i + 1;
        while j < n && cells[j].row == row
            invariant
                n == cells@.len(),
                i < j <= n,
                row == cells@[i as int].row,
                forall|t: int| i <= t < j ==> (#[trigger] cells@[t]).row == row,
            decreases n - j,
        {
            proof {
                assert(cells@[j as int].row == row);
            }
            j += 1;
        }
        let any = has_content_range(cells, i, j);
        if any {
            out.append("<row r=\"");
            let d = u64_to_decimal((row as u64) + 1);
            out.append(d.as_str());
            out.append("\">");
            let ghost base = out@;
            let mut t: usize = i;
            while t < j
                invariant
                    cells_sorted(cells@),
                    forall|u: int|
                        0 <= u < cells@.len() ==> (#[trigger] cells@[u]).row < u32::MAX
                            && cells@[u].col < u32::MAX,
                    n == cells@.len(),
                    i <= t <= j <= n,
                    out@ == base + spec_cells_xml(cells@.subrange(i as int, t as int)),
                decreases j - t,
            {
                let cx = write_cell(&cells[t]);
                out.append(cx.as_str());
                proof {
                    let g1 = cells@.subrange(i as int, t + 1);
                    assert(g1.drop_last() =~= cells@.subrange(i as int, t as int));
                    assert(g1.last() == cells@[t as int]);
                    assert(out@ =~= base + spec_cells_xml(g1));
                }
                t += 1;
            }
            out.append("</row>");
        }
        proof {
            let tail = cells@.skip(i as int);
            assert forall|t: int| 0 <= t < j - i implies (#[trigger] tail[t]).row as int
                == row as int by {
                assert(tail[t] == cells@[i + t]);
            }
            if j - i < tail.len() {
                assert(tail[j - i] == cells@[j as int]);
            }
            lemma_run_len_is(tail, row as int, j - i);
            assert(tail[0] == cells@[i as int]);
            let grp = tail.take(j - i);
            assert(grp =~= cells@.subrange(i as int, j as int));
            assert(tail.skip(j - i) =~= cells@.skip(j as int));
            assert(spec_rows_xml(tail) == spec_row_xml(row as int, grp) + spec_rows_xml(
                cells@.skip(j as int),
            ));
            if any {
                assert(out@ =~= out_start + spec_row_xml(row as int, grp));
            } else {
                assert(spec_row_xml(row as int, grp) == Seq::<char>::empty());
                assert(out@ =~= out_start + spec_row_xml(row as int, grp));
            }
            assert(out_start + (spec_row_xml(row as int, grp) + spec_rows_xml(
                cells@.skip(j as int),
            )) =~= (out_start + spec_row_xml(row as int, grp)) + spec_rows_xml(
                cells@.skip(j as int),
            ));
        }
        i = j;
    }
    proof {
        assert(cells@.skip(n as int).len() == 0);
        assert(spec_rows_xml(cells@.skip(n as int)) == Seq::<char>::empty());
    }
    out
}

/// Assembles the archive's XML parts from a workbook's state.
pub struct XlsxWriter<'a> {
    workbook: &'a Workbook,
}

impl<'a> XlsxWriter<'a> {
    /// The workbook being serialized.
    pub closed spec fn spec_workbook(&self) -> Workbook {
        *self.workbook
    }

    /// A writer over the given workbook.
    pub fn new(workbook: &'a Workbook) -> (r: XlsxWriter<'a>)
        ensures
            r.spec_workbook() == *workbook,
    {
        XlsxWriter { workbook }
    }

    /// Builds the `[Content_Types].xml` part.
    pub fn write_content_types(&self) -> (r: String)
        ensures
            r@ == spec_content_types(self.spec_workbook().spec_sheets().len()),
    {
        let mut out = String::from_str(
            "<?xml version=\"1.0\" encoding=\"UTF-8\" standalone=\"yes\"?>",
        );
        out.append(
            "<Types xmlns=\"http://schemas.openxmlformats.org/package/2006/content-types\"><Default Extension=\"rels\" ContentType=\"application/vnd.openxmlformats-package.relationships+xml\"/><Default Extension=\"xml\" ContentType=\"application/xml\"/><Override PartName=\"/xl/workbook.xml\" ContentType=\"application/vnd.openxmlformats-officedocument.spreadsheetml.sheet.main+xml\"/>",
        );
        let n = self.workbook.worksheet_count();
        let mut i: usize = 0;
        while i < n
            invariant
                n == self.spec_workbook().spec_sheets().len(),
                i <= n,
                out@ == spec_ct_head() + spec_ct_overrides(i as nat),
            decreases n - i,
        {
            out.append("<Override PartName=\"/xl/worksheets/sheet");
            let d = u64_to_decimal((i as u64) + 1);
            out.append(d.as_str());
            out.append(
                ".xml\" ContentType=\"application/vnd.openxmlformats-officedocument.spreadsheetml.worksheet+xml\"/>",
            );
            proof {
                assert(out@ =~= spec_ct_head() + spec_ct_overrides((i + 1) as nat));
            }
            i += 1;
        }
        out.append("</Types>");
        proof {
            assert(out@ =~= spec_content_types(n as nat));
        }
        out
    }

    /// Builds the `_rels/.rels` part.
    pub fn write_rels(&self) -> (r: String)
        ensures
            r@ == spec_root_rels(),
    {
        let mut out = String::from_str(
            "<?xml version=\"1.0\" encoding=\"UTF-8\" standalone=\"yes\"?>",
        );
        out.append(
            "<Relationships xmlns=\"http://schemas.openxmlformats.org/package/2006/relationships\"><Relationship Id=\"rId1\" Type=\"http://schemas.openxmlformats.org/officeDocument/2006/relationships/officeDocument\" Target=\"xl/workbook.xml\"/></Relationships>",
        );
        out
    }

    /// Builds the `xl/workbook.xml` part: one `<sheet>` per worksheet in
    /// workbook order, its name XML-escaped, its one-based position serving
    /// as `sheetId` and relationship id.
    pub fn write_workbook_xml(&self) -> (r: String)
        ensures
            r@ == spec_workbook_xml(spec_sheet_names(self.spec_workbook())),
    {
        let ghost names = spec_sheet_names(self.spec_workbook());
        let mut out = String::from_str(
            "<?xml version=\"1.0\" encoding=\"UTF-8\" standalone=\"yes\"?>",
        );
        out.append(
            "<workbook xmlns=\"http://schemas.openxmlformats.org/spreadsheetml/2006/main\" xmlns:r=\"http://schemas.openxmlformats.org/officeDocument/2006/relationships\"><sheets>",
        );
        let n = self.workbook.worksheet_count();
        let mut i: usize = 0;
        while i < n
            invariant
                names == spec_sheet_names(self.spec_workbook()),
                n == self.spec_workbook().spec_sheets().len(),
                i <= n,
                out@ == spec_wb_head() + spec_sheet_entries(names, i as nat),
            decreases n - i,
        {
            let ws = match self.workbook.get_worksheet(i) {
                Some(w) => w,
                None => unreached(),
            };
            out.append("<sheet name=\"");
            let e = xml_escape(ws.name());
            out.append(e.as_str());
            out.append("\" sheetId=\"");
            let d = u64_to_decimal((i as u64) + 1);
            out.append(d.as_str());
            out.append("\" r:id=\"rId");
            out.append(d.as_str());
            out.append("\"/>");
            proof {
                assert(names[i as int] == ws.spec_name());
                assert(out@ =~= spec_wb_head() + spec_sheet_entries(names, (i + 1) as nat));
            }
            i += 1;
        }
        out.append("</sheets></workbook>");
        proof {
            assert(out@ =~= spec_workbook_xml(names));
        }
        out
    }

    /// Builds the `xl/_rels/workbook.xml.rels` part: one relationship per
    /// worksheet, numbered identically to the workbook listing.
    pub fn write_workbook_rels(&self) -> (r: String)
        ensures
            r@ == spec_workbook_rels(self.spec_workbook().spec_sheets().len()),
    {
        let mut out = String::from_str(
            "<?xml version=\"1.0\" encoding=\"UTF-8\" standalone=\"yes\"?>",
        );
        out.append(
            "<Relationships xmlns=\"http://schemas.openxmlformats.org/package/2006/relationships\">",
        );
        let n = self.workbook.worksheet_count();
        let mut i: usize = 0;
        while i < n
            invariant
                n == self.spec_workbook().spec_sheets().len(),
                i <= n,
                out@ == spec_wb_rels_head() + spec_wb_rels_entries(i as nat),
            decreases n - i,
        {
            out.append("<Relationship Id=\"rId");
            let d = u64_to_decimal((i as u64) + 1);
            out.append(d.as_str());
            out.append(
                "\" Type=\"http://schemas.openxmlformats.org/officeDocument/2006/relationships/worksheet\" Target=\"worksheets/sheet",
            );
            out.append(d.as_str());
            out.append(".xml\"/>");
            proof {
                assert(out@ =~= spec_wb_rels_head() + spec_wb_rels_entries((i + 1) as nat));
            }
            i += 1;
        }
        out.append("</Relationships>");
        proof {
            assert(out@ =~= spec_workbook_rels(n as nat));
        }
        out
    }

    /// Builds one worksheet part: rows in strictly ascending row order,
    /// cells within a row in ascending column order, empty cells omitted,
    /// and `<sheetData/>` self-closed when nothing would show.
    pub fn write_worksheet_xml(&self, worksheet: &Worksheet) -> (r: String)
        requires
            worksheet.wf(),
        ensures
            r@ == spec_worksheet_xml(worksheet.spec_cells()),
    {
        let cells = worksheet.cells();
        proof {
            assert forall|t: int| 0 <= t < cells@.len() implies (#[trigger] cells@[t]).row
                < u32::MAX && cells@[t].col < u32::MAX by {
                assert(worksheet.spec_cells()[t].row <= worksheet.spec_max_row());
            }
        }
        let mut out = String::from_str(
            "<?xml version=\"1.0\" encoding=\"UTF-8\" standalone=\"yes\"?>",
        );
        out.append(
            "<worksheet xmlns=\"http://schemas.openxmlformats.org/spreadsheetml/2006/main\" xmlns:r=\"http://schemas.openxmlformats.org/officeDocument/2006/relationships\">",
        );
        let n = cells.len();
        let any = has_content_range(cells, 0, n);
        proof {
            assert(cells@.subrange(0, n as int) =~= cells@);
        }
        if any {
            out.append("<sheetData>");
            let rows = rows_xml(cells);
            out.append(rows.as_str());
            out.append("</sheetData>");
        } else {
            out.append("<sheetData/>");
        }
        out.append("</worksheet>");
        proof {
            assert(out@ =~= spec_worksheet_xml(worksheet.spec_cells()));
        }
        out
    }

    /// Builds the whole archive in memory: the four fixed parts, then one
    /// worksheet part per sheet. On success the returned bytes decode to
    /// exactly `spec_parts` of the workbook; the first container failure
    /// aborts the save and surfaces unchanged.
    pub fn save(&self) -> (r: Result<Vec<u8>, ExcelifyError>)
        requires
            self.spec_workbook().wf(),
        ensures
            r matches Ok(b) ==> zip_archive_entries(b@) == spec_parts(self.spec_workbook()),
            r matches Err(e) ==> (e is Zip || e is Io),
    {
        let ghost parts = spec_parts(self.spec_workbook());
        let mut zip = ZipBuilder::new();
        let ct = self.write_content_types();
        if let Err(e) = zip.start_file("[Content_Types].xml") {
            return Err(e);
        }
        if let Err(e) = zip.write_data(ct.as_str()) {
            return Err(e);
        }
        let rels = self.write_rels();
        if let Err(e) = zip.start_file("_rels/.rels") {
            return Err(e);
        }
        if let Err(e) = zip.write_data(rels.as_str()) {
            return Err(e);
        }
        let wb = self.write_workbook_xml();
        if let Err(e) = zip.start_file("xl/workbook.xml") {
            return Err(e);
        }
        if let Err(e) = zip.write_data(wb.as_str()) {
            return Err(e);
        }
        let wbr = self.write_workbook_rels();
        if let Err(e) = zip.start_file("xl/_rels/workbook.xml.rels") {
            return Err(e);
        }
        if let Err(e) = zip.write_data(wbr.as_str()) {
            return Err(e);
        }
        proof {
            assert(zip_entries(zip) =~= parts.take(4));
        }
        let n = self.workbook.worksheet_count();
        let mut i: usize = 0;
        while i < n
            invariant
                parts == spec_parts(self.spec_workbook()),
                self.spec_workbook().wf(),
                n == self.spec_workbook().spec_sheets().len(),
                i <= n,
                zip_entries(zip) == parts.take(4 + i as int),
            decreases n - i,
        {
            let ws = match self.workbook.get_worksheet(i) {
                Some(w) => w,
                None => unreached(),
            };
            let mut name = String::from_str("xl/worksheets/sheet");
            let d = u64_to_decimal((i as u64) + 1);
            name.append(d.as_str());
            name.append(".xml");
            proof {
                assert(name@ =~= spec_sheet_part_name((i + 1) as nat));
            }
            let part = self.write_worksheet_xml(ws);
            let ghost before = zip_entries(zip);
            if let Err(e) = zip.start_file(name.as_str()) {
                return Err(e);
            }
            if let Err(e) = zip.write_data(part.as_str()) {
                return Err(e);
            }
            proof {
                assert(zip_entries(zip) =~= before.push((name@, part@)));
                assert(parts[4 + i as int] == (
                    spec_sheet_part_name((i + 1) as nat),
                    spec_worksheet_xml(self.spec_workbook().spec_sheets()[i as int].spec_cells()),
                ));
                assert(zip_entries(zip) =~= parts.take(4 + (i + 1)));
            }
            i += 1;
        }
        proof {
            assert(parts.take(4 + n as int) =~= parts);
        }
        zip.finish()
    }
}

/// The name of the worksheet part at one-based position `i`.
pub open spec fn spec_sheet_part_name(i: nat) -> Seq<char> {
    "xl/worksheets/sheet"@ + spec_dec(i) + ".xml"@
}

/// Every entry of the archive for a workbook, in the order written: the
/// four fixed parts, then one worksheet part per sheet, named by its
/// one-based position.
pub open spec fn spec_parts(wb: Workbook) -> Seq<(Seq<char>, Seq<char>)> {
    let n = wb.spec_sheets().len();
    seq![
        ("[Content_Types].xml"@, spec_content_types(n)),
        ("_rels/.rels"@, spec_root_rels()),
        ("xl/workbook.xml"@, spec_workbook_xml(spec_sheet_names(wb))),
        ("xl/_rels/workbook.xml.rels"@, spec_workbook_rels(n)),
    ] + Seq::new(n, |i: int| (
        spec_sheet_part_name((i + 1) as nat),
        spec_worksheet_xml(wb.spec_sheets()[i].spec_cells()),
    ))
}

} // verus!
