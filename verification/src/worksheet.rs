use vstd::prelude::*;
use vstd::string::StringExecFns;
use crate::cell::CellValue;

verus! {

broadcast use vstd::string::group_string_axioms;

// ---------------------------------------------------------------------------
// Decimal rendering of row numbers, sheet numbers and error indices.
// ---------------------------------------------------------------------------

/// The single decimal digit character for `d` (callers keep `d < 10`;
/// larger values collapse to the last arm).
pub open spec fn spec_digit(d: nat) -> Seq<char> {
    if d == 0 {
        "0"@
    } else if d == 1 {
        "1"@
    } else if d == 2 {
        "2"@
    } else if d == 3 {
        "3"@
    } else if d == 4 {
        "4"@
    } else if d == 5 {
        "5"@
    } else if d == 6 {
        "6"@
    } else if d == 7 {
        "7"@
    } else if d == 8 {
        "8"@
    } else {
        "9"@
    }
}

/// The decimal text of `n`, most significant digit first, no leading zeros
/// (except for `n == 0`, which is "0").
pub open spec fn spec_dec(n: nat) -> Seq<char>
    decreases n,
{
    if n < 10 {
        spec_digit(n)
    } else {
        spec_dec(n / 10) + spec_digit(n % 10)
    }
}

fn digit_str(d: u64) -> (r: &'static str)
    ensures
        r@ == spec_digit(d as nat),
{
    if d == 0 {
        "0"
    } else if d == 1 {
        "1"
    } else if d == 2 {
        "2"
    } else if d == 3 {
        "3"
    } else if d == 4 {
        "4"
    } else if d == 5 {
        "5"
    } else if d == 6 {
        "6"
    } else if d == 7 {
        "7"
    } else if d == 8 {
        "8"
    } else {
        "9"
    }
}

/// Renders `n` as its decimal text.
pub fn u64_to_decimal(n: u64) -> (r: String)
    ensures
        r@ == spec_dec(n as nat),
    decreases n,
{
    if n < 10 {
        String::from_str(digit_str(n))
    } else {
        let mut s = u64_to_decimal(n / 10);
        s.append(digit_str(n % 10));
        s
    }
}

// ---------------------------------------------------------------------------
// Bijective base-26 column naming.
// ---------------------------------------------------------------------------

/// The column letter for one bijective base-26 position (callers keep
/// `k < 26`; larger values collapse to the last arm).
pub open spec fn spec_letter(k: nat) -> Seq<char> {
    if k == 0 {
        "A"@
    } else if k == 1 {
        "B"@
    } else if k == 2 {
        "C"@
    } else if k == 3 {
        "D"@
    } else if k == 4 {
        "E"@
    } else if k == 5 {
        "F"@
    } else if k == 6 {
        "G"@
    } else if k == 7 {
        "H"@
    } else if k == 8 {
        "I"@
    } else if k == 9 {
        "J"@
    } else if k == 10 {
        "K"@
    } else if k == 11 {
        "L"@
    } else if k == 12 {
        "M"@
    } else if k == 13 {
        "N"@
    } else if k == 14 {
        "O"@
    } else if k == 15 {
        "P"@
    } else if k == 16 {
        "Q"@
    } else if k == 17 {
        "R"@
    } else if k == 18 {
        "S"@
    } else if k == 19 {
        "T"@
    } else if k == 20 {
        "U"@
    } else if k == 21 {
        "V"@
    } else if k == 22 {
        "W"@
    } else if k == 23 {
        "X"@
    } else if k == 24 {
        "Y"@
    } else {
        "Z"@
    }
}

/// The bijective base-26 letter string of the positive number `n`: no letter
/// stands for zero, so `1 -> "A"`, `26 -> "Z"`, `27 -> "AA"`.
pub open spec fn spec_letters(n: nat) -> Seq<char>
    decreases n,
{
    if n == 0 {
        Seq::<char>::empty()
    } else {
        spec_letters(((n - 1) as nat) / 26) + spec_letter(((n - 1) as nat) % 26)
    }
}

/// The letter name of the zero-based column `col`: `0 -> "A"`, `25 -> "Z"`,
/// `26 -> "AA"`.
pub open spec fn spec_col_letters(col: nat) -> Seq<char> {
    spec_letters(col + 1)
}

fn letter_str(k: u32) -> (r: &'static str)
    ensures
        r@ == spec_letter(k as nat),
{
    if k == 0 {
        "A"
    } else if k == 1 {
        "B"
    } else if k == 2 {
        "C"
    } else if k == 3 {
        "D"
    } else if k == 4 {
        "E"
    } else if k == 5 {
        "F"
    } else if k == 6 {
        "G"
    } else if k == 7 {
        "H"
    } else if k == 8 {
        "I"
    } else if k == 9 {
        "J"
    } else if k == 10 {
        "K"
    } else if k == 11 {
        "L"
    } else if k == 12 {
        "M"
    } else if k == 13 {
        "N"
    } else if k == 14 {
        "O"
    } else if k == 15 {
        "P"
    } else if k == 16 {
        "Q"
    } else if k == 17 {
        "R"
    } else if k == 18 {
        "S"
    } else if k == 19 {
        "T"
    } else if k == 20 {
        "U"
    } else if k == 21 {
        "V"
    } else if k == 22 {
        "W"
    } else if k == 23 {
        "X"
    } else if k == 24 {
        "Y"
    } else {
        "Z"
    }
}

fn letters_rec(n: u32) -> (r: String)
    ensures
        r@ == spec_letters(n as nat),
    decreases n,
{
    if n == 0 {
        String::new()
    } else {
        let q: u32 = (n - 1) / 26;
        let rem: u32 = (n - 1) % 26;
        let mut s = letters_rec(q);
        s.append(letter_str(rem));
        s
    }
}

/// The bijective base-26 letter name of the zero-based column `col`.
pub fn col_to_letter(col: u32) -> (r: String)
    requires
        col < u32::MAX,
    ensures
        r@ == spec_col_letters(col as nat),
{
    letters_rec(col + 1)
}

/// The A1-style reference of the zero-based coordinate pair: the column's
/// letter name followed by the one-based row number.
pub open spec fn spec_cell_ref(row: nat, col: nat) -> Seq<char> {
    spec_col_letters(col) + spec_dec(row + 1)
}

/// The A1-style reference of `(row, col)`, e.g. `(0, 0) -> "A1"`,
/// `(9, 2) -> "C10"`.
pub fn cell_reference(row: u32, col: u32) -> (r: String)
    requires
        row < u32::MAX,
        col < u32::MAX,
    ensures
        r@ == spec_cell_ref(row as nat, col as nat),
{
    let mut s = col_to_letter(col);
    let num = u64_to_decimal((row as u64) + 1);
    s.append(num.as_str());
    s
}

// ---------------------------------------------------------------------------
// Injectivity of the column naming.
// ---------------------------------------------------------------------------

proof fn lemma_letter_one(k: nat)
    ensures
        spec_letter(k).len() == 1,
{
    reveal_strlit("A");
    reveal_strlit("B");
    reveal_strlit("C");
    reveal_strlit("D");
    reveal_strlit("E");
    reveal_strlit("F");
    reveal_strlit("G");
    reveal_strlit("H");
    reveal_strlit("I");
    reveal_strlit("J");
    reveal_strlit("K");
    reveal_strlit("L");
    reveal_strlit("M");
    reveal_strlit("N");
    reveal_strlit("O");
    reveal_strlit("P");
    reveal_strlit("Q");
    reveal_strlit("R");
    reveal_strlit("S");
    reveal_strlit("T");
    reveal_strlit("U");
    reveal_strlit("V");
    reveal_strlit("W");
    reveal_strlit("X");
    reveal_strlit("Y");
    reveal_strlit("Z");
}

proof fn lemma_letter_injective(i: nat, j: nat)
    requires
        i < 26,
        j < 26,
        spec_letter(i) == spec_letter(j),
    ensures
        i == j,
{
    reveal_strlit("A");
    reveal_strlit("B");
    reveal_strlit("C");
    reveal_strlit("D");
    reveal_strlit("E");
    reveal_strlit("F");
    reveal_strlit("G");
    reveal_strlit("H");
    reveal_strlit("I");
    reveal_strlit("J");
    reveal_strlit("K");
    reveal_strlit("L");
    reveal_strlit("M");
    reveal_strlit("N");
    reveal_strlit("O");
    reveal_strlit("P");
    reveal_strlit("Q");
    reveal_strlit("R");
    reveal_strlit("S");
    reveal_strlit("T");
    reveal_strlit("U");
    reveal_strlit("V");
    reveal_strlit("W");
    reveal_strlit("X");
    reveal_strlit("Y");
    reveal_strlit("Z");
    assert("A"@[0] == 'A');
    assert("B"@[0] == 'B');
    assert("C"@[0] == 'C');
    assert("D"@[0] == 'D');
    assert("E"@[0] == 'E');
    assert("F"@[0] == 'F');
    assert("G"@[0] == 'G');
    assert("H"@[0] == 'H');
    assert("I"@[0] == 'I');
    assert("J"@[0] == 'J');
    assert("K"@[0] == 'K');
    assert("L"@[0] == 'L');
    assert("M"@[0] == 'M');
    assert("N"@[0] == 'N');
    assert("O"@[0] == 'O');
    assert("P"@[0] == 'P');
    assert("Q"@[0] == 'Q');
    assert("R"@[0] == 'R');
    assert("S"@[0] == 'S');
    assert("T"@[0] == 'T');
    assert("U"@[0] == 'U');
    assert("V"@[0] == 'V');
    assert("W"@[0] == 'W');
    assert("X"@[0] == 'X');
    assert("Y"@[0] == 'Y');
    assert("Z"@[0] == 'Z');
    assert(spec_letter(i)[0] == spec_letter(j)[0]);
}

proof fn lemma_letters_injective(n1: nat, n2: nat)
    requires
        spec_letters(n1) == spec_letters(n2),
    ensures
        n1 == n2,
    decreases n1,
{
    if n1 == 0 {
        if n2 > 0 {
            lemma_letter_one(((n2 - 1) as nat) % 26);
            assert(spec_letters(n2).len() >= 1);
            assert(false);
        }
    } else if n2 == 0 {
        lemma_letter_one(((n1 - 1) as nat) % 26);
        assert(spec_letters(n1).len() >= 1);
        assert(false);
    } else {
        let q1 = ((n1 - 1) as nat) / 26;
        let r1 = ((n1 - 1) as nat) % 26;
        let q2 = ((n2 - 1) as nat) / 26;
        let r2 = ((n2 - 1) as nat) % 26;
        lemma_letter_one(r1);
        lemma_letter_one(r2);
        assert(spec_letters(n1).drop_last() =~= spec_letters(q1));
        assert(spec_letters(n2).drop_last() =~= spec_letters(q2));
        assert(spec_letters(n1).last() == spec_letter(r1)[0]);
        assert(spec_letters(n2).last() == spec_letter(r2)[0]);
        assert(spec_letter(r1) =~= spec_letter(r2));
        lemma_letter_injective(r1, r2);
        lemma_letters_injective(q1, q2);
        vstd::arithmetic::div_mod::lemma_fundamental_div_mod((n1 - 1) as int, 26);
        vstd::arithmetic::div_mod::lemma_fundamental_div_mod((n2 - 1) as int, 26);
    }
}

/// The column naming is injective: no two distinct zero-based column indices
/// share a letter string.
pub proof fn lemma_col_letter_injective(c1: nat, c2: nat)
    requires
        spec_col_letters(c1) == spec_col_letters(c2),
    ensures
        c1 == c2,
{
    lemma_letters_injective(c1 + 1, c2 + 1);
}

// ---------------------------------------------------------------------------
// The sparse grid: cells kept strictly sorted in row-major order.
// ---------------------------------------------------------------------------

/// One stored cell: its zero-based coordinates and its value.
#[derive(Debug, Clone, PartialEq)]
pub struct Cell {
    pub row: u32,
    pub col: u32,
    pub value: CellValue,
}

/// The coordinate key of a stored cell.
pub open spec fn cell_key(c: Cell) -> (int, int) {
    (c.row as int, c.col as int)
}

/// Row-major order on coordinate keys.
pub open spec fn key_lt(a: (int, int), b: (int, int)) -> bool {
    a.0 < b.0 || (a.0 == b.0 && a.1 < b.1)
}

/// The cells are strictly sorted in row-major order; in particular no
/// coordinate occurs twice.
pub open spec fn cells_sorted(s: Seq<Cell>) -> bool {
    forall|i: int, j: int|
        #![trigger cell_key(s[i]), cell_key(s[j])]
        0 <= i < j < s.len() ==> key_lt(cell_key(s[i]), cell_key(s[j]))
}

/// The mapping from coordinates to values that a cell sequence denotes;
/// a later entry for the same coordinate wins.
pub open spec fn cells_map(s: Seq<Cell>) -> Map<(int, int), CellValue>
    decreases s.len(),
{
    if s.len() == 0 {
        Map::<(int, int), CellValue>::empty()
    } else {
        cells_map(s.drop_last()).insert(cell_key(s.last()), s.last().value)
    }
}

/// Inserting a cell whose key differs from every key at or after the
/// insertion point inserts its pair into the denoted map.
proof fn lemma_cells_map_insert(s: Seq<Cell>, i: int, c: Cell)
    requires
        0 <= i <= s.len(),
        forall|j: int| i <= j < s.len() ==> cell_key(#[trigger] s[j]) != cell_key(c),
    ensures
        cells_map(s.insert(i, c)) == cells_map(s).insert(cell_key(c), c.value),
    decreases s.len() - i,
{
    if i == s.len() {
        assert(s.insert(i, c) =~= s.push(c));
        assert(s.push(c).drop_last() =~= s);
        assert(s.push(c).last() == c);
    } else {
        let t = s.insert(i, c);
        s.insert_ensures(i, c);
        assert(t.last() == s.last());
        assert(t.drop_last() =~= s.drop_last().insert(i, c));
        lemma_cells_map_insert(s.drop_last(), i, c);
        assert(cells_map(s.drop_last()).insert(cell_key(c), c.value).insert(
            cell_key(s.last()),
            s.last().value,
        ) =~= cells_map(s.drop_last()).insert(cell_key(s.last()), s.last().value).insert(
            cell_key(c),
            c.value,
        ));
    }
}

/// Overwriting the one cell that carries a key updates that key's pair in
/// the denoted map.
proof fn lemma_cells_map_update(s: Seq<Cell>, i: int, c: Cell)
    requires
        0 <= i < s.len(),
        cell_key(c) == cell_key(s[i]),
        forall|j: int| i < j < s.len() ==> cell_key(#[trigger] s[j]) != cell_key(c),
    ensures
        cells_map(s.update(i, c)) == cells_map(s).insert(cell_key(c), c.value),
    decreases s.len(),
{
    let t = s.update(i, c);
    if i == s.len() - 1 {
        assert(t.drop_last() =~= s.drop_last());
        assert(t.last() == c);
        assert(cells_map(s.drop_last()).insert(cell_key(s.last()), s.last().value).insert(
            cell_key(c),
            c.value,
        ) =~= cells_map(s.drop_last()).insert(cell_key(c), c.value));
    } else {
        assert(t.last() == s.last());
        assert(t.drop_last() =~= s.drop_last().update(i, c));
        lemma_cells_map_update(s.drop_last(), i, c);
        assert(cells_map(s.drop_last()).insert(cell_key(c), c.value).insert(
            cell_key(s.last()),
            s.last().value,
        ) =~= cells_map(s.drop_last()).insert(cell_key(s.last()), s.last().value).insert(
            cell_key(c),
            c.value,
        ));
    }
}

/// A cell whose key occurs nowhere later in the sequence stands in the
/// denoted map with its own value.
proof fn lemma_cells_map_index(s: Seq<Cell>, i: int)
    requires
        0 <= i < s.len(),
        forall|j: int| i < j < s.len() ==> cell_key(#[trigger] s[j]) != cell_key(s[i]),
    ensures
        cells_map(s).dom().contains(cell_key(s[i])),
        cells_map(s)[cell_key(s[i])] == s[i].value,
    decreases s.len(),
{
    if i < s.len() - 1 {
        assert(s.drop_last()[i] == s[i]);
        lemma_cells_map_index(s.drop_last(), i);
    }
}

/// Every key of the denoted map is the key of some stored cell.
proof fn lemma_cells_map_dom(s: Seq<Cell>, k: (int, int))
    requires
        cells_map(s).dom().contains(k),
    ensures
        exists|i: int| 0 <= i < s.len() && cell_key(#[trigger] s[i]) == k,
    decreases s.len(),
{
    if s.len() > 0 {
        if k == cell_key(s.last()) {
            assert(cell_key(s[s.len() - 1]) == k);
        } else {
            lemma_cells_map_dom(s.drop_last(), k);
            let i = choose|i: int| 0 <= i < s.drop_last().len() && cell_key(
                #[trigger] s.drop_last()[i],
            ) == k;
            assert(cell_key(s[i]) == k);
        }
    }
}

/// Two strictly sorted cell sequences that denote the same map are equal:
/// the sorted representation is canonical, so whatever order cells were
/// written in, the same grid contents yield the same stored sequence.
pub proof fn lemma_sorted_cells_canonical(a: Seq<Cell>, b: Seq<Cell>)
    requires
        cells_sorted(a),
        cells_sorted(b),
        cells_map(a) == cells_map(b),
    ensures
        a == b,
    decreases a.len(),
{
    if a.len() == 0 {
        if b.len() > 0 {
            lemma_cells_map_index(b, b.len() - 1);
            assert(false);
        }
        assert(a =~= b);
    } else if b.len() == 0 {
        lemma_cells_map_index(a, a.len() - 1);
        assert(false);
    } else {
        let ka = cell_key(a.last());
        let kb = cell_key(b.last());
        lemma_cells_map_index(a, a.len() - 1);
        lemma_cells_map_index(b, b.len() - 1);
        lemma_cells_map_dom(a, kb);
        lemma_cells_map_dom(b, ka);
        let ia = choose|i: int| 0 <= i < a.len() && cell_key(#[trigger] a[i]) == kb;
        let ib = choose|i: int| 0 <= i < b.len() && cell_key(#[trigger] b[i]) == ka;
        assert(ia < a.len() - 1 ==> key_lt(kb, ka));
        assert(ib < b.len() - 1 ==> key_lt(ka, kb));
        assert(ka == kb);
        assert(a.last().value == cells_map(a)[ka]);
        assert(b.last().value == cells_map(b)[ka]);
        assert(a.last() == b.last());
        assert(!cells_map(a.drop_last()).dom().contains(ka)) by {
            if cells_map(a.drop_last()).dom().contains(ka) {
                lemma_cells_map_dom(a.drop_last(), ka);
                let i = choose|i: int| 0 <= i < a.drop_last().len() && cell_key(
                    #[trigger] a.drop_last()[i],
                ) == ka;
                assert(cell_key(a[i]) == ka);
                assert(key_lt(cell_key(a[i]), ka));
                assert(false);
            }
        }
        assert(!cells_map(b.drop_last()).dom().contains(ka)) by {
            if cells_map(b.drop_last()).dom().contains(ka) {
                lemma_cells_map_dom(b.drop_last(), ka);
                let i = choose|i: int| 0 <= i < b.drop_last().len() && cell_key(
                    #[trigger] b.drop_last()[i],
                ) == ka;
                assert(cell_key(b[i]) == ka);
                assert(key_lt(cell_key(b[i]), ka));
                assert(false);
            }
        }
        assert(cells_map(a.drop_last()) =~= cells_map(a).remove(ka));
        assert(cells_map(b.drop_last()) =~= cells_map(b).remove(ka));
        lemma_sorted_cells_canonical(a.drop_last(), b.drop_last());
        assert(a.len() == b.len());
        assert forall|i: int| 0 <= i < a.len() implies a[i] == b[i] by {
            if i < a.len() - 1 {
                assert(a[i] == a.drop_last()[i]);
                assert(b[i] == b.drop_last()[i]);
            } else {
                assert(a[i] == a.last());
                assert(b[i] == b.last());
            }
        }
        assert(a =~= b);
    }
}

/// A sparse worksheet: a name, the sorted cells, and the running maxima of
/// every coordinate ever written.
#[derive(Debug)]
pub struct Worksheet {
    name: String,
    cells: Vec<Cell>,
    max_row: u32,
    max_col: u32,
}

impl Worksheet {
    /// The worksheet's name.
    pub closed spec fn spec_name(&self) -> Seq<char> {
        self.name@
    }

    /// The stored cells, in row-major order.
    pub closed spec fn spec_cells(&self) -> Seq<Cell> {
        self.cells@
    }

    /// The largest row ever written.
    pub closed spec fn spec_max_row(&self) -> u32 {
        self.max_row
    }

    /// The largest column ever written.
    pub closed spec fn spec_max_col(&self) -> u32 {
        self.max_col
    }

    /// The sparse grid as a map from coordinates to values.
    pub open spec fn spec_map(&self) -> Map<(int, int), CellValue> {
        cells_map(self.spec_cells())
    }

    /// Well-formed: cells strictly sorted in row-major order, and every
    /// coordinate within the tracked maxima, which themselves leave room
    /// for the serializer's one-based numbering.
    pub open spec fn wf(&self) -> bool {
        &&& cells_sorted(self.spec_cells())
        &&& forall|i: int|
            0 <= i < self.spec_cells().len() ==> (#[trigger] self.spec_cells()[i]).row
                <= self.spec_max_row() && self.spec_cells()[i].col <= self.spec_max_col()
        &&& self.spec_max_row() < u32::MAX
        &&& self.spec_max_col() < u32::MAX
    }

    /// A new, empty worksheet with the given name.
    pub fn new(name: String) -> (r: Worksheet)
        ensures
            r.wf(),
            r.spec_name() == name@,
            r.spec_cells() == Seq::<Cell>::empty(),
            r.spec_map() == Map::<(int, int), CellValue>::empty(),
            r.spec_max_row() == 0u32,
            r.spec_max_col() == 0u32,
    {
        Worksheet { name, cells: Vec::new(), max_row: 0, max_col: 0 }
    }

    /// The worksheet's name.
    pub fn name(&self) -> (r: &str)
        ensures
            r@ == self.spec_name(),
    {
        self.name.as_str()
    }

    /// Inserts or overwrites the cell at `(row, col)` — the last write to a
    /// coordinate wins — and widens the maxima to cover the coordinate;
    /// the maxima never shrink.
    pub fn write(&mut self, row: u32, col: u32, value: CellValue)
        requires
            old(self).wf(),
            row < u32::MAX,
            col < u32::MAX,
        ensures
            final(self).wf(),
            final(self).spec_name() == old(self).spec_name(),
            final(self).spec_map() == old(self).spec_map().insert(
                (row as int, col as int),
                value,
            ),
            final(self).spec_max_row() == if row > old(self).spec_max_row() {
                row
            } else {
                old(self).spec_max_row()
            },
            final(self).spec_max_col() == if col > old(self).spec_max_col() {
                col
            } else {
                old(self).spec_max_col()
            },
    {
        let ghost k = (row as int, col as int);
        let n = self.cells.len();
        let mut i: usize = 0;
        while i < n && (self.cells[i].row < row || (self.cells[i].row == row
            && self.cells[i].col < col))
            invariant
                *self == *old(self),
                k == (row as int, col as int),
                n == self.cells@.len(),
                i <= n,
                forall|j: int| 0 <= j < i ==> key_lt(cell_key(#[trigger] self.cells@[j]), k),
            decreases n - i,
        {
            proof {
                assert(key_lt(cell_key(self.cells@[i as int]), k));
            }
            i += 1;
        }
        let c = Cell { row, col, value };
        if i < n && self.cells[i].row == row && self.cells[i].col == col {
            let ghost s = self.cells@;
            self.cells[i] = c;
            proof {
                assert(cell_key(s[i as int]) == k);
                assert(forall|j: int|
                    i < j < s.len() ==> key_lt(cell_key(s[i as int]), cell_key(#[trigger] s[j])));
                lemma_cells_map_update(s, i as int, c);
                assert(cells_sorted(self.cells@)) by {
                    assert(forall|p: int, q: int|
                        #![trigger cell_key(self.cells@[p]), cell_key(self.cells@[q])]
                        0 <= p < q < self.cells@.len() ==> key_lt(
                            cell_key(self.cells@[p]),
                            cell_key(self.cells@[q]),
                        ));
                }
            }
        } else {
            let ghost s = self.cells@;
            proof {
                assert(forall|j: int|
                    i <= j < s.len() ==> !key_lt(cell_key(#[trigger] s[j]), k) || j > i);
                assert forall|j: int| i <= j < s.len() implies key_lt(
                    k,
                    cell_key(#[trigger] s[j]),
                ) by {
                    if j == i {
                        assert(!key_lt(cell_key(s[j]), k));
                        assert(cell_key(s[j]) != k);
                    } else {
                        assert(!key_lt(cell_key(s[i as int]), k));
                        assert(cell_key(s[i as int]) != k);
                        assert(key_lt(cell_key(s[i as int]), cell_key(s[j])));
                    }
                }
            }
            self.cells.insert(i, c);
            proof {
                lemma_cells_map_insert(s, i as int, c);
                s.insert_ensures(i as int, c);
                let t = self.cells@;
                assert forall|p: int, q: int|
                    #![trigger cell_key(t[p]), cell_key(t[q])]
                    0 <= p < q < t.len() implies key_lt(cell_key(t[p]), cell_key(t[q])) by {
                    if q < i {
                        assert(t[p] == s[p] && t[q] == s[q]);
                    } else if q == i {
                        assert(t[p] == s[p]);
                    } else {
                        if p < i {
                            assert(t[p] == s[p] && t[q] == s[q - 1]);
                        } else if p == i {
                            assert(t[q] == s[q - 1]);
                            assert(key_lt(k, cell_key(s[q - 1])));
                        } else {
                            assert(t[p] == s[p - 1] && t[q] == s[q - 1]);
                        }
                    }
                }
            }
        }
        if row > self.max_row {
            self.max_row = row;
        }
        if col > self.max_col {
            self.max_col = col;
        }
    }

    /// Writes a string cell at `(row, col)`.
    pub fn write_string(&mut self, row: u32, col: u32, value: String)
        requires
            old(self).wf(),
            row < u32::MAX,
            col < u32::MAX,
        ensures
            final(self).wf(),
            final(self).spec_name() == old(self).spec_name(),
            final(self).spec_map() == old(self).spec_map().insert(
                (row as int, col as int),
                CellValue::String(value),
            ),
            final(self).spec_max_row() == if row > old(self).spec_max_row() {
                row
            } else {
                old(self).spec_max_row()
            },
            final(self).spec_max_col() == if col > old(self).spec_max_col() {
                col
            } else {
                old(self).spec_max_col()
            },
    {
        self.write(row, col, CellValue::String(value));
    }

    /// Writes a numeric cell at `(row, col)`; `value` is the number's
    /// decimal text rendering.
    pub fn write_number(&mut self, row: u32, col: u32, value: String)
        requires
            old(self).wf(),
            row < u32::MAX,
            col < u32::MAX,
        ensures
            final(self).wf(),
            final(self).spec_name() == old(self).spec_name(),
            final(self).spec_map() == old(self).spec_map().insert(
                (row as int, col as int),
                CellValue::Number(value),
            ),
            final(self).spec_max_row() == if row > old(self).spec_max_row() {
                row
            } else {
                old(self).spec_max_row()
            },
            final(self).spec_max_col() == if col > old(self).spec_max_col() {
                col
            } else {
                old(self).spec_max_col()
            },
    {
        self.write(row, col, CellValue::Number(value));
    }

    /// Writes a boolean cell at `(row, col)`.
    pub fn write_boolean(&mut self, row: u32, col: u32, value: bool)
        requires
            old(self).wf(),
            row < u32::MAX,
            col < u32::MAX,
        ensures
            final(self).wf(),
            final(self).spec_name() == old(self).spec_name(),
            final(self).spec_map() == old(self).spec_map().insert(
                (row as int, col as int),
                CellValue::Boolean(value),
            ),
            final(self).spec_max_row() == if row > old(self).spec_max_row() {
                row
            } else {
                old(self).spec_max_row()
            },
            final(self).spec_max_col() == if col > old(self).spec_max_col() {
                col
            } else {
                old(self).spec_max_col()
            },
    {
        self.write(row, col, CellValue::Boolean(value));
    }

    /// The value stored at `(row, col)`, or nothing if that coordinate was
    /// never written.
    pub fn get(&self, row: u32, col: u32) -> (r: Option<&CellValue>)
        requires
            self.wf(),
        ensures
            match r {
                Some(v) => self.spec_map().dom().contains((row as int, col as int)) && *v
                    == self.spec_map()[(row as int, col as int)],
                None => !self.spec_map().dom().contains((row as int, col as int)),
            },
    {
        let ghost k = (row as int, col as int);
        let n = self.cells.len();
        let mut i: usize = 0;
        while i < n
            invariant
                k == (row as int, col as int),
                n == self.cells@.len(),
                i <= n,
                self.wf(),
                forall|j: int| 0 <= j < i ==> cell_key(#[trigger] self.cells@[j]) != k,
            decreases n - i,
        {
            if self.cells[i].row == row && self.cells[i].col == col {
                proof {
                    assert(cell_key(self.cells@[i as int]) == k);
                    assert(forall|j: int|
                        i < j < self.cells@.len() ==> key_lt(
                            cell_key(self.cells@[i as int]),
                            cell_key(#[trigger] self.cells@[j]),
                        ));
                    lemma_cells_map_index(self.cells@, i as int);
                }
                return Some(&self.cells[i].value);
            }
            proof {
                assert(cell_key(self.cells@[i as int]) != k);
            }
            i += 1;
        }
        proof {
            if self.spec_map().dom().contains(k) {
                lemma_cells_map_dom(self.cells@, k);
                assert(false);
            }
        }
        None
    }

    /// The stored cells, in row-major order.
    pub fn cells(&self) -> (r: &Vec<Cell>)
        ensures
            r@ == self.spec_cells(),
    {
        &self.cells
    }

    /// The running maxima `(max_row, max_col)` of every coordinate ever
    /// written; `(0, 0)` if nothing was written.
    pub fn dimensions(&self) -> (r: (u32, u32))
        ensures
            r.0 == self.spec_max_row(),
            r.1 == self.spec_max_col(),
    {
        (self.max_row, self.max_col)
    }

    /// Whether no cell was ever written.
    pub fn is_empty(&self) -> (r: bool)
        ensures
            r <==> self.spec_cells().len() == 0,
    {
        self.cells.is_empty()
    }
}

} // verus!
