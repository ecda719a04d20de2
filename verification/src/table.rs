//! The in-memory tabular data model: cell values, column metadata, the
//! row-major `Table` store with its alias index, and read-only views.

use vstd::prelude::*;

verus! {

/// Cell value (heterogeneous).
///
/// A floating-point cell carries the IEEE 754 bit pattern of the 64-bit
/// value; equality of such cells is therefore bitwise.
#[derive(Clone, Debug, PartialEq)]
pub enum Value {
    Null,
    Bool(bool),
    Int(i64),
    Float(u64),
    Text(String),
}

/// Optional column typing. `Any` means no type has been asserted yet.
#[derive(Clone, Debug, PartialEq, Eq)]
pub enum ColType {
    Any,
    Bool,
    Int,
    Float,
    Text,
}

/// Column headers: a canonical name plus a set of accepted aliases.
#[derive(Clone, Debug, PartialEq, Eq)]
pub struct ColHeader {
    /// Preferred canonical column name
    pub canonical: String,
    /// Accepted aliases for identifying this column
    pub aliases: Vec<String>,
}

/// Column metadata.
#[derive(Clone, Debug, PartialEq, Eq)]
pub struct ColumnMeta {
    pub header: ColHeader,
    pub kind: ColType,
}

/// A table row.
#[derive(Clone, Debug, PartialEq)]
pub struct Row {
    /// Cells aligned with the `cols` order
    pub cells: Vec<Value>,
}

/// Index of a row within a table.
pub type RowIndex = usize;

/// Index of a column within a table.
pub type ColIndex = usize;

/// The name-to-column-index mapping that a sequence of `(name, index)`
/// entries denotes: entries are applied in order, so a later entry for the
/// same name overwrites an earlier one (last write wins).
pub open spec fn assoc_map(s: Seq<(String, usize)>) -> Map<Seq<char>, int>
    decreases s.len(),
{
    if s.len() == 0 {
        Map::empty()
    } else {
        assoc_map(s.drop_last()).insert(s.last().0@, s.last().1 as int)
    }
}

/// The alias index that `Table::from_headers` seeds from an ordered header
/// list: each name maps to its position, later occurrences of a repeated
/// name overwriting earlier ones.
pub open spec fn header_map(hs: Seq<String>) -> Map<Seq<char>, int>
    decreases hs.len(),
{
    if hs.len() == 0 {
        Map::empty()
    } else {
        header_map(hs.drop_last()).insert(hs.last()@, hs.len() - 1)
    }
}

/// The cells obtained by wrapping each raw string as a `Value::Text`.
pub open spec fn text_cells(ss: Seq<String>) -> Seq<Value> {
    ss.map_values(|s: String| Value::Text(s))
}

/// Main table (row-major storage).
///
/// The alias index is kept as an ordered list of `(name, column index)`
/// entries; `assoc_map` gives the mapping it denotes, with entries added
/// later taking precedence over earlier ones for a repeated name.
#[derive(Clone, Debug, PartialEq)]
pub struct Table {
    pub cols: Vec<ColumnMeta>,
    pub rows: Vec<Row>,
    pub alias_index: Vec<(String, ColIndex)>,
}

/// Logical view over a subset of a table (no data copy).
#[derive(Clone, Debug)]
pub struct TableView<'a> {
    /// Reference to the source table
    pub table: &'a Table,
    /// Visible row indices in desired order
    pub row_idx: Vec<RowIndex>,
    /// Visible column indices in desired order
    pub col_idx: Vec<ColIndex>,
}

/// Failure of a table-level operation.
#[derive(Clone, Debug, PartialEq, Eq)]
pub enum TableError {
    /// The number of provided cells does not match the table schema
    ColumnCountMismatch { expected: usize, got: usize },
}

/// A suffix of `s` free of entries for key `k` does not affect what the
/// denoted mapping holds at `k`.
proof fn lemma_assoc_map_skip(s: Seq<(String, usize)>, i: int, k: Seq<char>)
    requires
        0 <= i <= s.len(),
        forall|j: int| i <= j < s.len() ==> (#[trigger] s[j]).0@ != k,
    ensures
        assoc_map(s).contains_key(k) == assoc_map(s.subrange(0, i)).contains_key(k),
        assoc_map(s).contains_key(k) ==> assoc_map(s)[k] == assoc_map(s.subrange(0, i))[k],
    decreases s.len() - i,
{
    if i == s.len() {
        assert(s.subrange(0, i) =~= s);
    } else {
        let shorter = s.drop_last();
        assert(s.last().0@ != k);
        lemma_assoc_map_skip(shorter, i, k);
        assert(shorter.subrange(0, i) =~= s.subrange(0, i));
    }
}

/// If position `i` holds the last entry for its name, the denoted mapping
/// sends that name to that entry's index.
proof fn lemma_assoc_map_last_wins(s: Seq<(String, usize)>, i: int)
    requires
        0 <= i < s.len(),
        forall|j: int| i < j < s.len() ==> (#[trigger] s[j]).0@ != s[i].0@,
    ensures
        assoc_map(s).contains_key(s[i].0@),
        assoc_map(s)[s[i].0@] == s[i].1 as int,
{
    lemma_assoc_map_skip(s, i + 1, s[i].0@);
    let pre = s.subrange(0, i + 1);
    assert(pre.drop_last() =~= s.subrange(0, i));
    assert(pre.last() == s[i]);
}

/// The denoted mapping holds a name exactly when some entry carries it.
proof fn lemma_assoc_map_domain(s: Seq<(String, usize)>, k: Seq<char>)
    ensures
        assoc_map(s).contains_key(k) <==> exists|i: int|
            0 <= i < s.len() && (#[trigger] s[i]).0@ == k,
    decreases s.len(),
{
    if s.len() > 0 {
        lemma_assoc_map_domain(s.drop_last(), k);
        if s.last().0@ == k {
            assert(s[s.len() - 1].0@ == k);
        } else {
            if assoc_map(s).contains_key(k) {
                let i = choose|i: int| 0 <= i < s.len() - 1 && (#[trigger] s.drop_last()[i]).0@
                    == k;
                assert(s[i].0@ == k);
            }
            if exists|i: int| 0 <= i < s.len() && (#[trigger] s[i]).0@ == k {
                let i = choose|i: int| 0 <= i < s.len() && (#[trigger] s[i]).0@ == k;
                assert(s.drop_last()[i].0@ == k);
            }
        }
    }
}

/// A name that occurs in a header list resolves in the seeded alias index,
/// and the position of its last occurrence is what it resolves to; a name
/// that occurs exactly once therefore resolves to its position.
pub proof fn lemma_header_map_last_occurrence(hs: Seq<String>, i: int)
    requires
        0 <= i < hs.len(),
        forall|j: int| i < j < hs.len() ==> (#[trigger] hs[j])@ != hs[i]@,
    ensures
        header_map(hs).contains_key(hs[i]@),
        header_map(hs)[hs[i]@] == i,
    decreases hs.len(),
{
    if i == hs.len() - 1 {
    } else {
        lemma_header_map_last_occurrence(hs.drop_last(), i);
        assert(hs.drop_last()[i] == hs[i]);
        assert(hs.last()@ != hs[i]@);
    }
}

/// A name resolves in the seeded alias index exactly when it occurs in the
/// header list, and what it resolves to is an occurrence of it.
pub proof fn lemma_header_map_domain(hs: Seq<String>, k: Seq<char>)
    ensures
        header_map(hs).contains_key(k) <==> exists|i: int|
            0 <= i < hs.len() && (#[trigger] hs[i])@ == k,
        header_map(hs).contains_key(k) ==> {
            let i = header_map(hs)[k];
            0 <= i < hs.len() && hs[i]@ == k
        },
    decreases hs.len(),
{
    if hs.len() > 0 {
        lemma_header_map_domain(hs.drop_last(), k);
        if hs.last()@ == k {
            assert(hs[hs.len() - 1]@ == k);
        } else {
            if header_map(hs).contains_key(k) {
                let i = choose|i: int| 0 <= i < hs.len() - 1 && (#[trigger] hs.drop_last()[i])@
                    == k;
                assert(hs[i]@ == k);
            }
            if exists|i: int| 0 <= i < hs.len() && (#[trigger] hs[i])@ == k {
                let i = choose|i: int| 0 <= i < hs.len() && (#[trigger] hs[i])@ == k;
                assert(hs.drop_last()[i]@ == k);
            }
        }
    }
}

/// For every header list, a name that occurs at exactly one position
/// resolves, through the alias index that `Table::from_headers` seeds, to
/// that position: looking up each distinct header name returns its
/// zero-based column index.
pub proof fn lemma_from_headers_distinct_lookup(t: Table, hs: Seq<String>, i: int)
    requires
        t.alias_map() == header_map(hs),
        0 <= i < hs.len(),
        forall|j: int| 0 <= j < hs.len() && j != i ==> (#[trigger] hs[j])@ != hs[i]@,
    ensures
        t.alias_map().contains_key(hs[i]@),
        t.alias_map()[hs[i]@] == i,
{
    lemma_header_map_last_occurrence(hs, i);
}

impl Table {
    /// The name-to-column-index mapping the alias index denotes.
    pub open spec fn alias_map(self) -> Map<Seq<char>, int> {
        assoc_map(self.alias_index@)
    }

    /// Well-formedness: every alias entry points at an existing column, and
    /// every row is exactly as wide as the schema.
    pub open spec fn wf(self) -> bool {
        &&& forall|j: int|
            0 <= j < self.alias_index@.len() ==> (#[trigger] self.alias_index@[j]).1
                < self.cols@.len()
        &&& forall|i: int|
            0 <= i < self.rows@.len() ==> (#[trigger] self.rows@[i]).cells@.len()
                == self.cols@.len()
    }

    /// Creates an empty table: no columns, no rows, empty alias index.
    pub fn new() -> (t: Table)
        ensures
            t.wf(),
            t.cols@.len() == 0,
            t.rows@.len() == 0,
            t.alias_index@.len() == 0,
            t.alias_map() == Map::<Seq<char>, int>::empty(),
    {
        Table { cols: Vec::new(), rows: Vec::new(), alias_index: Vec::new() }
    }

    /// Builds a table schema from an ordered header list: one column per
    /// header, in the given order, each with an empty alias set and type
    /// `Any`; no rows.  Duplicate headers are permitted and kept in the
    /// column list; the alias index maps a repeated name to its last
    /// position only (later entries overwrite earlier ones).  This
    /// overwriting is deliberate and preserved for compatibility.
    pub fn from_headers(headers: Vec<String>) -> (t: Table)
        ensures
            t.wf(),
            t.cols@.len() == headers@.len(),
            t.rows@.len() == 0,
            forall|i: int|
                0 <= i < headers@.len() ==> {
                    &&& (#[trigger] t.cols@[i]).header.canonical == headers@[i]
                    &&& t.cols@[i].header.aliases@.len() == 0
                    &&& t.cols@[i].kind == ColType::Any
                },
            t.alias_index@.len() == headers@.len(),
            forall|i: int|
                0 <= i < headers@.len() ==> (#[trigger] t.alias_index@[i]) == (
                headers@[i],
                i as usize,
                ),
            t.alias_map() == header_map(headers@),
    {
        let mut cols: Vec<ColumnMeta> = Vec::new();
        let mut alias_index: Vec<(String, ColIndex)> = Vec::new();
        let n = headers.len();
        let mut i: usize = 0;
        while i < n
            invariant
                n == headers@.len(),
                i <= n,
                cols@.len() == i,
                alias_index@.len() == i,
                forall|j: int|
                    0 <= j < i ==> {
                        &&& (#[trigger] cols@[j]).header.canonical == headers@[j]
                        &&& cols@[j].header.aliases@.len() == 0
                        &&& cols@[j].kind == ColType::Any
                    },
                forall|j: int|
                    0 <= j < i ==> (#[trigger] alias_index@[j]) == (headers@[j], j as usize),
                assoc_map(alias_index@) == header_map(headers@.subrange(0, i as int)),
            decreases n - i,
        {
            let canonical = headers[i].clone();
            let col_meta = ColumnMeta {
                header: ColHeader { canonical: canonical.clone(), aliases: Vec::new() },
                kind: ColType::Any,
            };
            cols.push(col_meta);
            let ghost pre_alias = alias_index@;
            alias_index.push((canonical, i));
            proof {
                assert(alias_index@.drop_last() =~= pre_alias);
                let hs_pre = headers@.subrange(0, i + 1);
                assert(hs_pre.drop_last() =~= headers@.subrange(0, i as int));
                assert(hs_pre.last() == headers@[i as int]);
                assert(alias_index@.last() == (headers@[i as int], i as usize));
            }
            i = i + 1;
        }
        proof {
            assert(headers@.subrange(0, headers@.len() as int) =~= headers@);
        }
        Table { cols, rows: Vec::new(), alias_index }
    }

    /// Return the number of columns in the table.
    pub fn num_cols(&self) -> (n: usize)
        ensures
            n == self.cols@.len(),
    {
        self.cols.len()
    }

    /// Resolves a column by canonical name or alias: a pure lookup into the
    /// alias index, `None` when the name is absent.  When a name was entered
    /// more than once, the entry added last wins.
    pub fn col_index(&self, name: &String) -> (r: Option<ColIndex>)
        requires
            self.wf(),
        ensures
            match r {
                Some(c) => self.alias_map().contains_key(name@) && self.alias_map()[name@]
                    == c as int && c < self.cols@.len(),
                None => !self.alias_map().contains_key(name@),
            },
    {
        let n = self.alias_index.len();
        let mut i: usize = n;
        while i > 0
            invariant
                self.wf(),
                i <= n,
                n == self.alias_index@.len(),
                forall|j: int| i <= j < n ==> (#[trigger] self.alias_index@[j]).0@ != name@,
            decreases i,
        {
            i = i - 1;
            if self.alias_index[i].0 == *name {
                proof {
                    lemma_assoc_map_last_wins(self.alias_index@, i as int);
                }
                return Some(self.alias_index[i].1);
            }
        }
        proof {
            lemma_assoc_map_domain(self.alias_index@, name@);
        }
        None
    }

    /// Appends one row given as raw strings.  When the record width matches
    /// the schema, every string is wrapped as a `Value::Text` (no
    /// numeric or boolean coercion), the row is appended, and the zero-based
    /// index of the new row is returned; that index is never renumbered
    /// afterwards.  On a width mismatch the table is left unchanged and the
    /// mismatch is reported with both widths.
    pub fn push_row_from_strings(&mut self, cells: Vec<String>) -> (r: Result<
        RowIndex,
        TableError,
    >)
        requires
            old(self).wf(),
        ensures
            final(self).wf(),
            final(self).cols@ == old(self).cols@,
            final(self).alias_index@ == old(self).alias_index@,
            cells@.len() == old(self).cols@.len() ==> {
                &&& r matches Ok(idx) && idx == old(self).rows@.len()
                &&& final(self).rows@.len() == old(self).rows@.len() + 1
                &&& final(self).rows@.last().cells@ == text_cells(cells@)
                &&& forall|i: int|
                    0 <= i < old(self).rows@.len() ==> (#[trigger] final(self).rows@[i]) == old(
                        self,
                    ).rows@[i]
            },
            cells@.len() != old(self).cols@.len() ==> {
                &&& r matches Err(e) && e == (TableError::ColumnCountMismatch {
                    expected: old(self).cols@.len() as usize,
                    got: cells@.len() as usize,
                })
                &&& *final(self) == *old(self)
            },
    {
        let expected = self.cols.len();
        let got = cells.len();
        if expected != got {
            return Err(TableError::ColumnCountMismatch { expected, got });
        }
        let mut values: Vec<Value> = Vec::new();
        let mut k: usize = 0;
        while k < got
            invariant
                got == cells@.len(),
                k <= got,
                values@.len() == k,
                forall|j: int| 0 <= j < k ==> (#[trigger] values@[j]) == Value::Text(cells@[j]),
            decreases got - k,
        {
            values.push(Value::Text(cells[k].clone()));
            k = k + 1;
        }
        proof {
            assert(values@ =~= text_cells(cells@));
        }
        let idx = self.rows.len();
        self.rows.push(Row { cells: values });
        Ok(idx)
    }
}

impl<'a> TableView<'a> {
    /// Whether visible cell `(i, j)` dereferences to a cell of the table.
    pub open spec fn in_range(self, i: int, j: int) -> bool {
        &&& 0 <= i < self.row_idx@.len()
        &&& 0 <= j < self.col_idx@.len()
        &&& self.row_idx@[i] < self.table.rows@.len()
        &&& self.col_idx@[j] < self.table.rows@[self.row_idx@[i] as int].cells@.len()
    }

    /// Presents visible cell `(i, j)` as the table cell the two index
    /// sequences select, without copying; any out-of-range index yields
    /// `None` rather than failing.
    pub fn cell(&self, i: usize, j: usize) -> (r: Option<&'a Value>)
        ensures
            r is Some <==> self.in_range(i as int, j as int),
            r matches Some(v) ==> *v == self.table.rows@[self.row_idx@[i as int] as int].cells@[
                self.col_idx@[j as int] as int],
    {
        if i < self.row_idx.len() && j < self.col_idx.len() {
            let ri = self.row_idx[i];
            let cj = self.col_idx[j];
            if ri < self.table.rows.len() && cj < self.table.rows[ri].cells.len() {
                Some(&self.table.rows[ri].cells[cj])
            } else {
                None
            }
        } else {
            None
        }
    }
}

} // verus!
