//! Columns — tagged numeric or text sequences of cells — and the
//! lexicographic multi-key row comparator built from the per-cell
//! null-aware comparisons.

use vstd::prelude::*;
use crate::numeric::{Ord3, spec_cmp_with_nulls, cmp_with_nulls, spec_is_nan};
use crate::text::{
    spec_cmp_text,
    cmp_text,
    spec_text_view,
    spec_lex_cmp,
    spec_reverse,
    lemma_lex_eq,
    lemma_lex_flip,
    lemma_lex_trans,
};

verus! {

/// One column of cells: numeric (double-precision bit patterns, NaN = null)
/// or text (optional strings, absence = null).
pub enum Column {
    Numeric(Vec<u64>),
    Text(Vec<Option<String>>),
}

impl Column {
    /// Number of rows in this column.
    pub open spec fn spec_len(&self) -> nat {
        match self {
            Column::Numeric(v) => v@.len(),
            Column::Text(v) => v@.len(),
        }
    }

    /// Number of rows, executable form.
    pub fn len(&self) -> (n: usize)
        ensures
            n == self.spec_len(),
    {
        match self {
            Column::Numeric(v) => v.len(),
            Column::Text(v) => v.len(),
        }
    }

    /// Whether this is a text column.
    pub open spec fn spec_is_text(&self) -> bool {
        match self {
            Column::Numeric(_) => false,
            Column::Text(_) => true,
        }
    }

    /// Whether this is a text column, executable form.
    pub fn is_text(&self) -> (r: bool)
        ensures
            r == self.spec_is_text(),
    {
        match self {
            Column::Numeric(_) => false,
            Column::Text(_) => true,
        }
    }

    /// Whether the cell in row `i` is null: NaN for a numeric column,
    /// absence for a text column.
    pub open spec fn spec_cell_is_null(&self, i: int) -> bool {
        match self {
            Column::Numeric(v) => spec_is_nan(v@[i]),
            Column::Text(v) => spec_text_view(v@[i]) is None,
        }
    }

    /// Null-aware comparison of this column's cells in rows `i` and `j`,
    /// dispatching on the column tag.
    pub open spec fn spec_cell_cmp(&self, i: int, j: int, descending: bool, nulls_last: bool) -> Ord3 {
        match self {
            Column::Numeric(v) => spec_cmp_with_nulls(v@[i], v@[j], descending, nulls_last),
            Column::Text(v) => spec_cmp_text(
                spec_text_view(v@[i]),
                spec_text_view(v@[j]),
                descending,
                nulls_last,
            ),
        }
    }

    /// Null-aware comparison of two cells, executable form.
    pub fn cell_cmp(&self, i: usize, j: usize, descending: bool, nulls_last: bool) -> (r: Ord3)
        requires
            i < self.spec_len(),
            j < self.spec_len(),
        ensures
            r == self.spec_cell_cmp(i as int, j as int, descending, nulls_last),
    {
        match self {
            Column::Numeric(v) => cmp_with_nulls(v[i], v[j], descending, nulls_last),
            Column::Text(v) => cmp_text(&v[i], &v[j], descending, nulls_last),
        }
    }
}

/// All columns report `rc` rows.
pub open spec fn spec_cols_uniform(cols: Seq<Column>, rc: int) -> bool {
    forall|k: int| 0 <= k < cols.len() ==> (#[trigger] cols[k].spec_len()) == rc
}

/// Lexicographic comparison of rows `i` and `j` over the keys from column
/// `k` on: the first non-`Equal` per-column outcome decides; all-`Equal`
/// rows compare `Equal`.
pub open spec fn spec_row_cmp_from(
    cols: Seq<Column>,
    descending: Seq<bool>,
    nulls_last: Seq<bool>,
    i: int,
    j: int,
    k: int,
) -> Ord3
    decreases cols.len() - k,
{
    if k < 0 || k >= cols.len() {
        Ord3::Equal
    } else {
        let o = cols[k].spec_cell_cmp(i, j, descending[k], nulls_last[k]);
        if o == Ord3::Equal {
            spec_row_cmp_from(cols, descending, nulls_last, i, j, k + 1)
        } else {
            o
        }
    }
}

/// Lexicographic comparison of rows `i` and `j` over all sort keys.
pub open spec fn spec_row_cmp(
    cols: Seq<Column>,
    descending: Seq<bool>,
    nulls_last: Seq<bool>,
    i: int,
    j: int,
) -> Ord3 {
    spec_row_cmp_from(cols, descending, nulls_last, i, j, 0)
}

/// Row `i` sorts at or before row `j`.
pub open spec fn spec_row_le(
    cols: Seq<Column>,
    descending: Seq<bool>,
    nulls_last: Seq<bool>,
    i: int,
    j: int,
) -> bool {
    spec_row_cmp(cols, descending, nulls_last, i, j) != Ord3::Greater
}

/// Lexicographic row comparison, executable form.
pub fn row_cmp(
    cols: &Vec<Column>,
    descending: &Vec<bool>,
    nulls_last: &Vec<bool>,
    i: usize,
    j: usize,
) -> (r: Ord3)
    requires
        descending@.len() == cols@.len(),
        nulls_last@.len() == cols@.len(),
        forall|k: int|
            0 <= k < cols@.len() ==> i < (#[trigger] cols@[k].spec_len()) && j
                < cols@[k].spec_len(),
    ensures
        r == spec_row_cmp(cols@, descending@, nulls_last@, i as int, j as int),
{
    let n = cols.len();
    let mut k: usize = 0;
    while k < n
        invariant
            k <= n,
            n == cols@.len(),
            descending@.len() == n,
            nulls_last@.len() == n,
            forall|m: int|
                0 <= m < cols@.len() ==> i < (#[trigger] cols@[m].spec_len()) && j
                    < cols@[m].spec_len(),
            spec_row_cmp(cols@, descending@, nulls_last@, i as int, j as int)
                == spec_row_cmp_from(cols@, descending@, nulls_last@, i as int, j as int, k as int),
        decreases n - k,
    {
        let o = cols[k].cell_cmp(i, j, descending[k], nulls_last[k]);
        if !matches!(o, Ord3::Equal) {
            return o;
        }
        k = k + 1;
    }
    Ord3::Equal
}

/// Swapping the rows reverses a per-cell comparison.
pub proof fn lemma_cell_cmp_flip(col: Column, i: int, j: int, descending: bool, nulls_last: bool)
    ensures
        col.spec_cell_cmp(i, j, descending, nulls_last) == spec_reverse(
            col.spec_cell_cmp(j, i, descending, nulls_last),
        ),
{
    match col {
        Column::Numeric(_) => {},
        Column::Text(v) => {
            match (spec_text_view(v@[i]), spec_text_view(v@[j])) {
                (Option::Some(x), Option::Some(y)) => {
                    lemma_lex_flip(x, y);
                },
                _ => {},
            }
        },
    }
}

/// Per-cell comparison outcomes chain transitively.
pub proof fn lemma_cell_cmp_trans(
    col: Column,
    a: int,
    b: int,
    c: int,
    descending: bool,
    nulls_last: bool,
)
    ensures
        col.spec_cell_cmp(a, b, descending, nulls_last) == Ord3::Equal && col.spec_cell_cmp(
            b,
            c,
            descending,
            nulls_last,
        ) == Ord3::Equal ==> col.spec_cell_cmp(a, c, descending, nulls_last) == Ord3::Equal,
        col.spec_cell_cmp(a, b, descending, nulls_last) == Ord3::Equal && col.spec_cell_cmp(
            b,
            c,
            descending,
            nulls_last,
        ) == Ord3::Less ==> col.spec_cell_cmp(a, c, descending, nulls_last) == Ord3::Less,
        col.spec_cell_cmp(a, b, descending, nulls_last) == Ord3::Less && col.spec_cell_cmp(
            b,
            c,
            descending,
            nulls_last,
        ) == Ord3::Equal ==> col.spec_cell_cmp(a, c, descending, nulls_last) == Ord3::Less,
        col.spec_cell_cmp(a, b, descending, nulls_last) == Ord3::Less && col.spec_cell_cmp(
            b,
            c,
            descending,
            nulls_last,
        ) == Ord3::Less ==> col.spec_cell_cmp(a, c, descending, nulls_last) == Ord3::Less,
{
    match col {
        Column::Numeric(_) => {},
        Column::Text(v) => {
            match (spec_text_view(v@[a]), spec_text_view(v@[b]), spec_text_view(v@[c])) {
                (Option::Some(x), Option::Some(y), Option::Some(z)) => {
                    lemma_lex_eq(x, y);
                    lemma_lex_eq(y, z);
                    lemma_lex_eq(x, z);
                    lemma_lex_flip(x, y);
                    lemma_lex_flip(y, z);
                    lemma_lex_flip(x, z);
                    if spec_lex_cmp(x, y) == Ord3::Less && spec_lex_cmp(y, z) == Ord3::Less {
                        lemma_lex_trans(x, y, z);
                    }
                    if spec_lex_cmp(z, y) == Ord3::Less && spec_lex_cmp(y, x) == Ord3::Less {
                        lemma_lex_trans(z, y, x);
                    }
                },
                _ => {},
            }
        },
    }
}

/// Swapping the rows reverses the row comparison from key `k` on.
pub proof fn lemma_row_cmp_flip_from(
    cols: Seq<Column>,
    descending: Seq<bool>,
    nulls_last: Seq<bool>,
    i: int,
    j: int,
    k: int,
)
    ensures
        spec_row_cmp_from(cols, descending, nulls_last, i, j, k) == spec_reverse(
            spec_row_cmp_from(cols, descending, nulls_last, j, i, k),
        ),
    decreases cols.len() - k,
{
    if 0 <= k < cols.len() {
        lemma_cell_cmp_flip(cols[k], i, j, descending[k], nulls_last[k]);
        lemma_row_cmp_flip_from(cols, descending, nulls_last, i, j, k + 1);
    }
}

/// Swapping the rows reverses the row comparison.
pub proof fn lemma_row_cmp_flip(
    cols: Seq<Column>,
    descending: Seq<bool>,
    nulls_last: Seq<bool>,
    i: int,
    j: int,
)
    ensures
        spec_row_cmp(cols, descending, nulls_last, i, j) == spec_reverse(
            spec_row_cmp(cols, descending, nulls_last, j, i),
        ),
{
    lemma_row_cmp_flip_from(cols, descending, nulls_last, i, j, 0);
}

/// Row comparisons chain transitively from key `k` on.
pub proof fn lemma_row_cmp_trans_from(
    cols: Seq<Column>,
    descending: Seq<bool>,
    nulls_last: Seq<bool>,
    a: int,
    b: int,
    c: int,
    k: int,
)
    requires
        spec_row_cmp_from(cols, descending, nulls_last, a, b, k) != Ord3::Greater,
        spec_row_cmp_from(cols, descending, nulls_last, b, c, k) != Ord3::Greater,
    ensures
        spec_row_cmp_from(cols, descending, nulls_last, a, c, k) != Ord3::Greater,
        spec_row_cmp_from(cols, descending, nulls_last, a, b, k) == Ord3::Equal
            && spec_row_cmp_from(cols, descending, nulls_last, b, c, k) == Ord3::Equal
            ==> spec_row_cmp_from(cols, descending, nulls_last, a, c, k) == Ord3::Equal,
    decreases cols.len() - k,
{
    if 0 <= k < cols.len() {
        let x = cols[k].spec_cell_cmp(a, b, descending[k], nulls_last[k]);
        let y = cols[k].spec_cell_cmp(b, c, descending[k], nulls_last[k]);
        lemma_cell_cmp_trans(cols[k], a, b, c, descending[k], nulls_last[k]);
        if x == Ord3::Equal && y == Ord3::Equal {
            lemma_row_cmp_trans_from(cols, descending, nulls_last, a, b, c, k + 1);
        }
    }
}

/// A cell compares `Equal` to itself.
pub proof fn lemma_cell_cmp_refl(col: Column, i: int, descending: bool, nulls_last: bool)
    ensures
        col.spec_cell_cmp(i, i, descending, nulls_last) == Ord3::Equal,
{
    match col {
        Column::Numeric(_) => {},
        Column::Text(v) => {
            match spec_text_view(v@[i]) {
                Option::Some(x) => {
                    lemma_lex_eq(x, x);
                },
                Option::None => {},
            }
        },
    }
}

/// A row compares `Equal` to itself from key `k` on.
pub proof fn lemma_row_cmp_refl_from(
    cols: Seq<Column>,
    descending: Seq<bool>,
    nulls_last: Seq<bool>,
    i: int,
    k: int,
)
    ensures
        spec_row_cmp_from(cols, descending, nulls_last, i, i, k) == Ord3::Equal,
    decreases cols.len() - k,
{
    if 0 <= k < cols.len() {
        lemma_cell_cmp_refl(cols[k], i, descending[k], nulls_last[k]);
        lemma_row_cmp_refl_from(cols, descending, nulls_last, i, k + 1);
    }
}

/// A row compares `Equal` to itself.
pub proof fn lemma_row_cmp_refl(
    cols: Seq<Column>,
    descending: Seq<bool>,
    nulls_last: Seq<bool>,
    i: int,
)
    ensures
        spec_row_cmp(cols, descending, nulls_last, i, i) == Ord3::Equal,
{
    lemma_row_cmp_refl_from(cols, descending, nulls_last, i, 0);
}

/// The row order is total: of any two rows, one sorts at or before the other.
pub proof fn lemma_row_le_total(
    cols: Seq<Column>,
    descending: Seq<bool>,
    nulls_last: Seq<bool>,
    i: int,
    j: int,
)
    ensures
        spec_row_le(cols, descending, nulls_last, i, j) || spec_row_le(
            cols,
            descending,
            nulls_last,
            j,
            i,
        ),
        spec_row_le(cols, descending, nulls_last, i, j) && spec_row_le(
            cols,
            descending,
            nulls_last,
            j,
            i,
        ) ==> spec_row_cmp(cols, descending, nulls_last, i, j) == Ord3::Equal,
{
    lemma_row_cmp_flip(cols, descending, nulls_last, i, j);
}

/// Law: on a key whose cells are null in both rows — an all-null column in
/// particular — the rows compare `Equal` on that key, and the ordering falls
/// through to the next key.
pub proof fn lemma_null_key_falls_through(
    cols: Seq<Column>,
    descending: Seq<bool>,
    nulls_last: Seq<bool>,
    i: int,
    j: int,
    k: int,
)
    requires
        0 <= k < cols.len(),
        cols[k].spec_cell_is_null(i),
        cols[k].spec_cell_is_null(j),
    ensures
        cols[k].spec_cell_cmp(i, j, descending[k], nulls_last[k]) == Ord3::Equal,
        spec_row_cmp_from(cols, descending, nulls_last, i, j, k) == spec_row_cmp_from(
            cols,
            descending,
            nulls_last,
            i,
            j,
            k + 1,
        ),
{
}

/// The row order is transitive.
pub proof fn lemma_row_le_trans(
    cols: Seq<Column>,
    descending: Seq<bool>,
    nulls_last: Seq<bool>,
    a: int,
    b: int,
    c: int,
)
    requires
        spec_row_le(cols, descending, nulls_last, a, b),
        spec_row_le(cols, descending, nulls_last, b, c),
    ensures
        spec_row_le(cols, descending, nulls_last, a, c),
{
    lemma_row_cmp_trans_from(cols, descending, nulls_last, a, b, c, 0);
}

} // verus!
