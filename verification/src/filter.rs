//! The filter evaluator: resolves variables through a name-to-column table,
//! evaluates the compiled expression once per row, and collects the indices
//! of the rows whose result is truthy, in ascending order — sequentially
//! below the parallel threshold and work-partitioned at or above it.

use vstd::prelude::*;
use vstd::hash_map::StringHashMap;
use crate::PAR_FILTER_THRESHOLD;
use crate::EngineError;
use crate::column::Column;
use crate::numeric::{spec_is_nan, is_nan_bits};
use crate::expr::{Expr, ExprModel, spec_eval, spec_truthy, truthy_bits, apply_bin, neg_bits,
    is_false_bits, is_true_bits, bits_of_decimal, parse_decimal, BinOp};
use crate::parse::{compile_expression, spec_parse_expression};
use crate::sort::spec_row_count;
use rayon::iter::{IntoParallelIterator, ParallelIterator};

verus! {

/// The variable resolution table built from a name list: each name maps to
/// its position, a later occurrence of a repeated name winning.
pub open spec fn spec_name_table(names: Seq<String>) -> Map<Seq<char>, usize>
    decreases names.len(),
{
    if names.len() == 0 {
        Map::empty()
    } else {
        spec_name_table(names.drop_last()).insert(names.last()@, (names.len() - 1) as usize)
    }
}

/// Every column position the table can resolve to lies below `n`.
pub proof fn lemma_name_table_in_range(names: Seq<String>)
    ensures
        spec_table_in_range(spec_name_table(names), names.len() as int),
    decreases names.len(),
{
    if names.len() > 0 {
        lemma_name_table_in_range(names.drop_last());
        assert forall|name: Seq<char>|
            spec_name_table(names).contains_key(name) implies (#[trigger] spec_name_table(
            names,
        )[name] as int) < names.len() by {
            if name != names.last()@ {
                assert(spec_name_table(names.drop_last()).contains_key(name));
                assert((spec_name_table(names.drop_last())[name] as int) < names.drop_last().len());
            }
        }
    }
}

/// Builds the variable resolution table, once per filter call.
pub fn build_name_table(names: &Vec<String>) -> (r: StringHashMap<usize>)
    ensures
        r@ == spec_name_table(names@),
{
    let mut tbl = StringHashMap::<usize>::new();
    let mut i: usize = 0;
    while i < names.len()
        invariant
            i <= names@.len(),
            tbl@ == spec_name_table(names@.take(i as int)),
        decreases names@.len() - i,
    {
        tbl.insert(names[i].clone(), i);
        proof {
            assert(names@.take(i + 1).drop_last() =~= names@.take(i as int));
            assert(names@.take(i + 1).last() == names@[i as int]);
        }
        i = i + 1;
    }
    proof {
        assert(names@.take(names@.len() as int) =~= names@);
    }
    tbl
}

/// The value a column's cell contributes to a row's environment: a numeric
/// cell's bits unless NaN, a text cell's decimal reading unless absent or
/// unparsable; `None` marks the value unknown.
pub open spec fn spec_cell_value(col: Column, row: int) -> Option<u64> {
    match col {
        Column::Numeric(v) => if spec_is_nan(v@[row]) {
            None
        } else {
            Some(v@[row])
        },
        Column::Text(v) => match v@[row] {
            Some(s) => bits_of_decimal(s@),
            None => None,
        },
    }
}

/// The environment a row presents to the expression: each name the table
/// resolves is bound to its column's cell value in that row.
pub open spec fn spec_row_env(
    tbl: Map<Seq<char>, usize>,
    cols: Seq<Column>,
    row: int,
) -> Map<Seq<char>, Option<u64>> {
    Map::new(
        |name: Seq<char>| tbl.contains_key(name),
        |name: Seq<char>| spec_cell_value(cols[tbl[name] as int], row),
    )
}

/// All table values resolve to a column.
pub open spec fn spec_table_in_range(tbl: Map<Seq<char>, usize>, n_cols: int) -> bool {
    forall|name: Seq<char>| #![trigger tbl[name]] tbl.contains_key(name) ==> (tbl[name] as int) < n_cols
}

/// Evaluates the compiled expression on one row, resolving variables through
/// the table; `None` marks a row whose evaluation failed.
pub fn eval_expr(
    e: &Expr,
    tbl: &StringHashMap<usize>,
    columns: &Vec<Column>,
    row: usize,
) -> (r: Option<u64>)
    requires
        spec_table_in_range(tbl@, columns@.len() as int),
        forall|k: int| 0 <= k < columns@.len() ==> row < (#[trigger] columns@[k].spec_len()),
    ensures
        r == spec_eval(e@, spec_row_env(tbl@, columns@, row as int)),
    decreases e,
{
    match e {
        Expr::Lit(v) => Some(*v),
        Expr::Var(name) => {
            match tbl.get(name.as_str()) {
                None => None,
                Some(idx) => {
                    let i = *idx;
                    proof {
                        assert(tbl@.contains_key(name@));
                        assert((tbl@[name@] as int) < columns@.len());
                        assert(row < columns@[i as int].spec_len());
                    }
                    match &columns[i] {
                        Column::Numeric(v) => {
                            let b = v[row];
                            if is_nan_bits(b) {
                                None
                            } else {
                                Some(b)
                            }
                        },
                        Column::Text(v) => match &v[row] {
                            Some(s) => parse_decimal(s.as_str()),
                            None => None,
                        },
                    }
                },
            }
        },
        Expr::Neg(inner) => {
            match eval_expr(inner, tbl, columns, row) {
                Some(v) => Some(neg_bits(v)),
                None => None,
            }
        },
        Expr::Bin(op, l, r) => {
            match op {
                BinOp::And => {
                    match eval_expr(l, tbl, columns, row) {
                        Some(lv) => if is_false_bits(lv) {
                            Some(lv)
                        } else {
                            eval_expr(r, tbl, columns, row)
                        },
                        None => None,
                    }
                },
                BinOp::Or => {
                    match eval_expr(l, tbl, columns, row) {
                        Some(lv) => if is_true_bits(lv) {
                            Some(lv)
                        } else {
                            eval_expr(r, tbl, columns, row)
                        },
                        None => None,
                    }
                },
                _ => {
                    let lv = eval_expr(l, tbl, columns, row);
                    let rv = eval_expr(r, tbl, columns, row);
                    match (lv, rv) {
                        (Some(a), Some(b)) => Some(apply_bin(*op, a, b)),
                        _ => None,
                    }
                },
            }
        },
    }
}

/// Whether a row is selected: its evaluation succeeded and the result is
/// truthy (nonzero and not NaN).
pub open spec fn spec_row_passes(
    e: ExprModel,
    tbl: Map<Seq<char>, usize>,
    cols: Seq<Column>,
    row: int,
) -> bool {
    match spec_eval(e, spec_row_env(tbl, cols, row)) {
        Some(v) => spec_truthy(v),
        None => false,
    }
}

/// Whether a row is selected, executable form.
pub fn row_passes(e: &Expr, tbl: &StringHashMap<usize>, columns: &Vec<Column>, row: usize) -> (r:
    bool)
    requires
        spec_table_in_range(tbl@, columns@.len() as int),
        forall|k: int| 0 <= k < columns@.len() ==> row < (#[trigger] columns@[k].spec_len()),
    ensures
        r == spec_row_passes(e@, tbl@, columns@, row as int),
{
    match eval_expr(e, tbl, columns, row) {
        Some(v) => truthy_bits(v),
        None => false,
    }
}

/// The selected rows among the first `n`, in ascending order.
pub open spec fn spec_matching_rows(
    e: ExprModel,
    tbl: Map<Seq<char>, usize>,
    cols: Seq<Column>,
    n: int,
) -> Seq<usize>
    decreases n,
{
    if n <= 0 {
        Seq::empty()
    } else {
        let prefix = spec_matching_rows(e, tbl, cols, n - 1);
        if spec_row_passes(e, tbl, cols, n - 1) {
            prefix.push((n - 1) as usize)
        } else {
            prefix
        }
    }
}

/// Sequential path: evaluates the rows in order and collects the selected
/// indices.
pub fn filter_rows_seq(
    e: &Expr,
    tbl: &StringHashMap<usize>,
    columns: &Vec<Column>,
    row_count: usize,
) -> (r: Vec<usize>)
    requires
        spec_table_in_range(tbl@, columns@.len() as int),
        forall|k: int| 0 <= k < columns@.len() ==> row_count <= (#[trigger] columns@[k].spec_len()),
    ensures
        r@ == spec_matching_rows(e@, tbl@, columns@, row_count as int),
{
    let mut out: Vec<usize> = Vec::new();
    let mut i: usize = 0;
    while i < row_count
        invariant
            i <= row_count,
            spec_table_in_range(tbl@, columns@.len() as int),
            forall|k: int|
                0 <= k < columns@.len() ==> row_count <= (#[trigger] columns@[k].spec_len()),
            out@ == spec_matching_rows(e@, tbl@, columns@, i as int),
        decreases row_count - i,
    {
        if row_passes(e, tbl, columns, i) {
            out.push(i);
        }
        i = i + 1;
    }
    out
}

/// Parallel path.
///
/// Relies on rayon's `IntoParallelIterator` for ranges with
/// `ParallelIterator::filter` and `collect` into a `Vec`: the row range is
/// partitioned across workers, and collecting reassembles the per-partition
/// results in the range's order, with `filter` keeping the relative order of
/// the rows it passes through — so the collected indices are exactly the
/// selected rows in ascending order.  The predicate handed over is the
/// verified `row_passes`.
#[verifier::external_body]
pub fn filter_rows_par(
    e: &Expr,
    tbl: &StringHashMap<usize>,
    columns: &Vec<Column>,
    row_count: usize,
) -> (r: Vec<usize>)
    requires
        spec_table_in_range(tbl@, columns@.len() as int),
        forall|k: int| 0 <= k < columns@.len() ==> row_count <= (#[trigger] columns@[k].spec_len()),
    ensures
        r@ == spec_matching_rows(e@, tbl@, columns@, row_count as int),
{
    (0..row_count).into_par_iter().filter(|&i: &usize| row_passes(e, tbl, columns, i)).collect()
}

/// Computes the indices of the rows the compiled expression selects, in
/// ascending row order.  The expression is compiled exactly once; an
/// over-long expression fails with `ExpressionTooLong` before any parsing
/// work, an ill-formed one with `ExpressionParseError` before any validation,
/// and a length mismatch — among `names`, `columns` and `is_string`, or among
/// the column row counts — with `LengthMismatch` before any row is evaluated.
/// Per-row evaluation failures are not errors: such rows are left out.  The
/// tag carried by each `Column` is authoritative for how its cells are read;
/// `is_string` mirrors those tags in the host's call shape and only its
/// length is validated.
pub fn compute_filter_indices(
    expr_str: &str,
    names: &Vec<String>,
    columns: &Vec<Column>,
    is_string: &Vec<bool>,
) -> (r: Result<Vec<usize>, EngineError>)
    ensures
        ({
            let toolong = expr_str@.len() > crate::MAX_FILTER_EXPR_LEN;
            let parsed = spec_parse_expression(expr_str@);
            let n = names@.len();
            let mismatch = n != columns@.len() || n != is_string@.len() || exists|k: int|
                0 <= k < columns@.len() && (#[trigger] columns@[k]).spec_len()
                    != columns@[0].spec_len();
            &&& (r == Err::<Vec<usize>, EngineError>(EngineError::ExpressionTooLong) <==> toolong)
            &&& (!toolong ==> ((r matches Err(e) && e is ExpressionParseError) <==> parsed
                is None))
            &&& (!toolong && parsed is Some ==> ((r == Err::<Vec<usize>, EngineError>(
                EngineError::LengthMismatch,
            )) <==> mismatch))
            &&& (parsed is Some && !toolong && !mismatch ==> (r matches Ok(v) && v@
                == spec_matching_rows(
                parsed->0,
                spec_name_table(names@),
                columns@,
                spec_row_count(columns@),
            )))
        }),
{
    let row_count: usize = if columns.len() == 0 {
        0
    } else {
        columns[0].len()
    };
    filter_indices_with(expr_str, names, columns, is_string, row_count >= PAR_FILTER_THRESHOLD)
}

/// The filter operation with a pinned strategy: `parallel` false runs the
/// verified sequential row loop, true the rayon-backed parallel path.  Same
/// contract as `compute_filter_indices`, whichever strategy runs.
pub fn filter_indices_with(
    expr_str: &str,
    names: &Vec<String>,
    columns: &Vec<Column>,
    is_string: &Vec<bool>,
    parallel: bool,
) -> (r: Result<Vec<usize>, EngineError>)
    ensures
        ({
            let toolong = expr_str@.len() > crate::MAX_FILTER_EXPR_LEN;
            let parsed = spec_parse_expression(expr_str@);
            let n = names@.len();
            let mismatch = n != columns@.len() || n != is_string@.len() || exists|k: int|
                0 <= k < columns@.len() && (#[trigger] columns@[k]).spec_len()
                    != columns@[0].spec_len();
            &&& (r == Err::<Vec<usize>, EngineError>(EngineError::ExpressionTooLong) <==> toolong)
            &&& (!toolong ==> ((r matches Err(e) && e is ExpressionParseError) <==> parsed
                is None))
            &&& (!toolong && parsed is Some ==> ((r == Err::<Vec<usize>, EngineError>(
                EngineError::LengthMismatch,
            )) <==> mismatch))
            &&& (parsed is Some && !toolong && !mismatch ==> (r matches Ok(v) && v@
                == spec_matching_rows(
                parsed->0,
                spec_name_table(names@),
                columns@,
                spec_row_count(columns@),
            )))
        }),
{
    let ast = match compile_expression(expr_str) {
        Ok(a) => a,
        Err(e) => {
            return Err(e);
        },
    };
    let n = names.len();
    if n != columns.len() || n != is_string.len() {
        return Err(EngineError::LengthMismatch);
    }
    if columns.len() > 0 {
        let len0 = columns[0].len();
        let mut k: usize = 1;
        while k < columns.len()
            invariant
                1 <= k <= columns@.len(),
                len0 == columns@[0].spec_len(),
                forall|m: int| 0 <= m < k ==> (#[trigger] columns@[m]).spec_len() == len0,
                expr_str@.len() <= crate::MAX_FILTER_EXPR_LEN,
                spec_parse_expression(expr_str@) == Some(ast@),
                names@.len() == columns@.len(),
                names@.len() == is_string@.len(),
            decreases columns@.len() - k,
        {
            if columns[k].len() != len0 {
                return Err(EngineError::LengthMismatch);
            }
            k = k + 1;
        }
    }
    let tbl = build_name_table(names);
    proof {
        lemma_name_table_in_range(names@);
    }
    let row_count: usize = if columns.len() == 0 {
        0
    } else {
        columns[0].len()
    };
    if row_count == 0 {
        let v: Vec<usize> = Vec::new();
        proof {
            assert(v@ =~= spec_matching_rows(
                ast@,
                spec_name_table(names@),
                columns@,
                spec_row_count(columns@),
            ));
        }
        return Ok(v);
    }
    if parallel {
        Ok(filter_rows_par(&ast, &tbl, columns, row_count))
    } else {
        Ok(filter_rows_seq(&ast, &tbl, columns, row_count))
    }
}

/// Law: the execution strategy does not affect the filter outcome.  Both
/// paths return exactly the selected rows in ascending order, so their
/// results coincide.
pub proof fn lemma_filter_strategy_agrees(
    r1: Seq<usize>,
    r2: Seq<usize>,
    e: ExprModel,
    tbl: Map<Seq<char>, usize>,
    cols: Seq<Column>,
    n: int,
)
    requires
        r1 == spec_matching_rows(e, tbl, cols, n),
        r2 == spec_matching_rows(e, tbl, cols, n),
    ensures
        r1 == r2,
{
}

/// The selected-row sequence read as a set: it is strictly ascending, all its
/// indices lie below `n`, and it holds exactly the rows that pass.
pub proof fn lemma_matching_rows_props(
    e: ExprModel,
    tbl: Map<Seq<char>, usize>,
    cols: Seq<Column>,
    n: int,
)
    requires
        n <= usize::MAX,
    ensures
        forall|p: int, q: int|
            0 <= p < q < spec_matching_rows(e, tbl, cols, n).len() ==> spec_matching_rows(
                e,
                tbl,
                cols,
                n,
            )[p] < spec_matching_rows(e, tbl, cols, n)[q],
        forall|t: int|
            0 <= t < spec_matching_rows(e, tbl, cols, n).len() ==> (#[trigger] spec_matching_rows(
                e,
                tbl,
                cols,
                n,
            )[t] as int) < n,
        forall|v: usize|
            0 <= (v as int) < n ==> (spec_matching_rows(e, tbl, cols, n).contains(v)
                <==> spec_row_passes(e, tbl, cols, v as int)),
    decreases n,
{
    if n > 0 {
        lemma_matching_rows_props(e, tbl, cols, n - 1);
        let prev = spec_matching_rows(e, tbl, cols, n - 1);
        let cur = spec_matching_rows(e, tbl, cols, n);
        assert forall|t: int| 0 <= t < cur.len() implies (#[trigger] cur[t] as int) < n by {
            if t < prev.len() {
                assert(cur[t] == prev[t]);
            }
        }
        assert forall|p: int, q: int| 0 <= p < q < cur.len() implies cur[p] < cur[q] by {
            if q < prev.len() {
                assert(cur[p] == prev[p] && cur[q] == prev[q]);
                assert(prev[p] < prev[q]);
            } else {
                assert(spec_row_passes(e, tbl, cols, n - 1));
                assert(cur == prev.push((n - 1) as usize));
                assert(cur[p] == prev[p]);
                assert(cur[q] == (n - 1) as usize);
                assert((prev[p] as int) < n - 1);
            }
        }
        assert forall|v: usize|
            0 <= (v as int) < n implies (cur.contains(v) <==> spec_row_passes(
            e,
            tbl,
            cols,
            v as int,
        )) by {
            if (v as int) < n - 1 {
                if prev.contains(v) {
                    let t = choose|t: int| 0 <= t < prev.len() && prev[t] == v;
                    assert(cur[t] == v);
                }
                if cur.contains(v) {
                    let t = choose|t: int| 0 <= t < cur.len() && cur[t] == v;
                    if t < prev.len() {
                        assert(prev[t] == v);
                    }
                }
            } else {
                if spec_row_passes(e, tbl, cols, v as int) {
                    assert(cur.last() == v);
                }
                if cur.contains(v) {
                    let t = choose|t: int| 0 <= t < cur.len() && cur[t] == v;
                    if t < prev.len() {
                        assert(prev[t] == v);
                    }
                }
            }
        }
    }
}

} // verus!
