//! The sort engine: produces a row-index permutation ordered by the
//! lexicographic multi-key row comparator, with a sequential path below the
//! parallel threshold and a work-partitioned parallel path at or above it.

use vstd::prelude::*;
use crate::PAR_SORT_THRESHOLD;
use crate::EngineError;
use crate::column::{
    Column,
    spec_cols_uniform,
    spec_row_cmp,
    spec_row_le,
    row_cmp,
    lemma_row_cmp_flip,
    lemma_row_cmp_refl,
    lemma_row_le_trans,
    lemma_row_le_total,
};
use crate::numeric::Ord3;
use rayon::slice::ParallelSliceMut;

verus! {

/// The first `n` row indices, in order.
pub open spec fn spec_iota(n: int) -> Seq<usize> {
    Seq::new(n as nat, |i: int| i as usize)
}

/// `s` holds every index in `[0, n)` exactly once: the bijection property.
pub open spec fn spec_is_perm_of_range(s: Seq<usize>, n: int) -> bool {
    &&& s.len() == n
    &&& s.to_multiset() == spec_iota(n).to_multiset()
}

/// Every index in `s` is a valid row of every column.
pub open spec fn spec_rows_in_range(s: Seq<usize>, cols: Seq<Column>) -> bool {
    forall|t: int, k: int|
        #![trigger s[t], cols[k]]
        0 <= t < s.len() && 0 <= k < cols.len() ==> (s[t] as int) < cols[k].spec_len()
}

/// The indices in `s` are ordered by the row comparator.
pub open spec fn spec_sorted_by_rows(
    s: Seq<usize>,
    cols: Seq<Column>,
    descending: Seq<bool>,
    nulls_last: Seq<bool>,
) -> bool {
    forall|p: int, q: int|
        0 <= p < q < s.len() ==> spec_row_le(cols, descending, nulls_last, s[p] as int, s[q] as int)
}

/// The shared row count of a column set (zero when there are no columns).
pub open spec fn spec_row_count(cols: Seq<Column>) -> int {
    if cols.len() == 0 {
        0
    } else {
        cols[0].spec_len() as int
    }
}

/// Each value below `n` occurs exactly once among the first `n` indices.
pub proof fn lemma_iota_count(n: int, v: usize)
    requires
        0 <= n <= usize::MAX,
    ensures
        spec_iota(n).to_multiset().count(v) == if (v as int) < n {
            1nat
        } else {
            0nat
        },
    decreases n,
{
    broadcast use vstd::seq_lib::group_to_multiset_ensures;
    broadcast use vstd::multiset::group_multiset_axioms;
    broadcast use vstd::multiset::group_multiset_properties;

    if n > 0 {
        lemma_iota_count(n - 1, v);
        assert(spec_iota(n) =~= spec_iota(n - 1).push((n - 1) as usize));
        assert(spec_iota(n - 1).push((n - 1) as usize).to_multiset() =~= spec_iota(
            n - 1,
        ).to_multiset().insert((n - 1) as usize));
        assert(spec_iota(n - 1).to_multiset().insert((n - 1) as usize).count(v) == spec_iota(
            n - 1,
        ).to_multiset().count(v) + if v == (n - 1) as usize {
            1nat
        } else {
            0nat
        });
    } else {
        assert(spec_iota(0) =~= Seq::<usize>::empty());
        assert(Seq::<usize>::empty().to_multiset().count(v) == 0);
    }
}

/// A permutation of `[0, n)` read as a bijection: its entries are pairwise
/// distinct, all lie below `n`, and every index below `n` occurs.
pub proof fn lemma_perm_bijective(s: Seq<usize>, n: int)
    requires
        0 <= n <= usize::MAX,
        spec_is_perm_of_range(s, n),
    ensures
        forall|p: int, q: int| 0 <= p < q < s.len() ==> s[p] != s[q],
        forall|t: int| 0 <= t < s.len() ==> (#[trigger] s[t] as int) < n,
        forall|v: usize| (v as int) < n ==> s.contains(v),
{
    broadcast use vstd::seq_lib::group_to_multiset_ensures;
    broadcast use vstd::multiset::group_multiset_axioms;

    assert forall|v: usize| s.to_multiset().contains(v) implies s.to_multiset().count(v) == 1 by {
        lemma_iota_count(n, v);
    }
    s.lemma_multiset_has_no_duplicates_conv();
    assert forall|t: int| 0 <= t < s.len() implies (#[trigger] s[t] as int) < n by {
        assert(s.contains(s[t]));
        lemma_iota_count(n, s[t]);
    }
    assert forall|v: usize| (v as int) < n implies s.contains(v) by {
        lemma_iota_count(n, v);
    }
    assert forall|p: int, q: int| 0 <= p < q < s.len() implies s[p] != s[q] by {
        assert(s.no_duplicates());
    }
}

/// Sequential path: selection sort of the index vector by the row comparator.
pub fn sort_indices_seq(
    idx: &mut Vec<usize>,
    cols: &Vec<Column>,
    descending: &Vec<bool>,
    nulls_last: &Vec<bool>,
)
    requires
        descending@.len() == cols@.len(),
        nulls_last@.len() == cols@.len(),
        spec_rows_in_range(old(idx)@, cols@),
    ensures
        final(idx)@.len() == old(idx)@.len(),
        final(idx)@.to_multiset() == old(idx)@.to_multiset(),
        spec_rows_in_range(final(idx)@, cols@),
        spec_sorted_by_rows(final(idx)@, cols@, descending@, nulls_last@),
{
    let ghost orig = idx@;
    let n = idx.len();
    let mut i: usize = 0;
    while i < n
        invariant
            i <= n,
            idx@.len() == n,
            descending@.len() == cols@.len(),
            nulls_last@.len() == cols@.len(),
            idx@.to_multiset() == orig.to_multiset(),
            spec_rows_in_range(idx@, cols@),
            forall|p: int, q: int|
                0 <= p < q < i ==> spec_row_le(
                    cols@,
                    descending@,
                    nulls_last@,
                    idx@[p] as int,
                    idx@[q] as int,
                ),
            forall|p: int, q: int|
                0 <= p < i <= q < n ==> spec_row_le(
                    cols@,
                    descending@,
                    nulls_last@,
                    idx@[p] as int,
                    idx@[q] as int,
                ),
        decreases n - i,
    {
        // Find the position of a minimal row among [i, n).
        let mut m: usize = i;
        let mut t: usize = i + 1;
        proof {
            lemma_row_cmp_refl(cols@, descending@, nulls_last@, idx@[i as int] as int);
        }
        while t < n
            invariant
                i <= m < t <= n,
                idx@.len() == n,
                descending@.len() == cols@.len(),
                nulls_last@.len() == cols@.len(),
                spec_rows_in_range(idx@, cols@),
                forall|q: int|
                    i <= q < t ==> spec_row_le(
                        cols@,
                        descending@,
                        nulls_last@,
                        idx@[m as int] as int,
                        idx@[q] as int,
                    ),
            decreases n - t,
        {
            let o = row_cmp(cols, descending, nulls_last, idx[t], idx[m]);
            if matches!(o, Ord3::Less) {
                proof {
                    assert forall|q: int|
                        i <= q < t + 1 implies spec_row_le(
                        cols@,
                        descending@,
                        nulls_last@,
                        idx@[t as int] as int,
                        idx@[q] as int,
                    ) by {
                        if q == t {
                            lemma_row_cmp_refl(cols@, descending@, nulls_last@, idx@[t as int] as int);
                        } else {
                            lemma_row_le_trans(
                                cols@,
                                descending@,
                                nulls_last@,
                                idx@[t as int] as int,
                                idx@[m as int] as int,
                                idx@[q] as int,
                            );
                        }
                    }
                }
                m = t;
            } else {
                proof {
                    lemma_row_cmp_flip(
                        cols@,
                        descending@,
                        nulls_last@,
                        idx@[m as int] as int,
                        idx@[t as int] as int,
                    );
                }
            }
            t = t + 1;
        }
        // Swap the minimal row into position i.
        let ghost before = idx@;
        let vi = idx[i];
        let vm = idx[m];
        idx[i] = vm;
        idx[m] = vi;
        proof {
            broadcast use vstd::seq_lib::to_multiset_update;
            broadcast use vstd::multiset::group_multiset_axioms;
            broadcast use vstd::multiset::group_multiset_properties;

            let s1 = before.update(i as int, vm);
            let s2 = s1.update(m as int, vi);
            assert(idx@ =~= s2);
            if m == i {
                assert(idx@ =~= before);
            } else {
                assert(s1.to_multiset() == before.to_multiset().insert(vm).remove(vi));
                assert(s2.to_multiset() == s1.to_multiset().insert(vi).remove(vm));
                assert(before.to_multiset().count(vi) > 0) by {
                    broadcast use vstd::seq_lib::group_to_multiset_ensures;

                    assert(before.contains(vi));
                }
                assert(before.to_multiset().count(vm) > 0) by {
                    broadcast use vstd::seq_lib::group_to_multiset_ensures;

                    assert(before.contains(vm));
                }
                assert(idx@.to_multiset() =~= before.to_multiset());
            }
            assert forall|p: int, q: int| 0 <= p < q < i + 1 implies spec_row_le(
                cols@,
                descending@,
                nulls_last@,
                idx@[p] as int,
                idx@[q] as int,
            ) by {
                if q == i {
                    assert(idx@[p] == before[p]);
                    assert(idx@[q] == before[m as int]);
                }
            }
            assert forall|p: int, q: int| 0 <= p < i + 1 <= q < n implies spec_row_le(
                cols@,
                descending@,
                nulls_last@,
                idx@[p] as int,
                idx@[q] as int,
            ) by {
                let oldq: int = if q == m {
                    i as int
                } else {
                    q
                };
                assert(idx@[q] == before[oldq]);
                if p < i {
                    assert(idx@[p] == before[p]);
                } else {
                    assert(idx@[p] == before[m as int]);
                }
            }
        }
        i = i + 1;
    }
}

/// Parallel path.
///
/// Relies on rayon's `ParallelSliceMut::par_sort_unstable_by`: it reorders the
/// slice in place (a permutation of its elements) and leaves it sorted
/// according to the given comparator.  The comparator handed over is the
/// verified `row_cmp`, which is a total preorder on valid row indices
/// (`lemma_row_le_total`, `lemma_row_le_trans`), as rayon requires; the order
/// of fully tied rows is left unspecified, which the postcondition does not
/// constrain either.
#[verifier::external_body]
fn sort_indices_par(
    idx: &mut Vec<usize>,
    cols: &Vec<Column>,
    descending: &Vec<bool>,
    nulls_last: &Vec<bool>,
)
    requires
        descending@.len() == cols@.len(),
        nulls_last@.len() == cols@.len(),
        spec_rows_in_range(old(idx)@, cols@),
    ensures
        final(idx)@.len() == old(idx)@.len(),
        final(idx)@.to_multiset() == old(idx)@.to_multiset(),
        spec_rows_in_range(final(idx)@, cols@),
        spec_sorted_by_rows(final(idx)@, cols@, descending@, nulls_last@),
{
    idx.par_sort_unstable_by(|a: &usize, b: &usize|
        match row_cmp(cols, descending, nulls_last, *a, *b) {
            Ord3::Less => std::cmp::Ordering::Less,
            Ord3::Equal => std::cmp::Ordering::Equal,
            Ord3::Greater => std::cmp::Ordering::Greater,
        })
}

/// The index vector `0, 1, .., rc - 1`.
fn make_iota(rc: usize) -> (r: Vec<usize>)
    ensures
        r@ == spec_iota(rc as int),
{
    let mut indices: Vec<usize> = Vec::new();
    let mut i: usize = 0;
    while i < rc
        invariant
            i <= rc,
            indices@ == spec_iota(i as int),
        decreases rc - i,
    {
        indices.push(i);
        proof {
            assert(indices@ =~= spec_iota(i + 1));
        }
        i = i + 1;
    }
    indices
}

/// Argsort over tagged columns with a pinned strategy: `parallel` false runs
/// the verified sequential sort, true the rayon-backed parallel sort.  Both
/// return a permutation of `[0, row count)` ordered by the row comparator.
pub fn argsort_mixed_with(
    columns: &Vec<Column>,
    descending: &Vec<bool>,
    nulls_last: &Vec<bool>,
    parallel: bool,
) -> (r: Vec<usize>)
    requires
        descending@.len() == columns@.len(),
        nulls_last@.len() == columns@.len(),
        spec_cols_uniform(columns@, spec_row_count(columns@)),
    ensures
        spec_is_perm_of_range(r@, spec_row_count(columns@)),
        spec_sorted_by_rows(r@, columns@, descending@, nulls_last@),
{
    if columns.is_empty() {
        let r: Vec<usize> = Vec::new();
        proof {
            assert(r@ =~= spec_iota(0));
        }
        return r;
    }
    let rc = columns[0].len();
    let mut indices = make_iota(rc);
    proof {
        assert forall|t: int, k: int|
            #![trigger indices@[t], columns@[k]]
            0 <= t < indices@.len() && 0 <= k < columns@.len() implies (indices@[t] as int)
            < columns@[k].spec_len() by {
            assert(columns@[k].spec_len() == spec_row_count(columns@));
        }
    }
    if parallel {
        sort_indices_par(&mut indices, columns, descending, nulls_last);
    } else {
        sort_indices_seq(&mut indices, columns, descending, nulls_last);
    }
    indices
}

/// Argsort over tagged columns, dispatching on the parallel threshold:
/// sequential below `PAR_SORT_THRESHOLD` rows, parallel at or above it.
pub fn argsort_mixed_core(
    columns: &Vec<Column>,
    descending: &Vec<bool>,
    nulls_last: &Vec<bool>,
) -> (r: Vec<usize>)
    requires
        descending@.len() == columns@.len(),
        nulls_last@.len() == columns@.len(),
        spec_cols_uniform(columns@, spec_row_count(columns@)),
    ensures
        spec_is_perm_of_range(r@, spec_row_count(columns@)),
        spec_sorted_by_rows(r@, columns@, descending@, nulls_last@),
{
    if columns.is_empty() {
        let r: Vec<usize> = Vec::new();
        proof {
            assert(r@ =~= spec_iota(0));
        }
        return r;
    }
    let rc = columns[0].len();
    argsort_mixed_with(columns, descending, nulls_last, rc >= PAR_SORT_THRESHOLD)
}

/// The numeric-only column set read as tagged columns.
pub open spec fn spec_num_columns(arrays: Seq<Vec<u64>>) -> Seq<Column> {
    arrays.map_values(|v: Vec<u64>| Column::Numeric(v))
}

/// Wraps each numeric array into a tagged column, taking ownership so no
/// buffer is copied.
fn wrap_numeric_columns(arrays: Vec<Vec<u64>>) -> (r: Vec<Column>)
    ensures
        r@ == spec_num_columns(arrays@),
{
    let ghost orig = arrays@;
    let mut rest = arrays;
    let mut columns: Vec<Column> = Vec::new();
    while rest.len() > 0
        invariant
            columns@.len() + rest@.len() == orig.len(),
            columns@ == spec_num_columns(orig.take(columns@.len() as int)),
            rest@ == orig.skip(columns@.len() as int),
        decreases rest@.len(),
    {
        let ghost k = columns@.len() as int;
        let v = rest.remove(0);
        proof {
            assert(orig.skip(k)[0] == orig[k]);
            assert(orig.skip(k).remove(0) =~= orig.skip(k + 1));
        }
        columns.push(Column::Numeric(v));
        proof {
            assert(columns@ =~= spec_num_columns(orig.take(k + 1)));
        }
    }
    proof {
        assert(orig.take(columns@.len() as int) =~= orig);
    }
    columns
}

/// Argsort over numeric-only columns, dispatching on the parallel threshold.
pub fn argsort_numeric_core(
    arrays: Vec<Vec<u64>>,
    descending: &Vec<bool>,
    nulls_last: &Vec<bool>,
) -> (r: Vec<usize>)
    requires
        descending@.len() == arrays@.len(),
        nulls_last@.len() == arrays@.len(),
        spec_cols_uniform(spec_num_columns(arrays@), spec_row_count(spec_num_columns(arrays@))),
    ensures
        spec_is_perm_of_range(r@, spec_row_count(spec_num_columns(arrays@))),
        spec_sorted_by_rows(r@, spec_num_columns(arrays@), descending@, nulls_last@),
{
    let columns = wrap_numeric_columns(arrays);
    argsort_mixed_core(&columns, descending, nulls_last)
}

/// Validated argsort over numeric columns.  With no columns the result is
/// empty; a length mismatch among the parameter arrays or the column row
/// counts fails with `LengthMismatch`, and exactly then; otherwise the result
/// is a permutation of `[0, row count)` ordered by the row comparator.
pub fn argsort_numeric(
    columns: Vec<Vec<u64>>,
    descending: &Vec<bool>,
    nulls_last: &Vec<bool>,
) -> (r: Result<Vec<usize>, EngineError>)
    ensures
        ({
            let n = columns@.len();
            let mismatch = n > 0 && (descending@.len() != n || nulls_last@.len() != n || exists|
                k: int,
            |
                0 <= k < n && (#[trigger] columns@[k])@.len() != columns@[0]@.len());
            &&& (r is Err <==> mismatch)
            &&& (mismatch ==> r == Err::<Vec<usize>, EngineError>(EngineError::LengthMismatch))
            &&& (r matches Ok(v) ==> spec_is_perm_of_range(
                v@,
                spec_row_count(spec_num_columns(columns@)),
            ) && spec_sorted_by_rows(v@, spec_num_columns(columns@), descending@, nulls_last@))
        }),
{
    if columns.len() == 0 {
        let v: Vec<usize> = Vec::new();
        proof {
            assert(v@ =~= spec_iota(0));
        }
        return Ok(v);
    }
    let n = columns.len();
    if descending.len() != n || nulls_last.len() != n {
        return Err(EngineError::LengthMismatch);
    }
    let len0 = columns[0].len();
    let mut k: usize = 1;
    while k < n
        invariant
            1 <= k <= n,
            n == columns@.len(),
            len0 == columns@[0]@.len(),
            forall|m: int| 0 <= m < k ==> (#[trigger] columns@[m])@.len() == len0,
        decreases n - k,
    {
        if columns[k].len() != len0 {
            return Err(EngineError::LengthMismatch);
        }
        k = k + 1;
    }
    proof {
        assert forall|m: int|
            0 <= m < spec_num_columns(columns@).len() implies (#[trigger] spec_num_columns(
            columns@,
        )[m]).spec_len() == spec_row_count(spec_num_columns(columns@)) by {
            assert(columns@[m]@.len() == len0);
        }
    }
    Ok(argsort_numeric_core(columns, descending, nulls_last))
}

/// Validated argsort over tagged columns.  With no columns the result is
/// empty; a length mismatch among `is_string`, `descending`, `nulls_last` and
/// the columns, or among the column row counts, fails with `LengthMismatch`,
/// and exactly then; otherwise the result is a permutation of
/// `[0, row count)` ordered by the row comparator.  The tag carried by each
/// `Column` is authoritative for how its cells compare; `is_string` mirrors
/// those tags in the host's call shape and only its length is validated.
pub fn argsort_mixed(
    columns: &Vec<Column>,
    is_string: &Vec<bool>,
    descending: &Vec<bool>,
    nulls_last: &Vec<bool>,
) -> (r: Result<Vec<usize>, EngineError>)
    ensures
        ({
            let n = columns@.len();
            let mismatch = n > 0 && (is_string@.len() != n || descending@.len() != n
                || nulls_last@.len() != n || exists|k: int|
                0 <= k < n && (#[trigger] columns@[k]).spec_len() != columns@[0].spec_len());
            &&& (r is Err <==> mismatch)
            &&& (mismatch ==> r == Err::<Vec<usize>, EngineError>(EngineError::LengthMismatch))
            &&& (r matches Ok(v) ==> spec_is_perm_of_range(v@, spec_row_count(columns@))
                && spec_sorted_by_rows(v@, columns@, descending@, nulls_last@))
        }),
{
    if columns.len() == 0 {
        let v: Vec<usize> = Vec::new();
        proof {
            assert(v@ =~= spec_iota(0));
        }
        return Ok(v);
    }
    let n = columns.len();
    if is_string.len() != n || descending.len() != n || nulls_last.len() != n {
        return Err(EngineError::LengthMismatch);
    }
    let len0 = columns[0].len();
    let mut k: usize = 1;
    while k < n
        invariant
            1 <= k <= n,
            n == columns@.len(),
            len0 == columns@[0].spec_len(),
            forall|m: int| 0 <= m < k ==> (#[trigger] columns@[m]).spec_len() == len0,
        decreases n - k,
    {
        if columns[k].len() != len0 {
            return Err(EngineError::LengthMismatch);
        }
        k = k + 1;
    }
    Ok(argsort_mixed_core(columns, descending, nulls_last))
}

/// Law: the execution strategy does not affect the argsort outcome.  Any two
/// permutations of `[0, n)` that are both ordered by the same row comparator
/// are the same sequence, provided no two distinct rows compare fully
/// `Equal`.  (Among fully tied rows the underlying unstable sorts leave the
/// order unspecified, so only tie-free inputs pin the outcome.)
pub proof fn lemma_argsort_strategy_agrees(
    a: Seq<usize>,
    b: Seq<usize>,
    cols: Seq<Column>,
    descending: Seq<bool>,
    nulls_last: Seq<bool>,
    n: int,
)
    requires
        0 <= n <= usize::MAX,
        spec_is_perm_of_range(a, n),
        spec_sorted_by_rows(a, cols, descending, nulls_last),
        spec_is_perm_of_range(b, n),
        spec_sorted_by_rows(b, cols, descending, nulls_last),
        forall|i: int, j: int|
            0 <= i < n && 0 <= j < n && i != j ==> spec_row_cmp(cols, descending, nulls_last, i, j)
                != Ord3::Equal,
    ensures
        a == b,
{
    let leq = |x: usize, y: usize|
        if (x as int) < n && (y as int) < n {
            spec_row_le(cols, descending, nulls_last, x as int, y as int)
        } else if (x as int) < n {
            true
        } else if (y as int) < n {
            false
        } else {
            x <= y
        };
    assert(vstd::relations::total_ordering(leq)) by {
        assert forall|x: usize| #[trigger] leq(x, x) by {
            if (x as int) < n {
                lemma_row_cmp_refl(cols, descending, nulls_last, x as int);
            }
        }
        assert forall|x: usize, y: usize| #[trigger] leq(x, y) && #[trigger] leq(y, x) implies x
            == y by {
            if (x as int) < n && (y as int) < n {
                lemma_row_le_total(cols, descending, nulls_last, x as int, y as int);
            }
        }
        assert forall|x: usize, y: usize, z: usize|
            #[trigger] leq(x, y) && #[trigger] leq(y, z) implies leq(x, z) by {
            if (x as int) < n && (y as int) < n && (z as int) < n {
                lemma_row_le_trans(cols, descending, nulls_last, x as int, y as int, z as int);
            }
        }
        assert forall|x: usize, y: usize| #[trigger] leq(x, y) || #[trigger] leq(y, x) by {
            if (x as int) < n && (y as int) < n {
                lemma_row_le_total(cols, descending, nulls_last, x as int, y as int);
            }
        }
    }
    lemma_perm_bijective(a, n);
    lemma_perm_bijective(b, n);
    assert(vstd::relations::sorted_by(a, leq)) by {
        assert forall|p: int, q: int| 0 <= p < q < a.len() implies #[trigger] leq(a[p], a[q]) by {
            assert(spec_row_le(cols, descending, nulls_last, a[p] as int, a[q] as int));
        }
    }
    assert(vstd::relations::sorted_by(b, leq)) by {
        assert forall|p: int, q: int| 0 <= p < q < b.len() implies #[trigger] leq(b[p], b[q]) by {
            assert(spec_row_le(cols, descending, nulls_last, b[p] as int, b[q] as int));
        }
    }
    vstd::seq_lib::lemma_sorted_unique(a, b, leq);
    assert(a =~= b);
}

} // verus!
