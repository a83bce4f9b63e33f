use colquery::column::Column;
use colquery::numeric::{cmp_with_nulls, Ord3};
use colquery::sort::{
    argsort_mixed, argsort_mixed_core, argsort_mixed_with, argsort_numeric, argsort_numeric_core,
};
use colquery::text::lex_cmp;
use colquery::EngineError;

fn num_bits(vs: &[f64]) -> Vec<u64> {
    vs.iter().map(|v| v.to_bits()).collect()
}

fn num_col(vs: &[f64]) -> Column {
    Column::Numeric(num_bits(vs))
}

fn text_col(vs: &[Option<&str>]) -> Column {
    Column::Text(vs.iter().map(|o| o.map(|s| s.to_string())).collect())
}

#[test]
fn test_cmp_with_nulls_ordering() {
    assert_eq!(cmp_with_nulls(1.0f64.to_bits(), 2.0f64.to_bits(), false, true), Ord3::Less);
    assert_eq!(cmp_with_nulls(2.0f64.to_bits(), 1.0f64.to_bits(), false, true), Ord3::Greater);
    assert_eq!(cmp_with_nulls(1.0f64.to_bits(), 2.0f64.to_bits(), true, true), Ord3::Greater);
    assert_eq!(cmp_with_nulls(f64::NAN.to_bits(), 1.0f64.to_bits(), false, true), Ord3::Greater);
    assert_eq!(cmp_with_nulls(f64::NAN.to_bits(), 1.0f64.to_bits(), false, false), Ord3::Less);
    assert_eq!(cmp_with_nulls(f64::NAN.to_bits(), f64::NAN.to_bits(), false, true), Ord3::Equal);
}

#[test]
fn test_argsort_numeric_core() {
    let col1 = [2.0, 1.0, 1.0, 2.0];
    let col2 = [4.0, 3.0, 1.0, 2.0];
    let arrays = vec![num_bits(&col1), num_bits(&col2)];

    // Ascending col1, then descending col2
    let res = argsort_numeric_core(arrays, &vec![false, true], &vec![true, true]);
    assert_eq!(res, vec![1, 2, 0, 3]);
}

#[test]
fn test_argsort_single_nan_nulls_last() {
    let res = argsort_numeric(
        vec![num_bits(&[3.0, 1.0, f64::NAN, 2.0])],
        &vec![false],
        &vec![true],
    )
    .unwrap();
    assert_eq!(res, vec![1, 3, 0, 2]);
}

#[test]
fn test_argsort_nan_nulls_first_ignores_direction() {
    // Null placement is independent of the sort direction.
    let asc = argsort_numeric(
        vec![num_bits(&[1.0, f64::NAN, 2.0])],
        &vec![false],
        &vec![false],
    )
    .unwrap();
    assert_eq!(asc, vec![1, 0, 2]);
    let desc = argsort_numeric(
        vec![num_bits(&[1.0, f64::NAN, 2.0])],
        &vec![true],
        &vec![false],
    )
    .unwrap();
    assert_eq!(desc, vec![1, 2, 0]);
}

#[test]
fn test_argsort_mixed_numeric_and_text() {
    let columns = vec![
        num_col(&[2.0, 1.0, f64::NAN, 1.0]),
        text_col(&[Some("b"), Some("a"), None, Some("c")]),
    ];
    let res = argsort_mixed(
        &columns,
        &vec![false, true],
        &vec![false, false],
        &vec![true, true],
    )
    .unwrap();
    assert_eq!(res, vec![1, 3, 0, 2]);
}

#[test]
fn test_argsort_all_nan_primary_falls_through() {
    // Every row is null on the first key, so the second key decides alone.
    let columns = vec![
        num_col(&[f64::NAN, f64::NAN, f64::NAN, f64::NAN]),
        num_col(&[4.0, 3.0, 1.0, 2.0]),
    ];
    let res = argsort_mixed(
        &columns,
        &vec![false, false],
        &vec![false, false],
        &vec![true, true],
    )
    .unwrap();
    assert_eq!(res, vec![2, 3, 1, 0]);
}

#[test]
fn test_argsort_all_null_text_primary_falls_through() {
    let columns = vec![text_col(&[None, None, None]), num_col(&[3.0, 1.0, 2.0])];
    let res = argsort_mixed(
        &columns,
        &vec![true, false],
        &vec![false, false],
        &vec![true, true],
    )
    .unwrap();
    assert_eq!(res, vec![1, 2, 0]);
}

#[test]
fn test_argsort_text_descending() {
    let columns = vec![text_col(&[Some("b"), Some("a"), Some("c")])];
    let res = argsort_mixed(&columns, &vec![true], &vec![true], &vec![true]).unwrap();
    assert_eq!(res, vec![2, 0, 1]);
}

#[test]
fn test_argsort_negative_and_zero_values() {
    // -0.0 and +0.0 compare equal in magnitude order; negatives sort below.
    let res = argsort_numeric(
        vec![num_bits(&[1.5, -2.0, 0.0, -0.5])],
        &vec![false],
        &vec![true],
    )
    .unwrap();
    assert_eq!(res, vec![1, 3, 2, 0]);
}

#[test]
fn test_argsort_strategy_agreement_above_threshold() {
    // 3000 rows is at/above the parallel sort threshold; values are pairwise
    // distinct, so both strategies must produce the identical permutation.
    let n = 3000usize;
    let vals: Vec<f64> = (0..n).map(|i| ((i * 7919) % n) as f64).collect();
    let columns = vec![num_col(&vals)];
    let seq = argsort_mixed_with(&columns, &vec![false], &vec![true], false);
    let par = argsort_mixed_with(&columns, &vec![false], &vec![true], true);
    assert_eq!(seq, par);
    let dispatched = argsort_mixed_core(&columns, &vec![false], &vec![true]);
    assert_eq!(dispatched, seq);
    for k in 0..n {
        assert_eq!(vals[seq[k]], k as f64);
    }
}

#[test]
fn test_argsort_strategy_agreement_below_threshold() {
    let n = 100usize;
    let vals: Vec<f64> = (0..n).map(|i| ((i * 37) % n) as f64).collect();
    let columns = vec![num_col(&vals)];
    let seq = argsort_mixed_with(&columns, &vec![true], &vec![true], false);
    let par = argsort_mixed_with(&columns, &vec![true], &vec![true], true);
    assert_eq!(seq, par);
    assert_eq!(argsort_mixed_core(&columns, &vec![true], &vec![true]), seq);
}

#[test]
fn test_argsort_numeric_length_mismatch() {
    let r = argsort_numeric(
        vec![num_bits(&[1.0]), num_bits(&[2.0])],
        &vec![false],
        &vec![true, true],
    );
    assert!(matches!(r, Err(EngineError::LengthMismatch)));
}

#[test]
fn test_argsort_numeric_row_count_mismatch() {
    let r = argsort_numeric(
        vec![num_bits(&[1.0, 2.0]), num_bits(&[3.0])],
        &vec![false, false],
        &vec![true, true],
    );
    assert!(matches!(r, Err(EngineError::LengthMismatch)));
}

#[test]
fn test_argsort_mixed_length_mismatch() {
    let columns = vec![num_col(&[1.0])];
    let r = argsort_mixed(&columns, &vec![false, false], &vec![false], &vec![true]);
    assert!(matches!(r, Err(EngineError::LengthMismatch)));
}

#[test]
fn test_argsort_empty_columns() {
    let r = argsort_numeric(Vec::new(), &Vec::new(), &Vec::new()).unwrap();
    assert_eq!(r, Vec::<usize>::new());
    let r2 = argsort_mixed(&Vec::new(), &Vec::new(), &Vec::new(), &Vec::new()).unwrap();
    assert_eq!(r2, Vec::<usize>::new());
}

#[test]
fn test_cmp_zero_signs_and_infinities() {
    // -0.0 and +0.0 compare equal, as they do as doubles.
    assert_eq!(cmp_with_nulls((-0.0f64).to_bits(), 0.0f64.to_bits(), false, true), Ord3::Equal);
    assert_eq!(
        cmp_with_nulls(f64::NEG_INFINITY.to_bits(), (-1.0e308f64).to_bits(), false, true),
        Ord3::Less
    );
    assert_eq!(
        cmp_with_nulls(f64::INFINITY.to_bits(), 1.0e308f64.to_bits(), false, true),
        Ord3::Greater
    );
    assert_eq!(cmp_with_nulls((-1.5f64).to_bits(), 1.5f64.to_bits(), false, true), Ord3::Less);
}

#[test]
fn test_argsort_text_prefix_order() {
    // A string sorts before any of its proper extensions.
    let columns = vec![text_col(&[Some("ab"), Some("a"), Some("b"), Some("")])];
    let res = argsort_mixed(&columns, &vec![true], &vec![false], &vec![true]).unwrap();
    assert_eq!(res, vec![3, 1, 0, 2]);
}

#[test]
fn test_cmp_matches_double_order() {
    // The bit-pattern order key must agree with double comparison on every
    // pair drawn from a grid of normals, subnormals, zeros and infinities.
    let grid: [f64; 14] = [
        0.0,
        -0.0,
        1.0,
        -1.0,
        2.5,
        -2.5,
        5e-324,
        -5e-324,
        f64::MIN_POSITIVE,
        1e308,
        -1e308,
        f64::INFINITY,
        f64::NEG_INFINITY,
        0.1,
    ];
    for a in grid.iter() {
        for b in grid.iter() {
            for descending in [false, true] {
                let expected = if a < b {
                    if descending { Ord3::Greater } else { Ord3::Less }
                } else if a > b {
                    if descending { Ord3::Less } else { Ord3::Greater }
                } else {
                    Ord3::Equal
                };
                assert_eq!(
                    cmp_with_nulls(a.to_bits(), b.to_bits(), descending, true),
                    expected,
                    "at ({}, {}, descending {})",
                    a,
                    b,
                    descending
                );
            }
        }
    }
}

#[test]
fn test_text_order_matches_str_order() {
    // Code-point order coincides with the byte order of UTF-8 strings.
    let vals = ["", "a", "ab", "b", "Abc", "abc", "zz", "z{", "\u{e9}", "\u{1F600}", "e\u{301}"];
    for a in vals.iter() {
        for b in vals.iter() {
            let expected = match a.cmp(b) {
                std::cmp::Ordering::Less => Ord3::Less,
                std::cmp::Ordering::Equal => Ord3::Equal,
                std::cmp::Ordering::Greater => Ord3::Greater,
            };
            assert_eq!(lex_cmp(a, b), expected, "at ({:?}, {:?})", a, b);
        }
    }
}

#[test]
fn test_argsort_zero_rows() {
    let r = argsort_numeric(vec![Vec::new()], &vec![false], &vec![true]).unwrap();
    assert_eq!(r, Vec::<usize>::new());
}
