use colquery::column::Column;
use colquery::filter::{compute_filter_indices, filter_indices_with};
use colquery::EngineError;
use fasteval::{Compiler, Evaler};

fn num_col(vs: &[f64]) -> Column {
    Column::Numeric(vs.iter().map(|v| v.to_bits()).collect())
}

fn text_col(vs: &[Option<&str>]) -> Column {
    Column::Text(vs.iter().map(|o| o.map(|s| s.to_string())).collect())
}

fn names(ns: &[&str]) -> Vec<String> {
    ns.iter().map(|s| s.to_string()).collect()
}

#[test]
fn test_fasteval_logic_unit() {
    let res = compute_filter_indices(
        "(x > 10) && (y < 5)",
        &names(&["x", "y"]),
        &vec![num_col(&[15.0]), num_col(&[2.0])],
        &vec![false, false],
    )
    .unwrap();
    assert_eq!(res, vec![0]);
}

#[test]
fn test_filter_price_above_threshold() {
    let res = compute_filter_indices(
        "price > 100",
        &names(&["price"]),
        &vec![num_col(&[50.0, 150.0, 200.0])],
        &vec![false],
    )
    .unwrap();
    assert_eq!(res, vec![1, 2]);
}

#[test]
fn test_filter_expression_too_long() {
    let expr = "1".repeat(1001);
    let r = compute_filter_indices(&expr, &Vec::new(), &Vec::new(), &Vec::new());
    assert!(matches!(r, Err(EngineError::ExpressionTooLong)));
    // At exactly the bound the expression is still accepted.
    let expr_ok = "1".repeat(1000);
    let r_ok = compute_filter_indices(&expr_ok, &Vec::new(), &Vec::new(), &Vec::new());
    assert_eq!(r_ok.unwrap(), Vec::<usize>::new());
}

#[test]
fn test_filter_null_rows_excluded_not_errors() {
    // A NaN numeric cell makes its row's evaluation fail silently.
    let res = compute_filter_indices(
        "v > 5",
        &names(&["v"]),
        &vec![num_col(&[10.0, f64::NAN, 30.0])],
        &vec![false],
    )
    .unwrap();
    assert_eq!(res, vec![0, 2]);
}

#[test]
fn test_filter_unparsable_text_rows_excluded() {
    let res = compute_filter_indices(
        "t > 5",
        &names(&["t"]),
        &vec![text_col(&[Some("10"), Some("abc"), None, Some("7")])],
        &vec![true],
    )
    .unwrap();
    assert_eq!(res, vec![0, 3]);
}

#[test]
fn test_filter_parse_error() {
    let r = compute_filter_indices(
        "price >",
        &names(&["price"]),
        &vec![num_col(&[1.0])],
        &vec![false],
    );
    assert!(matches!(r, Err(EngineError::ExpressionParseError(_))));
    let r2 = compute_filter_indices(
        "price ) 1",
        &names(&["price"]),
        &vec![num_col(&[1.0])],
        &vec![false],
    );
    assert!(matches!(r2, Err(EngineError::ExpressionParseError(_))));
}

#[test]
fn test_filter_length_mismatch() {
    let r = compute_filter_indices(
        "x > 1",
        &names(&["x"]),
        &vec![num_col(&[1.0]), num_col(&[2.0])],
        &vec![false, false],
    );
    assert!(matches!(r, Err(EngineError::LengthMismatch)));
}

#[test]
fn test_filter_row_count_mismatch() {
    let r = compute_filter_indices(
        "x > 1",
        &names(&["x", "y"]),
        &vec![num_col(&[1.0, 2.0]), num_col(&[3.0])],
        &vec![false, false],
    );
    assert!(matches!(r, Err(EngineError::LengthMismatch)));
}

#[test]
fn test_filter_empty_columns() {
    let r = compute_filter_indices("1 > 0", &Vec::new(), &Vec::new(), &Vec::new()).unwrap();
    assert_eq!(r, Vec::<usize>::new());
}

#[test]
fn test_filter_strategy_agreement() {
    // 6000 rows is at/above the parallel filter threshold.
    let n = 6000usize;
    let vals: Vec<f64> = (0..n).map(|i| (i % 10) as f64).collect();
    let cols = vec![num_col(&vals)];
    let is_string = vec![false];
    let nm = names(&["v"]);
    let seq = filter_indices_with("v > 4.5", &nm, &cols, &is_string, false).unwrap();
    let par = filter_indices_with("v > 4.5", &nm, &cols, &is_string, true).unwrap();
    assert_eq!(seq, par);
    let dispatched = compute_filter_indices("v > 4.5", &nm, &cols, &is_string).unwrap();
    assert_eq!(dispatched, seq);
    assert_eq!(seq.len(), n / 2);
    for w in seq.windows(2) {
        assert!(w[0] < w[1]);
    }
    // Below the threshold both strategies agree as well.
    let small: Vec<f64> = (0..50).map(|i| (i % 7) as f64).collect();
    let small_cols = vec![num_col(&small)];
    let s_seq = filter_indices_with("v >= 3", &nm, &small_cols, &is_string, false).unwrap();
    let s_par = filter_indices_with("v >= 3", &nm, &small_cols, &is_string, true).unwrap();
    assert_eq!(s_seq, s_par);
    assert_eq!(
        compute_filter_indices("v >= 3", &nm, &small_cols, &is_string).unwrap(),
        s_seq
    );
}

#[test]
fn test_filter_arithmetic_operators() {
    let cols = vec![num_col(&[4.0, 6.0])];
    let is_string = vec![false];
    let nm = names(&["x"]);
    assert_eq!(
        compute_filter_indices("x + 10 > 15", &nm, &cols, &is_string).unwrap(),
        vec![1]
    );
    assert_eq!(
        compute_filter_indices("x - 5 > 0", &nm, &cols, &is_string).unwrap(),
        vec![1]
    );
    assert_eq!(
        compute_filter_indices("x * 2 == 8", &nm, &cols, &is_string).unwrap(),
        vec![0]
    );
    assert_eq!(
        compute_filter_indices("x / 2 == 3", &nm, &cols, &is_string).unwrap(),
        vec![1]
    );
}

#[test]
fn test_filter_operator_precedence() {
    let cols = vec![num_col(&[0.0])];
    let is_string = vec![false];
    let nm = names(&["x"]);
    assert_eq!(
        compute_filter_indices("1 + 2 * 3 == 7", &nm, &cols, &is_string).unwrap(),
        vec![0]
    );
    assert_eq!(
        compute_filter_indices("(1 + 2) * 3 == 9", &nm, &cols, &is_string).unwrap(),
        vec![0]
    );
    assert_eq!(
        compute_filter_indices("2 * 3 + 1 == 7", &nm, &cols, &is_string).unwrap(),
        vec![0]
    );
}

#[test]
fn test_filter_division_by_zero() {
    // 1/0 is infinite (truthy); 0/0 is NaN, which never selects a row.
    let cols = vec![num_col(&[0.0, 1.0])];
    let is_string = vec![false];
    let nm = names(&["x"]);
    assert_eq!(
        compute_filter_indices("x / 0", &nm, &cols, &is_string).unwrap(),
        vec![1]
    );
}

#[test]
fn test_filter_decimal_and_exponent_literals() {
    let cols = vec![num_col(&[10.0, 20.0, 0.25])];
    let is_string = vec![false];
    let nm = names(&["x"]);
    assert_eq!(
        compute_filter_indices("x > 1.5e1", &nm, &cols, &is_string).unwrap(),
        vec![1]
    );
    assert_eq!(
        compute_filter_indices("x == 0.25", &nm, &cols, &is_string).unwrap(),
        vec![2]
    );
    // Leading-dot and trailing-dot literal forms.
    assert_eq!(
        compute_filter_indices("x == .25", &nm, &cols, &is_string).unwrap(),
        vec![2]
    );
    assert_eq!(
        compute_filter_indices("x == 10.", &nm, &cols, &is_string).unwrap(),
        vec![0]
    );
}

#[test]
fn test_filter_equality_tolerance() {
    // Equality holds within eight machine epsilons of zero difference.
    let cols = vec![num_col(&[1e-16, 1e-10])];
    let is_string = vec![false];
    let nm = names(&["x"]);
    assert_eq!(
        compute_filter_indices("x == 0", &nm, &cols, &is_string).unwrap(),
        vec![0]
    );
    assert_eq!(
        compute_filter_indices("x != 0", &nm, &cols, &is_string).unwrap(),
        vec![1]
    );
}

#[test]
fn test_filter_or_short_circuits_unknown() {
    // A truthy left side of || hides an unknown variable on the right.
    let cols = vec![num_col(&[0.0, 3.0])];
    let is_string = vec![false];
    let nm = names(&["x"]);
    assert_eq!(
        compute_filter_indices("x == 0 || bogus > 1", &nm, &cols, &is_string).unwrap(),
        vec![0]
    );
}

#[test]
fn test_filter_and_returns_operand_values() {
    // && returns its left side when that is (tolerance-)zero, else its right.
    let columns = vec![num_col(&[0.0, 2.0]), num_col(&[3.0, 3.0])];
    let is_string = vec![false, false];
    let nm = names(&["x", "y"]);
    assert_eq!(
        compute_filter_indices("x && y", &nm, &columns, &is_string).unwrap(),
        vec![1]
    );
}

#[test]
fn test_filter_unknown_variable_excludes_all() {
    let cols = vec![num_col(&[1.0, 2.0])];
    let is_string = vec![false];
    let nm = names(&["x"]);
    assert_eq!(
        compute_filter_indices("bogus > 0", &nm, &cols, &is_string).unwrap(),
        Vec::<usize>::new()
    );
}

#[test]
fn test_filter_unary_minus() {
    let cols = vec![num_col(&[1.0, -3.0])];
    let is_string = vec![false];
    let nm = names(&["x"]);
    assert_eq!(
        compute_filter_indices("-x > 2", &nm, &cols, &is_string).unwrap(),
        vec![1]
    );
    assert_eq!(
        compute_filter_indices("x > -2", &nm, &cols, &is_string).unwrap(),
        vec![0]
    );
}

#[test]
fn test_filter_empty_and_blank_expressions_rejected() {
    let cols = vec![num_col(&[1.0])];
    let is_string = vec![false];
    let nm = names(&["x"]);
    assert!(matches!(
        compute_filter_indices("", &nm, &cols, &is_string),
        Err(EngineError::ExpressionParseError(_))
    ));
    assert!(matches!(
        compute_filter_indices("   ", &nm, &cols, &is_string),
        Err(EngineError::ExpressionParseError(_))
    ));
    assert!(matches!(
        compute_filter_indices("1.2.3", &nm, &cols, &is_string),
        Err(EngineError::ExpressionParseError(_))
    ));
}

#[test]
fn test_filter_negative_exponent_literal() {
    let cols = vec![num_col(&[0.005, 0.5])];
    let is_string = vec![false];
    let nm = names(&["x"]);
    assert_eq!(
        compute_filter_indices("x < 1e-2", &nm, &cols, &is_string).unwrap(),
        vec![0]
    );
}

#[test]
fn test_filter_operator_sweep_matches_reference_evaluator() {
    // Cross-check every operator against the fasteval crate over a value
    // grid that includes signed zeros, values inside the equality tolerance,
    // infinities from overflowing literals, and NaN modelled as null.
    let exprs = [
        "x + y", "x - y", "x * y", "x / y", "x < y", "x <= y", "x > y", "x >= y", "x == y",
        "x != y", "x && y", "x || y", "-x + y", "x / y == 2", "(x + y) * 3 - 1",
    ];
    let grid: [f64; 9] = [0.0, -0.0, 1e-16, -2.5, 2.5, 1.0, 1e300, -1e300, f64::NAN];
    for expr in exprs.iter() {
        for x in grid.iter() {
            for y in grid.iter() {
                let parser = fasteval::Parser::new();
                let mut slab = fasteval::Slab::new();
                let compiled = parser
                    .parse(expr, &mut slab.ps)
                    .unwrap()
                    .from(&slab.ps)
                    .compile(&slab.ps, &mut slab.cs);
                let mut cb = |name: &str, _args: Vec<f64>| -> Option<f64> {
                    // As in the engine, a NaN cell is a null: unknown.
                    match name {
                        "x" if !x.is_nan() => Some(*x),
                        "y" if !y.is_nan() => Some(*y),
                        _ => None,
                    }
                };
                let expected = match compiled.eval(&slab, &mut cb) {
                    Ok(v) => v != 0.0 && !v.is_nan(),
                    Err(_) => false,
                };
                let got = compute_filter_indices(
                    expr,
                    &names(&["x", "y"]),
                    &vec![num_col(&[*x]), num_col(&[*y])],
                    &vec![false, false],
                )
                .unwrap();
                assert_eq!(!got.is_empty(), expected, "expr {} at ({}, {})", expr, x, y);
            }
        }
    }
}

#[test]
fn test_filter_matches_reference_evaluator() {
    // Cross-check single-row outcomes against the fasteval crate.
    let exprs = [
        "(x > 10) && (y < 5)",
        "x + y * 2 > 7",
        "x / y - 1",
        "-x + 3 > y || y == 2",
        "x != y && x <= 10",
    ];
    let points: [(f64, f64); 5] = [(15.0, 2.0), (1.0, 3.0), (4.0, 2.0), (0.0, 2.0), (10.0, 10.0)];
    for expr in exprs.iter() {
        for (x, y) in points.iter() {
            let parser = fasteval::Parser::new();
            let mut slab = fasteval::Slab::new();
            let compiled = parser
                .parse(expr, &mut slab.ps)
                .unwrap()
                .from(&slab.ps)
                .compile(&slab.ps, &mut slab.cs);
            let mut cb = |name: &str, _args: Vec<f64>| -> Option<f64> {
                match name {
                    "x" => Some(*x),
                    "y" => Some(*y),
                    _ => None,
                }
            };
            let expected = match compiled.eval(&slab, &mut cb) {
                Ok(v) => v != 0.0 && !v.is_nan(),
                Err(_) => false,
            };
            let got = compute_filter_indices(
                expr,
                &names(&["x", "y"]),
                &vec![num_col(&[*x]), num_col(&[*y])],
                &vec![false, false],
            )
            .unwrap();
            assert_eq!(!got.is_empty(), expected, "expr {} at ({}, {})", expr, x, y);
        }
    }
}
