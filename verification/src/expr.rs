//! The compiled filter expression: its abstract syntax and the semantics of
//! its operators over double-precision bit patterns.
//!
//! Arithmetic (rounding) results are named, uninterpreted functions whose
//! values come from the trusted soft-float wrappers; comparisons, negation
//! and truthiness are exact bit-level definitions of this module.  The
//! equality operators and the boolean connectives use the tolerance test
//! `|l - r| <= 2^-49` (eight machine epsilons), the same tolerance the
//! fasteval evaluator applies, and the tests cross-check every operator
//! against that crate.

use vstd::prelude::*;
use crate::numeric::{SIGN_BIT, spec_is_nan, is_nan_bits, spec_key, order_key};
use rustc_apfloat::Float;
use rustc_apfloat::ieee::Double;

verus! {

/// Bit pattern of 1.0, the result of a comparison that holds.
pub const TRUE_BITS: u64 = 0x3ff0_0000_0000_0000;

/// Bit pattern of +0.0, the result of a comparison that fails.
pub const FALSE_BITS: u64 = 0;

/// Fraction-and-exponent mask: clearing the sign bit takes the absolute value.
pub const ABS_MASK: u64 = 0x7fff_ffff_ffff_ffff;

/// Bit pattern of 2^-49 — eight machine epsilons — the tolerance the equality
/// operators and the boolean connectives use.
pub const EQ_TOL_BITS: u64 = 0x3ce0_0000_0000_0000;

/// A binary operator of the expression language.
#[derive(Clone, Copy, Debug, PartialEq, Eq, Structural)]
pub enum BinOp {
    Add,
    Sub,
    Mul,
    Div,
    Lt,
    Le,
    Gt,
    Ge,
    EqTol,
    NeTol,
    And,
    Or,
}

/// A compiled filter expression: parsed once, evaluated per row with
/// variables late-bound through the resolution table.
pub enum Expr {
    /// A numeric literal, as a double-precision bit pattern.
    Lit(u64),
    /// A free variable reference, resolved at evaluation time.
    Var(String),
    /// Arithmetic negation.
    Neg(Box<Expr>),
    /// A binary operation.
    Bin(BinOp, Box<Expr>, Box<Expr>),
}

/// The mathematical form of a compiled expression, with variable names as
/// character sequences.
pub enum ExprModel {
    Lit(u64),
    Var(Seq<char>),
    Neg(Box<ExprModel>),
    Bin(BinOp, Box<ExprModel>, Box<ExprModel>),
}

impl View for Expr {
    type V = ExprModel;

    open spec fn view(&self) -> ExprModel
        decreases self,
    {
        match self {
            Expr::Lit(v) => ExprModel::Lit(*v),
            Expr::Var(name) => ExprModel::Var(name@),
            Expr::Neg(inner) => ExprModel::Neg(Box::new((**inner)@)),
            Expr::Bin(op, l, r) => ExprModel::Bin(*op, Box::new((**l)@), Box::new((**r)@)),
        }
    }
}

/// What IEEE 754 binary64 addition returns on two bit patterns.
pub uninterp spec fn bits_add(a: u64, b: u64) -> u64;

/// What IEEE 754 binary64 subtraction returns on two bit patterns.
pub uninterp spec fn bits_sub(a: u64, b: u64) -> u64;

/// What IEEE 754 binary64 multiplication returns on two bit patterns.
pub uninterp spec fn bits_mul(a: u64, b: u64) -> u64;

/// What IEEE 754 binary64 division returns on two bit patterns.
pub uninterp spec fn bits_div(a: u64, b: u64) -> u64;

/// What correctly rounded decimal-to-binary64 conversion returns on a
/// literal's text; `None` on text that is no decimal number.
pub uninterp spec fn bits_of_decimal(s: Seq<char>) -> Option<u64>;

/// Relies on rustc_apfloat's `Double` addition (`Float::add_r`, default
/// rounding, through `core::ops::Add`): IEEE 754 binary64 addition, a
/// function of the two bit patterns alone.
#[verifier::external_body]
pub(crate) fn add_bits(a: u64, b: u64) -> (r: u64)
    ensures
        r == bits_add(a, b),
{
    (Double::from_bits(a as u128) + Double::from_bits(b as u128)).value.to_bits() as u64
}

/// Relies on rustc_apfloat's `Double` subtraction (`Float::sub_r`, default
/// rounding, through `core::ops::Sub`): IEEE 754 binary64 subtraction, a
/// function of the two bit patterns alone.
#[verifier::external_body]
pub(crate) fn sub_bits(a: u64, b: u64) -> (r: u64)
    ensures
        r == bits_sub(a, b),
{
    (Double::from_bits(a as u128) - Double::from_bits(b as u128)).value.to_bits() as u64
}

/// Relies on rustc_apfloat's `Double` multiplication (`Float::mul_r`, default
/// rounding, through `core::ops::Mul`): IEEE 754 binary64 multiplication, a
/// function of the two bit patterns alone.
#[verifier::external_body]
pub(crate) fn mul_bits(a: u64, b: u64) -> (r: u64)
    ensures
        r == bits_mul(a, b),
{
    (Double::from_bits(a as u128) * Double::from_bits(b as u128)).value.to_bits() as u64
}

/// Relies on rustc_apfloat's `Double` division (`Float::div_r`, default
/// rounding, through `core::ops::Div`): IEEE 754 binary64 division, a
/// function of the two bit patterns alone.
#[verifier::external_body]
pub(crate) fn div_bits(a: u64, b: u64) -> (r: u64)
    ensures
        r == bits_div(a, b),
{
    (Double::from_bits(a as u128) / Double::from_bits(b as u128)).value.to_bits() as u64
}

/// Relies on rustc_apfloat's `Double` decimal parsing (`Float::from_str_r`
/// through `FromStr`): correctly rounded text-to-binary64 conversion, a
/// function of the text alone; ill-formed text is `None`.
#[verifier::external_body]
pub(crate) fn parse_decimal(s: &str) -> (r: Option<u64>)
    ensures
        r == bits_of_decimal(s@),
{
    match s.parse::<Double>() {
        Ok(d) => Some(d.to_bits() as u64),
        Err(_) => None,
    }
}

/// Absolute value: the sign bit cleared (exact, no rounding).
pub open spec fn spec_abs_bits(v: u64) -> u64 {
    v & ABS_MASK
}

/// Negation: the sign bit flipped (exact, no rounding).
pub open spec fn spec_neg_bits(v: u64) -> u64 {
    v ^ SIGN_BIT
}

/// Negation, executable form.
pub fn neg_bits(v: u64) -> (r: u64)
    ensures
        r == spec_neg_bits(v),
{
    v ^ SIGN_BIT
}

/// Plain IEEE `<`: false when either side is NaN.
pub open spec fn spec_f64_lt(a: u64, b: u64) -> bool {
    !spec_is_nan(a) && !spec_is_nan(b) && spec_key(a) < spec_key(b)
}

/// Plain IEEE `<=`: false when either side is NaN.
pub open spec fn spec_f64_le(a: u64, b: u64) -> bool {
    !spec_is_nan(a) && !spec_is_nan(b) && spec_key(a) <= spec_key(b)
}

/// Tolerance equality: `|a - b| <= 2^-49`, false when the difference is NaN.
pub open spec fn spec_approx_eq(a: u64, b: u64) -> bool {
    let d = spec_abs_bits(bits_sub(a, b));
    !spec_is_nan(d) && spec_key(d) <= spec_key(EQ_TOL_BITS)
}

/// Tolerance inequality: `|a - b| > 2^-49`, false when the difference is NaN.
/// Note that this is not the negation of the tolerance equality: on a NaN
/// difference both compare false.
pub open spec fn spec_approx_ne(a: u64, b: u64) -> bool {
    let d = spec_abs_bits(bits_sub(a, b));
    !spec_is_nan(d) && spec_key(d) > spec_key(EQ_TOL_BITS)
}

/// The boolean connectives' zero test: a value counts as false when it lies
/// within the tolerance of zero (`|v - 0.0| = |v|`, exactly); NaN is neither
/// false nor true to the connectives.
pub open spec fn spec_is_false(v: u64) -> bool {
    !spec_is_nan(v) && spec_key(spec_abs_bits(v)) <= spec_key(EQ_TOL_BITS)
}

/// The connectives' nonzero test; on NaN both tests fail.
pub open spec fn spec_is_true(v: u64) -> bool {
    !spec_is_nan(v) && spec_key(spec_abs_bits(v)) > spec_key(EQ_TOL_BITS)
}

/// Whether a row's final evaluation result selects the row: a plain IEEE
/// comparison with zero — not the tolerance test — and not NaN.
pub open spec fn spec_truthy(v: u64) -> bool {
    !spec_is_nan(v) && spec_abs_bits(v) != 0
}

/// Whether a final result selects the row, executable form.
pub fn truthy_bits(v: u64) -> (r: bool)
    ensures
        r == spec_truthy(v),
{
    !is_nan_bits(v) && (v & ABS_MASK) != 0
}

/// The comparison outcome encoded as 1.0 or +0.0.
pub open spec fn spec_bool_bits(b: bool) -> u64 {
    if b {
        TRUE_BITS
    } else {
        FALSE_BITS
    }
}

/// What a binary operator returns on two operand values.
pub open spec fn spec_apply_bin(op: BinOp, a: u64, b: u64) -> u64 {
    match op {
        BinOp::Add => bits_add(a, b),
        BinOp::Sub => bits_sub(a, b),
        BinOp::Mul => bits_mul(a, b),
        BinOp::Div => bits_div(a, b),
        BinOp::Lt => spec_bool_bits(spec_f64_lt(a, b)),
        BinOp::Le => spec_bool_bits(spec_f64_le(a, b)),
        BinOp::Gt => spec_bool_bits(spec_f64_lt(b, a)),
        BinOp::Ge => spec_bool_bits(spec_f64_le(b, a)),
        BinOp::EqTol => spec_bool_bits(spec_approx_eq(a, b)),
        BinOp::NeTol => spec_bool_bits(spec_approx_ne(a, b)),
        BinOp::And => if spec_is_false(a) {
            a
        } else {
            b
        },
        BinOp::Or => if spec_is_true(a) {
            a
        } else {
            b
        },
    }
}

/// A binary operator applied to two present operand values, executable form.
pub fn apply_bin(op: BinOp, a: u64, b: u64) -> (r: u64)
    ensures
        r == spec_apply_bin(op, a, b),
{
    match op {
        BinOp::Add => add_bits(a, b),
        BinOp::Sub => sub_bits(a, b),
        BinOp::Mul => mul_bits(a, b),
        BinOp::Div => div_bits(a, b),
        BinOp::Lt => bool_bits(f64_lt_bits(a, b)),
        BinOp::Le => bool_bits(f64_le_bits(a, b)),
        BinOp::Gt => bool_bits(f64_lt_bits(b, a)),
        BinOp::Ge => bool_bits(f64_le_bits(b, a)),
        BinOp::EqTol => bool_bits(approx_eq_bits(a, b)),
        BinOp::NeTol => bool_bits(approx_ne_bits(a, b)),
        BinOp::And => if is_false_bits(a) {
            a
        } else {
            b
        },
        BinOp::Or => if is_true_bits(a) {
            a
        } else {
            b
        },
    }
}

/// Plain IEEE `<`, executable form.
pub fn f64_lt_bits(a: u64, b: u64) -> (r: bool)
    ensures
        r == spec_f64_lt(a, b),
{
    !is_nan_bits(a) && !is_nan_bits(b) && order_key(a) < order_key(b)
}

/// Plain IEEE `<=`, executable form.
pub fn f64_le_bits(a: u64, b: u64) -> (r: bool)
    ensures
        r == spec_f64_le(a, b),
{
    !is_nan_bits(a) && !is_nan_bits(b) && order_key(a) <= order_key(b)
}

/// Tolerance equality, executable form.
pub fn approx_eq_bits(a: u64, b: u64) -> (r: bool)
    ensures
        r == spec_approx_eq(a, b),
{
    let d = sub_bits(a, b) & ABS_MASK;
    !is_nan_bits(d) && order_key(d) <= order_key(EQ_TOL_BITS)
}

/// Tolerance inequality, executable form.
pub fn approx_ne_bits(a: u64, b: u64) -> (r: bool)
    ensures
        r == spec_approx_ne(a, b),
{
    let d = sub_bits(a, b) & ABS_MASK;
    !is_nan_bits(d) && order_key(d) > order_key(EQ_TOL_BITS)
}

/// The connectives' zero test, executable form.
pub fn is_false_bits(v: u64) -> (r: bool)
    ensures
        r == spec_is_false(v),
{
    !is_nan_bits(v) && order_key(v & ABS_MASK) <= order_key(EQ_TOL_BITS)
}

/// The connectives' nonzero test, executable form.
pub fn is_true_bits(v: u64) -> (r: bool)
    ensures
        r == spec_is_true(v),
{
    !is_nan_bits(v) && order_key(v & ABS_MASK) > order_key(EQ_TOL_BITS)
}

/// The comparison outcome encoded as 1.0 or +0.0, executable form.
pub fn bool_bits(b: bool) -> (r: u64)
    ensures
        r == spec_bool_bits(b),
{
    if b {
        TRUE_BITS
    } else {
        FALSE_BITS
    }
}

/// What an expression evaluates to under an environment binding variable
/// names to an optional value (`None` marks a null or unparsable cell).  An
/// unbound or null variable makes the (sub)expression's value unknown —
/// `None` — except where a connective short-circuits before reaching it.
pub open spec fn spec_eval(e: ExprModel, env: Map<Seq<char>, Option<u64>>) -> Option<u64>
    decreases e,
{
    match e {
        ExprModel::Lit(v) => Some(v),
        ExprModel::Var(name) => if env.contains_key(name) {
            env[name]
        } else {
            None
        },
        ExprModel::Neg(inner) => match spec_eval(*inner, env) {
            Some(v) => Some(spec_neg_bits(v)),
            None => None,
        },
        ExprModel::Bin(op, l, r) => match op {
            BinOp::And => match spec_eval(*l, env) {
                Some(lv) => if spec_is_false(lv) {
                    Some(lv)
                } else {
                    spec_eval(*r, env)
                },
                None => None,
            },
            BinOp::Or => match spec_eval(*l, env) {
                Some(lv) => if spec_is_true(lv) {
                    Some(lv)
                } else {
                    spec_eval(*r, env)
                },
                None => None,
            },
            _ => match (spec_eval(*l, env), spec_eval(*r, env)) {
                (Some(a), Some(b)) => Some(spec_apply_bin(op, a, b)),
                _ => None,
            },
        },
    }
}

} // verus!
