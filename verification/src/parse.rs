//! The expression compiler: a recursive-descent parser for the filter
//! grammar — `||` over `&&` over comparisons over `+ -` over `* /` over
//! unary sign over literals, variables and parentheses, all left
//! associative — from a character sequence into the expression syntax.
//!
//! Each executable parsing function mirrors a specification function of the
//! same shape and is proved to return exactly its value.  The specification
//! functions carry position guards (`q < pos`, `p2 <= p` and the like) that
//! only serve their termination measure: parsing always advances, so the
//! guards never fire, and the executable mirrors prove as much through their
//! position bounds.

use vstd::prelude::*;
use crate::MAX_FILTER_EXPR_LEN;
use crate::EngineError;
use crate::expr::{Expr, ExprModel, BinOp, bits_of_decimal, parse_decimal};

verus! {

/// Whitespace the grammar skips between tokens.
pub open spec fn spec_is_ws(c: char) -> bool {
    c == ' ' || c == '\t' || c == '\n' || c == '\r'
}

/// A decimal digit.
pub open spec fn spec_is_digit(c: char) -> bool {
    48 <= c as u32 <= 57
}

/// A character that may continue a numeric literal's significand.
pub open spec fn spec_is_num_char(c: char) -> bool {
    spec_is_digit(c) || c == '.'
}

/// A character that may start a variable name.
pub open spec fn spec_is_ident_start(c: char) -> bool {
    c == '_' || (97 <= c as u32 <= 122) || (65 <= c as u32 <= 90)
}

/// A character that may continue a variable name.
pub open spec fn spec_is_ident_char(c: char) -> bool {
    spec_is_ident_start(c) || spec_is_digit(c)
}

/// First position at or after `pos` holding no whitespace.
pub open spec fn spec_skip_ws(s: Seq<char>, pos: int) -> int
    decreases s.len() - pos,
{
    if pos < 0 || pos >= s.len() {
        pos
    } else if spec_is_ws(s[pos]) {
        spec_skip_ws(s, pos + 1)
    } else {
        pos
    }
}

/// End of the run of significand characters starting at `pos`.
pub open spec fn spec_scan_num(s: Seq<char>, pos: int) -> int
    decreases s.len() - pos,
{
    if pos < 0 || pos >= s.len() {
        pos
    } else if spec_is_num_char(s[pos]) {
        spec_scan_num(s, pos + 1)
    } else {
        pos
    }
}

/// End of the run of digits starting at `pos`.
pub open spec fn spec_scan_digits(s: Seq<char>, pos: int) -> int
    decreases s.len() - pos,
{
    if pos < 0 || pos >= s.len() {
        pos
    } else if spec_is_digit(s[pos]) {
        spec_scan_digits(s, pos + 1)
    } else {
        pos
    }
}

/// End of the run of name characters starting at `pos`.
pub open spec fn spec_scan_ident(s: Seq<char>, pos: int) -> int
    decreases s.len() - pos,
{
    if pos < 0 || pos >= s.len() {
        pos
    } else if spec_is_ident_char(s[pos]) {
        spec_scan_ident(s, pos + 1)
    } else {
        pos
    }
}

/// End of the numeric literal starting at `pos`: the significand run, then an
/// exponent part when an `e`/`E`, an optional sign and at least one digit
/// follow.
pub open spec fn spec_num_end(s: Seq<char>, pos: int) -> int {
    let m = spec_scan_num(s, pos);
    if 0 <= m < s.len() && (s[m] == 'e' || s[m] == 'E') {
        let x = if m + 1 < s.len() && (s[m + 1] == '+' || s[m + 1] == '-') {
            m + 2
        } else {
            m + 1
        };
        let d = spec_scan_digits(s, x);
        if d > x {
            d
        } else {
            m
        }
    } else {
        m
    }
}

/// An atom: a parenthesized expression, a numeric literal (its text must
/// convert to a double), or a variable name.
pub open spec fn spec_parse_atom(s: Seq<char>, pos: int) -> Option<(ExprModel, int)>
    decreases s.len() - pos, 0int,
{
    let q = spec_skip_ws(s, pos);
    if q < pos || q >= s.len() {
        None
    } else if s[q] == '(' {
        match spec_parse_or(s, q + 1) {
            Some((e, p)) => {
                let p2 = spec_skip_ws(s, p);
                if 0 <= p2 < s.len() && s[p2] == ')' {
                    Some((e, p2 + 1))
                } else {
                    None
                }
            },
            None => None,
        }
    } else if spec_is_num_char(s[q]) {
        let end = spec_num_end(s, q);
        if end > q {
            match bits_of_decimal(s.subrange(q, end)) {
                Some(v) => Some((ExprModel::Lit(v), end)),
                None => None,
            }
        } else {
            None
        }
    } else if spec_is_ident_start(s[q]) {
        Some((ExprModel::Var(s.subrange(q, spec_scan_ident(s, q))), spec_scan_ident(s, q)))
    } else {
        None
    }
}

/// A unary-sign chain applied to an atom.
pub open spec fn spec_parse_unary(s: Seq<char>, pos: int) -> Option<(ExprModel, int)>
    decreases s.len() - pos, 1int,
{
    let q = spec_skip_ws(s, pos);
    if q < pos || q >= s.len() {
        None
    } else if s[q] == '-' {
        match spec_parse_unary(s, q + 1) {
            Some((e, p)) => Some((ExprModel::Neg(Box::new(e)), p)),
            None => None,
        }
    } else if s[q] == '+' {
        spec_parse_unary(s, q + 1)
    } else {
        spec_parse_atom(s, q)
    }
}

/// Left-associated `*` and `/` continuations of `acc`.
pub open spec fn spec_parse_mul_tail(s: Seq<char>, acc: ExprModel, p: int) -> Option<
    (ExprModel, int),
>
    decreases s.len() - p, 2int,
{
    let q = spec_skip_ws(s, p);
    if q < p {
        None
    } else if q >= s.len() || !(s[q] == '*' || s[q] == '/') {
        Some((acc, p))
    } else {
        let op = if s[q] == '*' {
            BinOp::Mul
        } else {
            BinOp::Div
        };
        match spec_parse_unary(s, q + 1) {
            Some((rhs, p2)) => if p < p2 <= s.len() {
                spec_parse_mul_tail(s, ExprModel::Bin(op, Box::new(acc), Box::new(rhs)), p2)
            } else {
                None
            },
            None => None,
        }
    }
}

/// A product of unary-sign atoms.
pub open spec fn spec_parse_mul(s: Seq<char>, pos: int) -> Option<(ExprModel, int)>
    decreases s.len() - pos, 3int,
{
    if pos < 0 || pos > s.len() {
        None
    } else {
        match spec_parse_unary(s, pos) {
            Some((e, p)) => if pos <= p <= s.len() {
                spec_parse_mul_tail(s, e, p)
            } else {
                None
            },
            None => None,
        }
    }
}

/// Left-associated `+` and `-` continuations of `acc`.
pub open spec fn spec_parse_add_tail(s: Seq<char>, acc: ExprModel, p: int) -> Option<
    (ExprModel, int),
>
    decreases s.len() - p, 4int,
{
    let q = spec_skip_ws(s, p);
    if q < p {
        None
    } else if q >= s.len() || !(s[q] == '+' || s[q] == '-') {
        Some((acc, p))
    } else {
        let op = if s[q] == '+' {
            BinOp::Add
        } else {
            BinOp::Sub
        };
        match spec_parse_mul(s, q + 1) {
            Some((rhs, p2)) => if p < p2 <= s.len() {
                spec_parse_add_tail(s, ExprModel::Bin(op, Box::new(acc), Box::new(rhs)), p2)
            } else {
                None
            },
            None => None,
        }
    }
}

/// A sum of products.
pub open spec fn spec_parse_add(s: Seq<char>, pos: int) -> Option<(ExprModel, int)>
    decreases s.len() - pos, 5int,
{
    if pos < 0 || pos > s.len() {
        None
    } else {
        match spec_parse_mul(s, pos) {
            Some((e, p)) => if pos <= p <= s.len() {
                spec_parse_add_tail(s, e, p)
            } else {
                None
            },
            None => None,
        }
    }
}

/// The comparison operator starting at `q`, with the position after it.
pub open spec fn spec_cmp_op_at(s: Seq<char>, q: int) -> Option<(BinOp, int)> {
    if q + 1 < s.len() && s[q] == '<' && s[q + 1] == '=' {
        Some((BinOp::Le, q + 2))
    } else if q + 1 < s.len() && s[q] == '>' && s[q + 1] == '=' {
        Some((BinOp::Ge, q + 2))
    } else if q + 1 < s.len() && s[q] == '=' && s[q + 1] == '=' {
        Some((BinOp::EqTol, q + 2))
    } else if q + 1 < s.len() && s[q] == '!' && s[q + 1] == '=' {
        Some((BinOp::NeTol, q + 2))
    } else if 0 <= q < s.len() && s[q] == '<' {
        Some((BinOp::Lt, q + 1))
    } else if 0 <= q < s.len() && s[q] == '>' {
        Some((BinOp::Gt, q + 1))
    } else {
        None
    }
}

/// Left-associated comparison continuations of `acc`.
pub open spec fn spec_parse_cmp_tail(s: Seq<char>, acc: ExprModel, p: int) -> Option<
    (ExprModel, int),
>
    decreases s.len() - p, 6int,
{
    let q = spec_skip_ws(s, p);
    if q < p {
        None
    } else {
        match spec_cmp_op_at(s, q) {
            Some((op, after)) => if after <= s.len() {
                match spec_parse_add(s, after) {
                    Some((rhs, p2)) => if p < p2 <= s.len() {
                        spec_parse_cmp_tail(s, ExprModel::Bin(op, Box::new(acc), Box::new(rhs)), p2)
                    } else {
                        None
                    },
                    None => None,
                }
            } else {
                None
            },
            None => Some((acc, p)),
        }
    }
}

/// A comparison chain over sums.
pub open spec fn spec_parse_cmp(s: Seq<char>, pos: int) -> Option<(ExprModel, int)>
    decreases s.len() - pos, 7int,
{
    if pos < 0 || pos > s.len() {
        None
    } else {
        match spec_parse_add(s, pos) {
            Some((e, p)) => if pos <= p <= s.len() {
                spec_parse_cmp_tail(s, e, p)
            } else {
                None
            },
            None => None,
        }
    }
}

/// Left-associated `&&` continuations of `acc`.
pub open spec fn spec_parse_and_tail(s: Seq<char>, acc: ExprModel, p: int) -> Option<
    (ExprModel, int),
>
    decreases s.len() - p, 8int,
{
    let q = spec_skip_ws(s, p);
    if q < p {
        None
    } else if !(q + 1 < s.len() && s[q] == '&' && s[q + 1] == '&') {
        Some((acc, p))
    } else {
        match spec_parse_cmp(s, q + 2) {
            Some((rhs, p2)) => if p < p2 <= s.len() {
                spec_parse_and_tail(
                    s,
                    ExprModel::Bin(BinOp::And, Box::new(acc), Box::new(rhs)),
                    p2,
                )
            } else {
                None
            },
            None => None,
        }
    }
}

/// A conjunction of comparison chains.
pub open spec fn spec_parse_and(s: Seq<char>, pos: int) -> Option<(ExprModel, int)>
    decreases s.len() - pos, 9int,
{
    if pos < 0 || pos > s.len() {
        None
    } else {
        match spec_parse_cmp(s, pos) {
            Some((e, p)) => if pos <= p <= s.len() {
                spec_parse_and_tail(s, e, p)
            } else {
                None
            },
            None => None,
        }
    }
}

/// Left-associated `||` continuations of `acc`.
pub open spec fn spec_parse_or_tail(s: Seq<char>, acc: ExprModel, p: int) -> Option<
    (ExprModel, int),
>
    decreases s.len() - p, 10int,
{
    let q = spec_skip_ws(s, p);
    if q < p {
        None
    } else if !(q + 1 < s.len() && s[q] == '|' && s[q + 1] == '|') {
        Some((acc, p))
    } else {
        match spec_parse_and(s, q + 2) {
            Some((rhs, p2)) => if p < p2 <= s.len() {
                spec_parse_or_tail(s, ExprModel::Bin(BinOp::Or, Box::new(acc), Box::new(rhs)), p2)
            } else {
                None
            },
            None => None,
        }
    }
}

/// A disjunction of conjunctions: the whole grammar.
pub open spec fn spec_parse_or(s: Seq<char>, pos: int) -> Option<(ExprModel, int)>
    decreases s.len() - pos, 11int,
{
    if pos < 0 || pos > s.len() {
        None
    } else {
        match spec_parse_and(s, pos) {
            Some((e, p)) => if pos <= p <= s.len() {
                spec_parse_or_tail(s, e, p)
            } else {
                None
            },
            None => None,
        }
    }
}

/// What compiling an expression text yields: the parsed expression when the
/// whole text (but for trailing whitespace) derives from the grammar.
pub open spec fn spec_parse_expression(s: Seq<char>) -> Option<ExprModel> {
    match spec_parse_or(s, 0) {
        Some((e, p)) => if spec_skip_ws(s, p) == s.len() {
            Some(e)
        } else {
            None
        },
        None => None,
    }
}

fn is_ws_char(c: char) -> (r: bool)
    ensures
        r == spec_is_ws(c),
{
    c == ' ' || c == '\t' || c == '\n' || c == '\r'
}

fn is_digit_char(c: char) -> (r: bool)
    ensures
        r == spec_is_digit(c),
{
    48 <= c as u32 && c as u32 <= 57
}

fn is_num_char(c: char) -> (r: bool)
    ensures
        r == spec_is_num_char(c),
{
    is_digit_char(c) || c == '.'
}

fn is_ident_start_char(c: char) -> (r: bool)
    ensures
        r == spec_is_ident_start(c),
{
    c == '_' || (97 <= c as u32 && c as u32 <= 122) || (65 <= c as u32 && c as u32 <= 90)
}

fn is_ident_char(c: char) -> (r: bool)
    ensures
        r == spec_is_ident_char(c),
{
    is_ident_start_char(c) || is_digit_char(c)
}

fn skip_ws(s: &str, len: usize, pos: usize) -> (r: usize)
    requires
        len == s@.len(),
        pos <= len,
    ensures
        r == spec_skip_ws(s@, pos as int),
        pos <= r <= len,
{
    let mut p = pos;
    while p < len
        invariant
            pos <= p <= len,
            len == s@.len(),
            spec_skip_ws(s@, pos as int) == spec_skip_ws(s@, p as int),
        decreases len - p,
    {
        let c = s.get_char(p);
        if !is_ws_char(c) {
            return p;
        }
        p = p + 1;
    }
    p
}

fn scan_num(s: &str, len: usize, pos: usize) -> (r: usize)
    requires
        len == s@.len(),
        pos <= len,
    ensures
        r == spec_scan_num(s@, pos as int),
        pos <= r <= len,
{
    let mut p = pos;
    while p < len
        invariant
            pos <= p <= len,
            len == s@.len(),
            spec_scan_num(s@, pos as int) == spec_scan_num(s@, p as int),
        decreases len - p,
    {
        let c = s.get_char(p);
        if !is_num_char(c) {
            return p;
        }
        p = p + 1;
    }
    p
}

fn scan_digits(s: &str, len: usize, pos: usize) -> (r: usize)
    requires
        len == s@.len(),
        pos <= len,
    ensures
        r == spec_scan_digits(s@, pos as int),
        pos <= r <= len,
{
    let mut p = pos;
    while p < len
        invariant
            pos <= p <= len,
            len == s@.len(),
            spec_scan_digits(s@, pos as int) == spec_scan_digits(s@, p as int),
        decreases len - p,
    {
        let c = s.get_char(p);
        if !is_digit_char(c) {
            return p;
        }
        p = p + 1;
    }
    p
}

fn scan_ident(s: &str, len: usize, pos: usize) -> (r: usize)
    requires
        len == s@.len(),
        pos <= len,
    ensures
        r == spec_scan_ident(s@, pos as int),
        pos <= r <= len,
{
    let mut p = pos;
    while p < len
        invariant
            pos <= p <= len,
            len == s@.len(),
            spec_scan_ident(s@, pos as int) == spec_scan_ident(s@, p as int),
        decreases len - p,
    {
        let c = s.get_char(p);
        if !is_ident_char(c) {
            return p;
        }
        p = p + 1;
    }
    p
}

fn num_end(s: &str, len: usize, pos: usize) -> (r: usize)
    requires
        len == s@.len(),
        pos <= len,
    ensures
        r == spec_num_end(s@, pos as int),
        pos <= r <= len,
{
    let m = scan_num(s, len, pos);
    if m < len {
        let c = s.get_char(m);
        if c == 'e' || c == 'E' {
            let x = if m + 1 < len {
                let c1 = s.get_char(m + 1);
                if c1 == '+' || c1 == '-' {
                    m + 2
                } else {
                    m + 1
                }
            } else {
                m + 1
            };
            let d = scan_digits(s, len, x);
            if d > x {
                return d;
            }
            return m;
        }
    }
    m
}

fn parse_atom(s: &str, len: usize, pos: usize) -> (r: Option<(Expr, usize)>)
    requires
        len == s@.len(),
        pos <= len,
    ensures
        match r {
            Some(ep) => spec_parse_atom(s@, pos as int) == Some((ep.0@, ep.1 as int)) && pos <= ep.1
                <= len,
            None => spec_parse_atom(s@, pos as int) is None,
        },
    decreases s@.len() - pos, 0int,
{
    let q = skip_ws(s, len, pos);
    if q >= len {
        return None;
    }
    let c = s.get_char(q);
    if c == '(' {
        match parse_or(s, len, q + 1) {
            Some((e, p)) => {
                let p2 = skip_ws(s, len, p);
                if p2 < len {
                    let c2 = s.get_char(p2);
                    if c2 == ')' {
                        return Some((e, p2 + 1));
                    }
                }
                None
            },
            None => None,
        }
    } else if is_num_char(c) {
        let end = num_end(s, len, q);
        if end > q {
            let lit = s.substring_char(q, end);
            match parse_decimal(lit) {
                Some(v) => Some((Expr::Lit(v), end)),
                None => None,
            }
        } else {
            None
        }
    } else if is_ident_start_char(c) {
        let end = scan_ident(s, len, q);
        let name = s.substring_char(q, end).to_owned();
        Some((Expr::Var(name), end))
    } else {
        None
    }
}

fn parse_unary(s: &str, len: usize, pos: usize) -> (r: Option<(Expr, usize)>)
    requires
        len == s@.len(),
        pos <= len,
    ensures
        match r {
            Some(ep) => spec_parse_unary(s@, pos as int) == Some((ep.0@, ep.1 as int)) && pos
                <= ep.1 <= len,
            None => spec_parse_unary(s@, pos as int) is None,
        },
    decreases s@.len() - pos, 1int,
{
    let q = skip_ws(s, len, pos);
    if q >= len {
        return None;
    }
    let c = s.get_char(q);
    if c == '-' {
        match parse_unary(s, len, q + 1) {
            Some((e, p)) => Some((Expr::Neg(Box::new(e)), p)),
            None => None,
        }
    } else if c == '+' {
        parse_unary(s, len, q + 1)
    } else {
        parse_atom(s, len, q)
    }
}

fn parse_mul_tail(s: &str, len: usize, acc: Expr, p: usize) -> (r: Option<(Expr, usize)>)
    requires
        len == s@.len(),
        p <= len,
    ensures
        match r {
            Some(ep) => spec_parse_mul_tail(s@, acc@, p as int) == Some((ep.0@, ep.1 as int)) && p
                <= ep.1 <= len,
            None => spec_parse_mul_tail(s@, acc@, p as int) is None,
        },
    decreases s@.len() - p, 2int,
{
    let q = skip_ws(s, len, p);
    if q >= len {
        return Some((acc, p));
    }
    let c = s.get_char(q);
    if c != '*' && c != '/' {
        return Some((acc, p));
    }
    let op = if c == '*' {
        BinOp::Mul
    } else {
        BinOp::Div
    };
    match parse_unary(s, len, q + 1) {
        Some((rhs, p2)) => parse_mul_tail(s, len, Expr::Bin(op, Box::new(acc), Box::new(rhs)), p2),
        None => None,
    }
}

fn parse_mul(s: &str, len: usize, pos: usize) -> (r: Option<(Expr, usize)>)
    requires
        len == s@.len(),
        pos <= len,
    ensures
        match r {
            Some(ep) => spec_parse_mul(s@, pos as int) == Some((ep.0@, ep.1 as int)) && pos <= ep.1
                <= len,
            None => spec_parse_mul(s@, pos as int) is None,
        },
    decreases s@.len() - pos, 3int,
{
    match parse_unary(s, len, pos) {
        Some((e, p)) => parse_mul_tail(s, len, e, p),
        None => None,
    }
}

fn parse_add_tail(s: &str, len: usize, acc: Expr, p: usize) -> (r: Option<(Expr, usize)>)
    requires
        len == s@.len(),
        p <= len,
    ensures
        match r {
            Some(ep) => spec_parse_add_tail(s@, acc@, p as int) == Some((ep.0@, ep.1 as int)) && p
                <= ep.1 <= len,
            None => spec_parse_add_tail(s@, acc@, p as int) is None,
        },
    decreases s@.len() - p, 4int,
{
    let q = skip_ws(s, len, p);
    if q >= len {
        return Some((acc, p));
    }
    let c = s.get_char(q);
    if c != '+' && c != '-' {
        return Some((acc, p));
    }
    let op = if c == '+' {
        BinOp::Add
    } else {
        BinOp::Sub
    };
    match parse_mul(s, len, q + 1) {
        Some((rhs, p2)) => parse_add_tail(s, len, Expr::Bin(op, Box::new(acc), Box::new(rhs)), p2),
        None => None,
    }
}

fn parse_add(s: &str, len: usize, pos: usize) -> (r: Option<(Expr, usize)>)
    requires
        len == s@.len(),
        pos <= len,
    ensures
        match r {
            Some(ep) => spec_parse_add(s@, pos as int) == Some((ep.0@, ep.1 as int)) && pos <= ep.1
                <= len,
            None => spec_parse_add(s@, pos as int) is None,
        },
    decreases s@.len() - pos, 5int,
{
    match parse_mul(s, len, pos) {
        Some((e, p)) => parse_add_tail(s, len, e, p),
        None => None,
    }
}

fn cmp_op_at(s: &str, len: usize, q: usize) -> (r: Option<(BinOp, usize)>)
    requires
        len == s@.len(),
        q <= len,
    ensures
        match r {
            Some(op) => spec_cmp_op_at(s@, q as int) == Some((op.0, op.1 as int)) && q < op.1
                <= len,
            None => spec_cmp_op_at(s@, q as int) is None,
        },
{
    if q < len {
        let c0 = s.get_char(q);
        if q + 1 < len {
            let c1 = s.get_char(q + 1);
            if c0 == '<' && c1 == '=' {
                return Some((BinOp::Le, q + 2));
            }
            if c0 == '>' && c1 == '=' {
                return Some((BinOp::Ge, q + 2));
            }
            if c0 == '=' && c1 == '=' {
                return Some((BinOp::EqTol, q + 2));
            }
            if c0 == '!' && c1 == '=' {
                return Some((BinOp::NeTol, q + 2));
            }
        }
        if c0 == '<' {
            return Some((BinOp::Lt, q + 1));
        }
        if c0 == '>' {
            return Some((BinOp::Gt, q + 1));
        }
    }
    None
}

fn parse_cmp_tail(s: &str, len: usize, acc: Expr, p: usize) -> (r: Option<(Expr, usize)>)
    requires
        len == s@.len(),
        p <= len,
    ensures
        match r {
            Some(ep) => spec_parse_cmp_tail(s@, acc@, p as int) == Some((ep.0@, ep.1 as int)) && p
                <= ep.1 <= len,
            None => spec_parse_cmp_tail(s@, acc@, p as int) is None,
        },
    decreases s@.len() - p, 6int,
{
    let q = skip_ws(s, len, p);
    match cmp_op_at(s, len, q) {
        Some((op, after)) => {
            match parse_add(s, len, after) {
                Some((rhs, p2)) => parse_cmp_tail(
                    s,
                    len,
                    Expr::Bin(op, Box::new(acc), Box::new(rhs)),
                    p2,
                ),
                None => None,
            }
        },
        None => Some((acc, p)),
    }
}

fn parse_cmp(s: &str, len: usize, pos: usize) -> (r: Option<(Expr, usize)>)
    requires
        len == s@.len(),
        pos <= len,
    ensures
        match r {
            Some(ep) => spec_parse_cmp(s@, pos as int) == Some((ep.0@, ep.1 as int)) && pos <= ep.1
                <= len,
            None => spec_parse_cmp(s@, pos as int) is None,
        },
    decreases s@.len() - pos, 7int,
{
    match parse_add(s, len, pos) {
        Some((e, p)) => parse_cmp_tail(s, len, e, p),
        None => None,
    }
}

fn parse_and_tail(s: &str, len: usize, acc: Expr, p: usize) -> (r: Option<(Expr, usize)>)
    requires
        len == s@.len(),
        p <= len,
    ensures
        match r {
            Some(ep) => spec_parse_and_tail(s@, acc@, p as int) == Some((ep.0@, ep.1 as int)) && p
                <= ep.1 <= len,
            None => spec_parse_and_tail(s@, acc@, p as int) is None,
        },
    decreases s@.len() - p, 8int,
{
    let q = skip_ws(s, len, p);
    let has_op = if q < len {
        if s.get_char(q) == '&' && q + 1 < len {
            s.get_char(q + 1) == '&'
        } else {
            false
        }
    } else {
        false
    };
    if !has_op {
        return Some((acc, p));
    }
    match parse_cmp(s, len, q + 2) {
        Some((rhs, p2)) => parse_and_tail(
            s,
            len,
            Expr::Bin(BinOp::And, Box::new(acc), Box::new(rhs)),
            p2,
        ),
        None => None,
    }
}

fn parse_and(s: &str, len: usize, pos: usize) -> (r: Option<(Expr, usize)>)
    requires
        len == s@.len(),
        pos <= len,
    ensures
        match r {
            Some(ep) => spec_parse_and(s@, pos as int) == Some((ep.0@, ep.1 as int)) && pos <= ep.1
                <= len,
            None => spec_parse_and(s@, pos as int) is None,
        },
    decreases s@.len() - pos, 9int,
{
    match parse_cmp(s, len, pos) {
        Some((e, p)) => parse_and_tail(s, len, e, p),
        None => None,
    }
}

fn parse_or_tail(s: &str, len: usize, acc: Expr, p: usize) -> (r: Option<(Expr, usize)>)
    requires
        len == s@.len(),
        p <= len,
    ensures
        match r {
            Some(ep) => spec_parse_or_tail(s@, acc@, p as int) == Some((ep.0@, ep.1 as int)) && p
                <= ep.1 <= len,
            None => spec_parse_or_tail(s@, acc@, p as int) is None,
        },
    decreases s@.len() - p, 10int,
{
    let q = skip_ws(s, len, p);
    let has_op = if q < len {
        if s.get_char(q) == '|' && q + 1 < len {
            s.get_char(q + 1) == '|'
        } else {
            false
        }
    } else {
        false
    };
    if !has_op {
        return Some((acc, p));
    }
    match parse_and(s, len, q + 2) {
        Some((rhs, p2)) => parse_or_tail(
            s,
            len,
            Expr::Bin(BinOp::Or, Box::new(acc), Box::new(rhs)),
            p2,
        ),
        None => None,
    }
}

fn parse_or(s: &str, len: usize, pos: usize) -> (r: Option<(Expr, usize)>)
    requires
        len == s@.len(),
        pos <= len,
    ensures
        match r {
            Some(ep) => spec_parse_or(s@, pos as int) == Some((ep.0@, ep.1 as int)) && pos <= ep.1
                <= len,
            None => spec_parse_or(s@, pos as int) is None,
        },
    decreases s@.len() - pos, 11int,
{
    match parse_and(s, len, pos) {
        Some((e, p)) => parse_or_tail(s, len, e, p),
        None => None,
    }
}

/// Compiles an expression text, once per filter call.  Text longer than
/// `MAX_FILTER_EXPR_LEN` characters fails fast with `ExpressionTooLong`
/// before any parsing work; text that does not derive from the grammar fails
/// with `ExpressionParseError`; otherwise the parsed expression is returned.
pub fn compile_expression(expr: &str) -> (r: Result<Expr, EngineError>)
    ensures
        (r == Err::<Expr, EngineError>(EngineError::ExpressionTooLong) <==> expr@.len()
            > MAX_FILTER_EXPR_LEN),
        expr@.len() <= MAX_FILTER_EXPR_LEN ==> {
            &&& (r is Err <==> spec_parse_expression(expr@) is None)
            &&& (r matches Err(e) ==> e is ExpressionParseError)
            &&& (r matches Ok(e) ==> spec_parse_expression(expr@) == Some(e@))
        },
{
    let len = expr.unicode_len();
    if len > MAX_FILTER_EXPR_LEN {
        return Err(EngineError::ExpressionTooLong);
    }
    match parse_or(expr, len, 0) {
        Some((e, p)) => {
            let q = skip_ws(expr, len, p);
            if q == len {
                Ok(e)
            } else {
                Err(EngineError::ExpressionParseError(String::from_str("unexpected trailing text")))
            }
        },
        None => Err(
            EngineError::ExpressionParseError(String::from_str("expression is not well formed")),
        ),
    }
}

} // verus!
