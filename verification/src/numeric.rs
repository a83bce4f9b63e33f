//! The numeric cell model: IEEE 754 double-precision bit patterns on `u64`,
//! with NaN as the null sentinel, and the null-aware three-outcome comparison.

use vstd::prelude::*;

verus! {

/// Sign bit of a double-precision bit pattern.
pub const SIGN_BIT: u64 = 0x8000_0000_0000_0000;

/// Exponent mask of a double-precision bit pattern, before shifting.
pub const EXP_MASK: u64 = 0x7ff;

/// Fraction (mantissa) mask of a double-precision bit pattern.
pub const FRAC_MASK: u64 = 0x000f_ffff_ffff_ffff;

/// Three-outcome comparison result.
#[derive(Clone, Copy, Debug, PartialEq, Eq, Structural)]
pub enum Ord3 {
    Less,
    Equal,
    Greater,
}

/// A bit pattern encodes NaN iff its exponent field is all ones and its
/// fraction field is nonzero.  NaN is the null sentinel for numeric cells.
pub open spec fn spec_is_nan(bits: u64) -> bool {
    (bits >> 52) & EXP_MASK == EXP_MASK && bits & FRAC_MASK != 0
}

/// Whether a numeric cell is null (NaN).
pub fn is_nan_bits(bits: u64) -> (r: bool)
    ensures
        r == spec_is_nan(bits),
{
    (bits >> 52) & EXP_MASK == EXP_MASK && bits & FRAC_MASK != 0
}

/// The negative-zero pattern is identified with positive zero, as the two
/// compare equal as doubles.
pub open spec fn spec_canon(bits: u64) -> u64 {
    if bits == SIGN_BIT {
        0
    } else {
        bits
    }
}

/// Order key of a non-NaN bit pattern: an order-preserving map from the
/// double-precision magnitude order into the unsigned order on `u64`.
/// Non-negative doubles (sign bit clear) grow with their bit pattern and are
/// mapped above `SIGN_BIT`; negative doubles shrink as their pattern grows
/// and are mapped, reversed, below it.
pub open spec fn spec_key(bits: u64) -> u64 {
    let c = spec_canon(bits);
    if c & SIGN_BIT == SIGN_BIT {
        !c
    } else {
        c | SIGN_BIT
    }
}

/// Order key, executable form.
pub fn order_key(bits: u64) -> (r: u64)
    ensures
        r == spec_key(bits),
{
    let c: u64 = if bits == SIGN_BIT {
        0
    } else {
        bits
    };
    if c & SIGN_BIT == SIGN_BIT {
        !c
    } else {
        c | SIGN_BIT
    }
}

/// Null-aware three-outcome comparison of two numeric cells:
/// both null compare equal; exactly one null is placed by `nulls_last`
/// regardless of `descending`; two values compare by magnitude, inverted
/// when `descending`.
pub open spec fn spec_cmp_with_nulls(a: u64, b: u64, descending: bool, nulls_last: bool) -> Ord3 {
    if spec_is_nan(a) && spec_is_nan(b) {
        Ord3::Equal
    } else if spec_is_nan(a) {
        if nulls_last {
            Ord3::Greater
        } else {
            Ord3::Less
        }
    } else if spec_is_nan(b) {
        if nulls_last {
            Ord3::Less
        } else {
            Ord3::Greater
        }
    } else if spec_key(a) < spec_key(b) {
        if descending {
            Ord3::Greater
        } else {
            Ord3::Less
        }
    } else if spec_key(a) > spec_key(b) {
        if descending {
            Ord3::Less
        } else {
            Ord3::Greater
        }
    } else {
        Ord3::Equal
    }
}

/// Null-aware comparison of two numeric cells, executable form.
pub fn cmp_with_nulls(a: u64, b: u64, descending: bool, nulls_last: bool) -> (r: Ord3)
    ensures
        r == spec_cmp_with_nulls(a, b, descending, nulls_last),
{
    let a_null = is_nan_bits(a);
    let b_null = is_nan_bits(b);
    if a_null || b_null {
        if a_null && b_null {
            return Ord3::Equal;
        }
        if nulls_last {
            return if a_null {
                Ord3::Greater
            } else {
                Ord3::Less
            };
        }
        return if a_null {
            Ord3::Less
        } else {
            Ord3::Greater
        };
    }
    let ka = order_key(a);
    let kb = order_key(b);
    if ka < kb {
        if descending {
            Ord3::Greater
        } else {
            Ord3::Less
        }
    } else if ka > kb {
        if descending {
            Ord3::Less
        } else {
            Ord3::Greater
        }
    } else {
        Ord3::Equal
    }
}

} // verus!
