//! Columnar query acceleration: null-aware multi-key argsort and
//! expression-driven row filtering over in-memory columns.
//!
//! Numeric cells are carried as raw IEEE 754 double-precision bit patterns
//! (`u64`), with the NaN bit patterns serving as the null sentinel; text
//! cells are optional strings.  The host converts its own buffers to and
//! from these plain representations at the boundary.

use vstd::prelude::*;

pub mod numeric;
pub mod text;
pub mod column;
pub mod sort;
pub mod expr;
pub mod parse;
pub mod filter;

verus! {

/// Row-count threshold at or above which argsort switches to the parallel path.
pub const PAR_SORT_THRESHOLD: usize = 2500;

/// Row-count threshold at or above which filtering switches to the parallel path.
pub const PAR_FILTER_THRESHOLD: usize = 5000;

/// Longest filter expression, in characters, that the compiler accepts.
pub const MAX_FILTER_EXPR_LEN: usize = 1000;

/// Call-level validation failures.  Each aborts the whole call before any row
/// work starts; per-row evaluation failures are never surfaced as errors.
#[derive(Debug, Clone)]
pub enum EngineError {
    /// Parallel parameter arrays and columns disagree in length, or the
    /// columns of one call disagree in row count.
    LengthMismatch,
    /// A host numeric buffer could not be viewed as a flat slice.  Produced
    /// by the host-side column-view construction, never by the engine itself.
    NonContiguousInput,
    /// The filter expression exceeds `MAX_FILTER_EXPR_LEN` characters.
    ExpressionTooLong,
    /// The filter expression is not well formed; carries a readable reason.
    ExpressionParseError(String),
}

} // verus!
