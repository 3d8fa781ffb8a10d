//! Source positions: self-contained line/column/byte extents for one token,
//! copied out of the tokenizer's span representation.

use vstd::prelude::*;

verus! {

/// Where a token sits in its file: lines are 1-based, columns 0-based,
/// and `byte_start..byte_end` is the token's byte range in the file.
#[derive(Clone, Copy, Debug, PartialEq, Eq, Structural)]
pub struct SourcePosition {
    pub start_line: usize,
    pub start_col: usize,
    pub end_line: usize,
    pub end_col: usize,
    pub byte_start: usize,
    pub byte_end: usize,
}

/// Strict order on (line, column) pairs: earlier line, or same line and
/// earlier column.
pub open spec fn loc_lt(l1: int, c1: int, l2: int, c2: int) -> bool {
    l1 < l2 || (l1 == l2 && c1 < c2)
}

/// Non-strict order on (line, column) pairs.
pub open spec fn loc_le(l1: int, c1: int, l2: int, c2: int) -> bool {
    l1 < l2 || (l1 == l2 && c1 <= c2)
}

/// A position is well formed when its start lies strictly before its end
/// (every token covers at least one character), lines are 1-based, and the
/// byte range is ordered. The column bound leaves room for the 1-based
/// columns that diagnostics report.
pub open spec fn pos_wf(p: SourcePosition) -> bool {
    &&& 1 <= p.start_line
    &&& 1 <= p.end_line
    &&& loc_lt(p.start_line as int, p.start_col as int, p.end_line as int, p.end_col as int)
    &&& p.byte_start <= p.byte_end
    &&& p.start_col < usize::MAX
    &&& p.end_col < usize::MAX
}

/// Decides `loc_lt` on machine integers.
pub fn loc_before(l1: usize, c1: usize, l2: usize, c2: usize) -> (r: bool)
    ensures
        r == loc_lt(l1 as int, c1 as int, l2 as int, c2 as int),
{
    l1 < l2 || (l1 == l2 && c1 < c2)
}

} // verus!
