//! How large the times of a table may grow.
//!
//! The run editor adds times with overflow checks that abort. Only one of
//! its operations adds: when a segment time is set, the segment times are
//! added up to give the split times. So before text for a segment time is
//! handed over, the largest split time that the run editor holds and the
//! time that the text stands for must together stay below the limit. No
//! other edit needs such a test.

use vstd::prelude::*;

verus! {

/// The limit on whole seconds: the largest count that the run editor's times
/// can hold.
pub const SECONDS_LIMIT: u64 = 0x7fff_ffff_ffff_ffff;

/// The largest of the given counts of seconds, and 0 if there is none above
/// that.
pub open spec fn largest_of(seconds: Seq<Option<int>>) -> int
    decreases seconds.len(),
{
    if seconds.len() == 0 {
        0
    } else {
        let rest = largest_of(seconds.drop_last());
        match seconds.last() {
            Some(count) => if count > rest {
                count
            } else {
                rest
            },
            None => rest,
        }
    }
}

/// The larger of two counts.
pub open spec fn larger(left: int, right: int) -> int {
    if left > right {
        left
    } else {
        right
    }
}

/// A time of at most `largest` whole seconds and a fraction can take on
/// `more` seconds and stay below the limit.
pub open spec fn within_reach(largest: int, more: int) -> bool {
    largest + more < SECONDS_LIMIT
}

/// The largest count is not negative, and no count is above it.
pub proof fn lemma_largest_bounds(seconds: Seq<Option<int>>, row: int)
    requires
        0 <= row < seconds.len(),
    ensures
        largest_of(seconds) >= 0,
        seconds[row] matches Some(count) ==> count <= largest_of(seconds),
    decreases seconds.len(),
{
    lemma_largest_not_negative(seconds.drop_last());
    if row < seconds.len() - 1 {
        lemma_largest_bounds(seconds.drop_last(), row);
    }
}

/// The largest count is not negative.
pub proof fn lemma_largest_not_negative(seconds: Seq<Option<int>>)
    ensures
        largest_of(seconds) >= 0,
    decreases seconds.len(),
{
    if seconds.len() > 0 {
        lemma_largest_not_negative(seconds.drop_last());
    }
}

} // verus!
