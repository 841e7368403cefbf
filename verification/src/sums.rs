//! Per-month sums over the performance entries: hours, work days, and
//! one count total per therapy type.

use vstd::prelude::*;
use crate::model::{
    Performance, TherapyKind, hours_val, in_group, is_present, kind_count_val,
};

verus! {

/// Total hours a month's group records, absent hours counting as zero.
pub open spec fn sum_hours(
    s: Seq<Performance>,
    employee_id: int,
    start: Option<String>,
    end: Option<String>,
    m: Seq<char>,
) -> int
    decreases s.len(),
{
    if s.len() == 0 {
        0
    } else {
        sum_hours(s.drop_last(), employee_id, start, end, m) + if in_group(
            s.last(),
            employee_id,
            start,
            end,
            m,
        ) {
            hours_val(s.last())
        } else {
            0
        }
    }
}

/// How many of a month's entries have status exactly "Present".
pub open spec fn count_present(
    s: Seq<Performance>,
    employee_id: int,
    start: Option<String>,
    end: Option<String>,
    m: Seq<char>,
) -> int
    decreases s.len(),
{
    if s.len() == 0 {
        0
    } else {
        count_present(s.drop_last(), employee_id, start, end, m) + if in_group(
            s.last(),
            employee_id,
            start,
            end,
            m,
        ) && is_present(s.last()) {
            1int
        } else {
            0int
        }
    }
}

/// Total units of one therapy type in a month's group, absent counts
/// counting as zero.
pub open spec fn sum_count(
    s: Seq<Performance>,
    employee_id: int,
    start: Option<String>,
    end: Option<String>,
    m: Seq<char>,
    k: TherapyKind,
) -> int
    decreases s.len(),
{
    if s.len() == 0 {
        0
    } else {
        sum_count(s.drop_last(), employee_id, start, end, m, k) + if in_group(
            s.last(),
            employee_id,
            start,
            end,
            m,
        ) {
            kind_count_val(s.last(), k)
        } else {
            0
        }
    }
}

/// Extending a prefix by one element: the step every summing loop takes.
pub proof fn lemma_prefix_step<A>(s: Seq<A>, i: int)
    requires
        0 <= i < s.len(),
    ensures
        s.subrange(0, i + 1).drop_last() =~= s.subrange(0, i),
        s.subrange(0, i + 1).last() == s[i],
{
}

} // verus!
