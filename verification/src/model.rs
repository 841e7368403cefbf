//! Data model: the three record tables and the derived monthly rollup.
//!
//! Decimal quantities (monthly rates, hours, per-unit prices, income) are
//! carried as fixed-point integers in hundredths, so that the aggregation
//! arithmetic is exact. The storage layer converts at the boundary.

use vstd::prelude::*;
use crate::lex::lex_le;

verus! {

/// One employee row. `monthly_rate` and `avg_hours` are fixed-point
/// hundredths (a rate of 1000.00 is stored as 100000).
#[derive(Debug)]
pub struct Employee {
    pub id: i32,
    pub name: String,
    pub join_date: String,
    pub monthly_rate: i64,
    pub avg_hours: i64,
}

/// One daily performance entry. `date` is expected in "YYYY-MM-DD" form;
/// grouping uses its first seven characters, whatever they are. A `None`
/// in `hours_worked` or a therapy count is a value absent from the store
/// and counts as zero in every sum. `income` is the figure recorded at
/// entry time; the aggregation recomputes income from the counts and
/// never reads it.
#[derive(Debug)]
pub struct Performance {
    pub id: i32,
    pub employee_id: i32,
    pub date: String,
    pub hours_worked: Option<i64>,
    pub status: String,
    pub income: i64,
    pub kg_num: Option<i32>,
    pub mt_num: Option<i32>,
    pub mld_num: Option<i32>,
    pub fango_num: Option<i32>,
    pub ultraschal_num: Option<i32>,
    pub hb_num: Option<i32>,
}

/// One therapy rate row: the per-unit `income` (fixed-point hundredths)
/// used to price the matching count column of `Performance`.
#[derive(Debug)]
pub struct Therapy {
    pub id: i32,
    pub therapy_name: String,
    pub cost: i64,
    pub income: i64,
}

/// The tracked therapy types, one per count column of `Performance`.
#[derive(Clone, Copy, PartialEq, Eq, Structural, Debug)]
pub enum TherapyKind {
    Kg,
    Mt,
    Mld,
    Fango,
    Ultraschal,
    Hb,
}

/// One month's rollup for one employee. Derived, never persisted.
#[derive(Debug)]
pub struct MonthlyStats {
    pub month: String,
    pub total_hours: i64,
    pub work_days: usize,
    pub cost: i64,
    pub generated_income: i64,
    pub total_kg: i32,
    pub total_mt: i32,
    pub total_mld: i32,
    pub total_fango: i32,
    pub total_ultraschal: i32,
    pub total_hb: i32,
}

/// The aggregation fails only when a monthly total does not fit the
/// fixed-width field that carries it.
#[derive(Clone, Copy, PartialEq, Eq, Structural, Debug)]
pub enum StatsError {
    TotalOutOfRange,
}

/// Whether a mathematical total fits the signed 64-bit field that
/// carries it.
pub open spec fn fits_i64(v: int) -> bool {
    -0x8000_0000_0000_0000 <= v <= 0x7fff_ffff_ffff_ffff
}

/// Whether a mathematical total fits the signed 32-bit field that
/// carries it.
pub open spec fn fits_i32(v: int) -> bool {
    -0x8000_0000 <= v <= 0x7fff_ffff
}

/// The month label of a date: its first seven characters, or the whole
/// date when it is shorter.
pub open spec fn month_key(date: Seq<char>) -> Seq<char> {
    if date.len() <= 7 {
        date
    } else {
        date.subrange(0, 7)
    }
}

/// The hours of an entry, with an absent value counting as zero.
pub open spec fn hours_val(e: Performance) -> int {
    match e.hours_worked {
        Some(h) => h as int,
        None => 0,
    }
}

/// A count column's value, with an absent value counting as zero.
pub open spec fn count_val(c: Option<i32>) -> int {
    match c {
        Some(v) => v as int,
        None => 0,
    }
}

/// The count an entry records for one therapy type.
pub open spec fn kind_count_val(e: Performance, k: TherapyKind) -> int {
    match k {
        TherapyKind::Kg => count_val(e.kg_num),
        TherapyKind::Mt => count_val(e.mt_num),
        TherapyKind::Mld => count_val(e.mld_num),
        TherapyKind::Fango => count_val(e.fango_num),
        TherapyKind::Ultraschal => count_val(e.ultraschal_num),
        TherapyKind::Hb => count_val(e.hb_num),
    }
}

/// An entry counts toward work days exactly when its status is the
/// literal "Present".
pub open spec fn is_present(e: Performance) -> bool {
    e.status@ == "Present"@
}

/// The month range filter is active only when both bounds are given.
pub open spec fn range_active(start: Option<String>, end: Option<String>) -> bool {
    start is Some && end is Some
}

/// Whether a month label passes the (inclusive) range filter. With the
/// filter inactive every month passes.
pub open spec fn month_in_range(m: Seq<char>, start: Option<String>, end: Option<String>) -> bool {
    if range_active(start, end) {
        lex_le(start->0@, m) && lex_le(m, end->0@)
    } else {
        true
    }
}

/// Whether an entry belongs to the aggregation: it must be the chosen
/// employee's, and its month must pass the range filter.
pub open spec fn entry_selected(
    e: Performance,
    employee_id: int,
    start: Option<String>,
    end: Option<String>,
) -> bool {
    e.employee_id == employee_id && month_in_range(month_key(e.date@), start, end)
}

/// Whether an entry belongs to the group of one month.
pub open spec fn in_group(
    e: Performance,
    employee_id: int,
    start: Option<String>,
    end: Option<String>,
    m: Seq<char>,
) -> bool {
    entry_selected(e, employee_id, start, end) && month_key(e.date@) == m
}

} // verus!
