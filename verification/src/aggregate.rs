//! The monthly aggregator: groups one employee's performance entries by
//! calendar month and rolls each group up into a `MonthlyStats`.

use vstd::prelude::*;
use crate::lex::{lex_lt, lemma_lex_total, lemma_lex_trans, str_le, str_lt};
use crate::model::{
    MonthlyStats, Performance, StatsError, Therapy, TherapyKind, Employee, entry_selected,
    fits_i32, fits_i64, in_group, month_in_range, month_key,
};
use crate::price::{PriceIndex, price_of};
use crate::rate::{monthly_rate_of, rate_of};
use crate::sums::{count_present, lemma_prefix_step, sum_count, sum_hours};

verus! {

/// Month labels in strictly ascending lexicographic order.
pub open spec fn months_sorted(ms: Seq<String>) -> bool {
    forall|i: int, j: int| 0 <= i < j < ms.len() ==> lex_lt(ms[i]@, ms[j]@)
}

/// Whether a month label is among the collected ones.
pub open spec fn contains_month(ms: Seq<String>, m: Seq<char>) -> bool {
    exists|i: int| 0 <= i < ms.len() && ms[i]@ == m
}

/// Whether some entry among the first `upto` is selected and falls in
/// month `m`.
pub open spec fn month_occurs(
    s: Seq<Performance>,
    employee_id: int,
    start: Option<String>,
    end: Option<String>,
    m: Seq<char>,
    upto: int,
) -> bool {
    exists|k: int|
        0 <= k < upto && entry_selected(s[k], employee_id, start, end) && month_key(s[k].date@)
            == m
}

/// A month's generated income, priced by the fields of a built index:
/// the sum over the tracked therapy types of count total times unit
/// price.
pub open spec fn income_with(
    s: Seq<Performance>,
    employee_id: int,
    start: Option<String>,
    end: Option<String>,
    m: Seq<char>,
    px: PriceIndex,
) -> int {
    sum_count(s, employee_id, start, end, m, TherapyKind::Kg) * px.kg
        + sum_count(s, employee_id, start, end, m, TherapyKind::Mt) * px.mt
        + sum_count(s, employee_id, start, end, m, TherapyKind::Mld) * px.mld
        + sum_count(s, employee_id, start, end, m, TherapyKind::Fango) * px.fango
        + sum_count(s, employee_id, start, end, m, TherapyKind::Ultraschal) * px.ultraschal
        + sum_count(s, employee_id, start, end, m, TherapyKind::Hb) * px.hb
}

/// A month's generated income, priced straight from the rate table.
pub open spec fn month_income(
    s: Seq<Performance>,
    employee_id: int,
    start: Option<String>,
    end: Option<String>,
    m: Seq<char>,
    rates: Seq<Therapy>,
) -> int {
    sum_count(s, employee_id, start, end, m, TherapyKind::Kg) * price_of(rates, "kg"@)
        + sum_count(s, employee_id, start, end, m, TherapyKind::Mt) * price_of(rates, "mt"@)
        + sum_count(s, employee_id, start, end, m, TherapyKind::Mld) * price_of(rates, "mld"@)
        + sum_count(s, employee_id, start, end, m, TherapyKind::Fango) * price_of(
        rates,
        "fango"@,
    ) + sum_count(s, employee_id, start, end, m, TherapyKind::Ultraschal) * price_of(
        rates,
        "ultraschal"@,
    ) + sum_count(s, employee_id, start, end, m, TherapyKind::Hb) * price_of(rates, "hb"@)
}

/// Whether every total of one month's group fits its field, with the
/// prices taken from a built index.
pub open spec fn month_ok(
    s: Seq<Performance>,
    employee_id: int,
    start: Option<String>,
    end: Option<String>,
    m: Seq<char>,
    px: PriceIndex,
) -> bool {
    &&& fits_i64(sum_hours(s, employee_id, start, end, m))
    &&& fits_i32(sum_count(s, employee_id, start, end, m, TherapyKind::Kg))
    &&& fits_i32(sum_count(s, employee_id, start, end, m, TherapyKind::Mt))
    &&& fits_i32(sum_count(s, employee_id, start, end, m, TherapyKind::Mld))
    &&& fits_i32(sum_count(s, employee_id, start, end, m, TherapyKind::Fango))
    &&& fits_i32(sum_count(s, employee_id, start, end, m, TherapyKind::Ultraschal))
    &&& fits_i32(sum_count(s, employee_id, start, end, m, TherapyKind::Hb))
    &&& fits_i64(income_with(s, employee_id, start, end, m, px))
}

/// Whether every total of one month's group fits its field, with the
/// prices taken straight from the rate table.
pub open spec fn month_fits(
    s: Seq<Performance>,
    employee_id: int,
    start: Option<String>,
    end: Option<String>,
    m: Seq<char>,
    rates: Seq<Therapy>,
) -> bool {
    &&& fits_i64(sum_hours(s, employee_id, start, end, m))
    &&& fits_i32(sum_count(s, employee_id, start, end, m, TherapyKind::Kg))
    &&& fits_i32(sum_count(s, employee_id, start, end, m, TherapyKind::Mt))
    &&& fits_i32(sum_count(s, employee_id, start, end, m, TherapyKind::Mld))
    &&& fits_i32(sum_count(s, employee_id, start, end, m, TherapyKind::Fango))
    &&& fits_i32(sum_count(s, employee_id, start, end, m, TherapyKind::Ultraschal))
    &&& fits_i32(sum_count(s, employee_id, start, end, m, TherapyKind::Hb))
    &&& fits_i64(month_income(s, employee_id, start, end, m, rates))
}

/// A product of an i32-sized count total and an i64-sized unit price
/// stays well inside 128 bits.
proof fn lemma_mul_count_price(a: int, b: int)
    by (nonlinear_arith)
    requires
        -0x8000_0000 <= a <= 0x7fff_ffff,
        -0x8000_0000_0000_0000 <= b <= 0x7fff_ffff_ffff_ffff,
    ensures
        -0x4000_0000_0000_0000_0000_0000 <= a * b
            <= 0x4000_0000_0000_0000_0000_0000,
{
}

/// The month label of a date string.
fn month_of_date(date: &str) -> (m: String)
    ensures
        m@ == month_key(date@),
{
    let len = date.unicode_len();
    if len <= 7 {
        date.to_owned()
    } else {
        let s = date.substring_char(0, 7);
        s.to_owned()
    }
}

/// Tests the (inclusive) month range filter.
fn month_in_range_exec(m: &str, start: &Option<String>, end: &Option<String>) -> (r: bool)
    ensures
        r == month_in_range(m@, *start, *end),
{
    match (start, end) {
        (Some(s), Some(e)) => {
            let lo = str_le(s.as_str(), m);
            if lo {
                str_le(m, e.as_str())
            } else {
                false
            }
        },
        _ => true,
    }
}

/// Inserts a month label into a sorted list of distinct labels, keeping
/// it sorted; a label already present is left alone.
fn insert_month(months: &mut Vec<String>, m: String)
    requires
        months_sorted(old(months)@),
    ensures
        months_sorted(final(months)@),
        contains_month(final(months)@, m@),
        forall|j: int|
            0 <= j < old(months)@.len() ==> contains_month(final(months)@, old(months)@[j]@),
        forall|j: int|
            0 <= j < final(months)@.len() ==> contains_month(old(months)@, final(months)@[j]@)
                || final(months)@[j]@ == m@,
{
    let n = months.len();
    let mut idx: usize = 0;
    while idx < n && str_lt(months[idx].as_str(), m.as_str())
        invariant
            idx <= n,
            n == months@.len(),
            months@ == old(months)@,
            months_sorted(months@),
            forall|j: int| 0 <= j < idx ==> lex_lt(months@[j]@, m@),
        decreases n - idx,
    {
        idx = idx + 1;
    }
    if idx < n && months[idx] == m {
        proof {
            assert(contains_month(months@, m@));
        }
        return ;
    }
    proof {
        if idx < n {
            lemma_lex_total(m@, months@[idx as int]@);
            assert(lex_lt(m@, months@[idx as int]@));
        }
    }
    let ghost pre = months@;
    months.insert(idx, m);
    proof {
        assert forall|i: int, j: int|
            0 <= i < j < months@.len() implies lex_lt(months@[i]@, months@[j]@) by {
            let idxi = idx as int;
            if j < idxi {
                assert(months@[i] == pre[i]);
                assert(months@[j] == pre[j]);
            } else if i < idxi && j == idxi {
                assert(months@[i] == pre[i]);
                assert(months@[j]@ == m@);
            } else if i < idxi && j > idxi {
                assert(months@[i] == pre[i]);
                assert(months@[j] == pre[j - 1]);
                assert(lex_lt(months@[i]@, m@));
                if j - 1 == idxi {
                    assert(lex_lt(m@, pre[idxi]@));
                    lemma_lex_trans(months@[i]@, m@, pre[idxi]@);
                } else {
                    assert(lex_lt(pre[i]@, pre[j - 1]@));
                }
            } else if i == idxi {
                assert(months@[i]@ == m@);
                assert(months@[j] == pre[j - 1]);
                if j - 1 == idxi {
                    assert(lex_lt(m@, pre[idxi]@));
                } else {
                    assert(lex_lt(m@, pre[idxi]@));
                    assert(lex_lt(pre[idxi]@, pre[j - 1]@));
                    lemma_lex_trans(m@, pre[idxi]@, pre[j - 1]@);
                }
            } else {
                assert(months@[i] == pre[i - 1]);
                assert(months@[j] == pre[j - 1]);
            }
        }
        assert(months@[idx as int]@ == m@);
        assert(contains_month(months@, m@));
        assert forall|j: int|
            0 <= j < pre.len() implies contains_month(months@, pre[j]@) by {
            if j < idx as int {
                assert(months@[j] == pre[j]);
            } else {
                assert(months@[j + 1] == pre[j]);
            }
        }
        assert forall|j: int|
            0 <= j < months@.len() implies contains_month(pre, months@[j]@) || months@[j]@
                == m@ by {
            if j < idx as int {
                assert(months@[j] == pre[j]);
            } else if j > idx as int {
                assert(months@[j] == pre[j - 1]);
            }
        }
    }
}

/// Collects, in ascending order and without repetition, the month
/// labels of the selected entries.
fn collect_months(
    entries: &Vec<Performance>,
    employee_id: i32,
    start: &Option<String>,
    end: &Option<String>,
) -> (ms: Vec<String>)
    ensures
        months_sorted(ms@),
        forall|j: int|
            0 <= j < ms@.len() ==> month_occurs(
                entries@,
                employee_id as int,
                *start,
                *end,
                ms@[j]@,
                entries@.len() as int,
            ),
        forall|k: int|
            0 <= k < entries@.len() && entry_selected(entries@[k], employee_id as int, *start, *end)
                ==> contains_month(ms@, month_key(entries@[k].date@)),
{
    let mut ms: Vec<String> = Vec::new();
    let mut i: usize = 0;
    while i < entries.len()
        invariant
            i <= entries@.len(),
            months_sorted(ms@),
            forall|j: int|
                0 <= j < ms@.len() ==> month_occurs(
                    entries@,
                    employee_id as int,
                    *start,
                    *end,
                    ms@[j]@,
                    i as int,
                ),
            forall|k: int|
                0 <= k < i && entry_selected(entries@[k], employee_id as int, *start, *end)
                    ==> contains_month(ms@, month_key(entries@[k].date@)),
        decreases entries@.len() - i,
    {
        let e = &entries[i];
        let mk = month_of_date(e.date.as_str());
        let in_rng = month_in_range_exec(mk.as_str(), start, end);
        if e.employee_id == employee_id && in_rng {
            let ghost pre = ms@;
            assert(entry_selected(entries@[i as int], employee_id as int, *start, *end));
            insert_month(&mut ms, mk);
            proof {
                assert forall|j: int|
                    0 <= j < ms@.len() implies month_occurs(
                    entries@,
                    employee_id as int,
                    *start,
                    *end,
                    ms@[j]@,
                    i as int + 1,
                ) by {
                    if ms@[j]@ == month_key(entries@[i as int].date@) {
                        assert(entry_selected(
                            entries@[i as int],
                            employee_id as int,
                            *start,
                            *end,
                        ));
                    } else {
                        assert(contains_month(pre, ms@[j]@));
                        let t = choose|t: int| 0 <= t < pre.len() && pre[t]@ == ms@[j]@;
                        assert(month_occurs(
                            entries@,
                            employee_id as int,
                            *start,
                            *end,
                            pre[t]@,
                            i as int,
                        ));
                    }
                }
            }
        } else {
            proof {
                assert forall|j: int|
                    0 <= j < ms@.len() implies month_occurs(
                    entries@,
                    employee_id as int,
                    *start,
                    *end,
                    ms@[j]@,
                    i as int + 1,
                ) by {
                    assert(month_occurs(
                        entries@,
                        employee_id as int,
                        *start,
                        *end,
                        ms@[j]@,
                        i as int,
                    ));
                }
            }
        }
        i = i + 1;
    }
    ms
}

/// Rolls one month's group up into a `MonthlyStats`, or reports that a
/// total does not fit its field.
pub fn sum_month(
    entries: &Vec<Performance>,
    employee_id: i32,
    start: &Option<String>,
    end: &Option<String>,
    m: &String,
    px: &PriceIndex,
    cost: i64,
) -> (r: Option<MonthlyStats>)
    ensures
        r is Some <==> month_ok(entries@, employee_id as int, *start, *end, m@, *px),
        r is Some ==> r->0.month@ == m@,
        r is Some ==> r->0.total_hours as int == sum_hours(
            entries@,
            employee_id as int,
            *start,
            *end,
            m@,
        ),
        r is Some ==> r->0.work_days as int == count_present(
            entries@,
            employee_id as int,
            *start,
            *end,
            m@,
        ),
        r is Some ==> r->0.total_kg as int == sum_count(
            entries@,
            employee_id as int,
            *start,
            *end,
            m@,
            TherapyKind::Kg,
        ),
        r is Some ==> r->0.total_mt as int == sum_count(
            entries@,
            employee_id as int,
            *start,
            *end,
            m@,
            TherapyKind::Mt,
        ),
        r is Some ==> r->0.total_mld as int == sum_count(
            entries@,
            employee_id as int,
            *start,
            *end,
            m@,
            TherapyKind::Mld,
        ),
        r is Some ==> r->0.total_fango as int == sum_count(
            entries@,
            employee_id as int,
            *start,
            *end,
            m@,
            TherapyKind::Fango,
        ),
        r is Some ==> r->0.total_ultraschal as int == sum_count(
            entries@,
            employee_id as int,
            *start,
            *end,
            m@,
            TherapyKind::Ultraschal,
        ),
        r is Some ==> r->0.total_hb as int == sum_count(
            entries@,
            employee_id as int,
            *start,
            *end,
            m@,
            TherapyKind::Hb,
        ),
        r is Some ==> r->0.generated_income as int == income_with(
            entries@,
            employee_id as int,
            *start,
            *end,
            m@,
            *px,
        ),
        r is Some ==> r->0.cost == cost,
{
    let in_rng = month_in_range_exec(m.as_str(), start, end);
    let present_label: String = String::from_str("Present");
    let mut hours: i128 = 0;
    let mut present: usize = 0;
    let mut c_kg: i128 = 0;
    let mut c_mt: i128 = 0;
    let mut c_mld: i128 = 0;
    let mut c_fango: i128 = 0;
    let mut c_ultraschal: i128 = 0;
    let mut c_hb: i128 = 0;
    proof {
        assert(entries@.subrange(0, 0) =~= Seq::<Performance>::empty());
    }
    let mut i: usize = 0;
    while i < entries.len()
        invariant
            i <= entries@.len(),
            in_rng == month_in_range(m@, *start, *end),
            present_label@ == "Present"@,
            hours as int == sum_hours(
                entries@.subrange(0, i as int),
                employee_id as int,
                *start,
                *end,
                m@,
            ),
            -(i as int) * 0x8000_0000_0000_0000 <= hours as int <= (i as int)
                * 0x8000_0000_0000_0000,
            present <= i,
            present as int == count_present(
                entries@.subrange(0, i as int),
                employee_id as int,
                *start,
                *end,
                m@,
            ),
            c_kg as int == sum_count(
                entries@.subrange(0, i as int),
                employee_id as int,
                *start,
                *end,
                m@,
                TherapyKind::Kg,
            ),
            c_mt as int == sum_count(
                entries@.subrange(0, i as int),
                employee_id as int,
                *start,
                *end,
                m@,
                TherapyKind::Mt,
            ),
            c_mld as int == sum_count(
                entries@.subrange(0, i as int),
                employee_id as int,
                *start,
                *end,
                m@,
                TherapyKind::Mld,
            ),
            c_fango as int == sum_count(
                entries@.subrange(0, i as int),
                employee_id as int,
                *start,
                *end,
                m@,
                TherapyKind::Fango,
            ),
            c_ultraschal as int == sum_count(
                entries@.subrange(0, i as int),
                employee_id as int,
                *start,
                *end,
                m@,
                TherapyKind::Ultraschal,
            ),
            c_hb as int == sum_count(
                entries@.subrange(0, i as int),
                employee_id as int,
                *start,
                *end,
                m@,
                TherapyKind::Hb,
            ),
            -(i as int) * 0x8000_0000 <= c_kg as int <= (i as int) * 0x8000_0000,
            -(i as int) * 0x8000_0000 <= c_mt as int <= (i as int) * 0x8000_0000,
            -(i as int) * 0x8000_0000 <= c_mld as int <= (i as int) * 0x8000_0000,
            -(i as int) * 0x8000_0000 <= c_fango as int <= (i as int) * 0x8000_0000,
            -(i as int) * 0x8000_0000 <= c_ultraschal as int <= (i as int) * 0x8000_0000,
            -(i as int) * 0x8000_0000 <= c_hb as int <= (i as int) * 0x8000_0000,
        decreases entries@.len() - i,
    {
        let e = &entries[i];
        let emk = month_of_date(e.date.as_str());
        let same = emk == *m;
        let grp = e.employee_id == employee_id && same && in_rng;
        proof {
            lemma_prefix_step(entries@, i as int);
            assert(grp == in_group(entries@[i as int], employee_id as int, *start, *end, m@));
        }
        if grp {
            let h: i64 = match e.hours_worked {
                Some(h) => h,
                None => 0,
            };
            hours = hours + h as i128;
            if e.status == present_label {
                present = present + 1;
            }
            let v_kg: i32 = match e.kg_num {
                Some(v) => v,
                None => 0,
            };
            let v_mt: i32 = match e.mt_num {
                Some(v) => v,
                None => 0,
            };
            let v_mld: i32 = match e.mld_num {
                Some(v) => v,
                None => 0,
            };
            let v_fango: i32 = match e.fango_num {
                Some(v) => v,
                None => 0,
            };
            let v_ultraschal: i32 = match e.ultraschal_num {
                Some(v) => v,
                None => 0,
            };
            let v_hb: i32 = match e.hb_num {
                Some(v) => v,
                None => 0,
            };
            c_kg = c_kg + v_kg as i128;
            c_mt = c_mt + v_mt as i128;
            c_mld = c_mld + v_mld as i128;
            c_fango = c_fango + v_fango as i128;
            c_ultraschal = c_ultraschal + v_ultraschal as i128;
            c_hb = c_hb + v_hb as i128;
        }
        i = i + 1;
    }
    proof {
        assert(entries@.subrange(0, entries@.len() as int) =~= entries@);
    }
    if hours < i64::MIN as i128 || hours > i64::MAX as i128 {
        return None;
    }
    if c_kg < i32::MIN as i128 || c_kg > i32::MAX as i128 {
        return None;
    }
    if c_mt < i32::MIN as i128 || c_mt > i32::MAX as i128 {
        return None;
    }
    if c_mld < i32::MIN as i128 || c_mld > i32::MAX as i128 {
        return None;
    }
    if c_fango < i32::MIN as i128 || c_fango > i32::MAX as i128 {
        return None;
    }
    if c_ultraschal < i32::MIN as i128 || c_ultraschal > i32::MAX as i128 {
        return None;
    }
    if c_hb < i32::MIN as i128 || c_hb > i32::MAX as i128 {
        return None;
    }
    let t_kg: i32 = c_kg as i32;
    let t_mt: i32 = c_mt as i32;
    let t_mld: i32 = c_mld as i32;
    let t_fango: i32 = c_fango as i32;
    let t_ultraschal: i32 = c_ultraschal as i32;
    let t_hb: i32 = c_hb as i32;
    proof {
        lemma_mul_count_price(t_kg as int, px.kg as int);
        lemma_mul_count_price(t_mt as int, px.mt as int);
        lemma_mul_count_price(t_mld as int, px.mld as int);
        lemma_mul_count_price(t_fango as int, px.fango as int);
        lemma_mul_count_price(t_ultraschal as int, px.ultraschal as int);
        lemma_mul_count_price(t_hb as int, px.hb as int);
    }
    let income: i128 = (t_kg as i128) * (px.kg as i128) + (t_mt as i128) * (px.mt as i128) + (
    t_mld as i128) * (px.mld as i128) + (t_fango as i128) * (px.fango as i128) + (
    t_ultraschal as i128) * (px.ultraschal as i128) + (t_hb as i128) * (px.hb as i128);
    if income < i64::MIN as i128 || income > i64::MAX as i128 {
        return None;
    }
    Some(
        MonthlyStats {
            month: m.clone(),
            total_hours: hours as i64,
            work_days: present,
            cost,
            generated_income: income as i64,
            total_kg: t_kg,
            total_mt: t_mt,
            total_mld: t_mld,
            total_fango: t_fango,
            total_ultraschal: t_ultraschal,
            total_hb: t_hb,
        },
    )
}

/// The per-row field equations of one emitted `MonthlyStats`: sums over
/// the month's group, income priced from the rate table, cost equal to
/// the employee's resolved monthly rate.
pub open spec fn stat_correct(
    st: MonthlyStats,
    s: Seq<Performance>,
    emps: Seq<Employee>,
    rates: Seq<Therapy>,
    employee_id: int,
    start: Option<String>,
    end: Option<String>,
) -> bool {
    &&& st.total_hours as int == sum_hours(s, employee_id, start, end, st.month@)
    &&& st.work_days as int == count_present(s, employee_id, start, end, st.month@)
    &&& st.total_kg as int == sum_count(s, employee_id, start, end, st.month@, TherapyKind::Kg)
    &&& st.total_mt as int == sum_count(s, employee_id, start, end, st.month@, TherapyKind::Mt)
    &&& st.total_mld as int == sum_count(
        s,
        employee_id,
        start,
        end,
        st.month@,
        TherapyKind::Mld,
    )
    &&& st.total_fango as int == sum_count(
        s,
        employee_id,
        start,
        end,
        st.month@,
        TherapyKind::Fango,
    )
    &&& st.total_ultraschal as int == sum_count(
        s,
        employee_id,
        start,
        end,
        st.month@,
        TherapyKind::Ultraschal,
    )
    &&& st.total_hb as int == sum_count(s, employee_id, start, end, st.month@, TherapyKind::Hb)
    &&& st.generated_income as int == month_income(s, employee_id, start, end, st.month@, rates)
    &&& st.cost as int == rate_of(emps, employee_id)
}

/// Whether a month label is among the emitted rows.
pub open spec fn stats_contain_month(ss: Seq<MonthlyStats>, m: Seq<char>) -> bool {
    exists|i: int| 0 <= i < ss.len() && ss[i].month@ == m
}

/// Emitted rows stand in strictly ascending month order.
pub open spec fn rollup_rows_sorted(ss: Seq<MonthlyStats>) -> bool {
    forall|i: int, j: int| 0 <= i < j < ss.len() ==> lex_lt(ss[i].month@, ss[j].month@)
}

/// Every emitted month really holds a selected entry.
pub open spec fn rollup_months_genuine(
    ss: Seq<MonthlyStats>,
    s: Seq<Performance>,
    employee_id: int,
    start: Option<String>,
    end: Option<String>,
) -> bool {
    forall|j: int|
        0 <= j < ss.len() ==> month_occurs(s, employee_id, start, end, ss[j].month@, s.len() as int)
}

/// Every selected entry's month is among the emitted rows.
pub open spec fn rollup_months_complete(
    ss: Seq<MonthlyStats>,
    s: Seq<Performance>,
    employee_id: int,
    start: Option<String>,
    end: Option<String>,
) -> bool {
    forall|k: int|
        0 <= k < s.len() && entry_selected(s[k], employee_id, start, end)
            ==> stats_contain_month(ss, month_key(s[k].date@))
}

/// Every emitted row's fields satisfy the per-row equations.
pub open spec fn rollup_rows_correct(
    ss: Seq<MonthlyStats>,
    s: Seq<Performance>,
    emps: Seq<Employee>,
    rates: Seq<Therapy>,
    employee_id: int,
    start: Option<String>,
    end: Option<String>,
) -> bool {
    forall|j: int|
        0 <= j < ss.len() ==> stat_correct(ss[j], s, emps, rates, employee_id, start, end)
}

/// The whole contract of a successful aggregation: sorted rows, months
/// exactly those of the selected entries, fields exact.
pub open spec fn rollup_matches(
    ss: Seq<MonthlyStats>,
    s: Seq<Performance>,
    emps: Seq<Employee>,
    rates: Seq<Therapy>,
    employee_id: int,
    start: Option<String>,
    end: Option<String>,
) -> bool {
    &&& rollup_rows_sorted(ss)
    &&& rollup_months_genuine(ss, s, employee_id, start, end)
    &&& rollup_months_complete(ss, s, employee_id, start, end)
    &&& rollup_rows_correct(ss, s, emps, rates, employee_id, start, end)
}

/// Computes the monthly rollups of one employee's performance entries.
///
/// One row is emitted per month that holds at least one selected entry,
/// in strictly ascending month order. The month range filter applies
/// only when both bounds are given. A missing employee costs zero; a
/// therapy type missing from the rate table prices at zero. The call
/// fails, with no partial result, exactly when some month's total does
/// not fit its field.
pub fn compute_monthly_stats(
    employees: &Vec<Employee>,
    rates: &Vec<Therapy>,
    entries: &Vec<Performance>,
    employee_id: i32,
    start_month: Option<String>,
    end_month: Option<String>,
) -> (r: Result<Vec<MonthlyStats>, StatsError>)
    ensures
        r is Ok ==> rollup_matches(
            r->Ok_0@,
            entries@,
            employees@,
            rates@,
            employee_id as int,
            start_month,
            end_month,
        ),
        r is Err <==> exists|k: int|
            0 <= k < entries@.len() && entry_selected(
                entries@[k],
                employee_id as int,
                start_month,
                end_month,
            ) && !month_fits(
                entries@,
                employee_id as int,
                start_month,
                end_month,
                month_key(entries@[k].date@),
                rates@,
            ),
        (forall|k: int|
            0 <= k < entries@.len() ==> !entry_selected(
                entries@[k],
                employee_id as int,
                start_month,
                end_month,
            )) ==> (r is Ok && r->Ok_0@.len() == 0),
{
    let px = PriceIndex::build(rates);
    let cost = monthly_rate_of(employees, employee_id);
    let months = collect_months(entries, employee_id, &start_month, &end_month);
    let mut out: Vec<MonthlyStats> = Vec::new();
    let mut j: usize = 0;
    while j < months.len()
        invariant
            j <= months@.len(),
            out@.len() == j,
            px.matches(rates@),
            cost as int == rate_of(employees@, employee_id as int),
            months_sorted(months@),
            forall|t: int|
                0 <= t < months@.len() ==> month_occurs(
                    entries@,
                    employee_id as int,
                    start_month,
                    end_month,
                    months@[t]@,
                    entries@.len() as int,
                ),
            forall|k: int|
                0 <= k < entries@.len() && entry_selected(
                    entries@[k],
                    employee_id as int,
                    start_month,
                    end_month,
                ) ==> contains_month(months@, month_key(entries@[k].date@)),
            forall|t: int| 0 <= t < j ==> out@[t].month@ == months@[t]@,
            forall|t: int|
                0 <= t < j ==> stat_correct(
                    out@[t],
                    entries@,
                    employees@,
                    rates@,
                    employee_id as int,
                    start_month,
                    end_month,
                ),
            forall|t: int|
                0 <= t < j ==> month_fits(
                    entries@,
                    employee_id as int,
                    start_month,
                    end_month,
                    months@[t]@,
                    rates@,
                ),
        decreases months@.len() - j,
    {
        let res = sum_month(entries, employee_id, &start_month, &end_month, &months[j], &px, cost);
        match res {
            Some(st) => {
                proof {
                    assert(income_with(
                        entries@,
                        employee_id as int,
                        start_month,
                        end_month,
                        months@[j as int]@,
                        px,
                    ) == month_income(
                        entries@,
                        employee_id as int,
                        start_month,
                        end_month,
                        months@[j as int]@,
                        rates@,
                    ));
                }
                out.push(st);
            },
            None => {
                proof {
                    let mj = months@[j as int]@;
                    assert(month_occurs(
                        entries@,
                        employee_id as int,
                        start_month,
                        end_month,
                        mj,
                        entries@.len() as int,
                    ));
                    assert(income_with(
                        entries@,
                        employee_id as int,
                        start_month,
                        end_month,
                        mj,
                        px,
                    ) == month_income(
                        entries@,
                        employee_id as int,
                        start_month,
                        end_month,
                        mj,
                        rates@,
                    ));
                    assert(!month_fits(
                        entries@,
                        employee_id as int,
                        start_month,
                        end_month,
                        mj,
                        rates@,
                    ));
                    let k = choose|k: int|
                        0 <= k < entries@.len() && entry_selected(
                            entries@[k],
                            employee_id as int,
                            start_month,
                            end_month,
                        ) && month_key(entries@[k].date@) == mj;
                    assert(entry_selected(
                        entries@[k],
                        employee_id as int,
                        start_month,
                        end_month,
                    ) && !month_fits(
                        entries@,
                        employee_id as int,
                        start_month,
                        end_month,
                        month_key(entries@[k].date@),
                        rates@,
                    ));
                }
                return Err(StatsError::TotalOutOfRange);
            },
        }
        j = j + 1;
    }
    proof {
        assert forall|a: int, b: int|
            0 <= a < b < out@.len() implies lex_lt(out@[a].month@, out@[b].month@) by {
            assert(out@[a].month@ == months@[a]@);
            assert(out@[b].month@ == months@[b]@);
            assert(lex_lt(months@[a]@, months@[b]@));
        }
        assert forall|t: int|
            0 <= t < out@.len() implies month_occurs(
            entries@,
            employee_id as int,
            start_month,
            end_month,
            out@[t].month@,
            entries@.len() as int,
        ) by {
            assert(out@[t].month@ == months@[t]@);
            assert(month_occurs(
                entries@,
                employee_id as int,
                start_month,
                end_month,
                months@[t]@,
                entries@.len() as int,
            ));
        }
        assert forall|k: int|
            0 <= k < entries@.len() && entry_selected(
                entries@[k],
                employee_id as int,
                start_month,
                end_month,
            ) implies stats_contain_month(out@, month_key(entries@[k].date@)) && month_fits(
            entries@,
            employee_id as int,
            start_month,
            end_month,
            month_key(entries@[k].date@),
            rates@,
        ) by {
            let mk = month_key(entries@[k].date@);
            assert(contains_month(months@, mk));
            let t = choose|t: int| 0 <= t < months@.len() && months@[t]@ == mk;
            assert(out@[t].month@ == mk);
            assert(month_fits(
                entries@,
                employee_id as int,
                start_month,
                end_month,
                months@[t]@,
                rates@,
            ));
        }
        if forall|k: int|
            0 <= k < entries@.len() ==> !entry_selected(
                entries@[k],
                employee_id as int,
                start_month,
                end_month,
            ) {
            if months@.len() > 0 {
                assert(month_occurs(
                    entries@,
                    employee_id as int,
                    start_month,
                    end_month,
                    months@[0]@,
                    entries@.len() as int,
                ));
                let k = choose|k: int|
                    0 <= k < entries@.len() && entry_selected(
                        entries@[k],
                        employee_id as int,
                        start_month,
                        end_month,
                    ) && month_key(entries@[k].date@) == months@[0]@;
                assert(false);
            }
        }
    }
    Ok(out)
}

} // verus!
