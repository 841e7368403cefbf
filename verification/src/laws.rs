//! Library-wide laws: facts that relate several of the aggregation's
//! specification functions, stated and proved once.

use vstd::prelude::*;
use crate::aggregate::{
    month_fits, month_income, month_occurs, rollup_matches, rollup_rows_sorted, stat_correct,
    stats_contain_month,
};
use crate::lex::{lex_lt, lemma_lex_lt_asym};
use crate::model::{
    Employee, MonthlyStats, Performance, Therapy, TherapyKind, entry_selected, in_group,
    month_key, range_active,
};
use crate::sums::{count_present, sum_count, sum_hours};

verus! {

/// A range with at most one bound given selects, groups, sums and
/// prices exactly as no range at all: the filter activates only when
/// both bounds are present.
pub proof fn lemma_partial_range_inactive(
    s: Seq<Performance>,
    employee_id: int,
    start: Option<String>,
    end: Option<String>,
    m: Seq<char>,
    rates: Seq<Therapy>,
    upto: int,
)
    requires
        !range_active(start, end),
    ensures
        forall|e: Performance| #[trigger] entry_selected(e, employee_id, start, end)
            == entry_selected(e, employee_id, None, None),
        sum_hours(s, employee_id, start, end, m) == sum_hours(s, employee_id, None, None, m),
        count_present(s, employee_id, start, end, m) == count_present(
            s,
            employee_id,
            None,
            None,
            m,
        ),
        forall|k: TherapyKind| #[trigger] sum_count(s, employee_id, start, end, m, k)
            == sum_count(s, employee_id, None, None, m, k),
        month_income(s, employee_id, start, end, m, rates) == month_income(
            s,
            employee_id,
            None,
            None,
            m,
            rates,
        ),
        month_fits(s, employee_id, start, end, m, rates) == month_fits(
            s,
            employee_id,
            None,
            None,
            m,
            rates,
        ),
        month_occurs(s, employee_id, start, end, m, upto) == month_occurs(
            s,
            employee_id,
            None,
            None,
            m,
            upto,
        ),
    decreases s.len(),
{
    assert forall|e: Performance| #[trigger] entry_selected(e, employee_id, start, end)
        == entry_selected(e, employee_id, None, None) by {
        assert(!range_active(None, None));
    }
    if s.len() > 0 {
        lemma_partial_range_inactive(s.drop_last(), employee_id, start, end, m, rates, upto);
        assert(in_group(s.last(), employee_id, start, end, m) == in_group(
            s.last(),
            employee_id,
            None,
            None,
            m,
        ));
        assert forall|k: TherapyKind| #[trigger] sum_count(s, employee_id, start, end, m, k)
            == sum_count(s, employee_id, None, None, m, k) by {
            assert(sum_count(s.drop_last(), employee_id, start, end, m, k) == sum_count(
                s.drop_last(),
                employee_id,
                None,
                None,
                m,
                k,
            ));
        }
    }
    if month_occurs(s, employee_id, start, end, m, upto) {
        let k = choose|k: int|
            0 <= k < upto && entry_selected(s[k], employee_id, start, end) && month_key(
                s[k].date@,
            ) == m;
        assert(entry_selected(s[k], employee_id, None, None));
        assert(month_occurs(s, employee_id, None, None, m, upto));
    }
    if month_occurs(s, employee_id, None, None, m, upto) {
        let k = choose|k: int|
            0 <= k < upto && entry_selected(s[k], employee_id, None, None) && month_key(
                s[k].date@,
            ) == m;
        assert(entry_selected(s[k], employee_id, start, end));
        assert(month_occurs(s, employee_id, start, end, m, upto));
    }
}

/// Two rows that agree: the same month and the same totals.
pub open spec fn rows_agree(a: MonthlyStats, b: MonthlyStats) -> bool {
    &&& a.month@ == b.month@
    &&& a.total_hours == b.total_hours
    &&& a.work_days == b.work_days
    &&& a.cost == b.cost
    &&& a.generated_income == b.generated_income
    &&& a.total_kg == b.total_kg
    &&& a.total_mt == b.total_mt
    &&& a.total_mld == b.total_mld
    &&& a.total_fango == b.total_fango
    &&& a.total_ultraschal == b.total_ultraschal
    &&& a.total_hb == b.total_hb
}

/// Two strictly sorted row sequences that contain each other's months
/// are month-for-month equal.
proof fn lemma_sorted_mutual_equal(ss1: Seq<MonthlyStats>, ss2: Seq<MonthlyStats>)
    requires
        rollup_rows_sorted(ss1),
        rollup_rows_sorted(ss2),
        forall|i: int| 0 <= i < ss1.len() ==> stats_contain_month(ss2, ss1[i].month@),
        forall|i: int| 0 <= i < ss2.len() ==> stats_contain_month(ss1, ss2[i].month@),
    ensures
        ss1.len() == ss2.len(),
        forall|t: int| 0 <= t < ss1.len() ==> ss1[t].month@ == ss2[t].month@,
    decreases ss1.len(),
{
    if ss1.len() == 0 {
        if ss2.len() > 0 {
            assert(stats_contain_month(ss1, ss2[0].month@));
            let i = choose|i: int| 0 <= i < ss1.len() && ss1[i].month@ == ss2[0].month@;
            assert(false);
        }
    } else if ss2.len() == 0 {
        assert(stats_contain_month(ss2, ss1[0].month@));
        let i = choose|i: int| 0 <= i < ss2.len() && ss2[i].month@ == ss1[0].month@;
        assert(false);
    } else {
        if ss1[0].month@ != ss2[0].month@ {
            let i2 = choose|i: int| 0 <= i < ss2.len() && ss2[i].month@ == ss1[0].month@;
            let i1 = choose|i: int| 0 <= i < ss1.len() && ss1[i].month@ == ss2[0].month@;
            assert(i2 >= 1);
            assert(i1 >= 1);
            assert(lex_lt(ss2[0].month@, ss2[i2].month@));
            assert(lex_lt(ss1[0].month@, ss1[i1].month@));
            lemma_lex_lt_asym(ss1[0].month@, ss2[0].month@);
            assert(false);
        }
        let t1 = ss1.subrange(1, ss1.len() as int);
        let t2 = ss2.subrange(1, ss2.len() as int);
        assert forall|i: int, j: int|
            0 <= i < j < t1.len() implies lex_lt(t1[i].month@, t1[j].month@) by {
            assert(t1[i] == ss1[i + 1]);
            assert(t1[j] == ss1[j + 1]);
        }
        assert forall|i: int, j: int|
            0 <= i < j < t2.len() implies lex_lt(t2[i].month@, t2[j].month@) by {
            assert(t2[i] == ss2[i + 1]);
            assert(t2[j] == ss2[j + 1]);
        }
        assert forall|i: int|
            0 <= i < t1.len() implies stats_contain_month(t2, t1[i].month@) by {
            assert(t1[i] == ss1[i + 1]);
            assert(stats_contain_month(ss2, ss1[i + 1].month@));
            let j = choose|j: int| 0 <= j < ss2.len() && ss2[j].month@ == ss1[i + 1].month@;
            if j == 0 {
                assert(lex_lt(ss1[0].month@, ss1[i + 1].month@));
                lemma_lex_lt_asym(ss1[0].month@, ss1[i + 1].month@);
                assert(false);
            }
            assert(t2[j - 1] == ss2[j]);
        }
        assert forall|i: int|
            0 <= i < t2.len() implies stats_contain_month(t1, t2[i].month@) by {
            assert(t2[i] == ss2[i + 1]);
            assert(stats_contain_month(ss1, ss2[i + 1].month@));
            let j = choose|j: int| 0 <= j < ss1.len() && ss1[j].month@ == ss2[i + 1].month@;
            if j == 0 {
                assert(lex_lt(ss2[0].month@, ss2[i + 1].month@));
                lemma_lex_lt_asym(ss2[0].month@, ss2[i + 1].month@);
                assert(false);
            }
            assert(t1[j - 1] == ss1[j]);
        }
        lemma_sorted_mutual_equal(t1, t2);
        assert forall|t: int|
            0 <= t < ss1.len() implies ss1[t].month@ == ss2[t].month@ by {
            if t >= 1 {
                assert(t1[t - 1] == ss1[t]);
                assert(t2[t - 1] == ss2[t]);
            }
        }
    }
}

/// The aggregation contract determines the result: any two row
/// sequences that satisfy it for the same inputs agree row for row.
pub proof fn lemma_rollup_determined(
    ss1: Seq<MonthlyStats>,
    ss2: Seq<MonthlyStats>,
    s: Seq<Performance>,
    emps: Seq<Employee>,
    rates: Seq<Therapy>,
    employee_id: int,
    start: Option<String>,
    end: Option<String>,
)
    requires
        rollup_matches(ss1, s, emps, rates, employee_id, start, end),
        rollup_matches(ss2, s, emps, rates, employee_id, start, end),
    ensures
        ss1.len() == ss2.len(),
        forall|t: int| 0 <= t < ss1.len() ==> rows_agree(ss1[t], ss2[t]),
{
    assert forall|i: int|
        0 <= i < ss1.len() implies stats_contain_month(ss2, ss1[i].month@) by {
        assert(month_occurs(s, employee_id, start, end, ss1[i].month@, s.len() as int));
        let k = choose|k: int|
            0 <= k < s.len() && entry_selected(s[k], employee_id, start, end) && month_key(
                s[k].date@,
            ) == ss1[i].month@;
        assert(stats_contain_month(ss2, month_key(s[k].date@)));
    }
    assert forall|i: int|
        0 <= i < ss2.len() implies stats_contain_month(ss1, ss2[i].month@) by {
        assert(month_occurs(s, employee_id, start, end, ss2[i].month@, s.len() as int));
        let k = choose|k: int|
            0 <= k < s.len() && entry_selected(s[k], employee_id, start, end) && month_key(
                s[k].date@,
            ) == ss2[i].month@;
        assert(stats_contain_month(ss1, month_key(s[k].date@)));
    }
    lemma_sorted_mutual_equal(ss1, ss2);
    assert forall|t: int| 0 <= t < ss1.len() implies rows_agree(ss1[t], ss2[t]) by {
        assert(stat_correct(ss1[t], s, emps, rates, employee_id, start, end));
        assert(stat_correct(ss2[t], s, emps, rates, employee_id, start, end));
        assert(ss1[t].month@ == ss2[t].month@);
    }
}

/// Giving only one bound of the month range yields, row for row, the
/// very rollup that giving no range yields.
pub proof fn lemma_partial_range_rollup_agrees(
    ss1: Seq<MonthlyStats>,
    ss2: Seq<MonthlyStats>,
    s: Seq<Performance>,
    emps: Seq<Employee>,
    rates: Seq<Therapy>,
    employee_id: int,
    start: Option<String>,
    end: Option<String>,
)
    requires
        !range_active(start, end),
        rollup_matches(ss1, s, emps, rates, employee_id, start, end),
        rollup_matches(ss2, s, emps, rates, employee_id, None, None),
    ensures
        ss1.len() == ss2.len(),
        forall|t: int| 0 <= t < ss1.len() ==> rows_agree(ss1[t], ss2[t]),
{
    assert forall|j: int|
        0 <= j < ss1.len() implies month_occurs(
        s,
        employee_id,
        None,
        None,
        ss1[j].month@,
        s.len() as int,
    ) by {
        lemma_partial_range_inactive(s, employee_id, start, end, ss1[j].month@, rates, s.len() as int);
    }
    assert forall|k: int|
        0 <= k < s.len() && entry_selected(s[k], employee_id, None, None)
            implies stats_contain_month(ss1, month_key(s[k].date@)) by {
        lemma_partial_range_inactive(
            s,
            employee_id,
            start,
            end,
            month_key(s[k].date@),
            rates,
            s.len() as int,
        );
        assert(entry_selected(s[k], employee_id, start, end));
    }
    assert forall|j: int|
        0 <= j < ss1.len() implies stat_correct(ss1[j], s, emps, rates, employee_id, None, None) by {
        lemma_partial_range_inactive(s, employee_id, start, end, ss1[j].month@, rates, s.len() as int);
        assert(stat_correct(ss1[j], s, emps, rates, employee_id, start, end));
    }
    assert(rollup_matches(ss1, s, emps, rates, employee_id, None, None));
    lemma_rollup_determined(ss1, ss2, s, emps, rates, employee_id, None, None);
}

/// Strictly ascending months are pairwise distinct: no month appears on
/// two rows.
pub proof fn lemma_sorted_months_distinct(ss: Seq<MonthlyStats>)
    requires
        forall|i: int, j: int| 0 <= i < j < ss.len() ==> lex_lt(ss[i].month@, ss[j].month@),
    ensures
        forall|i: int, j: int|
            0 <= i < ss.len() && 0 <= j < ss.len() && i != j ==> ss[i].month@ != ss[j].month@,
{
    assert forall|i: int, j: int|
        0 <= i < ss.len() && 0 <= j < ss.len() && i != j implies ss[i].month@
        != ss[j].month@ by {
        if i < j {
            lemma_lex_lt_asym(ss[i].month@, ss[j].month@);
        } else {
            lemma_lex_lt_asym(ss[j].month@, ss[i].month@);
        }
    }
}

} // verus!
