use therapy_stats::aggregate::{compute_monthly_stats, sum_month};
use therapy_stats::price::PriceIndex;
use therapy_stats::model::{Employee, Performance, StatsError, Therapy};

fn employee(id: i32, monthly_rate: i64) -> Employee {
    Employee {
        id,
        name: "Mira".to_string(),
        join_date: "2023-11-01".to_string(),
        monthly_rate,
        avg_hours: 800,
    }
}

fn rate(id: i32, name: &str, income: i64) -> Therapy {
    Therapy { id, therapy_name: name.to_string(), cost: 0, income }
}

fn entry(id: i32, emp: i32, date: &str, hours: Option<i64>, status: &str) -> Performance {
    Performance {
        id,
        employee_id: emp,
        date: date.to_string(),
        hours_worked: hours,
        status: status.to_string(),
        income: 0,
        kg_num: None,
        mt_num: None,
        mld_num: None,
        fango_num: None,
        ultraschal_num: None,
        hb_num: None,
    }
}

fn entry_kg(id: i32, emp: i32, date: &str, hours: Option<i64>, status: &str, kg: i32) -> Performance {
    let mut e = entry(id, emp, date, hours, status);
    e.kg_num = Some(kg);
    e
}

#[test]
fn empty_entries_give_empty_result() {
    let employees = vec![employee(1, 100000)];
    let rates = vec![rate(1, "kg", 5000)];
    let entries: Vec<Performance> = Vec::new();
    let r = compute_monthly_stats(&employees, &rates, &entries, 1, None, None).unwrap();
    assert_eq!(r.len(), 0);
}

#[test]
fn entries_of_other_employees_are_ignored() {
    let employees = vec![employee(1, 100000)];
    let rates = vec![rate(1, "kg", 5000)];
    let entries = vec![entry_kg(1, 2, "2024-01-05", Some(800), "Present", 2)];
    let r = compute_monthly_stats(&employees, &rates, &entries, 1, None, None).unwrap();
    assert_eq!(r.len(), 0);
}

#[test]
fn months_are_sorted_and_unique() {
    let employees = vec![employee(1, 100000)];
    let rates: Vec<Therapy> = Vec::new();
    let entries = vec![
        entry(1, 1, "2024-03-02", Some(100), "Present"),
        entry(2, 1, "2023-12-31", Some(200), "Present"),
        entry(3, 1, "2024-01-15", Some(300), "Absent"),
        entry(4, 1, "2024-03-09", Some(400), "Present"),
        entry(5, 1, "2024-01-01", Some(500), "Present"),
    ];
    let r = compute_monthly_stats(&employees, &rates, &entries, 1, None, None).unwrap();
    let months: Vec<&str> = r.iter().map(|s| s.month.as_str()).collect();
    assert_eq!(months, vec!["2023-12", "2024-01", "2024-03"]);
    for w in r.windows(2) {
        assert!(w[0].month < w[1].month);
    }
}

#[test]
fn work_days_count_only_exact_present() {
    let employees = vec![employee(1, 100000)];
    let rates: Vec<Therapy> = Vec::new();
    let entries = vec![
        entry(1, 1, "2024-01-01", Some(800), "Present"),
        entry(2, 1, "2024-01-02", Some(800), "present"),
        entry(3, 1, "2024-01-03", Some(800), "Absent"),
        entry(4, 1, "2024-01-04", Some(800), ""),
        entry(5, 1, "2024-01-05", Some(800), "Present "),
    ];
    let r = compute_monthly_stats(&employees, &rates, &entries, 1, None, None).unwrap();
    assert_eq!(r.len(), 1);
    assert_eq!(r[0].work_days, 1);
    assert_eq!(r[0].total_hours, 4000);
}

#[test]
fn absent_hours_count_as_zero() {
    let employees = vec![employee(1, 100000)];
    let rates: Vec<Therapy> = Vec::new();
    let entries = vec![
        entry(1, 1, "2024-01-01", None, "Present"),
        entry(2, 1, "2024-01-02", Some(450), "Present"),
    ];
    let r = compute_monthly_stats(&employees, &rates, &entries, 1, None, None).unwrap();
    assert_eq!(r[0].total_hours, 450);
    assert_eq!(r[0].work_days, 2);
}

#[test]
fn income_formula_is_exact_over_tracked_types() {
    let employees = vec![employee(1, 100000)];
    let rates = vec![rate(1, "kg", 5000), rate(2, "mt", 2500), rate(3, "hb", 125)];
    let mut e1 = entry(1, 1, "2024-01-05", Some(800), "Present");
    e1.kg_num = Some(2);
    e1.mt_num = Some(3);
    e1.hb_num = Some(4);
    let mut e2 = entry(2, 1, "2024-01-06", Some(800), "Present");
    e2.kg_num = Some(1);
    e2.fango_num = Some(7);
    let entries = vec![e1, e2];
    let r = compute_monthly_stats(&employees, &rates, &entries, 1, None, None).unwrap();
    assert_eq!(r.len(), 1);
    assert_eq!(r[0].total_kg, 3);
    assert_eq!(r[0].total_mt, 3);
    assert_eq!(r[0].total_hb, 4);
    assert_eq!(r[0].total_fango, 7);
    // 3 kg at 50.00 + 3 mt at 25.00 + 4 hb at 1.25 + 7 fango unpriced
    assert_eq!(r[0].generated_income, 3 * 5000 + 3 * 2500 + 4 * 125);
}

#[test]
fn unpriced_therapy_type_prices_at_zero() {
    let employees = vec![employee(1, 100000)];
    let rates = vec![rate(1, "mt", 2500)];
    let entries = vec![entry_kg(1, 1, "2024-01-05", Some(800), "Present", 9)];
    let r = compute_monthly_stats(&employees, &rates, &entries, 1, None, None).unwrap();
    assert_eq!(r[0].total_kg, 9);
    assert_eq!(r[0].generated_income, 0);
}

#[test]
fn all_absent_counts_give_zero_income() {
    let employees = vec![employee(1, 100000)];
    let rates = vec![rate(1, "kg", 5000)];
    let entries = vec![entry(1, 1, "2024-01-05", Some(800), "Present")];
    let r = compute_monthly_stats(&employees, &rates, &entries, 1, None, None).unwrap();
    assert_eq!(r[0].generated_income, 0);
    assert_eq!(r[0].total_kg, 0);
}

#[test]
fn duplicate_rate_rows_price_by_the_last() {
    let employees = vec![employee(1, 100000)];
    let rates = vec![rate(1, "kg", 100), rate(2, "kg", 200)];
    let entries = vec![entry_kg(1, 1, "2024-01-05", Some(800), "Present", 1)];
    let r = compute_monthly_stats(&employees, &rates, &entries, 1, None, None).unwrap();
    assert_eq!(r[0].generated_income, 200);
}

#[test]
fn cost_is_the_monthly_rate_on_every_row() {
    let employees = vec![employee(7, 123456), employee(1, 100000)];
    let rates: Vec<Therapy> = Vec::new();
    let entries = vec![
        entry(1, 7, "2024-01-05", Some(800), "Present"),
        entry(2, 7, "2024-02-05", Some(800), "Present"),
    ];
    let r = compute_monthly_stats(&employees, &rates, &entries, 7, None, None).unwrap();
    assert_eq!(r.len(), 2);
    assert_eq!(r[0].cost, 123456);
    assert_eq!(r[1].cost, 123456);
}

#[test]
fn missing_employee_costs_zero_and_still_aggregates() {
    let employees = vec![employee(1, 100000)];
    let rates = vec![rate(1, "kg", 5000)];
    let entries = vec![entry_kg(1, 9, "2024-01-05", Some(800), "Present", 2)];
    let r = compute_monthly_stats(&employees, &rates, &entries, 9, None, None).unwrap();
    assert_eq!(r.len(), 1);
    assert_eq!(r[0].cost, 0);
    assert_eq!(r[0].generated_income, 10000);
    assert_eq!(r[0].work_days, 1);
}

fn scenario_entries() -> (Vec<Employee>, Vec<Therapy>, Vec<Performance>) {
    let employees = vec![employee(1, 100000)];
    let rates = vec![rate(1, "kg", 5000)];
    let entries = vec![
        entry_kg(1, 1, "2024-01-05", Some(800), "Present", 2),
        entry_kg(2, 1, "2024-01-06", Some(0), "Absent", 1),
        entry_kg(3, 1, "2024-02-01", Some(800), "Present", 3),
    ];
    (employees, rates, entries)
}

#[test]
fn scenario_two_months() {
    let (employees, rates, entries) = scenario_entries();
    let r = compute_monthly_stats(&employees, &rates, &entries, 1, None, None).unwrap();
    assert_eq!(r.len(), 2);
    assert_eq!(r[0].month, "2024-01");
    assert_eq!(r[0].total_hours, 800);
    assert_eq!(r[0].work_days, 1);
    assert_eq!(r[0].cost, 100000);
    assert_eq!(r[0].generated_income, 15000);
    assert_eq!(r[0].total_kg, 3);
    assert_eq!(r[1].month, "2024-02");
    assert_eq!(r[1].total_hours, 800);
    assert_eq!(r[1].work_days, 1);
    assert_eq!(r[1].cost, 100000);
    assert_eq!(r[1].generated_income, 15000);
    assert_eq!(r[1].total_kg, 3);
}

#[test]
fn scenario_range_filter_keeps_february_only() {
    let (employees, rates, entries) = scenario_entries();
    let r = compute_monthly_stats(
        &employees,
        &rates,
        &entries,
        1,
        Some("2024-02".to_string()),
        Some("2024-02".to_string()),
    )
    .unwrap();
    assert_eq!(r.len(), 1);
    assert_eq!(r[0].month, "2024-02");
    assert_eq!(r[0].generated_income, 15000);
}

#[test]
fn range_bounds_are_inclusive() {
    let (employees, rates, entries) = scenario_entries();
    let r = compute_monthly_stats(
        &employees,
        &rates,
        &entries,
        1,
        Some("2024-01".to_string()),
        Some("2024-02".to_string()),
    )
    .unwrap();
    assert_eq!(r.len(), 2);
}

#[test]
fn start_only_behaves_like_no_range() {
    let (employees, rates, entries) = scenario_entries();
    let with_start = compute_monthly_stats(
        &employees,
        &rates,
        &entries,
        1,
        Some("2024-02".to_string()),
        None,
    )
    .unwrap();
    let without = compute_monthly_stats(&employees, &rates, &entries, 1, None, None).unwrap();
    assert_eq!(with_start.len(), without.len());
    for (a, b) in with_start.iter().zip(without.iter()) {
        assert_eq!(a.month, b.month);
        assert_eq!(a.total_hours, b.total_hours);
        assert_eq!(a.work_days, b.work_days);
        assert_eq!(a.cost, b.cost);
        assert_eq!(a.generated_income, b.generated_income);
        assert_eq!(a.total_kg, b.total_kg);
    }
}

#[test]
fn end_only_behaves_like_no_range() {
    let (employees, rates, entries) = scenario_entries();
    let with_end = compute_monthly_stats(
        &employees,
        &rates,
        &entries,
        1,
        None,
        Some("2024-01".to_string()),
    )
    .unwrap();
    let without = compute_monthly_stats(&employees, &rates, &entries, 1, None, None).unwrap();
    assert_eq!(with_end.len(), without.len());
    for (a, b) in with_end.iter().zip(without.iter()) {
        assert_eq!(a.month, b.month);
        assert_eq!(a.generated_income, b.generated_income);
    }
}

#[test]
fn inverted_range_selects_nothing() {
    let (employees, rates, entries) = scenario_entries();
    let r = compute_monthly_stats(
        &employees,
        &rates,
        &entries,
        1,
        Some("2024-02".to_string()),
        Some("2024-01".to_string()),
    )
    .unwrap();
    assert_eq!(r.len(), 0);
}

#[test]
fn sum_month_rolls_one_group_up() {
    let rates = vec![rate(1, "kg", 5000)];
    let px = PriceIndex::build(&rates);
    let (_, _, entries) = scenario_entries();
    let st = sum_month(&entries, 1, &None, &None, &"2024-01".to_string(), &px, 77).unwrap();
    assert_eq!(st.month, "2024-01");
    assert_eq!(st.total_hours, 800);
    assert_eq!(st.work_days, 1);
    assert_eq!(st.total_kg, 3);
    assert_eq!(st.generated_income, 15000);
    assert_eq!(st.cost, 77);
}

#[test]
fn sum_month_reports_a_total_out_of_range() {
    let rates: Vec<Therapy> = Vec::new();
    let px = PriceIndex::build(&rates);
    let entries = vec![
        entry_kg(1, 1, "2024-01-05", Some(0), "Present", i32::MAX),
        entry_kg(2, 1, "2024-01-06", Some(0), "Present", 1),
    ];
    assert!(sum_month(&entries, 1, &None, &None, &"2024-01".to_string(), &px, 0).is_none());
}

#[test]
fn short_and_long_dates_group_by_prefix() {
    let employees = vec![employee(1, 100000)];
    let rates: Vec<Therapy> = Vec::new();
    let entries = vec![
        entry(1, 1, "2024", Some(100), "Present"),
        entry(2, 1, "2024-01-05T09:30", Some(200), "Present"),
        entry(3, 1, "2024-01-09", Some(300), "Present"),
    ];
    let r = compute_monthly_stats(&employees, &rates, &entries, 1, None, None).unwrap();
    assert_eq!(r.len(), 2);
    assert_eq!(r[0].month, "2024");
    assert_eq!(r[0].total_hours, 100);
    assert_eq!(r[1].month, "2024-01");
    assert_eq!(r[1].total_hours, 500);
}

#[test]
fn count_total_out_of_range_fails_whole_call() {
    let employees = vec![employee(1, 100000)];
    let rates: Vec<Therapy> = Vec::new();
    let entries = vec![
        entry_kg(1, 1, "2024-01-05", Some(0), "Present", i32::MAX),
        entry_kg(2, 1, "2024-01-06", Some(0), "Present", i32::MAX),
    ];
    let r = compute_monthly_stats(&employees, &rates, &entries, 1, None, None);
    assert_eq!(r.unwrap_err(), StatsError::TotalOutOfRange);
}

#[test]
fn income_total_out_of_range_fails_whole_call() {
    let employees = vec![employee(1, 100000)];
    let rates = vec![rate(1, "kg", i64::MAX)];
    let entries = vec![entry_kg(1, 1, "2024-01-05", Some(0), "Present", 2)];
    let r = compute_monthly_stats(&employees, &rates, &entries, 1, None, None);
    assert_eq!(r.unwrap_err(), StatsError::TotalOutOfRange);
}

#[test]
fn hours_total_out_of_range_fails_whole_call() {
    let employees = vec![employee(1, 100000)];
    let rates: Vec<Therapy> = Vec::new();
    let entries = vec![
        entry(1, 1, "2024-01-05", Some(i64::MAX), "Present"),
        entry(2, 1, "2024-01-06", Some(i64::MAX), "Present"),
    ];
    let r = compute_monthly_stats(&employees, &rates, &entries, 1, None, None);
    assert_eq!(r.unwrap_err(), StatsError::TotalOutOfRange);
}

#[test]
fn overflow_in_one_month_returns_no_partial_result() {
    let employees = vec![employee(1, 100000)];
    let rates: Vec<Therapy> = Vec::new();
    let entries = vec![
        entry(1, 1, "2024-01-05", Some(800), "Present"),
        entry(2, 1, "2024-02-05", Some(i64::MAX), "Present"),
        entry(3, 1, "2024-02-06", Some(i64::MAX), "Present"),
    ];
    let r = compute_monthly_stats(&employees, &rates, &entries, 1, None, None);
    assert!(r.is_err());
}
