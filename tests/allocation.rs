use tip_pool::allocate::{compute, compute_base_hours, order_by_role};
use tip_pool::output::{round_ratio, summarize, Summary};
use tip_pool::records::{
    AllocationRow, ComputationError, LaborReportUpload, Ratio, ReportDate, Role, ShiftRecord,
};

fn shift(name: &str, role: Role, duration: u64, total_pay: u64) -> ShiftRecord {
    ShiftRecord {
        employee: name.to_string(),
        payroll_id: format!("{}-id", name),
        role,
        duration,
        total_pay,
    }
}

fn upload(total_sales: u64, cash_tips: u64, go_tab_tips: u64) -> LaborReportUpload {
    LaborReportUpload {
        date: ReportDate { year: 2024, month: 6, day: 6 },
        total_sales,
        go_tab_tips,
        cash_tips,
        data_csv_link: String::new(),
        template_csv_link: String::new(),
    }
}

fn scenario() -> Vec<ShiftRecord> {
    vec![
        shift("Server A", Role::Server, 400, 4000),
        shift("Server B", Role::Server, 600, 6000),
        shift("Steward", Role::Steward, 500, 5000),
    ]
}

fn value(q: Ratio) -> f64 {
    q.num as f64 / q.den as f64
}

fn same_rows(a: &[AllocationRow], b: &[AllocationRow]) -> bool {
    a.len() == b.len()
        && a.iter().zip(b.iter()).all(|(x, y)| {
            x.employee == y.employee
                && x.payroll_id == y.payroll_id
                && x.role == y.role
                && x.duration == y.duration
                && x.total_pay == y.total_pay
                && x.proportion_of_total_tipped_hours == y.proportion_of_total_tipped_hours
                && x.proportion_of_total_tips == y.proportion_of_total_tips
                && x.proportion_of_total_sales == y.proportion_of_total_sales
                && x.steward_tip_out == y.steward_tip_out
                && x.proportion_of_total_steward_hours == y.proportion_of_total_steward_hours
                && x.proportion_of_total_steward_tips == y.proportion_of_total_steward_tips
                && x.net_tips == y.net_tips
                && x.total_pay_for_night == y.total_pay_for_night
                && x.hourly_pay_for_night == y.hourly_pay_for_night
        })
}

#[test]
fn two_servers_and_a_steward() {
    let rows = compute(&upload(100_000, 10_000, 5_000), &scenario()).unwrap();
    let a = &rows[0];
    assert_eq!(a.proportion_of_total_tipped_hours, Ratio { num: 400, den: 1000 });
    assert_eq!(round_ratio(a.proportion_of_total_tips), 6_000);
    assert_eq!(round_ratio(a.proportion_of_total_sales), 40_000);
    assert_eq!(round_ratio(a.steward_tip_out), 1_000);
    assert_eq!(round_ratio(a.net_tips), 5_000);
    assert_eq!(round_ratio(a.total_pay_for_night), 9_000);
    assert_eq!(round_ratio(a.hourly_pay_for_night), 2_250);
    let b = &rows[1];
    assert_eq!(round_ratio(b.proportion_of_total_tips), 9_000);
    assert_eq!(round_ratio(b.steward_tip_out), 1_500);
    assert_eq!(round_ratio(b.net_tips), 7_500);
    let s = &rows[2];
    assert_eq!(s.proportion_of_total_tipped_hours.num, 0);
    assert_eq!(value(s.proportion_of_total_steward_hours), 1.0);
    assert_eq!(round_ratio(s.proportion_of_total_steward_tips), 2_500);
    assert_eq!(round_ratio(s.net_tips), 2_500);
    let pool: f64 = rows.iter().map(|r| value(r.steward_tip_out)).sum();
    assert!((pool - 2_500.0).abs() < 1e-6);
    let summary = summarize(&rows);
    assert_eq!(summary.total_tips, 15_000);
}

#[test]
fn base_hours_per_group() {
    assert_eq!(compute_base_hours(&scenario()), (0, 1000, 500));
    let recs = vec![
        shift("A", Role::Bartender, 250, 100),
        shift("B", Role::Server, 400, 100),
        shift("C", Role::Bartender, 125, 100),
    ];
    assert_eq!(compute_base_hours(&recs), (375, 400, 0));
}

#[test]
fn tipped_hour_shares_sum_to_one() {
    let recs = vec![
        shift("A", Role::Server, 333, 100),
        shift("B", Role::Bartender, 217, 100),
        shift("C", Role::Server, 125, 100),
        shift("D", Role::Steward, 300, 100),
    ];
    let rows = compute(&upload(123_456, 7_890, 1_234), &recs).unwrap();
    let sum: f64 = rows
        .iter()
        .filter(|r| r.role != Role::Steward)
        .map(|r| value(r.proportion_of_total_tipped_hours))
        .sum();
    assert!((sum - 1.0).abs() < 1e-4);
    let nums: i128 = rows
        .iter()
        .filter(|r| r.role != Role::Steward)
        .map(|r| r.proportion_of_total_tipped_hours.num)
        .sum();
    assert_eq!(nums, rows[0].proportion_of_total_tipped_hours.den);
}

#[test]
fn steward_hour_shares_sum_to_one() {
    let recs = vec![
        shift("A", Role::Server, 400, 100),
        shift("B", Role::Steward, 333, 100),
        shift("C", Role::Steward, 667, 100),
    ];
    let rows = compute(&upload(50_000, 5_000, 0), &recs).unwrap();
    let sum: f64 = rows
        .iter()
        .filter(|r| r.role == Role::Steward)
        .map(|r| value(r.proportion_of_total_steward_hours))
        .sum();
    assert!((sum - 1.0).abs() < 1e-4);
}

#[test]
fn net_tips_are_conserved() {
    let recs = vec![
        shift("A", Role::Server, 333, 1_000),
        shift("B", Role::Bartender, 517, 2_000),
        shift("C", Role::Steward, 250, 3_000),
        shift("D", Role::Steward, 125, 500),
    ];
    let rows = compute(&upload(987_654, 12_345, 6_789), &recs).unwrap();
    let sum: f64 = rows.iter().map(|r| value(r.net_tips)).sum();
    assert!((sum - 19_134.0).abs() < 1e-4);
}

#[test]
fn allocation_is_idempotent() {
    let up = upload(100_000, 10_000, 5_000);
    let first = compute(&up, &scenario()).unwrap();
    let second = compute(&up, &scenario()).unwrap();
    assert!(same_rows(&first, &second));
}

#[test]
fn zero_duration_is_refused() {
    let recs = vec![
        shift("A", Role::Server, 400, 100),
        shift("B", Role::Server, 0, 100),
        shift("C", Role::Steward, 0, 100),
    ];
    match compute(&upload(1, 1, 1), &recs) {
        Err(ComputationError::ZeroDuration { employee }) => assert_eq!(employee, "B"),
        other => panic!("unexpected {:?}", other),
    }
}

#[test]
fn night_without_tipped_staff_is_refused() {
    let recs = vec![shift("A", Role::Steward, 400, 100)];
    assert!(matches!(
        compute(&upload(1, 1, 1), &recs),
        Err(ComputationError::NoTippedHours)
    ));
    assert!(matches!(
        compute(&upload(1, 1, 1), &Vec::new()),
        Err(ComputationError::NoTippedHours)
    ));
}

#[test]
fn night_without_steward_is_refused() {
    let recs = vec![shift("A", Role::Server, 400, 100)];
    assert!(matches!(
        compute(&upload(1, 1, 1), &recs),
        Err(ComputationError::NoStewardHours)
    ));
}

#[test]
fn rows_sorted_by_role_name() {
    let recs = vec![
        shift("S1", Role::Steward, 100, 100),
        shift("V1", Role::Server, 100, 100),
        shift("B1", Role::Bartender, 100, 100),
        shift("V2", Role::Server, 100, 100),
    ];
    let rows = compute(&upload(1_000, 100, 0), &recs).unwrap();
    let names: Vec<&str> = rows.iter().map(|r| r.employee.as_str()).collect();
    assert_eq!(names, vec!["B1", "V1", "V2", "S1"]);
    let ordered = order_by_role(&recs);
    let names: Vec<&str> = ordered.iter().map(|r| r.employee.as_str()).collect();
    assert_eq!(names, vec!["B1", "V1", "V2", "S1"]);
}

#[test]
fn steward_listed_first_is_moved_last() {
    let recs = vec![
        shift("S1", Role::Steward, 500, 5_000),
        shift("V1", Role::Server, 400, 4_000),
    ];
    let rows = compute(&upload(100_000, 10_000, 5_000), &recs).unwrap();
    assert_eq!(rows[0].employee, "V1");
    assert_eq!(rows[1].employee, "S1");
    assert_eq!(rows[1].role, Role::Steward);
}

#[test]
fn summary_keeps_fractions_of_a_cent() {
    let recs = vec![
        shift("A", Role::Server, 100, 0),
        shift("B", Role::Server, 100, 0),
        shift("C", Role::Server, 100, 0),
        shift("D", Role::Steward, 100, 0),
    ];
    let rows = compute(&upload(0, 1, 0), &recs).unwrap();
    assert_eq!(summarize(&rows).total_tips, 1);
    let rows = compute(&upload(987_654, 12_345, 6_789), &recs).unwrap();
    assert_eq!(summarize(&rows).total_tips, 19_134);
}

#[test]
fn rounding_halves_away_from_zero() {
    assert_eq!(round_ratio(Ratio { num: 5, den: 2 }), 3);
    assert_eq!(round_ratio(Ratio { num: -5, den: 2 }), -3);
    assert_eq!(round_ratio(Ratio { num: 7, den: 3 }), 2);
    assert_eq!(round_ratio(Ratio { num: -1, den: 3 }), 0);
}

#[test]
fn summary_average_hourly_pay() {
    let rows = compute(&upload(100_000, 10_000, 5_000), &scenario()).unwrap();
    // Hourly pay: 9000/4 = 2250, 13500/6 = 2250, 7500/5 = 1500 cents per hour.
    assert_eq!(
        summarize(&rows),
        Summary { total_tips: 15_000, average_net_hourly_pay: 2_000 }
    );
}
