use vstd::prelude::*;

verus! {

/// Largest amount (in cents, or hundredths of an hour) that a single parsed
/// value may hold: 100,000.00.
pub const MAX_AMOUNT: u64 = 10_000_000;

/// The tipped roles, in lexical order of their names.
#[derive(Clone, Copy, Debug, PartialEq, Eq, Structural)]
pub enum Role {
    Bartender,
    Server,
    Steward,
}

/// One worked shift of the labor export.
#[derive(Clone, Debug)]
pub struct ShiftRecord {
    pub employee: String,
    pub payroll_id: String,
    pub role: Role,
    /// Hundredths of an hour.
    pub duration: u64,
    /// Cents.
    pub total_pay: u64,
}

/// An exact fraction `num / den`.
#[derive(Clone, Copy, Debug, PartialEq, Eq, Structural)]
pub struct Ratio {
    pub num: i128,
    pub den: i128,
}

/// A shift extended with the derived columns of the allocation.
///
/// The money columns are fractions of cents; the proportions are plain
/// fractions; `hourly_pay_for_night` is in cents per hour.
#[derive(Clone, Debug)]
pub struct AllocationRow {
    pub employee: String,
    pub payroll_id: String,
    pub role: Role,
    pub duration: u64,
    pub total_pay: u64,
    pub proportion_of_total_tipped_hours: Ratio,
    pub proportion_of_total_tips: Ratio,
    pub proportion_of_total_sales: Ratio,
    pub steward_tip_out: Ratio,
    pub proportion_of_total_steward_hours: Ratio,
    pub proportion_of_total_steward_tips: Ratio,
    pub net_tips: Ratio,
    pub total_pay_for_night: Ratio,
    pub hourly_pay_for_night: Ratio,
}

/// A calendar date, as the night's report date.
#[derive(Clone, Copy, Debug, PartialEq, Eq, Structural)]
pub struct ReportDate {
    pub year: i32,
    pub month: u32,
    pub day: u32,
}

/// The manually entered totals of one night, in cents.
#[derive(Clone, Debug)]
pub struct LaborReportUpload {
    pub date: ReportDate,
    pub total_sales: u64,
    pub go_tab_tips: u64,
    pub cash_tips: u64,
    pub data_csv_link: String,
    pub template_csv_link: String,
}

/// Why an allocation could not be computed.
#[derive(Clone, Debug)]
pub enum ComputationError {
    /// A shift of zero hours: its hourly pay has no value.
    ZeroDuration { employee: String },
    /// No hours were worked in a non-steward role.
    NoTippedHours,
    /// No hours were worked as Steward, so the tip-out has nobody to go to.
    NoStewardHours,
}

pub open spec fn is_steward(role: Role) -> bool {
    role is Steward
}

pub open spec fn amounts_in_range(recs: Seq<ShiftRecord>) -> bool {
    forall|i: int|
        0 <= i < recs.len() ==> recs[i].duration <= MAX_AMOUNT && recs[i].total_pay <= MAX_AMOUNT
}

pub open spec fn upload_in_range(u: LaborReportUpload) -> bool {
    &&& u.total_sales <= MAX_AMOUNT
    &&& u.go_tab_tips <= MAX_AMOUNT
    &&& u.cash_tips <= MAX_AMOUNT
}

/// Total tips of the night: cash plus electronic.
pub open spec fn total_tips_of(u: LaborReportUpload) -> int {
    u.cash_tips + u.go_tab_tips
}

} // verus!
