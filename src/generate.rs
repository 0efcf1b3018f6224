use vstd::prelude::*;
use vstd::string::StringExecFns;

use crate::allocate::{
    allocation_of, compute, computation_refused, lemma_ordered_members, proportion_bounded,
    ratio_bounded, row_bounded, row_of, shifts_by_role, steward_hours, tipped_hours,
};
use crate::csv_io::{csv_text_of, table_view, write_records};
use crate::dates::{date_text, date_to_string, date_valid};
use crate::ingest::{export_records, export_refused, transform, ParseError};
use crate::laws::{lemma_net_tips_conserved, lemma_sums_unique, net_tips_column, sums_to};
use crate::output::{
    allocated, allocation_parts, rounded, rounded_ratio, round_ratio, sum_rounded_hourly_pay,
    summarize, Summary,
};
use crate::records::{
    total_tips_of, upload_in_range, AllocationRow, ComputationError, LaborReportUpload, Ratio,
    ReportDate, Role, ShiftRecord,
};
use crate::text::{cents_text, cents_to_string, int_text, int_to_string};
use crate::validate::{
    all_cardholders, employee_names, first_match, join_card_ids, joined, on_roster, unique_names,
    verify_cardholders, verify_unique_timekeepers, StaffMemberForCreate, TippedDayCalculation,
    ValidationError,
};

verus! {

/// Why a night's calculation failed.
#[derive(Clone, Debug)]
pub enum CalculationError {
    Parse(ParseError),
    Computation(ComputationError),
    Validation(ValidationError),
}

/// Everything that one night's calculation hands back: the two artifacts
/// with their file names, the summary, and the final records.
#[derive(Clone, Debug)]
pub struct NightOutput {
    pub data_filename: String,
    pub template_filename: String,
    pub data_csv: Vec<u8>,
    pub template_csv: Vec<u8>,
    pub summary: Summary,
    pub tips: Vec<TippedDayCalculation>,
}

/// The night's totals are within range and its date can be written.
pub open spec fn upload_totals_valid(u: LaborReportUpload) -> bool {
    upload_in_range(u) && date_valid(u.date)
}

pub open spec fn role_text(r: Role) -> Seq<char> {
    match r {
        Role::Bartender => "Bartender"@,
        Role::Server => "Server"@,
        Role::Steward => "Steward"@,
    }
}

/// A money fraction (in cents) written in currency units with two decimals.
pub open spec fn money_text(q: Ratio) -> Seq<char> {
    cents_text(rounded_ratio(q))
}

/// A proportion written with two decimals.
pub open spec fn share_text(q: Ratio) -> Seq<char> {
    cents_text(rounded(100 * q.num, q.den as int))
}

pub open spec fn template_header() -> Seq<Seq<char>> {
    seq![
        "Funding Card ID"@,
        "Funding Card Passcode"@,
        "Reserved1"@,
        "Cardholder Account"@,
        "Amount"@,
        "Reserved2"@,
        "Reserved3"@,
        "Reserved4"@,
        "Reference"@,
    ]
}

/// One line of the payment upload template: the funding account, the
/// employee's card, the net tips rounded to the cent, and the date as
/// reference.
pub open spec fn template_row(t: TippedDayCalculation, date: Seq<char>) -> Seq<Seq<char>> {
    seq![
        "4845607938"@,
        "4047"@,
        ""@,
        t.card_id@,
        money_text(t.net_tips),
        ""@,
        ""@,
        ""@,
        date,
    ]
}

pub open spec fn template_table(tips: Seq<TippedDayCalculation>, date: Seq<char>) -> Seq<
    Seq<Seq<char>>,
> {
    seq![template_header()] + tips.map_values(|t: TippedDayCalculation| template_row(t, date))
}

pub open spec fn data_header() -> Seq<Seq<char>> {
    seq![
        "employee"@,
        "payroll_id"@,
        "role"@,
        "duration"@,
        "total_pay"@,
        "proportion_of_total_tipped_hours"@,
        "proportion_of_total_tips"@,
        "proportion_of_total_sales"@,
        "steward_tip_out"@,
        "proportion_of_total_steward_hours"@,
        "proportion_of_total_steward_tips"@,
        "net_tips"@,
        "total_pay_for_night"@,
        "hourly_pay_for_night"@,
        "card_id"@,
        "eid"@,
        "date"@,
    ]
}

/// One line of the full calculation table.
pub open spec fn data_row(row: AllocationRow, t: TippedDayCalculation, date: Seq<char>) -> Seq<
    Seq<char>,
> {
    seq![
        row.employee@,
        row.payroll_id@,
        role_text(row.role),
        cents_text(row.duration as int),
        cents_text(row.total_pay as int),
        share_text(row.proportion_of_total_tipped_hours),
        money_text(row.proportion_of_total_tips),
        money_text(row.proportion_of_total_sales),
        money_text(row.steward_tip_out),
        share_text(row.proportion_of_total_steward_hours),
        money_text(row.proportion_of_total_steward_tips),
        money_text(row.net_tips),
        money_text(row.total_pay_for_night),
        money_text(row.hourly_pay_for_night),
        t.card_id@,
        int_text(t.eid as int),
        date,
    ]
}

pub open spec fn data_table(
    rows: Seq<AllocationRow>,
    tips: Seq<TippedDayCalculation>,
    date: Seq<char>,
) -> Seq<Seq<Seq<char>>> {
    seq![data_header()] + Seq::new(rows.len(), |i: int| data_row(rows[i], tips[i], date))
}

pub open spec fn data_filename_of(date: Seq<char>) -> Seq<char> {
    date + "_tip_pool_calculations.csv"@
}

pub open spec fn template_filename_of(date: Seq<char>) -> Seq<char> {
    date + "_rapidpay_upload_template.csv"@
}

/// `t` is the final record of `row`, joined with the first roster entry of
/// its employee.
pub open spec fn joined_on_roster(
    t: TippedDayCalculation,
    row: AllocationRow,
    roster: Seq<StaffMemberForCreate>,
    date: ReportDate,
) -> bool {
    exists|j: int| first_match(roster, row.employee@, j) && joined(t, row, roster[j], date)
}

/// `out` is what the night of the allocated rows `sorted` (ordered by role)
/// produces with this roster and date.
pub open spec fn night_output(
    out: NightOutput,
    sorted: Seq<AllocationRow>,
    roster: Seq<StaffMemberForCreate>,
    date: ReportDate,
) -> bool {
    &&& out.tips.len() == sorted.len()
    &&& forall|i: int|
        0 <= i < sorted.len() ==> joined_on_roster(#[trigger] out.tips@[i], sorted[i], roster, date)
    &&& exists|l: int| sums_to(net_tips_column(sorted), l, out.summary.total_tips as int, 1)
    &&& out.summary.average_net_hourly_pay == rounded(
        sum_rounded_hourly_pay(sorted),
        sorted.len() as int,
    )
    &&& out.data_filename@ == data_filename_of(date_text(date))
    &&& out.template_filename@ == template_filename_of(date_text(date))
    &&& csv_text_of(data_table(sorted, out.tips@, date_text(date))) == Some(out.data_csv@)
    &&& csv_text_of(template_table(out.tips@, date_text(date))) == Some(out.template_csv@)
}

fn role_name(r: Role) -> (s: String)
    ensures
        s@ == role_text(r),
{
    match r {
        Role::Bartender => String::from_str("Bartender"),
        Role::Server => String::from_str("Server"),
        Role::Steward => String::from_str("Steward"),
    }
}

fn money_string(q: Ratio) -> (s: String)
    requires
        ratio_bounded(q),
    ensures
        s@ == money_text(q),
{
    cents_to_string(round_ratio(q))
}

fn share_string(q: Ratio) -> (s: String)
    requires
        proportion_bounded(q),
    ensures
        s@ == share_text(q),
{
    cents_to_string(round_ratio(Ratio { num: 100 * q.num, den: q.den }))
}

fn template_header_cells() -> (r: Vec<String>)
    ensures
        r@.map_values(|c: String| c@) == template_header(),
{
    let mut v: Vec<String> = Vec::new();
    v.push(String::from_str("Funding Card ID"));
    v.push(String::from_str("Funding Card Passcode"));
    v.push(String::from_str("Reserved1"));
    v.push(String::from_str("Cardholder Account"));
    v.push(String::from_str("Amount"));
    v.push(String::from_str("Reserved2"));
    v.push(String::from_str("Reserved3"));
    v.push(String::from_str("Reserved4"));
    v.push(String::from_str("Reference"));
    assert(v@.map_values(|c: String| c@) =~= template_header());
    v
}

/// Lays out the payment upload template: a header line, then one line per
/// employee with the net tips rounded to the cent.
pub fn generate_upload_template(tips: &Vec<TippedDayCalculation>, date: &String) -> (r: Vec<
    Vec<String>,
>)
    requires
        forall|i: int| 0 <= i < tips.len() ==> ratio_bounded(#[trigger] tips@[i].net_tips),
    ensures
        table_view(r@) == template_table(tips@, date@),
{
    let mut out: Vec<Vec<String>> = Vec::new();
    out.push(template_header_cells());
    for i in 0..tips.len()
        invariant
            forall|k: int| 0 <= k < tips.len() ==> ratio_bounded(#[trigger] tips@[k].net_tips),
            table_view(out@) =~= seq![template_header()] + tips@.take(i as int).map_values(
                |t: TippedDayCalculation| template_row(t, date@),
            ),
    {
        let t = &tips[i];
        let mut v: Vec<String> = Vec::new();
        v.push(String::from_str("4845607938"));
        v.push(String::from_str("4047"));
        v.push(String::from_str(""));
        v.push(t.card_id.clone());
        v.push(money_string(t.net_tips));
        v.push(String::from_str(""));
        v.push(String::from_str(""));
        v.push(String::from_str(""));
        v.push(date.clone());
        assert(v@.map_values(|c: String| c@) =~= template_row(*t, date@));
        let ghost before = out@;
        out.push(v);
        assert(table_view(out@) =~= table_view(before).push(template_row(*t, date@)));
        assert(tips@.take(i + 1) =~= tips@.take(i as int).push(*t));
    }
    assert(tips@.take(tips.len() as int) =~= tips@);
    out
}

fn data_header_cells() -> (r: Vec<String>)
    ensures
        r@.map_values(|c: String| c@) == data_header(),
{
    let mut v: Vec<String> = Vec::new();
    v.push(String::from_str("employee"));
    v.push(String::from_str("payroll_id"));
    v.push(String::from_str("role"));
    v.push(String::from_str("duration"));
    v.push(String::from_str("total_pay"));
    v.push(String::from_str("proportion_of_total_tipped_hours"));
    v.push(String::from_str("proportion_of_total_tips"));
    v.push(String::from_str("proportion_of_total_sales"));
    v.push(String::from_str("steward_tip_out"));
    v.push(String::from_str("proportion_of_total_steward_hours"));
    v.push(String::from_str("proportion_of_total_steward_tips"));
    v.push(String::from_str("net_tips"));
    v.push(String::from_str("total_pay_for_night"));
    v.push(String::from_str("hourly_pay_for_night"));
    v.push(String::from_str("card_id"));
    v.push(String::from_str("eid"));
    v.push(String::from_str("date"));
    assert(v@.map_values(|c: String| c@) =~= data_header());
    v
}

fn data_cells(row: &AllocationRow, t: &TippedDayCalculation, date: &String) -> (r: Vec<String>)
    requires
        row_bounded(*row),
    ensures
        r@.map_values(|c: String| c@) == data_row(*row, *t, date@),
{
    let mut v: Vec<String> = Vec::new();
    v.push(row.employee.clone());
    v.push(row.payroll_id.clone());
    v.push(role_name(row.role));
    v.push(cents_to_string(row.duration as i128));
    v.push(cents_to_string(row.total_pay as i128));
    v.push(share_string(row.proportion_of_total_tipped_hours));
    v.push(money_string(row.proportion_of_total_tips));
    v.push(money_string(row.proportion_of_total_sales));
    v.push(money_string(row.steward_tip_out));
    v.push(share_string(row.proportion_of_total_steward_hours));
    v.push(money_string(row.proportion_of_total_steward_tips));
    v.push(money_string(row.net_tips));
    v.push(money_string(row.total_pay_for_night));
    v.push(money_string(row.hourly_pay_for_night));
    v.push(t.card_id.clone());
    v.push(int_to_string(t.eid));
    v.push(date.clone());
    assert(v@.map_values(|c: String| c@) =~= data_row(*row, *t, date@));
    v
}

/// Lays out the full calculation table: a header line, then one line per
/// row with every column of the allocation and the joined card id, employee
/// id and date.
pub fn generate_data_table(
    rows: &Vec<AllocationRow>,
    tips: &Vec<TippedDayCalculation>,
    date: &String,
) -> (r: Vec<Vec<String>>)
    requires
        rows.len() == tips.len(),
        forall|i: int| 0 <= i < rows.len() ==> row_bounded(#[trigger] rows@[i]),
    ensures
        table_view(r@) == data_table(rows@, tips@, date@),
{
    let mut out: Vec<Vec<String>> = Vec::new();
    out.push(data_header_cells());
    for i in 0..rows.len()
        invariant
            rows.len() == tips.len(),
            forall|k: int| 0 <= k < rows.len() ==> row_bounded(#[trigger] rows@[k]),
            table_view(out@) =~= seq![data_header()] + Seq::new(
                i as nat,
                |k: int| data_row(rows@[k], tips@[k], date@),
            ),
    {
        let v = data_cells(&rows[i], &tips[i], date);
        let ghost before = out@;
        out.push(v);
        assert(table_view(out@) =~= table_view(before).push(
            data_row(rows@[i as int], tips@[i as int], date@),
        ));
    }
    out
}

proof fn lemma_template_row_width(tips: Seq<TippedDayCalculation>, date: Seq<char>, i: int)
    requires
        0 <= i < template_table(tips, date).len(),
    ensures
        template_table(tips, date)[i].len() == 9,
{
    if i == 0 {
        assert(template_table(tips, date)[0] == template_header());
    } else {
        assert(template_table(tips, date)[i] == template_row(tips[i - 1], date));
    }
}

proof fn lemma_data_row_width(
    rows: Seq<AllocationRow>,
    tips: Seq<TippedDayCalculation>,
    date: Seq<char>,
    i: int,
)
    requires
        0 <= i < data_table(rows, tips, date).len(),
    ensures
        data_table(rows, tips, date)[i].len() == 17,
{
    if i == 0 {
        assert(data_table(rows, tips, date)[0] == data_header());
    } else {
        assert(data_table(rows, tips, date)[i] == data_row(rows[i - 1], tips[i - 1], date));
    }
}

/// Validates the allocated rows of a night against the roster, joins them
/// with the roster, and produces the two artifacts and the summary, keeping
/// the order of the rows.
pub fn generate(
    rows: &Vec<AllocationRow>,
    roster: &Vec<StaffMemberForCreate>,
    date: ReportDate,
) -> (r: Result<NightOutput, CalculationError>)
    requires
        allocated(rows@),
        date_valid(date),
    ensures
        r is Ok <==> all_cardholders(rows@, roster@) && unique_names(employee_names(rows@)),
        r matches Err(CalculationError::Validation(ValidationError::NotACardholder { .. }))
            <==> !all_cardholders(rows@, roster@),
        r matches Err(CalculationError::Validation(ValidationError::DuplicateTimekeeper { .. }))
            <==> all_cardholders(rows@, roster@) && !unique_names(employee_names(rows@)),
        match r {
            Ok(out) => night_output(out, rows@, roster@, date),
            Err(CalculationError::Validation(ValidationError::NotACardholder { employee })) => {
                &&& exists|i: int| 0 <= i < rows.len() && rows@[i].employee@ == employee@
                &&& !on_roster(roster@, employee@)
            },
            Err(CalculationError::Validation(ValidationError::DuplicateTimekeeper { employee })) => {
                exists|i: int, j: int|
                    0 <= i < j < rows.len() && rows@[i].employee@ == employee@ && rows@[j].employee@
                        == employee@
            },
            Err(_) => false,
        },
{
    let ix = match verify_cardholders(rows, roster) {
        Ok(ix) => ix,
        Err(e) => return Err(CalculationError::Validation(e)),
    };
    match verify_unique_timekeepers(rows) {
        Ok(()) => {},
        Err(e) => {
            proof {
                let v = employee_names(rows@);
                if e is DuplicateTimekeeper {
                    let name = e->DuplicateTimekeeper_employee;
                    let (i, j) = choose|i: int, j: int|
                        0 <= i < j < rows.len() && rows@[i].employee@ == name@ && rows@[j].employee@
                            == name@;
                    assert(v[i] == v[j]);
                }
            }
            return Err(CalculationError::Validation(e));
        },
    }
    let ghost parts = choose|recs: Seq<ShiftRecord>, sales: int, tips: int|
        allocation_parts(rows@, recs, sales, tips);
    assert(allocation_parts(rows@, parts.0, parts.1, parts.2));
    let tips = join_card_ids(rows, roster, &ix, date);
    let date_string = date_to_string(date);
    proof {
        reveal_strlit("_tip_pool_calculations.csv");
        reveal_strlit("_rapidpay_upload_template.csv");
    }
    let data_filename = date_string.clone().concat("_tip_pool_calculations.csv");
    let template_filename = date_string.clone().concat("_rapidpay_upload_template.csv");
    assert forall|i: int| 0 <= i < tips.len() implies ratio_bounded(#[trigger] tips@[i].net_tips) by {
        assert(row_bounded(rows@[i]));
    }
    let data = generate_data_table(rows, &tips, &date_string);
    let template = generate_upload_template(&tips, &date_string);
    assert forall|i: int, j: int| 0 <= i < data.len() && 0 <= j < data.len() implies data@[i].len()
        == data@[j].len() by {
        assert(table_view(data@)[i].len() == data@[i]@.len());
        assert(table_view(data@)[j].len() == data@[j]@.len());
        lemma_data_row_width(rows@, tips@, date_string@, i);
        lemma_data_row_width(rows@, tips@, date_string@, j);
    }
    assert forall|i: int, j: int|
        0 <= i < template.len() && 0 <= j < template.len() implies template@[i].len()
        == template@[j].len() by {
        assert(table_view(template@)[i].len() == template@[i]@.len());
        assert(table_view(template@)[j].len() == template@[j]@.len());
        lemma_template_row_width(tips@, date_string@, i);
        lemma_template_row_width(tips@, date_string@, j);
    }
    let data_csv = match write_records(&data) {
        Ok(b) => b,
        Err(_) => Vec::new(),
    };
    let template_csv = match write_records(&template) {
        Ok(b) => b,
        Err(_) => Vec::new(),
    };
    let summary = summarize(rows);
    let out = NightOutput { data_filename, template_filename, data_csv, template_csv, summary, tips };
    assert forall|i: int| 0 <= i < rows@.len() implies joined_on_roster(
        #[trigger] out.tips@[i],
        rows@[i],
        roster@,
        date,
    ) by {
        assert(first_match(roster@, rows@[i].employee@, ix@[i] as int));
        assert(joined(out.tips@[i], rows@[i], roster@[ix@[i] as int], date));
    }
    Ok(out)
}

/// Runs a whole night: reads the labor export, computes the allocation, and
/// generates the artifacts against the roster.
pub fn read_csv(
    labor_report_upload: &LaborReportUpload,
    bytes: &[u8],
    roster: &Vec<StaffMemberForCreate>,
) -> (r: Result<NightOutput, CalculationError>)
    requires
        upload_totals_valid(*labor_report_upload),
    ensures
        match r {
            Ok(out) => {
                &&& out.summary.total_tips == total_tips_of(*labor_report_upload)
                &&& exists|recs: Seq<ShiftRecord>, rows: Seq<AllocationRow>|
                    {
                        &&& export_records(bytes@, recs)
                        &&& allocation_of(
                            rows,
                            shifts_by_role(recs),
                            labor_report_upload.total_sales as int,
                            total_tips_of(*labor_report_upload),
                        )
                        &&& all_cardholders(rows, roster@)
                        &&& unique_names(employee_names(rows))
                        &&& night_output(out, rows, roster@, labor_report_upload.date)
                    }
            },
            Err(CalculationError::Parse(e)) => export_refused(bytes@, e),
            Err(CalculationError::Computation(e)) => exists|recs: Seq<ShiftRecord>|
                export_records(bytes@, recs) && computation_refused(shifts_by_role(recs), e),
            Err(CalculationError::Validation(ValidationError::NotACardholder { employee })) => {
                &&& !on_roster(roster@, employee@)
                &&& exists|recs: Seq<ShiftRecord>, i: int|
                    export_records(bytes@, recs) && 0 <= i < recs.len() && recs[i].employee@
                        == employee@
            },
            Err(CalculationError::Validation(ValidationError::DuplicateTimekeeper { employee })) => {
                exists|recs: Seq<ShiftRecord>, i: int, j: int|
                    export_records(bytes@, recs) && 0 <= i < j < shifts_by_role(recs).len()
                        && shifts_by_role(recs)[i].employee@ == employee@ && shifts_by_role(
                        recs,
                    )[j].employee@ == employee@
            },
        },
{
    let recs = match transform(bytes) {
        Ok(recs) => recs,
        Err(e) => return Err(CalculationError::Parse(e)),
    };
    let rows = match compute(labor_report_upload, &recs) {
        Ok(rows) => rows,
        Err(e) => return Err(CalculationError::Computation(e)),
    };
    let ghost ordered = shifts_by_role(recs@);
    let ghost sales = labor_report_upload.total_sales as int;
    let ghost tips = total_tips_of(*labor_report_upload);
    assert(allocation_parts(rows@, ordered, sales, tips));
    let r = generate(&rows, roster, labor_report_upload.date);
    proof {
        lemma_ordered_members(recs@);
        assert forall|i: int| 0 <= i < rows.len() implies #[trigger] rows@[i].employee@
            == ordered[i].employee@ by {
            assert(row_of(rows@[i], ordered[i], tipped_hours(ordered), steward_hours(ordered), sales, tips));
        }
        if r is Ok {
            let out = r->Ok_0;
            let l = choose|l: int| sums_to(net_tips_column(rows@), l, out.summary.total_tips as int, 1);
            lemma_net_tips_conserved(ordered, rows@, sales, tips);
            lemma_sums_unique(
                net_tips_column(rows@),
                l,
                40 * tipped_hours(ordered) * steward_hours(ordered),
                out.summary.total_tips as int,
                tips,
            );
        }
        if r is Err {
            let e = r->Err_0;
            if e is Validation {
                let v = e->Validation_0;
                if v is NotACardholder {
                    let name = v->NotACardholder_employee;
                    let i = choose|i: int| 0 <= i < rows.len() && rows@[i].employee@ == name@;
                    let k = choose|k: int| 0 <= k < recs.len() && ordered[i] == recs@[k];
                    assert(recs@[k].employee@ == name@);
                }
            }
        }
    }
    r
}

} // verus!
