use vstd::prelude::*;

use crate::records::{
    amounts_in_range, is_steward, total_tips_of, upload_in_range, AllocationRow,
    ComputationError, LaborReportUpload, Ratio, Role, ShiftRecord, MAX_AMOUNT,
};

verus! {

/// Bound on a sum of durations over any vector of shifts.
pub open spec fn hours_limit() -> int {
    0x1_0000_0000_0000_0000 * MAX_AMOUNT
}

/// The duration that counts towards the tipped (non-steward) hours.
pub open spec fn tipped_share(r: ShiftRecord) -> int {
    if is_steward(r.role) {
        0
    } else {
        r.duration as int
    }
}

/// The duration that counts towards the steward hours.
pub open spec fn steward_share(r: ShiftRecord) -> int {
    if is_steward(r.role) {
        r.duration as int
    } else {
        0
    }
}

/// Sum of the durations of all non-steward shifts.
pub open spec fn tipped_hours(recs: Seq<ShiftRecord>) -> int
    decreases recs.len(),
{
    if recs.len() == 0 {
        0
    } else {
        tipped_hours(recs.drop_last()) + tipped_share(recs.last())
    }
}

/// Sum of the durations of all steward shifts.
pub open spec fn steward_hours(recs: Seq<ShiftRecord>) -> int
    decreases recs.len(),
{
    if recs.len() == 0 {
        0
    } else {
        steward_hours(recs.drop_last()) + steward_share(recs.last())
    }
}

pub open spec fn all_durations_positive(recs: Seq<ShiftRecord>) -> bool {
    forall|i: int| 0 <= i < recs.len() ==> recs[i].duration > 0
}

pub open spec fn is_ratio(q: Ratio, num: int, den: int) -> bool {
    q.num == num && q.den == den
}

/// Net tips of one shift as `(numerator, denominator)` in cents, given the
/// tipped hours `t`, the steward hours `s`, and the night's sales and tips.
/// A non-steward keeps its share of the tips less 2.5% (one fortieth) of its
/// share of the sales; a steward receives its share of that tip-out pool.
pub open spec fn net_tips_of(r: ShiftRecord, t: int, s: int, sales: int, tips: int) -> (int, int) {
    if is_steward(r.role) {
        (steward_share(r) * sales, 40 * s)
    } else {
        (tipped_share(r) * (40 * tips - sales), 40 * t)
    }
}

/// `row` holds the shift `r` and the derived columns that the allocation
/// gives it.
pub open spec fn row_of(
    row: AllocationRow,
    r: ShiftRecord,
    t: int,
    s: int,
    sales: int,
    tips: int,
) -> bool {
    let net = net_tips_of(r, t, s, sales, tips);
    &&& row.employee@ == r.employee@
    &&& row.payroll_id@ == r.payroll_id@
    &&& row.role == r.role
    &&& row.duration == r.duration
    &&& row.total_pay == r.total_pay
    &&& is_ratio(row.proportion_of_total_tipped_hours, tipped_share(r), t)
    &&& is_ratio(row.proportion_of_total_tips, tipped_share(r) * tips, t)
    &&& is_ratio(row.proportion_of_total_sales, tipped_share(r) * sales, t)
    &&& is_ratio(row.steward_tip_out, tipped_share(r) * sales, 40 * t)
    &&& is_ratio(row.proportion_of_total_steward_hours, steward_share(r), s)
    &&& is_ratio(row.proportion_of_total_steward_tips, steward_share(r) * sales, 40 * s)
    &&& is_ratio(row.net_tips, net.0, net.1)
    &&& is_ratio(row.total_pay_for_night, r.total_pay * net.1 + net.0, net.1)
    &&& is_ratio(
        row.hourly_pay_for_night,
        100 * (r.total_pay * net.1 + net.0),
        net.1 * r.duration,
    )
}

/// Why the allocation of `recs` is refused: the first zero-hour shift, else
/// no tipped hours, else no steward hours.
pub open spec fn computation_refused(recs: Seq<ShiftRecord>, e: ComputationError) -> bool {
    match e {
        ComputationError::ZeroDuration { employee } => exists|i: int|
            0 <= i < recs.len() && recs[i].duration == 0 && employee@ == recs[i].employee@
                && forall|j: int| 0 <= j < i ==> recs[j].duration > 0,
        ComputationError::NoTippedHours => all_durations_positive(recs) && tipped_hours(recs) == 0,
        ComputationError::NoStewardHours => all_durations_positive(recs) && tipped_hours(recs) > 0
            && steward_hours(recs) == 0,
    }
}

/// Bound on the numerators and denominators of the fractions of a row.
pub open spec fn ratio_limit() -> int {
    0x1000_0000_0000_0000_0000_0000_0000_0000
}

/// Bound, in cents, on a row's net tips and on its hourly pay in cents per
/// hour.
pub const VALUE_BOUND: i128 = 3_000_000_000;

pub open spec fn ratio_bounded(q: Ratio) -> bool {
    &&& 0 < q.den <= ratio_limit()
    &&& -ratio_limit() <= q.num <= ratio_limit()
}

pub open spec fn value_bounded(q: Ratio) -> bool {
    -VALUE_BOUND * q.den <= q.num <= VALUE_BOUND * q.den
}

pub open spec fn proportion_bounded(q: Ratio) -> bool {
    &&& 0 < q.den <= ratio_limit()
    &&& 0 <= q.num <= MAX_AMOUNT
}

/// The sizes that the allocation guarantees of every row.
pub open spec fn row_bounded(row: AllocationRow) -> bool {
    &&& proportion_bounded(row.proportion_of_total_tipped_hours)
    &&& proportion_bounded(row.proportion_of_total_steward_hours)
    &&& ratio_bounded(row.proportion_of_total_tips)
    &&& ratio_bounded(row.proportion_of_total_sales)
    &&& ratio_bounded(row.steward_tip_out)
    &&& ratio_bounded(row.proportion_of_total_steward_tips)
    &&& ratio_bounded(row.net_tips)
    &&& ratio_bounded(row.total_pay_for_night)
    &&& ratio_bounded(row.hourly_pay_for_night)
    &&& value_bounded(row.net_tips)
    &&& value_bounded(row.hourly_pay_for_night)
    &&& row.duration <= MAX_AMOUNT
    &&& row.total_pay <= MAX_AMOUNT
}

/// `rows` is the allocation of `recs`, row by row in the same order.
pub open spec fn allocation_of(
    rows: Seq<AllocationRow>,
    recs: Seq<ShiftRecord>,
    sales: int,
    tips: int,
) -> bool {
    &&& rows.len() == recs.len()
    &&& forall|i: int|
        0 <= i < recs.len() ==> row_of(
            #[trigger] rows[i],
            recs[i],
            tipped_hours(recs),
            steward_hours(recs),
            sales,
            tips,
        )
}

proof fn lemma_share_within_hours(recs: Seq<ShiftRecord>)
    ensures
        0 <= tipped_hours(recs),
        0 <= steward_hours(recs),
        forall|i: int|
            0 <= i < recs.len() ==> tipped_share(#[trigger] recs[i]) <= tipped_hours(recs)
                && steward_share(recs[i]) <= steward_hours(recs),
    decreases recs.len(),
{
    if recs.len() > 0 {
        let r0 = recs.drop_last();
        lemma_share_within_hours(r0);
        assert forall|i: int| 0 <= i < recs.len() implies tipped_share(#[trigger] recs[i])
            <= tipped_hours(recs) && steward_share(recs[i]) <= steward_hours(recs) by {
            if i < r0.len() {
                assert(recs[i] == r0[i]);
            }
        }
    }
}

pub proof fn lemma_hours_bounded(recs: Seq<ShiftRecord>)
    requires
        amounts_in_range(recs),
    ensures
        0 <= tipped_hours(recs) <= recs.len() * MAX_AMOUNT,
        0 <= steward_hours(recs) <= recs.len() * MAX_AMOUNT,
    decreases recs.len(),
{
    if recs.len() > 0 {
        lemma_hours_bounded(recs.drop_last());
    }
}

/// Sum of the durations of the shifts in one role.
pub open spec fn role_hours(recs: Seq<ShiftRecord>, role: Role) -> int
    decreases recs.len(),
{
    if recs.len() == 0 {
        0
    } else {
        role_hours(recs.drop_last(), role) + if recs.last().role == role {
            recs.last().duration as int
        } else {
            0
        }
    }
}

proof fn lemma_role_hours(recs: Seq<ShiftRecord>)
    requires
        amounts_in_range(recs),
    ensures
        tipped_hours(recs) == role_hours(recs, Role::Bartender) + role_hours(recs, Role::Server),
        steward_hours(recs) == role_hours(recs, Role::Steward),
        0 <= role_hours(recs, Role::Bartender) <= recs.len() * MAX_AMOUNT,
        0 <= role_hours(recs, Role::Server) <= recs.len() * MAX_AMOUNT,
        0 <= role_hours(recs, Role::Steward) <= recs.len() * MAX_AMOUNT,
    decreases recs.len(),
{
    if recs.len() > 0 {
        lemma_role_hours(recs.drop_last());
    }
}

/// Sums the durations per role: Bartender, Server and Steward hours. The
/// tipped (non-steward) hours are the first two together.
pub fn compute_base_hours(recs: &Vec<ShiftRecord>) -> (r: (u128, u128, u128))
    requires
        amounts_in_range(recs@),
    ensures
        r.0 == role_hours(recs@, Role::Bartender),
        r.1 == role_hours(recs@, Role::Server),
        r.2 == role_hours(recs@, Role::Steward),
        r.0 + r.1 == tipped_hours(recs@),
        r.2 == steward_hours(recs@),
        r.0 + r.1 <= hours_limit(),
        r.2 <= hours_limit(),
{
    let n = recs.len();
    let mut b: u128 = 0;
    let mut v: u128 = 0;
    let mut s: u128 = 0;
    for i in 0..n
        invariant
            n == recs.len(),
            amounts_in_range(recs@),
            b == role_hours(recs@.take(i as int), Role::Bartender),
            v == role_hours(recs@.take(i as int), Role::Server),
            s == role_hours(recs@.take(i as int), Role::Steward),
            b <= i * MAX_AMOUNT,
            v <= i * MAX_AMOUNT,
            s <= i * MAX_AMOUNT,
    {
        let ghost prefix = recs@.take(i + 1);
        assert(prefix.drop_last() =~= recs@.take(i as int));
        assert(prefix.last() == recs@[i as int]);
        match recs[i].role {
            Role::Bartender => b = b + recs[i].duration as u128,
            Role::Server => v = v + recs[i].duration as u128,
            Role::Steward => s = s + recs[i].duration as u128,
        }
    }
    assert(recs@.take(n as int) =~= recs@);
    proof {
        lemma_role_hours(recs@);
        lemma_hours_bounded(recs@);
    }
    (b, v, s)
}

/// Derives every column of one shift, given the group totals `t` and `s`.
fn allocate_row(rec: &ShiftRecord, t: u128, s: u128, sales: u64, tips: u64) -> (row:
    AllocationRow)
    requires
        0 < t <= hours_limit(),
        0 < s <= hours_limit(),
        0 < rec.duration <= MAX_AMOUNT,
        rec.total_pay <= MAX_AMOUNT,
        sales <= MAX_AMOUNT,
        tips <= 2 * MAX_AMOUNT,
        rec.role != Role::Steward ==> rec.duration <= t,
        rec.role == Role::Steward ==> rec.duration <= s,
    ensures
        row_of(row, *rec, t as int, s as int, sales as int, tips as int),
        row_bounded(row),
{
    let m: i128 = MAX_AMOUNT as i128;
    let d = rec.duration as i128;
    let pay = rec.total_pay as i128;
    let ti = t as i128;
    let si = s as i128;
    let sa = sales as i128;
    let tp = tips as i128;
    let steward = rec.role == Role::Steward;
    let ts: i128 = if steward {
        0
    } else {
        d
    };
    let ss: i128 = if steward {
        d
    } else {
        0
    };
    assert(0 <= ts * tp <= m * (2 * m)) by (nonlinear_arith)
        requires
            0 <= ts <= m,
            0 <= tp <= 2 * m,
    ;
    assert(0 <= ts * sa <= m * m) by (nonlinear_arith)
        requires
            0 <= ts <= m,
            0 <= sa <= m,
    ;
    assert(0 <= ss * sa <= m * m) by (nonlinear_arith)
        requires
            0 <= ss <= m,
            0 <= sa <= m,
    ;
    let tip_share = ts * tp;
    let sales_share = ts * sa;
    let steward_tips = ss * sa;
    let vb = VALUE_BOUND;
    let (net_num, net_den): (i128, i128) = if steward {
        assert(ss * sa <= 20_000_000 * (40 * si)) by (nonlinear_arith)
            requires
                0 <= ss <= si,
                0 <= sa <= m,
                m == 10_000_000,
        ;
        (steward_tips, 40 * si)
    } else {
        assert(-20_000_000 * (40 * ti) <= ts * (40 * tp - sa) <= 20_000_000 * (40 * ti))
            by (nonlinear_arith)
            requires
                0 <= ts <= ti,
                -m <= 40 * tp - sa <= 80 * m,
                m == 10_000_000,
        ;
        assert(-m * m <= ts * (40 * tp - sa) <= m * (80 * m)) by (nonlinear_arith)
            requires
                0 <= ts <= m,
                -m <= 40 * tp - sa <= 80 * m,
        ;
        (ts * (40 * tp - sa), 40 * ti)
    };
    let lim = 0x1_0000_0000_0000_0000i128 * m;
    assert(0 <= pay * net_den <= m * (40 * lim)) by (nonlinear_arith)
        requires
            0 <= pay <= m,
            0 < net_den <= 40 * lim,
    ;
    assert(0 < net_den * d <= (40 * lim) * m) by (nonlinear_arith)
        requires
            0 < d <= m,
            0 < net_den <= 40 * lim,
    ;
    let night = pay * net_den + net_num;
    assert(-vb * (net_den * d) <= 100 * night <= vb * (net_den * d)) by (nonlinear_arith)
        requires
            0 <= pay <= m,
            0 < net_den,
            1 <= d,
            night == pay * net_den + net_num,
            -20_000_000 * net_den <= net_num <= 20_000_000 * net_den,
            m == 10_000_000,
            vb == 3_000_000_000,
    ;
    AllocationRow {
        employee: rec.employee.clone(),
        payroll_id: rec.payroll_id.clone(),
        role: rec.role,
        duration: rec.duration,
        total_pay: rec.total_pay,
        proportion_of_total_tipped_hours: Ratio { num: ts, den: ti },
        proportion_of_total_tips: Ratio { num: tip_share, den: ti },
        proportion_of_total_sales: Ratio { num: sales_share, den: ti },
        steward_tip_out: Ratio { num: sales_share, den: 40 * ti },
        proportion_of_total_steward_hours: Ratio { num: ss, den: si },
        proportion_of_total_steward_tips: Ratio { num: steward_tips, den: 40 * si },
        net_tips: Ratio { num: net_num, den: net_den },
        total_pay_for_night: Ratio { num: night, den: net_den },
        hourly_pay_for_night: Ratio { num: 100 * night, den: net_den * d },
    }
}

/// The allocation of the shifts, row by row in the order of `recs`.
fn allocate_in_order(labor_report_upload: &LaborReportUpload, recs: &Vec<ShiftRecord>) -> (r: Result<
    Vec<AllocationRow>,
    ComputationError,
>)
    requires
        amounts_in_range(recs@),
        upload_in_range(*labor_report_upload),
    ensures
        match r {
            Ok(rows) => {
                &&& all_durations_positive(recs@)
                &&& tipped_hours(recs@) > 0
                &&& steward_hours(recs@) > 0
                &&& allocation_of(
                    rows@,
                    recs@,
                    labor_report_upload.total_sales as int,
                    total_tips_of(*labor_report_upload),
                )
                &&& forall|i: int| 0 <= i < rows.len() ==> row_bounded(#[trigger] rows@[i])
            },
            Err(e) => computation_refused(recs@, e),
        },
{
    let n = recs.len();
    for i in 0..n
        invariant
            n == recs.len(),
            forall|j: int| 0 <= j < i ==> recs[j].duration > 0,
    {
        if recs[i].duration == 0 {
            return Err(ComputationError::ZeroDuration { employee: recs[i].employee.clone() });
        }
    }
    let (bartender, server, s) = compute_base_hours(recs);
    let t = bartender + server;
    proof {
        lemma_share_within_hours(recs@);
    }
    if t == 0 {
        return Err(ComputationError::NoTippedHours);
    }
    if s == 0 {
        return Err(ComputationError::NoStewardHours);
    }
    let sales = labor_report_upload.total_sales;
    let tips = labor_report_upload.cash_tips + labor_report_upload.go_tab_tips;
    let mut rows: Vec<AllocationRow> = Vec::new();
    for i in 0..n
        invariant
            n == recs.len(),
            amounts_in_range(recs@),
            all_durations_positive(recs@),
            0 < t <= hours_limit(),
            0 < s <= hours_limit(),
            t == tipped_hours(recs@),
            s == steward_hours(recs@),
            sales <= MAX_AMOUNT,
            tips <= 2 * MAX_AMOUNT,
            tips == total_tips_of(*labor_report_upload),
            sales == labor_report_upload.total_sales,
            rows.len() == i,
            forall|j: int|
                0 <= j < i ==> row_of(
                    #[trigger] rows@[j],
                    recs@[j],
                    t as int,
                    s as int,
                    sales as int,
                    tips as int,
                ),
            forall|j: int| 0 <= j < i ==> row_bounded(#[trigger] rows@[j]),
            forall|j: int|
                0 <= j < recs.len() ==> tipped_share(#[trigger] recs@[j]) <= tipped_hours(recs@)
                    && steward_share(recs@[j]) <= steward_hours(recs@),
    {
        assert(tipped_share(recs@[i as int]) <= tipped_hours(recs@));
        let row = allocate_row(&recs[i], t, s, sales, tips);
        rows.push(row);
    }
    Ok(rows)
}

/// The shifts of `recs` in the given role, in order.
pub open spec fn shifts_with_role(recs: Seq<ShiftRecord>, role: Role) -> Seq<ShiftRecord>
    decreases recs.len(),
{
    if recs.len() == 0 {
        Seq::empty()
    } else {
        let rest = shifts_with_role(recs.drop_last(), role);
        if recs.last().role == role {
            rest.push(recs.last())
        } else {
            rest
        }
    }
}

/// The shifts ordered by role name (Bartender, Server, Steward), keeping
/// their order within a role.
pub open spec fn shifts_by_role(recs: Seq<ShiftRecord>) -> Seq<ShiftRecord> {
    shifts_with_role(recs, Role::Bartender) + shifts_with_role(recs, Role::Server)
        + shifts_with_role(recs, Role::Steward)
}

proof fn lemma_role_members(recs: Seq<ShiftRecord>, role: Role)
    ensures
        forall|i: int|
            0 <= i < shifts_with_role(recs, role).len() ==> exists|k: int|
                0 <= k < recs.len() && #[trigger] shifts_with_role(recs, role)[i] == recs[k],
    decreases recs.len(),
{
    if recs.len() > 0 {
        let r0 = recs.drop_last();
        lemma_role_members(r0, role);
        assert forall|i: int| 0 <= i < shifts_with_role(recs, role).len() implies exists|k: int|
            0 <= k < recs.len() && #[trigger] shifts_with_role(recs, role)[i] == recs[k] by {
            if i < shifts_with_role(r0, role).len() {
                let k = choose|k: int|
                    0 <= k < r0.len() && #[trigger] shifts_with_role(r0, role)[i] == r0[k];
                assert(recs[k] == r0[k]);
            } else {
                assert(shifts_with_role(recs, role)[i] == recs[recs.len() - 1]);
            }
        }
    }
}

/// Every shift of the ordered shifts is one of the shifts.
pub proof fn lemma_ordered_members(recs: Seq<ShiftRecord>)
    ensures
        forall|i: int|
            0 <= i < shifts_by_role(recs).len() ==> exists|k: int|
                0 <= k < recs.len() && #[trigger] shifts_by_role(recs)[i] == recs[k],
{
    let a = shifts_with_role(recs, Role::Bartender);
    let b = shifts_with_role(recs, Role::Server);
    let c = shifts_with_role(recs, Role::Steward);
    lemma_role_members(recs, Role::Bartender);
    lemma_role_members(recs, Role::Server);
    lemma_role_members(recs, Role::Steward);
    assert forall|i: int| 0 <= i < shifts_by_role(recs).len() implies exists|k: int|
        0 <= k < recs.len() && #[trigger] shifts_by_role(recs)[i] == recs[k] by {
        if i < a.len() {
            assert(shifts_by_role(recs)[i] == a[i]);
        } else if i < a.len() + b.len() {
            assert(shifts_by_role(recs)[i] == b[i - a.len()]);
        } else {
            assert(shifts_by_role(recs)[i] == c[i - a.len() - b.len()]);
        }
    }
}

fn duplicate_shift(rec: &ShiftRecord) -> (r: ShiftRecord)
    ensures
        r == *rec,
{
    ShiftRecord {
        employee: rec.employee.clone(),
        payroll_id: rec.payroll_id.clone(),
        role: rec.role,
        duration: rec.duration,
        total_pay: rec.total_pay,
    }
}

fn append_role(out: &mut Vec<ShiftRecord>, recs: &Vec<ShiftRecord>, role: Role)
    ensures
        final(out)@ == old(out)@ + shifts_with_role(recs@, role),
{
    let ghost start = out@;
    for i in 0..recs.len()
        invariant
            out@ == start + shifts_with_role(recs@.take(i as int), role),
    {
        let ghost prefix = recs@.take(i + 1);
        assert(prefix.drop_last() =~= recs@.take(i as int));
        assert(prefix.last() == recs@[i as int]);
        if recs[i].role == role {
            out.push(duplicate_shift(&recs[i]));
        }
        assert(out@ =~= start + shifts_with_role(prefix, role));
    }
    assert(recs@.take(recs.len() as int) =~= recs@);
}

/// Orders the shifts by role name, stably.
pub fn order_by_role(recs: &Vec<ShiftRecord>) -> (r: Vec<ShiftRecord>)
    ensures
        r@ == shifts_by_role(recs@),
{
    let mut out: Vec<ShiftRecord> = Vec::new();
    append_role(&mut out, recs, Role::Bartender);
    append_role(&mut out, recs, Role::Server);
    append_role(&mut out, recs, Role::Steward);
    assert(out@ =~= shifts_by_role(recs@));
    out
}

/// Computes the allocation of one night's shifts. The rows come ordered by
/// role name (Bartender, Server, Steward), keeping the order of the shifts
/// within a role: the result is the allocation of `shifts_by_role(recs@)`,
/// row by row.
///
/// A zero-hour shift, a night with no tipped (non-steward) hours and a night
/// with no steward hours are refused, in that order of precedence: each
/// would divide by zero.
pub fn compute(labor_report_upload: &LaborReportUpload, recs: &Vec<ShiftRecord>) -> (r: Result<
    Vec<AllocationRow>,
    ComputationError,
>)
    requires
        amounts_in_range(recs@),
        upload_in_range(*labor_report_upload),
    ensures
        match r {
            Ok(rows) => {
                &&& amounts_in_range(shifts_by_role(recs@))
                &&& all_durations_positive(shifts_by_role(recs@))
                &&& tipped_hours(shifts_by_role(recs@)) > 0
                &&& steward_hours(shifts_by_role(recs@)) > 0
                &&& allocation_of(
                    rows@,
                    shifts_by_role(recs@),
                    labor_report_upload.total_sales as int,
                    total_tips_of(*labor_report_upload),
                )
                &&& forall|i: int| 0 <= i < rows.len() ==> row_bounded(#[trigger] rows@[i])
            },
            Err(e) => computation_refused(shifts_by_role(recs@), e),
        },
{
    let ordered = order_by_role(recs);
    proof {
        lemma_ordered_members(recs@);
        assert forall|i: int| 0 <= i < ordered.len() implies #[trigger] ordered@[i].duration
            <= MAX_AMOUNT && ordered@[i].total_pay <= MAX_AMOUNT by {
            let k = choose|k: int| 0 <= k < recs.len() && ordered@[i] == recs@[k];
            assert(recs@[k].duration <= MAX_AMOUNT);
        }
    }
    allocate_in_order(labor_report_upload, &ordered)
}

} // verus!
