use vstd::arithmetic::div_mod::{
    lemma_div_multiples_vanish, lemma_fundamental_div_mod, lemma_mod_multiples_basic,
};
use vstd::prelude::*;

use crate::allocate::{
    allocation_of, row_of, steward_hours, steward_share, tipped_hours, tipped_share,
};
use crate::records::{is_steward, AllocationRow, Ratio, ShiftRecord};

verus! {

/// Sum of the fractions `qs`, each brought over the common denominator `l`:
/// the sum of the fractions is `scaled_sum(qs, l) / l` when every
/// denominator divides `l`.
pub open spec fn scaled_sum(qs: Seq<Ratio>, l: int) -> int
    decreases qs.len(),
{
    if qs.len() == 0 {
        0
    } else {
        scaled_sum(qs.drop_last(), l) + qs.last().num * (l / (qs.last().den as int))
    }
}

/// Every denominator of `qs` is positive and divides `l`.
pub open spec fn divides_all(qs: Seq<Ratio>, l: int) -> bool {
    &&& l > 0
    &&& forall|i: int| 0 <= i < qs.len() ==> qs[i].den > 0 && l % (qs[i].den as int) == 0
}

/// The fractions `qs` add up to `n / d`.
pub open spec fn sums_to(qs: Seq<Ratio>, l: int, n: int, d: int) -> bool {
    &&& d > 0
    &&& divides_all(qs, l)
    &&& scaled_sum(qs, l) * d == n * l
}

proof fn lemma_scaled_cross(qs: Seq<Ratio>, l1: int, l2: int)
    requires
        divides_all(qs, l1),
        divides_all(qs, l2),
    ensures
        scaled_sum(qs, l1) * l2 == scaled_sum(qs, l2) * l1,
    decreases qs.len(),
{
    if qs.len() > 0 {
        let q0 = qs.drop_last();
        assert(divides_all(q0, l1));
        assert(divides_all(q0, l2));
        lemma_scaled_cross(q0, l1, l2);
        let q = qs.last();
        assert(q == qs[qs.len() - 1]);
        let d = q.den as int;
        let x = l1 / d;
        let y = l2 / d;
        lemma_fundamental_div_mod(l1, d);
        lemma_fundamental_div_mod(l2, d);
        assert(q.num * x * l2 == q.num * y * l1) by (nonlinear_arith)
            requires
                l1 == d * x,
                l2 == d * y,
        ;
        assert(scaled_sum(qs, l1) * l2 == scaled_sum(q0, l1) * l2 + q.num * x * l2)
            by (nonlinear_arith)
            requires
                scaled_sum(qs, l1) == scaled_sum(q0, l1) + q.num * x,
        ;
        assert(scaled_sum(qs, l2) * l1 == scaled_sum(q0, l2) * l1 + q.num * y * l1)
            by (nonlinear_arith)
            requires
                scaled_sum(qs, l2) == scaled_sum(q0, l2) + q.num * y,
        ;
    }
}

/// A sum of fractions has one value, whatever common denominator it is
/// brought over.
pub proof fn lemma_sums_unique(qs: Seq<Ratio>, l1: int, l2: int, n1: int, n2: int)
    requires
        sums_to(qs, l1, n1, 1),
        sums_to(qs, l2, n2, 1),
    ensures
        n1 == n2,
{
    lemma_scaled_cross(qs, l1, l2);
    assert(n1 == n2) by (nonlinear_arith)
        requires
            scaled_sum(qs, l1) == n1 * l1,
            scaled_sum(qs, l2) == n2 * l2,
            scaled_sum(qs, l1) * l2 == scaled_sum(qs, l2) * l1,
            l1 > 0,
            l2 > 0,
    ;
}

/// The rows of `rows` that are (or are not) stewards, in order.
pub open spec fn rows_in_group(rows: Seq<AllocationRow>, steward: bool) -> Seq<AllocationRow>
    decreases rows.len(),
{
    if rows.len() == 0 {
        Seq::empty()
    } else {
        let rest = rows_in_group(rows.drop_last(), steward);
        if is_steward(rows.last().role) == steward {
            rest.push(rows.last())
        } else {
            rest
        }
    }
}

pub open spec fn tipped_hour_shares(rows: Seq<AllocationRow>) -> Seq<Ratio> {
    rows.map_values(|r: AllocationRow| r.proportion_of_total_tipped_hours)
}

pub open spec fn steward_hour_shares(rows: Seq<AllocationRow>) -> Seq<Ratio> {
    rows.map_values(|r: AllocationRow| r.proportion_of_total_steward_hours)
}

pub open spec fn steward_tip_outs(rows: Seq<AllocationRow>) -> Seq<Ratio> {
    rows.map_values(|r: AllocationRow| r.steward_tip_out)
}

pub open spec fn net_tips_column(rows: Seq<AllocationRow>) -> Seq<Ratio> {
    rows.map_values(|r: AllocationRow| r.net_tips)
}

/// The two allocations hold the same rows, column for column.
pub open spec fn rows_agree(a: Seq<AllocationRow>, b: Seq<AllocationRow>) -> bool {
    &&& a.len() == b.len()
    &&& forall|i: int|
        0 <= i < a.len() ==> {
            &&& a[i].employee@ == b[i].employee@
            &&& a[i].payroll_id@ == b[i].payroll_id@
            &&& a[i].role == b[i].role
            &&& a[i].duration == b[i].duration
            &&& a[i].total_pay == b[i].total_pay
            &&& a[i].proportion_of_total_tipped_hours == b[i].proportion_of_total_tipped_hours
            &&& a[i].proportion_of_total_tips == b[i].proportion_of_total_tips
            &&& a[i].proportion_of_total_sales == b[i].proportion_of_total_sales
            &&& a[i].steward_tip_out == b[i].steward_tip_out
            &&& a[i].proportion_of_total_steward_hours == b[i].proportion_of_total_steward_hours
            &&& a[i].proportion_of_total_steward_tips == b[i].proportion_of_total_steward_tips
            &&& a[i].net_tips == b[i].net_tips
            &&& a[i].total_pay_for_night == b[i].total_pay_for_night
            &&& a[i].hourly_pay_for_night == b[i].hourly_pay_for_night
        }
}

proof fn lemma_group_shares(
    recs: Seq<ShiftRecord>,
    rows: Seq<AllocationRow>,
    t: int,
    s: int,
    sales: int,
    tips: int,
    steward: bool,
)
    requires
        rows.len() == recs.len(),
        steward ==> s > 0,
        !steward ==> t > 0,
        forall|i: int| 0 <= i < recs.len() ==> row_of(#[trigger] rows[i], recs[i], t, s, sales, tips),
    ensures
        !steward ==> divides_all(tipped_hour_shares(rows_in_group(rows, false)), t),
        !steward ==> scaled_sum(tipped_hour_shares(rows_in_group(rows, false)), t) == tipped_hours(
            recs,
        ),
        steward ==> divides_all(steward_hour_shares(rows_in_group(rows, true)), s),
        steward ==> scaled_sum(steward_hour_shares(rows_in_group(rows, true)), s) == steward_hours(
            recs,
        ),
    decreases rows.len(),
{
    let g = rows_in_group(rows, steward);
    if rows.len() == 0 {
        assert(tipped_hour_shares(g) =~= Seq::empty());
        assert(steward_hour_shares(g) =~= Seq::empty());
        return ;
    }
    let rows0 = rows.drop_last();
    let recs0 = recs.drop_last();
    let row = rows.last();
    assert(row_of(rows[rows.len() - 1], recs[recs.len() - 1], t, s, sales, tips));
    assert forall|i: int| 0 <= i < recs0.len() implies row_of(
        #[trigger] rows0[i],
        recs0[i],
        t,
        s,
        sales,
        tips,
    ) by {
        assert(rows0[i] == rows[i]);
    }
    lemma_group_shares(recs0, rows0, t, s, sales, tips, steward);
    let g0 = rows_in_group(rows0, steward);
    let d = if steward {
        s
    } else {
        t
    };
    lemma_div_multiples_vanish(1, d);
    lemma_mod_multiples_basic(1, d);
    if is_steward(row.role) == steward {
        assert(g == g0.push(row));
        if steward {
            assert(steward_hour_shares(g).drop_last() =~= steward_hour_shares(g0));
            assert(steward_hour_shares(g).last() == row.proportion_of_total_steward_hours);
            assert forall|i: int| 0 <= i < g.len() implies #[trigger] steward_hour_shares(g)[i].den
                > 0 && s % (steward_hour_shares(g)[i].den as int) == 0 by {
                if i < g0.len() {
                    assert(steward_hour_shares(g)[i] == steward_hour_shares(g0)[i]);
                }
            }
        } else {
            assert(tipped_hour_shares(g).drop_last() =~= tipped_hour_shares(g0));
            assert(tipped_hour_shares(g).last() == row.proportion_of_total_tipped_hours);
            assert forall|i: int| 0 <= i < g.len() implies #[trigger] tipped_hour_shares(g)[i].den
                > 0 && t % (tipped_hour_shares(g)[i].den as int) == 0 by {
                if i < g0.len() {
                    assert(tipped_hour_shares(g)[i] == tipped_hour_shares(g0)[i]);
                }
            }
        }
    } else {
        assert(g == g0);
    }
}

proof fn lemma_column_sums(
    recs: Seq<ShiftRecord>,
    rows: Seq<AllocationRow>,
    t: int,
    s: int,
    sales: int,
    tips: int,
)
    requires
        rows.len() == recs.len(),
        t > 0,
        s > 0,
        forall|i: int| 0 <= i < recs.len() ==> row_of(#[trigger] rows[i], recs[i], t, s, sales, tips),
    ensures
        divides_all(steward_tip_outs(rows), 40 * t),
        scaled_sum(steward_tip_outs(rows), 40 * t) == sales * tipped_hours(recs),
        divides_all(net_tips_column(rows), 40 * t * s),
        scaled_sum(net_tips_column(rows), 40 * t * s) == s * (40 * tips - sales) * tipped_hours(
            recs,
        ) + t * sales * steward_hours(recs),
    decreases rows.len(),
{
    assert(40 * t * s > 0) by (nonlinear_arith)
        requires
            t > 0,
            s > 0,
    ;
    if rows.len() == 0 {
        assert(steward_tip_outs(rows) =~= Seq::empty());
        assert(net_tips_column(rows) =~= Seq::empty());
        return ;
    }
    let rows0 = rows.drop_last();
    let recs0 = recs.drop_last();
    let row = rows.last();
    let rec = recs.last();
    assert(row_of(rows[rows.len() - 1], recs[recs.len() - 1], t, s, sales, tips));
    assert forall|i: int| 0 <= i < recs0.len() implies row_of(
        #[trigger] rows0[i],
        recs0[i],
        t,
        s,
        sales,
        tips,
    ) by {
        assert(rows0[i] == rows[i]);
    }
    lemma_column_sums(recs0, rows0, t, s, sales, tips);
    let l = 40 * t * s;
    assert(40 * t * s == (40 * t) * s) by (nonlinear_arith);
    assert(40 * t * s == (40 * s) * t) by (nonlinear_arith);
    lemma_div_multiples_vanish(s, 40 * t);
    lemma_div_multiples_vanish(t, 40 * s);
    lemma_mod_multiples_basic(s, 40 * t);
    lemma_mod_multiples_basic(t, 40 * s);
    assert((40 * t) * s == s * (40 * t)) by (nonlinear_arith);
    assert((40 * s) * t == t * (40 * s)) by (nonlinear_arith);
    lemma_div_multiples_vanish(1, 40 * t);
    lemma_mod_multiples_basic(1, 40 * t);
    assert forall|i: int| 0 <= i < rows.len() implies #[trigger] steward_tip_outs(rows)[i].den == 40
        * t && net_tips_column(rows)[i].den > 0 && l % (net_tips_column(rows)[i].den as int) == 0 by {
        assert(row_of(rows[i], recs[i], t, s, sales, tips));
    }
    assert(steward_tip_outs(rows).drop_last() =~= steward_tip_outs(rows0));
    assert(net_tips_column(rows).drop_last() =~= net_tips_column(rows0));
    assert(steward_tip_outs(rows).last() == row.steward_tip_out);
    assert(net_tips_column(rows).last() == row.net_tips);
    assert(sales * tipped_share(rec) == tipped_share(rec) * sales) by (nonlinear_arith);
    assert((40 * t) / (40 * t) == 1);
    assert(scaled_sum(steward_tip_outs(rows), 40 * t) == scaled_sum(steward_tip_outs(rows0), 40 * t)
        + tipped_share(rec) * sales);
    if is_steward(row.role) {
        assert(steward_share(rec) * sales * t == t * sales * steward_share(rec))
            by (nonlinear_arith);
    } else {
        assert(tipped_share(rec) * (40 * tips - sales) * s == s * (40 * tips - sales)
            * tipped_share(rec)) by (nonlinear_arith);
    }
    assert(s * (40 * tips - sales) * tipped_hours(recs) == s * (40 * tips - sales) * tipped_hours(
        recs0,
    ) + s * (40 * tips - sales) * tipped_share(rec)) by (nonlinear_arith)
        requires
            tipped_hours(recs) == tipped_hours(recs0) + tipped_share(rec),
    ;
    assert(t * sales * steward_hours(recs) == t * sales * steward_hours(recs0) + t * sales
        * steward_share(rec)) by (nonlinear_arith)
        requires
            steward_hours(recs) == steward_hours(recs0) + steward_share(rec),
    ;
    assert(sales * tipped_hours(recs) == sales * tipped_hours(recs0) + sales * tipped_share(rec))
        by (nonlinear_arith)
        requires
            tipped_hours(recs) == tipped_hours(recs0) + tipped_share(rec),
    ;
}

/// Over the non-steward rows of an allocation, the proportions of the total
/// tipped hours add up to one.
pub proof fn lemma_tipped_hour_shares_sum_to_one(
    recs: Seq<ShiftRecord>,
    rows: Seq<AllocationRow>,
    sales: int,
    tips: int,
)
    requires
        allocation_of(rows, recs, sales, tips),
        tipped_hours(recs) > 0,
    ensures
        sums_to(tipped_hour_shares(rows_in_group(rows, false)), tipped_hours(recs), 1, 1),
{
    lemma_group_shares(recs, rows, tipped_hours(recs), steward_hours(recs), sales, tips, false);
}

/// Over the steward rows of an allocation, the proportions of the total
/// steward hours add up to one.
pub proof fn lemma_steward_hour_shares_sum_to_one(
    recs: Seq<ShiftRecord>,
    rows: Seq<AllocationRow>,
    sales: int,
    tips: int,
)
    requires
        allocation_of(rows, recs, sales, tips),
        steward_hours(recs) > 0,
    ensures
        sums_to(steward_hour_shares(rows_in_group(rows, true)), steward_hours(recs), 1, 1),
{
    lemma_group_shares(recs, rows, tipped_hours(recs), steward_hours(recs), sales, tips, true);
}

/// The steward tip-outs of all rows add up to one fortieth (2.5%) of the
/// night's sales: this is the pool that the stewards share.
pub proof fn lemma_total_steward_tip_out(
    recs: Seq<ShiftRecord>,
    rows: Seq<AllocationRow>,
    sales: int,
    tips: int,
)
    requires
        allocation_of(rows, recs, sales, tips),
        tipped_hours(recs) > 0,
        steward_hours(recs) > 0,
    ensures
        sums_to(steward_tip_outs(rows), 40 * tipped_hours(recs), sales, 40),
{
    let t = tipped_hours(recs);
    lemma_column_sums(recs, rows, t, steward_hours(recs), sales, tips);
    assert(sales * t * 40 == sales * (40 * t)) by (nonlinear_arith);
}

/// Conservation: the net tips of all rows add up to the night's total tips.
/// The tip-out moves tip value from the other roles to the stewards, and
/// neither creates nor destroys any.
pub proof fn lemma_net_tips_conserved(
    recs: Seq<ShiftRecord>,
    rows: Seq<AllocationRow>,
    sales: int,
    tips: int,
)
    requires
        allocation_of(rows, recs, sales, tips),
        tipped_hours(recs) > 0,
        steward_hours(recs) > 0,
    ensures
        sums_to(net_tips_column(rows), 40 * tipped_hours(recs) * steward_hours(recs), tips, 1),
{
    let t = tipped_hours(recs);
    let s = steward_hours(recs);
    lemma_column_sums(recs, rows, t, s, sales, tips);
    assert(s * (40 * tips - sales) * t + t * sales * s == tips * (40 * t * s)) by (nonlinear_arith);
}

/// Idempotence: two allocations of the same shifts and totals hold the same
/// rows.
pub proof fn lemma_allocation_deterministic(
    recs: Seq<ShiftRecord>,
    sales: int,
    tips: int,
    a: Seq<AllocationRow>,
    b: Seq<AllocationRow>,
)
    requires
        allocation_of(a, recs, sales, tips),
        allocation_of(b, recs, sales, tips),
    ensures
        rows_agree(a, b),
{
    assert forall|i: int| 0 <= i < a.len() implies {
        &&& a[i].employee@ == b[i].employee@
        &&& a[i].payroll_id@ == b[i].payroll_id@
    } by {
        assert(row_of(a[i], recs[i], tipped_hours(recs), steward_hours(recs), sales, tips));
        assert(row_of(b[i], recs[i], tipped_hours(recs), steward_hours(recs), sales, tips));
    }
}

} // verus!
