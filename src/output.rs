use vstd::arithmetic::div_mod::{lemma_fundamental_div_mod, lemma_mod_pos_bound};
use vstd::prelude::*;

use vstd::arithmetic::div_mod::lemma_div_multiples_vanish;

use crate::allocate::{
    all_durations_positive, allocation_of, hours_limit, lemma_hours_bounded, ratio_bounded,
    ratio_limit, row_bounded, row_of, steward_hours, steward_share, tipped_hours, tipped_share,
    value_bounded, VALUE_BOUND,
};
use crate::laws::{lemma_net_tips_conserved, lemma_sums_unique, net_tips_column, sums_to};
use crate::records::{amounts_in_range, is_steward, AllocationRow, Ratio, ShiftRecord, MAX_AMOUNT};

verus! {

/// Night-level aggregates: the sum of the net tips, in cents, and the
/// average hourly pay, in cents per hour.
#[derive(Clone, Copy, Debug, PartialEq, Eq, Structural)]
pub struct Summary {
    pub total_tips: i128,
    pub average_net_hourly_pay: i128,
}

/// `num / den` rounded to the nearest integer, halves away from zero.
pub open spec fn rounded(num: int, den: int) -> int {
    if num >= 0 {
        (2 * num + den) / (2 * den)
    } else {
        -((2 * (-num) + den) / (2 * den))
    }
}

pub open spec fn rounded_ratio(q: Ratio) -> int {
    rounded(q.num as int, q.den as int)
}

pub open spec fn sum_rounded_hourly_pay(rows: Seq<AllocationRow>) -> int
    decreases rows.len(),
{
    if rows.len() == 0 {
        0
    } else {
        sum_rounded_hourly_pay(rows.drop_last()) + rounded_ratio(rows.last().hourly_pay_for_night)
    }
}

proof fn lemma_rounded_bound(n: int, d: int, k: int)
    requires
        d > 0,
        k >= 0,
        0 <= n <= k * d,
    ensures
        0 <= (2 * n + d) / (2 * d) <= k,
{
    let x = 2 * n + d;
    lemma_fundamental_div_mod(x, 2 * d);
    lemma_mod_pos_bound(x, 2 * d);
    let q = x / (2 * d);
    let r = x % (2 * d);
    assert(0 <= q <= k) by (nonlinear_arith)
        requires
            x == 2 * d * q + r,
            0 <= r < 2 * d,
            x == 2 * n + d,
            0 <= n <= k * d,
            d > 0,
    ;
}

/// Rounds a fraction to the nearest integer, halves away from zero.
pub fn round_ratio(q: Ratio) -> (r: i128)
    requires
        ratio_bounded(q),
    ensures
        r == rounded_ratio(q),
        -ratio_limit() <= r <= ratio_limit(),
        value_bounded(q) ==> -VALUE_BOUND <= r <= VALUE_BOUND,
{
    let a = if q.num < 0 {
        -q.num
    } else {
        q.num
    };
    proof {
        assert(a <= ratio_limit() * q.den) by (nonlinear_arith)
            requires
                0 <= a <= ratio_limit(),
                q.den >= 1,
        ;
        lemma_rounded_bound(a as int, q.den as int, ratio_limit());
        if value_bounded(q) {
            lemma_rounded_bound(a as int, q.den as int, VALUE_BOUND as int);
        }
    }
    let m = (2 * a + q.den) / (2 * q.den);
    if q.num < 0 {
        -m
    } else {
        m
    }
}

/// `rows` are the allocation of the shifts `recs` with these sales and
/// tips, on a night with hours in both groups.
pub open spec fn allocation_parts(
    rows: Seq<AllocationRow>,
    recs: Seq<ShiftRecord>,
    sales: int,
    tips: int,
) -> bool {
    &&& allocation_of(rows, recs, sales, tips)
    &&& amounts_in_range(recs)
    &&& all_durations_positive(recs)
    &&& tipped_hours(recs) > 0
    &&& steward_hours(recs) > 0
    &&& 0 <= sales <= MAX_AMOUNT
    &&& 0 <= tips <= 2 * MAX_AMOUNT
    &&& forall|i: int| 0 <= i < rows.len() ==> row_bounded(#[trigger] rows[i])
}

/// `rows` are the allocation of some night with hours in both groups.
pub open spec fn allocated(rows: Seq<AllocationRow>) -> bool {
    exists|recs: Seq<ShiftRecord>, sales: int, tips: int| allocation_parts(rows, recs, sales, tips)
}

/// Adds up the net tips exactly, and averages the hourly pay (each rounded
/// to the cent) over the employees.
pub fn summarize(rows: &Vec<AllocationRow>) -> (r: Summary)
    requires
        allocated(rows@),
    ensures
        exists|l: int| sums_to(net_tips_column(rows@), l, r.total_tips as int, 1),
        forall|recs: Seq<ShiftRecord>, sales: int, tips: int|
            allocation_parts(rows@, recs, sales, tips) ==> r.total_tips == tips,
        r.average_net_hourly_pay == rounded(sum_rounded_hourly_pay(rows@), rows.len() as int),
{
    let ghost (recs, sales, tips) = choose|recs: Seq<ShiftRecord>, sales: int, tips: int|
        allocation_parts(rows@, recs, sales, tips);
    let ghost th = tipped_hours(recs);
    let ghost sh = steward_hours(recs);
    let ghost k = 40 * tips - sales;
    let n = rows.len();
    proof {
        lemma_hours_bounded(recs);
        assert(recs.len() > 0);
        assert(row_of(rows@[0], recs[0], th, sh, sales, tips));
    }
    let t = rows[0].proportion_of_total_tipped_hours.den;
    let s = rows[0].proportion_of_total_steward_hours.den;
    let mut a: i128 = 0;
    let mut b: i128 = 0;
    let mut hourly: i128 = 0;
    for i in 0..n
        invariant
            n == rows.len(),
            n == recs.len(),
            allocation_parts(rows@, recs, sales, tips),
            th == tipped_hours(recs),
            sh == steward_hours(recs),
            k == 40 * tips - sales,
            a == k * tipped_hours(recs.take(i as int)),
            b == sales * steward_hours(recs.take(i as int)),
            -147573952589676412928000000000000000 <= a <= 147573952589676412928000000000000000,
            0 <= b <= 1844674407370955161600000000000000,
            hourly == sum_rounded_hourly_pay(rows@.take(i as int)),
            -i * VALUE_BOUND <= hourly <= i * VALUE_BOUND,
    {
        let ghost prefix = recs.take(i + 1);
        let ghost before = recs.take(i as int);
        assert(prefix.drop_last() =~= before);
        assert(prefix.last() == recs[i as int]);
        let ghost rp = rows@.take(i + 1);
        assert(rp.drop_last() =~= rows@.take(i as int));
        assert(rp.last() == rows@[i as int]);
        assert(row_of(rows@[i as int], recs[i as int], th, sh, sales, tips));
        assert(row_bounded(rows@[i as int]));
        proof {
            assert(amounts_in_range(prefix));
            lemma_hours_bounded(prefix);
            assert(amounts_in_range(before));
            lemma_hours_bounded(before);
        }
        let ghost tp = tipped_hours(prefix);
        let ghost sp = steward_hours(prefix);
        assert(k * tp == k * tipped_hours(before) + k * tipped_share(recs[i as int]))
            by (nonlinear_arith)
            requires
                tp == tipped_hours(before) + tipped_share(recs[i as int]),
        ;
        assert(sales * sp == sales * steward_hours(before) + sales * steward_share(recs[i as int]))
            by (nonlinear_arith)
            requires
                sp == steward_hours(before) + steward_share(recs[i as int]),
        ;
        assert(hours_limit() == 184467440737095516160000000);
        assert(-147573952589676412928000000000000000 <= k * tp
            <= 147573952589676412928000000000000000) by (nonlinear_arith)
            requires
                -10_000_000 <= k <= 800_000_000,
                0 <= tp <= 184467440737095516160000000,
        ;
        assert(0 <= sales * sp <= 1844674407370955161600000000000000) by (nonlinear_arith)
            requires
                0 <= sales <= 10_000_000,
                0 <= sp <= 184467440737095516160000000,
        ;
        assert(tipped_share(recs[i as int]) * k == k * tipped_share(recs[i as int]))
            by (nonlinear_arith);
        assert(steward_share(recs[i as int]) * sales == sales * steward_share(recs[i as int]))
            by (nonlinear_arith);
        if rows[i].role == crate::records::Role::Steward {
            assert(b + rows@[i as int].net_tips.num == sales * sp);
            b = b + rows[i].net_tips.num;
        } else {
            assert(a + rows@[i as int].net_tips.num == k * tp);
            a = a + rows[i].net_tips.num;
        }
        hourly = hourly + round_ratio(rows[i].hourly_pay_for_night);
    }
    assert(recs.take(n as int) =~= recs);
    assert(rows@.take(n as int) =~= rows@);
    assert(a == th * k) by (nonlinear_arith)
        requires
            a == k * th,
    ;
    assert(b == sh * sales) by (nonlinear_arith)
        requires
            b == sales * sh,
    ;
    proof {
        lemma_div_multiples_vanish(k, th);
        lemma_div_multiples_vanish(sales, sh);
        lemma_div_multiples_vanish(-k, th);
        assert(th * (-k) == -a) by (nonlinear_arith)
            requires
                a == th * k,
        ;
        lemma_div_multiples_vanish(tips, 40);
    }
    let share = if a >= 0 {
        a / t
    } else {
        -((-a) / t)
    };
    assert(share == k);
    let pool = b / s;
    assert(pool == sales);
    let total = (share + pool) / 40;
    assert(total == tips);
    proof {
        lemma_net_tips_conserved(recs, rows@, sales, tips);
        assert(sums_to(net_tips_column(rows@), 40 * th * sh, total as int, 1));
        assert forall|recs2: Seq<ShiftRecord>, sales2: int, tips2: int|
            allocation_parts(rows@, recs2, sales2, tips2) implies total == tips2 by {
            lemma_net_tips_conserved(recs2, rows@, sales2, tips2);
            lemma_sums_unique(
                net_tips_column(rows@),
                40 * th * sh,
                40 * tipped_hours(recs2) * steward_hours(recs2),
                tips,
                tips2,
            );
        }
    }
    let average = round_ratio(Ratio { num: hourly, den: n as i128 });
    let r = Summary { total_tips: total, average_net_hourly_pay: average };
    assert(sums_to(net_tips_column(rows@), 40 * th * sh, r.total_tips as int, 1));
    r
}

} // verus!
