use vstd::prelude::*;
use vstd::string::StringExecFns;

use crate::records::ReportDate;
use crate::text::{nat_text, padded_to_string, zero_padded};

verus! {

/// A report date that can be written as `YYYY-MM-DD`.
pub open spec fn date_valid(d: ReportDate) -> bool {
    &&& 0 <= d.year <= 9999
    &&& 1 <= d.month <= 12
    &&& 1 <= d.day <= 31
}

/// The date written as `YYYY-MM-DD`.
pub open spec fn date_text(d: ReportDate) -> Seq<char> {
    zero_padded(nat_text(d.year as nat), 4) + seq!['-'] + zero_padded(nat_text(d.month as nat), 2)
        + seq!['-'] + zero_padded(nat_text(d.day as nat), 2)
}

/// The year, month and day that chrono reads from `s` in the format
/// `%Y-%m-%d`, or `None` where it refuses `s`.
pub uninterp spec fn iso_date_of(s: Seq<char>) -> Option<(int, int, int)>;

/// Relies on chrono's `NaiveDate::parse_from_str` with the format
/// `%Y-%m-%d`, and on `Datelike`'s `year`, `month` (from 1 to 12) and `day`
/// (from 1 to 31).
#[verifier::external_body]
fn parse_iso_date(s: &str) -> (r: Option<(i32, u32, u32)>)
    ensures
        match r {
            Some(t) => {
                &&& iso_date_of(s@) == Some((t.0 as int, t.1 as int, t.2 as int))
                &&& 1 <= t.1 <= 12
                &&& 1 <= t.2 <= 31
            },
            None => iso_date_of(s@) is None,
        },
{
    chrono::NaiveDate::parse_from_str(s, "%Y-%m-%d").ok().map(
        |d| (chrono::Datelike::year(&d), chrono::Datelike::month(&d), chrono::Datelike::day(&d)),
    )
}

/// Reads a report date written `YYYY-MM-DD`, with a year from 0 to 9999.
pub fn parse_report_date(s: &str) -> (r: Option<ReportDate>)
    ensures
        match r {
            Some(d) => date_valid(d) && iso_date_of(s@) == Some(
                (d.year as int, d.month as int, d.day as int),
            ),
            None => match iso_date_of(s@) {
                Some(t) => !(0 <= t.0 <= 9999),
                None => true,
            },
        },
{
    match parse_iso_date(s) {
        Some((year, month, day)) => {
            if 0 <= year && year <= 9999 {
                Some(ReportDate { year, month, day })
            } else {
                None
            }
        },
        None => None,
    }
}

/// Writes the date as `YYYY-MM-DD`.
pub fn date_to_string(d: ReportDate) -> (r: String)
    requires
        date_valid(d),
    ensures
        r@ == date_text(d),
{
    let y = padded_to_string(d.year as u128, 4);
    let m = padded_to_string(d.month as u128, 2);
    let dd = padded_to_string(d.day as u128, 2);
    proof {
        reveal_strlit("-");
    }
    let r = y.concat("-").concat(m.as_str()).concat("-").concat(dd.as_str());
    assert(r@ =~= date_text(d));
    r
}

} // verus!
