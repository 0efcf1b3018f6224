use vstd::prelude::*;

use crate::records::{AllocationRow, Ratio, ReportDate, Role};

verus! {

/// One entry of the cardholder roster: an employee's name, payment-card id
/// and employee id.
#[derive(Clone, Debug)]
pub struct StaffMemberForCreate {
    pub name: String,
    pub card_id: String,
    pub eid: i32,
}

/// Why the rows of a night were refused by validation.
#[derive(Clone, Debug)]
pub enum ValidationError {
    /// The employee does not appear in the cardholder roster.
    NotACardholder { employee: String },
    /// The employee has more than one shift in the night.
    DuplicateTimekeeper { employee: String },
}

/// The final record of one employee for one night.
#[derive(Clone, Debug)]
pub struct TippedDayCalculation {
    pub employee: String,
    pub role: Role,
    pub net_tips: Ratio,
    pub total_pay_for_night: Ratio,
    pub hourly_pay_for_night: Ratio,
    pub duration: u64,
    pub eid: i32,
    pub date: ReportDate,
    pub card_id: String,
}

/// `name` appears in the roster.
pub open spec fn on_roster(roster: Seq<StaffMemberForCreate>, name: Seq<char>) -> bool {
    exists|j: int| 0 <= j < roster.len() && roster[j].name@ == name
}

/// `j` is the first roster entry with this name.
pub open spec fn first_match(roster: Seq<StaffMemberForCreate>, name: Seq<char>, j: int) -> bool {
    &&& 0 <= j < roster.len()
    &&& roster[j].name@ == name
    &&& forall|k: int| 0 <= k < j ==> roster[k].name@ != name
}

/// Every row's employee appears in the roster.
pub open spec fn all_cardholders(rows: Seq<AllocationRow>, roster: Seq<StaffMemberForCreate>) -> bool {
    forall|i: int| 0 <= i < rows.len() ==> on_roster(roster, #[trigger] rows[i].employee@)
}

/// No two rows share an employee name.
pub open spec fn unique_names(names: Seq<Seq<char>>) -> bool {
    forall|i: int, j: int| 0 <= i < j < names.len() ==> names[i] != names[j]
}

pub open spec fn employee_names(rows: Seq<AllocationRow>) -> Seq<Seq<char>> {
    rows.map_values(|r: AllocationRow| r.employee@)
}

/// `t` is the final record of `row`, joined with the roster entry `m` and
/// stamped with `date`.
pub open spec fn joined(
    t: TippedDayCalculation,
    row: AllocationRow,
    m: StaffMemberForCreate,
    date: ReportDate,
) -> bool {
    &&& t.employee@ == row.employee@
    &&& t.role == row.role
    &&& t.net_tips == row.net_tips
    &&& t.total_pay_for_night == row.total_pay_for_night
    &&& t.hourly_pay_for_night == row.hourly_pay_for_night
    &&& t.duration == row.duration
    &&& t.eid == m.eid
    &&& t.date == date
    &&& t.card_id@ == m.card_id@
}

/// Looks `name` up in the roster: the index of its first entry, if any.
fn find_cardholder(roster: &Vec<StaffMemberForCreate>, name: &String) -> (r: Option<usize>)
    ensures
        match r {
            Some(j) => first_match(roster@, name@, j as int),
            None => !on_roster(roster@, name@),
        },
{
    for j in 0..roster.len()
        invariant
            forall|k: int| 0 <= k < j ==> roster@[k].name@ != name@,
    {
        if roster[j].name == *name {
            return Some(j);
        }
    }
    None
}

/// Checks that every employee of the night is a cardholder, and returns for
/// each row the index of its employee's first roster entry. The join reuses
/// these indices, so it cannot drop a row.
pub fn verify_cardholders(rows: &Vec<AllocationRow>, roster: &Vec<StaffMemberForCreate>) -> (r:
    Result<Vec<usize>, ValidationError>)
    ensures
        match r {
            Ok(ix) => {
                &&& all_cardholders(rows@, roster@)
                &&& ix.len() == rows.len()
                &&& forall|i: int|
                    0 <= i < rows.len() ==> first_match(
                        roster@,
                        rows@[i].employee@,
                        #[trigger] ix@[i] as int,
                    )
            },
            Err(ValidationError::NotACardholder { employee }) => exists|i: int|
                0 <= i < rows.len() && employee@ == rows@[i].employee@ && !on_roster(
                    roster@,
                    employee@,
                ),
            Err(ValidationError::DuplicateTimekeeper { .. }) => false,
        },
{
    let mut ix: Vec<usize> = Vec::new();
    for i in 0..rows.len()
        invariant
            ix.len() == i,
            forall|k: int|
                0 <= k < i ==> first_match(roster@, rows@[k].employee@, #[trigger] ix@[k] as int),
    {
        match find_cardholder(roster, &rows[i].employee) {
            Some(j) => ix.push(j),
            None => {
                return Err(ValidationError::NotACardholder { employee: rows[i].employee.clone() });
            },
        }
    }
    assert forall|i: int| 0 <= i < rows.len() implies on_roster(
        roster@,
        #[trigger] rows@[i].employee@,
    ) by {
        assert(first_match(roster@, rows@[i].employee@, ix@[i] as int));
    }
    Ok(ix)
}

/// The first position `j` whose name repeats an earlier one, if any.
fn first_repeat(names: &Vec<String>) -> (r: Option<(usize, usize)>)
    ensures
        match r {
            Some((i, j)) => i < j < names.len() && names@[i as int]@ == names@[j as int]@,
            None => unique_names(names@.map_values(|s: String| s@)),
        },
{
    let ghost v = names@.map_values(|s: String| s@);
    for j in 0..names.len()
        invariant
            v == names@.map_values(|s: String| s@),
            forall|a: int, b: int| 0 <= a < b < j ==> v[a] != v[b],
    {
        for i in 0..j
            invariant
                0 <= j < names.len(),
                v == names@.map_values(|s: String| s@),
                forall|a: int, b: int| 0 <= a < b < j ==> v[a] != v[b],
                forall|a: int| 0 <= a < i ==> v[a] != v[j as int],
        {
            if names[i] == names[j] {
                return Some((i, j));
            }
        }
    }
    None
}

/// Whether the names are pairwise distinct.
pub fn has_unique_elements(names: &Vec<String>) -> (r: bool)
    ensures
        r == unique_names(names@.map_values(|s: String| s@)),
{
    match first_repeat(names) {
        Some((i, j)) => {
            assert(names@.map_values(|s: String| s@)[i as int] == names@.map_values(
                |s: String| s@,
            )[j as int]);
            false
        },
        None => true,
    }
}

/// Checks that no employee has two shifts in the night.
pub fn verify_unique_timekeepers(rows: &Vec<AllocationRow>) -> (r: Result<(), ValidationError>)
    ensures
        match r {
            Ok(()) => unique_names(employee_names(rows@)),
            Err(ValidationError::DuplicateTimekeeper { employee }) => exists|i: int, j: int|
                0 <= i < j < rows.len() && rows@[i].employee@ == employee@ && rows@[j].employee@
                    == employee@,
            Err(ValidationError::NotACardholder { .. }) => false,
        },
{
    let mut names: Vec<String> = Vec::new();
    for i in 0..rows.len()
        invariant
            names.len() == i,
            forall|k: int| 0 <= k < i ==> #[trigger] names@[k]@ == rows@[k].employee@,
    {
        names.push(rows[i].employee.clone());
    }
    assert(names@.map_values(|s: String| s@) =~= employee_names(rows@));
    match first_repeat(&names) {
        Some((i, j)) => Err(ValidationError::DuplicateTimekeeper { employee: names[j].clone() }),
        None => Ok(()),
    }
}

/// Joins each row with its roster entry (found by `verify_cardholders`) and
/// stamps it with the report date.
pub fn join_card_ids(
    rows: &Vec<AllocationRow>,
    roster: &Vec<StaffMemberForCreate>,
    ix: &Vec<usize>,
    date: ReportDate,
) -> (r: Vec<TippedDayCalculation>)
    requires
        ix.len() == rows.len(),
        forall|i: int| 0 <= i < ix.len() ==> #[trigger] ix@[i] < roster.len(),
    ensures
        r.len() == rows.len(),
        forall|i: int|
            0 <= i < rows.len() ==> joined(#[trigger] r@[i], rows@[i], roster@[ix@[i] as int], date),
{
    let mut out: Vec<TippedDayCalculation> = Vec::new();
    for i in 0..rows.len()
        invariant
            ix.len() == rows.len(),
            forall|k: int| 0 <= k < ix.len() ==> #[trigger] ix@[k] < roster.len(),
            out.len() == i,
            forall|k: int|
                0 <= k < i ==> joined(#[trigger] out@[k], rows@[k], roster@[ix@[k] as int], date),
    {
        let row = &rows[i];
        let m = &roster[ix[i]];
        out.push(
            TippedDayCalculation {
                employee: row.employee.clone(),
                role: row.role,
                net_tips: row.net_tips,
                total_pay_for_night: row.total_pay_for_night,
                hourly_pay_for_night: row.hourly_pay_for_night,
                duration: row.duration,
                eid: m.eid,
                date,
                card_id: m.card_id.clone(),
            },
        );
    }
    out
}

} // verus!
