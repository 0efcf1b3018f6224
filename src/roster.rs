use vstd::prelude::*;
use vstd::string::StringExecFns;

use crate::csv_io::{csv_records_of, read_records, table_view};
use crate::ingest::{find_column, first_column, ParseError};
use crate::text::{id_value, parse_id};
use crate::validate::StaffMemberForCreate;

verus! {

/// A request to credit a commission to an employee for a wine; both ids
/// are written as text.
#[derive(Clone, Debug)]
pub struct CommissionForCreate {
    pub eid: String,
    pub product_id: String,
}

/// Reads the employee id and the product id of a commission request.
pub fn commission_ids(c: &CommissionForCreate) -> (r: Option<(i32, i32)>)
    ensures
        match (id_value(c.eid@), id_value(c.product_id@)) {
            (Some(e), Some(p)) => r == Some((e as i32, p as i32)),
            _ => r is None,
        },
{
    match (parse_id(c.eid.as_str()), parse_id(c.product_id.as_str())) {
        (Some(e), Some(p)) => Some((e, p)),
        _ => None,
    }
}

/// `m` is the roster entry that the data row `cells` records, given the
/// positions of the name, card id and employee id columns.
pub open spec fn member_from(
    m: StaffMemberForCreate,
    cells: Seq<Seq<char>>,
    name: int,
    card: int,
    eid: int,
) -> bool {
    &&& m.name@ == cells[name]
    &&& m.card_id@ == cells[card]
    &&& id_value(cells[eid]) == Some(m.eid as int)
}

fn column(header: &Vec<String>, name: &str) -> (r: Result<usize, ParseError>)
    ensures
        match r {
            Ok(j) => first_column(header@.map_values(|c: String| c@), name@, j as int),
            Err(ParseError::MissingColumn { column }) => column@ == name@ && forall|k: int|
                0 <= k < header.len() ==> header@[k]@ != name@,
            Err(_) => false,
        },
{
    match find_column(header, name) {
        Some(j) => Ok(j),
        None => Err(ParseError::MissingColumn { column: String::from_str(name) }),
    }
}

/// Reads a staff list: delimited text with a header naming the columns
/// `name`, `card_id` and `eid`, and one employee per line.
pub fn read_import_csv(bytes: &[u8]) -> (r: Result<Vec<StaffMemberForCreate>, ParseError>)
    ensures
        match r {
            Ok(staff) => exists|t: Seq<Seq<Seq<char>>>, name: int, card: int, eid: int|
                {
                    &&& csv_records_of(bytes@) == Some(t)
                    &&& t.len() >= 1
                    &&& first_column(t[0], "name"@, name)
                    &&& first_column(t[0], "card_id"@, card)
                    &&& first_column(t[0], "eid"@, eid)
                    &&& staff.len() == t.len() - 1
                    &&& forall|i: int|
                        0 <= i < staff.len() ==> member_from(
                            #[trigger] staff@[i],
                            t[i + 1],
                            name,
                            card,
                            eid,
                        )
                },
            Err(ParseError::MalformedTable) => match csv_records_of(bytes@) {
                None => true,
                Some(t) => t.len() == 0 || exists|name: int, card: int, eid: int, k: int|
                    {
                        &&& first_column(t[0], "name"@, name)
                        &&& first_column(t[0], "card_id"@, card)
                        &&& first_column(t[0], "eid"@, eid)
                        &&& 1 <= k < t.len()
                        &&& (name >= t[k].len() || card >= t[k].len() || eid >= t[k].len())
                    },
            },
            Err(ParseError::MissingColumn { column }) => exists|t: Seq<Seq<Seq<char>>>|
                {
                    &&& csv_records_of(bytes@) == Some(t)
                    &&& t.len() >= 1
                    &&& forall|k: int| 0 <= k < t[0].len() ==> t[0][k] != column@
                },
            Err(ParseError::NotANumber { row, column }) => exists|
                t: Seq<Seq<Seq<char>>>,
                eid: int,
            |
                {
                    &&& csv_records_of(bytes@) == Some(t)
                    &&& first_column(t[0], "eid"@, eid)
                    &&& 1 <= row + 1 < t.len()
                    &&& eid < t[row + 1].len()
                    &&& id_value(t[row + 1][eid]) is None
                    &&& column@ == "eid"@
                },
            Err(_) => false,
        },
{
    let rows = match read_records(bytes) {
        Ok(t) => t,
        Err(_) => return Err(ParseError::MalformedTable),
    };
    let ghost t = table_view(rows@);
    if rows.len() == 0 {
        return Err(ParseError::MalformedTable);
    }
    assert(rows@[0]@.map_values(|c: String| c@) == t[0]);
    assert(csv_records_of(bytes@) == Some(t));
    let name = match column(&rows[0], "name") {
        Ok(j) => j,
        Err(e) => {
            proof {
                if e is MissingColumn {
                    let column = e->MissingColumn_column;
                    assert forall|k: int| 0 <= k < t[0].len() implies t[0][k] != column@ by {
                        assert(t[0][k] == rows@[0]@[k]@);
                    }
                    assert({
                        &&& csv_records_of(bytes@) == Some(t)
                        &&& t.len() >= 1
                        &&& forall|k: int| 0 <= k < t[0].len() ==> t[0][k] != column@
                    });
                }
            }
            return Err(e);
        },
    };
    let card = match column(&rows[0], "card_id") {
        Ok(j) => j,
        Err(e) => {
            proof {
                if e is MissingColumn {
                    let column = e->MissingColumn_column;
                    assert forall|k: int| 0 <= k < t[0].len() implies t[0][k] != column@ by {
                        assert(t[0][k] == rows@[0]@[k]@);
                    }
                    assert({
                        &&& csv_records_of(bytes@) == Some(t)
                        &&& t.len() >= 1
                        &&& forall|k: int| 0 <= k < t[0].len() ==> t[0][k] != column@
                    });
                }
            }
            return Err(e);
        },
    };
    let eid = match column(&rows[0], "eid") {
        Ok(j) => j,
        Err(e) => {
            proof {
                if e is MissingColumn {
                    let column = e->MissingColumn_column;
                    assert forall|k: int| 0 <= k < t[0].len() implies t[0][k] != column@ by {
                        assert(t[0][k] == rows@[0]@[k]@);
                    }
                    assert({
                        &&& csv_records_of(bytes@) == Some(t)
                        &&& t.len() >= 1
                        &&& forall|k: int| 0 <= k < t[0].len() ==> t[0][k] != column@
                    });
                }
            }
            return Err(e);
        },
    };
    let mut staff: Vec<StaffMemberForCreate> = Vec::new();
    for k in 1..rows.len()
        invariant
            t == table_view(rows@),
            csv_records_of(bytes@) == Some(t),
            first_column(t[0], "name"@, name as int),
            first_column(t[0], "card_id"@, card as int),
            first_column(t[0], "eid"@, eid as int),
            staff.len() == k - 1,
            forall|i: int|
                0 <= i < staff.len() ==> member_from(
                    #[trigger] staff@[i],
                    t[i + 1],
                    name as int,
                    card as int,
                    eid as int,
                ),
    {
        let cells = &rows[k];
        assert(t[k as int] == cells@.map_values(|c: String| c@));
        if name >= cells.len() || card >= cells.len() || eid >= cells.len() {
            return Err(ParseError::MalformedTable);
        }
        let id = match parse_id(cells[eid].as_str()) {
            Some(v) => v,
            None => {
                assert(t[k as int][eid as int] == cells@[eid as int]@);
                return Err(
                    ParseError::NotANumber { row: k - 1, column: String::from_str("eid") },
                );
            },
        };
        staff.push(
            StaffMemberForCreate {
                name: cells[name].clone(),
                card_id: cells[card].clone(),
                eid: id,
            },
        );
    }
    assert(csv_records_of(bytes@) == Some(t));
    Ok(staff)
}

} // verus!
