use vstd::prelude::*;
use vstd::slice::slice_subrange;
use vstd::string::StringExecFns;
use vstd::utf8::valid_utf8;

use crate::csv_io::{csv_records_of, read_records, table_view};
use crate::records::{amounts_in_range, Role, ShiftRecord, MAX_AMOUNT};
use crate::text::{amount_value, parse_amount};

verus! {

/// Why a labor export could not be read.
#[derive(Clone, Debug)]
pub enum ParseError {
    /// The export is not UTF-8 text.
    NotUtf8,
    /// No line reading `"Shifts"` opens the shift table.
    MissingShiftsMarker,
    /// No line starting with `"Breaks` closes the shift table.
    MissingBreaksMarker,
    /// The shift table is not well-formed delimited text.
    MalformedTable,
    /// The header of the shift table lacks this column.
    MissingColumn { column: String },
    /// A tipped shift holds something other than an amount in this column;
    /// `row` counts the data rows of the table from zero.
    NotANumber { row: usize, column: String },
}

/// The line `"Shifts"` that opens the shift table.
pub open spec fn shifts_marker() -> Seq<u8> {
    seq![34u8, 83u8, 104u8, 105u8, 102u8, 116u8, 115u8, 34u8, 10u8]
}

/// The start of the line `"Breaks...` that closes the shift table.
pub open spec fn breaks_marker() -> Seq<u8> {
    seq![34u8, 66u8, 114u8, 101u8, 97u8, 107u8, 115u8]
}

/// `pat` stands at the start of a line of `b`, at index `i`.
pub open spec fn line_marker_at(b: Seq<u8>, pat: Seq<u8>, i: int) -> bool {
    &&& 0 <= i
    &&& i + pat.len() <= b.len()
    &&& b.subrange(i, i + pat.len()) == pat
    &&& (i == 0 || b[i - 1] == 10u8)
}

/// `i` is the first line start at or after `from` where `pat` stands.
pub open spec fn first_line_marker(b: Seq<u8>, pat: Seq<u8>, from: int, i: int) -> bool {
    &&& from <= i
    &&& line_marker_at(b, pat, i)
    &&& forall|k: int| from <= k < i ==> !line_marker_at(b, pat, k)
}

/// The shift table of the export `b` is `b[start..end]`.
pub open spec fn shift_table_bounds(b: Seq<u8>, start: int, end: int) -> bool {
    &&& first_line_marker(b, shifts_marker(), 0, start - shifts_marker().len())
    &&& first_line_marker(b, breaks_marker(), start, end)
}

/// Column positions of the fields that the allocation reads.
#[derive(Clone, Copy, Debug, PartialEq, Eq, Structural)]
pub struct Columns {
    pub employee: usize,
    pub payroll_id: usize,
    pub role: usize,
    pub duration: usize,
    pub total_pay: usize,
}

/// `j` is the first cell of `header` that holds `name`.
pub open spec fn first_column(header: Seq<Seq<char>>, name: Seq<char>, j: int) -> bool {
    &&& 0 <= j < header.len()
    &&& header[j] == name
    &&& forall|k: int| 0 <= k < j ==> header[k] != name
}

pub open spec fn columns_of(header: Seq<Seq<char>>, c: Columns) -> bool {
    &&& first_column(header, "Employee"@, c.employee as int)
    &&& first_column(header, "Payroll Id"@, c.payroll_id as int)
    &&& first_column(header, "Role"@, c.role as int)
    &&& first_column(header, "Duration (hrs)"@, c.duration as int)
    &&& first_column(header, "Total Pay ($)"@, c.total_pay as int)
}

pub open spec fn widest(c: Columns) -> int {
    let a = if c.employee > c.payroll_id {
        c.employee
    } else {
        c.payroll_id
    };
    let b = if c.role > c.duration {
        c.role
    } else {
        c.duration
    };
    let m = if a > b {
        a
    } else {
        b
    };
    if m > c.total_pay {
        m as int
    } else {
        c.total_pay as int
    }
}

/// The tipped role that a cell names, if any.
pub open spec fn role_of(s: Seq<char>) -> Option<Role> {
    if s == "Server"@ {
        Some(Role::Server)
    } else if s == "Bartender"@ {
        Some(Role::Bartender)
    } else if s == "Steward"@ {
        Some(Role::Steward)
    } else {
        None
    }
}

/// An amount cell's value in hundredths, where it is a valid amount within
/// range.
pub open spec fn amount_of(s: Seq<char>) -> Option<int> {
    match amount_value(s) {
        Some(v) => if v <= MAX_AMOUNT {
            Some(v)
        } else {
            None
        },
        None => None,
    }
}

/// The data row `cells` is kept: it is a tipped shift.
pub open spec fn kept(cells: Seq<Seq<char>>, c: Columns) -> bool {
    role_of(cells[c.role as int]) is Some
}

/// The data row `cells` can be read: it is wide enough, and a tipped shift
/// holds amounts in its duration and pay columns.
pub open spec fn row_readable(cells: Seq<Seq<char>>, c: Columns) -> bool {
    &&& widest(c) < cells.len()
    &&& kept(cells, c) ==> amount_of(cells[c.duration as int]) is Some && amount_of(
        cells[c.total_pay as int],
    ) is Some
}

/// `rec` is the shift that the kept data row `cells` records.
pub open spec fn record_from(rec: ShiftRecord, cells: Seq<Seq<char>>, c: Columns) -> bool {
    &&& rec.employee@ == cells[c.employee as int]
    &&& rec.payroll_id@ == cells[c.payroll_id as int]
    &&& role_of(cells[c.role as int]) == Some(rec.role)
    &&& amount_of(cells[c.duration as int]) == Some(rec.duration as int)
    &&& amount_of(cells[c.total_pay as int]) == Some(rec.total_pay as int)
}

/// The kept data rows, in order.
pub open spec fn kept_rows(rows: Seq<Seq<Seq<char>>>, c: Columns) -> Seq<Seq<Seq<char>>>
    decreases rows.len(),
{
    if rows.len() == 0 {
        Seq::empty()
    } else {
        let rest = kept_rows(rows.drop_last(), c);
        if kept(rows.last(), c) {
            rest.push(rows.last())
        } else {
            rest
        }
    }
}

/// `recs` are the shifts that the data rows `rows` record.
pub open spec fn records_from(recs: Seq<ShiftRecord>, rows: Seq<Seq<Seq<char>>>, c: Columns) -> bool {
    &&& recs.len() == kept_rows(rows, c).len()
    &&& forall|i: int| 0 <= i < recs.len() ==> record_from(#[trigger] recs[i], kept_rows(rows, c)[i], c)
}

/// `recs` are the shifts that the labor export `b` records: the shift table
/// is found, read, holds the needed columns, and every data row is readable.
pub open spec fn export_records(b: Seq<u8>, recs: Seq<ShiftRecord>) -> bool {
    &&& valid_utf8(b)
    &&& exists|start: int, end: int, t: Seq<Seq<Seq<char>>>, c: Columns|
        {
            &&& shift_table_bounds(b, start, end)
            &&& csv_records_of(b.subrange(start, end)) == Some(t)
            &&& t.len() >= 1
            &&& columns_of(t[0], c)
            &&& forall|k: int| 1 <= k < t.len() ==> row_readable(#[trigger] t[k], c)
            &&& records_from(recs, t.drop_first(), c)
        }
}

/// Why the labor export `b` is refused with `e`.
pub open spec fn export_refused(b: Seq<u8>, e: ParseError) -> bool {
    if e is NotUtf8 {
        !valid_utf8(b)
    } else {
        valid_utf8(b) && table_refused(b, e)
    }
}

/// Why the UTF-8 labor export `b` is refused with `e`.
pub open spec fn table_refused(b: Seq<u8>, e: ParseError) -> bool {
    match e {
        ParseError::NotUtf8 => false,
        ParseError::MissingShiftsMarker => forall|k: int|
            0 <= k ==> !line_marker_at(b, shifts_marker(), k),
        ParseError::MissingBreaksMarker => exists|i: int|
            first_line_marker(b, shifts_marker(), 0, i) && forall|k: int|
                i + shifts_marker().len() <= k ==> !line_marker_at(b, breaks_marker(), k),
        ParseError::MalformedTable => exists|start: int, end: int|
            {
                &&& shift_table_bounds(b, start, end)
                &&& match csv_records_of(b.subrange(start, end)) {
                    None => true,
                    Some(t) => t.len() == 0 || exists|c: Columns, k: int|
                        columns_of(t[0], c) && 1 <= k < t.len() && widest(c) >= t[k].len(),
                }
            },
        ParseError::MissingColumn { column } => exists|
            start: int,
            end: int,
            t: Seq<Seq<Seq<char>>>,
        |
            {
                &&& shift_table_bounds(b, start, end)
                &&& csv_records_of(b.subrange(start, end)) == Some(t)
                &&& t.len() >= 1
                &&& forall|k: int| 0 <= k < t[0].len() ==> t[0][k] != column@
            },
        ParseError::NotANumber { row, column } => exists|
            start: int,
            end: int,
            t: Seq<Seq<Seq<char>>>,
            c: Columns,
        |
            {
                &&& shift_table_bounds(b, start, end)
                &&& csv_records_of(b.subrange(start, end)) == Some(t)
                &&& columns_of(t[0], c)
                &&& 1 <= row + 1 < t.len()
                &&& widest(c) < t[row + 1].len()
                &&& kept(t[row + 1], c)
                &&& ((column@ == "Duration (hrs)"@ && amount_of(t[row + 1][c.duration as int])
                    is None) || (column@ == "Total Pay ($)"@ && amount_of(
                    t[row + 1][c.total_pay as int],
                ) is None))
            },
    }
}

/// Relies on `std::str::from_utf8`, which accepts exactly the byte strings
/// that are valid UTF-8.
#[verifier::external_body]
fn is_utf8(b: &[u8]) -> (r: bool)
    ensures
        r == valid_utf8(b@),
{
    std::str::from_utf8(b).is_ok()
}

fn marker(shifts: bool) -> (r: Vec<u8>)
    ensures
        r@ == if shifts {
            shifts_marker()
        } else {
            breaks_marker()
        },
{
    let mut v: Vec<u8> = Vec::new();
    v.push(34);
    if shifts {
        v.push(83);
        v.push(104);
        v.push(105);
        v.push(102);
        v.push(116);
        v.push(115);
        v.push(34);
        v.push(10);
        assert(v@ =~= shifts_marker());
    } else {
        v.push(66);
        v.push(114);
        v.push(101);
        v.push(97);
        v.push(107);
        v.push(115);
        assert(v@ =~= breaks_marker());
    }
    v
}

fn marker_at(b: &[u8], pat: &Vec<u8>, i: usize) -> (r: bool)
    requires
        i <= b@.len(),
    ensures
        r == line_marker_at(b@, pat@, i as int),
{
    if pat.len() > b.len() - i {
        return false;
    }
    if i > 0 && b[i - 1] != 10 {
        return false;
    }
    for k in 0..pat.len()
        invariant
            i + pat@.len() <= b@.len(),
            i + pat.len() <= b.len(),
            forall|m: int| 0 <= m < k ==> b@[i + m] == pat@[m],
    {
        if b[i + k] != pat[k] {
            assert(b@.subrange(i as int, i + pat@.len())[k as int] != pat@[k as int]);
            return false;
        }
    }
    assert(b@.subrange(i as int, i + pat@.len()) =~= pat@);
    true
}

fn find_line_marker(b: &[u8], pat: &Vec<u8>, from: usize) -> (r: Option<usize>)
    requires
        from <= b@.len(),
    ensures
        match r {
            Some(i) => first_line_marker(b@, pat@, from as int, i as int),
            None => forall|k: int| from <= k ==> !line_marker_at(b@, pat@, k),
        },
{
    let mut i = from;
    while i <= b.len()
        invariant
            from <= i,
            forall|k: int| from <= k < i ==> !line_marker_at(b@, pat@, k),
        decreases b@.len() + 1 - i,
    {
        if marker_at(b, pat, i) {
            return Some(i);
        }
        if i == b.len() {
            assert forall|k: int| from <= k implies !line_marker_at(b@, pat@, k) by {
                if k > i {
                    assert(!(k + pat@.len() <= b@.len()));
                }
            }
            return None;
        }
        i = i + 1;
    }
    assert forall|k: int| from <= k implies !line_marker_at(b@, pat@, k) by {
        if k >= i {
            assert(!(k + pat@.len() <= b@.len()));
        }
    }
    None
}

pub(crate) fn find_column(header: &Vec<String>, name: &str) -> (r: Option<usize>)
    ensures
        match r {
            Some(j) => first_column(header@.map_values(|c: String| c@), name@, j as int),
            None => forall|k: int| 0 <= k < header.len() ==> header@[k]@ != name@,
        },
{
    let target = String::from_str(name);
    for j in 0..header.len()
        invariant
            target@ == name@,
            forall|k: int| 0 <= k < j ==> header@[k]@ != name@,
    {
        if header[j] == target {
            return Some(j);
        }
    }
    None
}

fn parse_role(s: &String) -> (r: Option<Role>)
    ensures
        r == role_of(s@),
{
    if *s == String::from_str("Server") {
        Some(Role::Server)
    } else if *s == String::from_str("Bartender") {
        Some(Role::Bartender)
    } else if *s == String::from_str("Steward") {
        Some(Role::Steward)
    } else {
        None
    }
}

fn missing(name: &str) -> (r: ParseError)
    ensures
        r matches ParseError::MissingColumn { column } && column@ == name@,
{
    ParseError::MissingColumn { column: String::from_str(name) }
}

/// Locates the five columns that the allocation reads in the header row.
pub fn columns(header: &Vec<String>) -> (r: Result<Columns, ParseError>)
    ensures
        match r {
            Ok(c) => columns_of(header@.map_values(|c: String| c@), c),
            Err(ParseError::MissingColumn { column }) => forall|k: int|
                0 <= k < header.len() ==> header@[k]@ != column@,
            Err(_) => false,
        },
{
    let employee = match find_column(header, "Employee") {
        Some(j) => j,
        None => return Err(missing("Employee")),
    };
    let payroll_id = match find_column(header, "Payroll Id") {
        Some(j) => j,
        None => return Err(missing("Payroll Id")),
    };
    let role = match find_column(header, "Role") {
        Some(j) => j,
        None => return Err(missing("Role")),
    };
    let duration = match find_column(header, "Duration (hrs)") {
        Some(j) => j,
        None => return Err(missing("Duration (hrs)")),
    };
    let total_pay = match find_column(header, "Total Pay ($)") {
        Some(j) => j,
        None => return Err(missing("Total Pay ($)")),
    };
    Ok(Columns { employee, payroll_id, role, duration, total_pay })
}

/// Reads the shift table of a labor export: the text between the line
/// `"Shifts"` and the next line starting with `"Breaks`. Keeps the shifts of
/// the tipped roles (Server, Bartender, Steward), in order, with their
/// duration and pay read as amounts.
pub fn transform(bytes: &[u8]) -> (r: Result<Vec<ShiftRecord>, ParseError>)
    ensures
        match r {
            Ok(recs) => amounts_in_range(recs@) && export_records(bytes@, recs@),
            Err(e) => export_refused(bytes@, e),
        },
{
    if !is_utf8(bytes) {
        return Err(ParseError::NotUtf8);
    }
    let shifts = marker(true);
    let breaks = marker(false);
    let open = match find_line_marker(bytes, &shifts, 0) {
        Some(i) => i,
        None => return Err(ParseError::MissingShiftsMarker),
    };
    let blen = bytes.len();
    assert(open + shifts@.len() <= blen);
    let start = open + shifts.len();
    let end = match find_line_marker(bytes, &breaks, start) {
        Some(j) => j,
        None => return Err(ParseError::MissingBreaksMarker),
    };
    let table = slice_subrange(bytes, start, end);
    assert(shift_table_bounds(bytes@, start as int, end as int));
    assert(table@ == bytes@.subrange(start as int, end as int));
    let rows = match read_records(table) {
        Ok(t) => t,
        Err(_) => return Err(ParseError::MalformedTable),
    };
    let ghost t = table_view(rows@);
    if rows.len() == 0 {
        return Err(ParseError::MalformedTable);
    }
    assert(rows@[0]@.map_values(|c: String| c@) == t[0]);
    let c = match columns(&rows[0]) {
        Ok(c) => c,
        Err(e) => {
            assert(csv_records_of(bytes@.subrange(start as int, end as int)) == Some(t));
            proof {
                if e is MissingColumn {
                    let column = e->MissingColumn_column;
                    assert forall|k: int| 0 <= k < t[0].len() implies t[0][k] != column@ by {
                        assert(t[0][k] == rows@[0]@[k]@);
                    }
                    assert({
                        &&& shift_table_bounds(bytes@, start as int, end as int)
                        &&& csv_records_of(bytes@.subrange(start as int, end as int)) == Some(t)
                        &&& t.len() >= 1
                        &&& forall|k: int| 0 <= k < t[0].len() ==> t[0][k] != column@
                    });
                }
            }
            return Err(e);
        },
    };
    let mut recs: Vec<ShiftRecord> = Vec::new();
    let mut k: usize = 1;
    while k < rows.len()
        invariant
            1 <= k <= rows.len(),
            t == table_view(rows@),
            columns_of(t[0], c),
            valid_utf8(bytes@),
            shift_table_bounds(bytes@, start as int, end as int),
            csv_records_of(bytes@.subrange(start as int, end as int)) == Some(t),
            forall|m: int| 1 <= m < k ==> row_readable(#[trigger] t[m], c),
            amounts_in_range(recs@),
            records_from(recs@, t.drop_first().take(k - 1), c),
        decreases rows.len() - k,
    {
        let cells = &rows[k];
        let ghost cv = t[k as int];
        assert(cv == cells@.map_values(|c: String| c@));
        let ghost prefix = t.drop_first().take(k as int);
        assert(prefix.drop_last() =~= t.drop_first().take(k - 1));
        assert(prefix.last() == cv);
        let w = if c.employee > c.payroll_id {
            c.employee
        } else {
            c.payroll_id
        };
        let w = if w > c.role {
            w
        } else {
            c.role
        };
        let w = if w > c.duration {
            w
        } else {
            c.duration
        };
        let w = if w > c.total_pay {
            w
        } else {
            c.total_pay
        };
        if w >= cells.len() {
            assert(w == widest(c));
            assert(csv_records_of(bytes@.subrange(start as int, end as int)) == Some(t));
            assert(columns_of(t[0], c) && 1 <= k < t.len() && widest(c) >= t[k as int].len());
            return Err(ParseError::MalformedTable);
        }
        assert(w == widest(c));
        let ghost before = recs@;
        let ghost prev = t.drop_first().take(k - 1);
        assert(cv[c.role as int] == cells@[c.role as int]@);
        assert(cv[c.employee as int] == cells@[c.employee as int]@);
        assert(cv[c.payroll_id as int] == cells@[c.payroll_id as int]@);
        assert(cv[c.duration as int] == cells@[c.duration as int]@);
        assert(cv[c.total_pay as int] == cells@[c.total_pay as int]@);
        match parse_role(&cells[c.role]) {
            None => {
                assert(kept_rows(prefix, c) == kept_rows(prev, c));
            },
            Some(role) => {
                let duration = match parse_amount(cells[c.duration].as_str()) {
                    Some(v) => v,
                    None => {
                        assert(csv_records_of(bytes@.subrange(start as int, end as int)) == Some(t));
                        return Err(
                            ParseError::NotANumber {
                                row: k - 1,
                                column: String::from_str("Duration (hrs)"),
                            },
                        );
                    },
                };
                let total_pay = match parse_amount(cells[c.total_pay].as_str()) {
                    Some(v) => v,
                    None => {
                        assert(csv_records_of(bytes@.subrange(start as int, end as int)) == Some(t));
                        return Err(
                            ParseError::NotANumber {
                                row: k - 1,
                                column: String::from_str("Total Pay ($)"),
                            },
                        );
                    },
                };
                recs.push(
                    ShiftRecord {
                        employee: cells[c.employee].clone(),
                        payroll_id: cells[c.payroll_id].clone(),
                        role,
                        duration,
                        total_pay,
                    },
                );
                assert(kept_rows(prefix, c) == kept_rows(prev, c).push(cv));
                assert forall|i: int| 0 <= i < recs@.len() implies record_from(
                    #[trigger] recs@[i],
                    kept_rows(prefix, c)[i],
                    c,
                ) by {
                    if i < before.len() {
                        assert(recs@[i] == before[i]);
                        assert(kept_rows(prefix, c)[i] == kept_rows(prev, c)[i]);
                    }
                }
            },
        }
        assert(row_readable(t[k as int], c));
        assert(records_from(recs@, prefix, c));
        k = k + 1;
    }
    assert(t.drop_first().take(rows.len() - 1) =~= t.drop_first());
    assert(table@ == bytes@.subrange(start as int, end as int));
    assert(shift_table_bounds(bytes@, start as int, end as int));
    assert(csv_records_of(bytes@.subrange(start as int, end as int)) == Some(t));
    assert(records_from(recs@, t.drop_first(), c));
    Ok(recs)
}

} // verus!
