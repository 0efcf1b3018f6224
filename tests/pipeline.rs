use tip_pool::dates::{date_to_string, parse_report_date};
use tip_pool::generate::{generate, read_csv, CalculationError};
use tip_pool::ingest::{transform, ParseError};
use tip_pool::records::{LaborReportUpload, ReportDate, Role};
use tip_pool::roster::{commission_ids, read_import_csv, CommissionForCreate};
use tip_pool::text::{cents_to_string, int_to_string, parse_amount, parse_id};
use tip_pool::validate::{
    has_unique_elements, StaffMemberForCreate, ValidationError,
};

const HEADER: &str = "Employee,Payroll Id,Role,Type,Time In,Time Out,Duration (hrs),Total Pay ($),Declared Tips ($),External Source\n";

fn export(lines: &[&str]) -> Vec<u8> {
    let mut text = String::from("\"Summary\"\nsomething,else\n\"Shifts\"\n");
    text.push_str(HEADER);
    for l in lines {
        text.push_str(l);
        text.push('\n');
    }
    text.push_str("\"Breaks\"\nEmployee,Start,End\nAnn,1,2\n");
    text.into_bytes()
}

fn scenario_export() -> Vec<u8> {
    export(&[
        "Server A,11,Server,Regular,5:00 PM,9:00 PM,4.00,40.00,0,",
        "Host,14,Host,Regular,5:00 PM,8:00 PM,3.00,30.00,0,",
        "Server B,12,Server,Regular,4:00 PM,10:00 PM,6,60,0,",
        "Steward,13,Steward,Regular,5:00 PM,10:00 PM,5.0,50.00,0,",
    ])
}

fn member(name: &str, card: &str, eid: i32) -> StaffMemberForCreate {
    StaffMemberForCreate { name: name.to_string(), card_id: card.to_string(), eid }
}

fn roster() -> Vec<StaffMemberForCreate> {
    vec![
        member("Server A", "CARD-A", 1),
        member("Server B", "CARD-B", 2),
        member("Steward", "CARD-S", 3),
    ]
}

fn upload() -> LaborReportUpload {
    LaborReportUpload {
        date: ReportDate { year: 2024, month: 6, day: 6 },
        total_sales: 100_000,
        go_tab_tips: 5_000,
        cash_tips: 10_000,
        data_csv_link: String::new(),
        template_csv_link: String::new(),
    }
}

#[test]
fn export_keeps_tipped_shifts() {
    let recs = transform(&scenario_export()).unwrap();
    assert_eq!(recs.len(), 3);
    assert_eq!(recs[0].employee, "Server A");
    assert_eq!(recs[0].payroll_id, "11");
    assert_eq!(recs[0].role, Role::Server);
    assert_eq!(recs[0].duration, 400);
    assert_eq!(recs[0].total_pay, 4_000);
    assert_eq!(recs[1].employee, "Server B");
    assert_eq!(recs[1].duration, 600);
    assert_eq!(recs[2].role, Role::Steward);
    assert_eq!(recs[2].duration, 500);
}

#[test]
fn export_without_markers() {
    assert!(matches!(transform(b"Employee,Role\n"), Err(ParseError::MissingShiftsMarker)));
    let text = format!("\"Shifts\"\n{}Ann,1,Server,R,a,b,1,1,0,\n", HEADER);
    assert!(matches!(transform(text.as_bytes()), Err(ParseError::MissingBreaksMarker)));
}

#[test]
fn export_that_is_not_utf8() {
    let mut bytes = scenario_export();
    bytes.push(0xff);
    assert!(matches!(transform(&bytes), Err(ParseError::NotUtf8)));
}

#[test]
fn export_with_bad_number() {
    let bytes = export(&["Ann,1,Server,Regular,a,b,four,40.00,0,"]);
    match transform(&bytes) {
        Err(ParseError::NotANumber { row, column }) => {
            assert_eq!(row, 0);
            assert_eq!(column, "Duration (hrs)");
        }
        other => panic!("unexpected {:?}", other),
    }
    // A non-tipped shift is not read at all.
    let bytes = export(&["Ann,1,Host,Regular,a,b,four,forty,0,"]);
    assert_eq!(transform(&bytes).unwrap().len(), 0);
}

#[test]
fn export_missing_column() {
    let text = "\"Shifts\"\nEmployee,Payroll Id,Role,Duration (hrs)\nAnn,1,Server,4\n\"Breaks\"\n";
    match transform(text.as_bytes()) {
        Err(ParseError::MissingColumn { column }) => assert_eq!(column, "Total Pay ($)"),
        other => panic!("unexpected {:?}", other),
    }
}

#[test]
fn export_with_ragged_rows() {
    let text = format!("\"Shifts\"\n{}Ann,1,Server\n\"Breaks\"\n", HEADER);
    assert!(matches!(transform(text.as_bytes()), Err(ParseError::MalformedTable)));
}

#[test]
fn amounts_parse_to_hundredths() {
    assert_eq!(parse_amount("4"), Some(400));
    assert_eq!(parse_amount("4.5"), Some(450));
    assert_eq!(parse_amount("40.25"), Some(4_025));
    assert_eq!(parse_amount("100000.00"), Some(10_000_000));
    assert_eq!(parse_amount("100000.01"), None);
    assert_eq!(parse_amount("4.333"), None);
    assert_eq!(parse_amount(".5"), None);
    assert_eq!(parse_amount("-4"), None);
    assert_eq!(parse_amount(""), None);
}

#[test]
fn ids_parse() {
    assert_eq!(parse_id("17"), Some(17));
    assert_eq!(parse_id("-3"), Some(-3));
    assert_eq!(parse_id("x"), None);
    assert_eq!(parse_id("+5"), Some(5));
    assert_eq!(parse_id("2147483647"), Some(i32::MAX));
    assert_eq!(parse_id("-2147483648"), Some(i32::MIN));
    assert_eq!(parse_id("2147483648"), None);
    assert_eq!(parse_id("12345678901"), None);
    assert_eq!(parse_id("+"), None);
    let c = CommissionForCreate { eid: "12".to_string(), product_id: "345".to_string() };
    assert_eq!(commission_ids(&c), Some((12, 345)));
    let c = CommissionForCreate { eid: "12".to_string(), product_id: "wine".to_string() };
    assert_eq!(commission_ids(&c), None);
}

#[test]
fn numbers_are_written() {
    assert_eq!(cents_to_string(1_234), "12.34");
    assert_eq!(cents_to_string(-5), "-0.05");
    assert_eq!(cents_to_string(15_000), "150.00");
    assert_eq!(int_to_string(-42), "-42");
    assert_eq!(int_to_string(7), "7");
}

#[test]
fn dates_are_read_and_written() {
    let d = parse_report_date("2024-06-06").unwrap();
    assert_eq!(d, ReportDate { year: 2024, month: 6, day: 6 });
    assert_eq!(date_to_string(d), "2024-06-06");
    assert_eq!(date_to_string(ReportDate { year: 987, month: 1, day: 2 }), "0987-01-02");
    assert_eq!(parse_report_date("2024-13-01"), None);
    assert_eq!(parse_report_date("yesterday"), None);
}

#[test]
fn unique_names_are_detected() {
    let names = vec!["a".to_string(), "b".to_string()];
    assert!(has_unique_elements(&names));
    let names = vec!["a".to_string(), "b".to_string(), "a".to_string()];
    assert!(!has_unique_elements(&names));
}

#[test]
fn full_night() {
    let out = read_csv(&upload(), &scenario_export(), &roster()).unwrap();
    assert_eq!(out.data_filename, "2024-06-06_tip_pool_calculations.csv");
    assert_eq!(out.template_filename, "2024-06-06_rapidpay_upload_template.csv");
    assert_eq!(out.summary.total_tips, 15_000);
    assert_eq!(out.tips.len(), 3);
    assert_eq!(out.tips[0].employee, "Server A");
    assert_eq!(out.tips[0].card_id, "CARD-A");
    assert_eq!(out.tips[0].eid, 1);
    assert_eq!(out.tips[2].employee, "Steward");
    let template = String::from_utf8(out.template_csv).unwrap();
    let lines: Vec<&str> = template.lines().collect();
    assert_eq!(
        lines[0],
        "Funding Card ID,Funding Card Passcode,Reserved1,Cardholder Account,Amount,Reserved2,Reserved3,Reserved4,Reference"
    );
    assert_eq!(lines[1], "4845607938,4047,,CARD-A,50.00,,,,2024-06-06");
    assert_eq!(lines[2], "4845607938,4047,,CARD-B,75.00,,,,2024-06-06");
    assert_eq!(lines[3], "4845607938,4047,,CARD-S,25.00,,,,2024-06-06");
    let data = String::from_utf8(out.data_csv).unwrap();
    let lines: Vec<&str> = data.lines().collect();
    assert_eq!(lines.len(), 4);
    assert_eq!(
        lines[1],
        "Server A,11,Server,4.00,40.00,0.40,60.00,400.00,10.00,0.00,0.00,50.00,90.00,22.50,CARD-A,1,2024-06-06"
    );
}

#[test]
fn cardholder_missing_from_roster() {
    let roster = vec![member("Server A", "CARD-A", 1), member("Steward", "CARD-S", 3)];
    match read_csv(&upload(), &scenario_export(), &roster) {
        Err(CalculationError::Validation(ValidationError::NotACardholder { employee })) => {
            assert_eq!(employee, "Server B")
        }
        other => panic!("unexpected {:?}", other.map(|o| o.data_filename)),
    }
}

#[test]
fn duplicate_timekeeper() {
    let bytes = export(&[
        "Server A,11,Server,Regular,a,b,4.00,40.00,0,",
        "Server A,11,Bartender,Regular,a,b,2.00,20.00,0,",
        "Steward,13,Steward,Regular,a,b,5.00,50.00,0,",
    ]);
    match read_csv(&upload(), &bytes, &roster()) {
        Err(CalculationError::Validation(ValidationError::DuplicateTimekeeper { employee })) => {
            assert_eq!(employee, "Server A")
        }
        other => panic!("unexpected {:?}", other.map(|o| o.data_filename)),
    }
}

#[test]
fn generate_needs_every_cardholder() {
    let recs = transform(&scenario_export()).unwrap();
    let rows = tip_pool::allocate::compute(&upload(), &recs).unwrap();
    let roster = vec![member("Server B", "CARD-B", 2)];
    assert!(matches!(
        generate(&rows, &roster, upload().date),
        Err(CalculationError::Validation(ValidationError::NotACardholder { .. }))
    ));
}

#[test]
fn staff_import_is_read() {
    let staff = read_import_csv(b"name,card_id,eid\nAnn,C-1,7\nBob,C-2,8\n").unwrap();
    assert_eq!(staff.len(), 2);
    assert_eq!(staff[0].name, "Ann");
    assert_eq!(staff[0].card_id, "C-1");
    assert_eq!(staff[1].eid, 8);
    assert!(matches!(
        read_import_csv(b"name,card\nAnn,C-1\n"),
        Err(ParseError::MissingColumn { .. })
    ));
    assert!(matches!(
        read_import_csv(b"name,card_id,eid\nAnn,C-1,seven\n"),
        Err(ParseError::NotANumber { row: 0, .. })
    ));
}
