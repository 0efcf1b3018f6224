use vstd::prelude::*;

verus! {

#[verifier::external_type_specification]
#[verifier::external_body]
pub struct ExCsvError(csv::Error);

/// A table of text cells, as sequences of characters.
pub open spec fn table_view(t: Seq<Vec<String>>) -> Seq<Seq<Seq<char>>> {
    t.map_values(|row: Vec<String>| row@.map_values(|c: String| c@))
}

/// The records that the csv crate reads from `b`, every line a record
/// (none set apart as a header), or `None` where it refuses `b`.
pub uninterp spec fn csv_records_of(b: Seq<u8>) -> Option<Seq<Seq<Seq<char>>>>;

/// The bytes that the csv crate writes for the records `t`, or `None` where
/// it refuses them.
pub uninterp spec fn csv_text_of(t: Seq<Seq<Seq<char>>>) -> Option<Seq<u8>>;

/// Relies on csv's `ReaderBuilder` (with headers off) and `Reader::records`:
/// the records of `b`, each as its fields.
#[verifier::external_body]
pub(crate) fn read_records(b: &[u8]) -> (r: Result<Vec<Vec<String>>, csv::Error>)
    ensures
        match r {
            Ok(t) => csv_records_of(b@) == Some(table_view(t@)),
            Err(_) => csv_records_of(b@) is None,
        },
{
    let mut reader = csv::ReaderBuilder::new().has_headers(false).from_reader(b);
    let mut out = Vec::new();
    for record in reader.records() {
        out.push(record?.iter().map(|f| f.to_string()).collect());
    }
    Ok(out)
}

/// Relies on csv's `Writer::write_record` and `Writer::into_inner`: the
/// delimited text of the records `t`. Written into a `Vec`, which takes every
/// write, the writer refuses records only for unequal lengths.
#[verifier::external_body]
pub(crate) fn write_records(t: &Vec<Vec<String>>) -> (r: Result<Vec<u8>, csv::Error>)
    ensures
        match r {
            Ok(b) => csv_text_of(table_view(t@)) == Some(b@),
            Err(_) => csv_text_of(table_view(t@)) is None,
        },
        (forall|i: int, j: int|
            0 <= i < t.len() && 0 <= j < t.len() ==> t@[i].len() == t@[j].len()) ==> r is Ok,
{
    let mut writer = csv::Writer::from_writer(Vec::new());
    for row in t {
        writer.write_record(row)?;
    }
    writer.into_inner().map_err(|e| e.into_error().into())
}

} // verus!
