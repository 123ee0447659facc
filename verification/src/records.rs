//! Event records: the structured form of one CSV row.
//!
//! The CSV text itself is parsed by the `csv` crate behind one trusted
//! wrapper; everything after that — the five-field check, the record
//! construction, the error taxonomy — is verified.

use vstd::prelude::*;

verus! {

/// One surveillance event, read from one CSV row. The five fields are
/// positional; a row may carry more, the rest is ignored.
#[derive(Clone, Debug)]
pub struct EventRecord {
    pub datetime: String,
    pub description: String,
    pub event_id: String,
    pub monitor: String,
    pub media_filename: String,
}

/// The mathematical shape of an event record.
pub struct EventRecordV {
    pub datetime: Seq<char>,
    pub description: Seq<char>,
    pub event_id: Seq<char>,
    pub monitor: Seq<char>,
    pub media_filename: Seq<char>,
}

impl View for EventRecord {
    type V = EventRecordV;

    open spec fn view(&self) -> EventRecordV {
        EventRecordV {
            datetime: self.datetime@,
            description: self.description@,
            event_id: self.event_id@,
            monitor: self.monitor@,
            media_filename: self.media_filename@,
        }
    }
}

/// Why a CSV log could not be loaded.
#[derive(Clone, Copy, PartialEq, Eq, Debug)]
pub enum LoadError {
    /// The bytes are not CSV the parser can read at all.
    Unreadable,
    /// The row at this index has fewer than five fields.
    MalformedRow(usize),
}

/// What the `csv` crate reads out of the given bytes: the field texts of
/// every row in order, or nothing when the bytes cannot be read as CSV.
pub uninterp spec fn csv_rows_of(data: Seq<u8>) -> Option<Seq<Seq<Seq<char>>>>;

/// Relies on csv::ReaderBuilder / csv::Reader::records (headers off,
/// flexible field counts): parsing CSV from in-memory bytes is a function
/// of the bytes alone; every row is yielded in order, or an error surfaces.
#[verifier::external_body]
fn parse_csv(data: &[u8]) -> (r: Option<Vec<Vec<String>>>)
    ensures
        match r {
            Some(rows) => csv_rows_of(data@) matches Some(m) && rows@.len() == m.len() && (forall|
                i: int,
            |
                0 <= i < m.len() ==> #[trigger] rows@[i]@.len() == m[i].len()) && (forall|
                i: int,
                k: int,
            |
                0 <= i < m.len() && 0 <= k < m[i].len() ==> #[trigger] rows@[i]@[k]@ == m[i][k]),
            None => csv_rows_of(data@) is None,
        },
{
    let mut reader = csv::ReaderBuilder::new().has_headers(false).flexible(true).from_reader(data);
    let mut out: Vec<Vec<String>> = Vec::new();
    for record in reader.records() {
        match record {
            Ok(fields) => out.push(fields.iter().map(|f| f.to_string()).collect()),
            Err(_) => return None,
        }
    }
    Some(out)
}

/// A row holds at least the five required fields.
pub open spec fn row_wide(row: Seq<Seq<char>>) -> bool {
    row.len() >= 5
}

/// Every row holds at least the five required fields.
pub open spec fn all_rows_wide(rows: Seq<Seq<Seq<char>>>) -> bool {
    forall|i: int| 0 <= i < rows.len() ==> row_wide(#[trigger] rows[i])
}

/// The record a wide row denotes.
pub open spec fn record_of_row(row: Seq<Seq<char>>) -> EventRecordV {
    EventRecordV {
        datetime: row[0],
        description: row[1],
        event_id: row[2],
        monitor: row[3],
        media_filename: row[4],
    }
}

/// The records a sequence of wide rows denotes.
pub open spec fn records_of(rows: Seq<Seq<Seq<char>>>) -> Seq<EventRecordV> {
    Seq::new(rows.len(), |i: int| record_of_row(rows[i]))
}

/// The views of a sequence of records.
pub open spec fn views_of(recs: Seq<EventRecord>) -> Seq<EventRecordV> {
    Seq::new(recs.len(), |i: int| recs[i]@)
}

/// Turn raw CSV rows into event records. Succeeds exactly when every row
/// has at least five fields; otherwise reports the first row that is short.
pub fn records_from_rows(rows: &Vec<Vec<String>>) -> (r: Result<Vec<EventRecord>, LoadError>)
    ensures
        match r {
            Ok(recs) => all_rows_wide(rows.deep_view()) && views_of(recs@) == records_of(
                rows.deep_view(),
            ),
            Err(e) => e matches LoadError::MalformedRow(j) && j < rows@.len() && !row_wide(
                rows.deep_view()[j as int],
            ) && (forall|k: int| 0 <= k < j ==> row_wide(#[trigger] rows.deep_view()[k])),
        },
{
    let ghost rv = rows.deep_view();
    proof {
        assert forall|i: int| 0 <= i < rv.len() implies #[trigger] rv[i] == rows@[i].deep_view()
        by {}
    }
    let mut recs: Vec<EventRecord> = Vec::new();
    let mut idx: usize = 0;
    while idx < rows.len()
        invariant
            rv == rows.deep_view(),
            rv.len() == rows@.len(),
            forall|i: int| 0 <= i < rv.len() ==> #[trigger] rv[i] == rows@[i].deep_view(),
            idx <= rows@.len(),
            recs@.len() == idx,
            forall|k: int| 0 <= k < idx ==> row_wide(#[trigger] rv[k]),
            forall|k: int| 0 <= k < idx ==> #[trigger] recs@[k]@ == record_of_row(rv[k]),
        decreases rows@.len() - idx,
    {
        let row = &rows[idx];
        if row.len() < 5 {
            proof {
                assert(rv[idx as int].len() == row@.len());
            }
            return Err(LoadError::MalformedRow(idx));
        }
        let rec = EventRecord {
            datetime: row[0].clone(),
            description: row[1].clone(),
            event_id: row[2].clone(),
            monitor: row[3].clone(),
            media_filename: row[4].clone(),
        };
        proof {
            assert(rv[idx as int].len() == row@.len());
            assert forall|k: int| 0 <= k < row@.len() implies #[trigger] rv[idx as int][k]
                == row@[k]@ by {}
            assert(rec@ == record_of_row(rv[idx as int]));
        }
        recs.push(rec);
        idx += 1;
    }
    proof {
        assert(views_of(recs@) =~= records_of(rv));
    }
    Ok(recs)
}

/// Load the event records out of raw CSV bytes. Succeeds exactly when the
/// bytes are readable CSV and every row has at least five fields.
pub fn load_records(csv_data: &[u8]) -> (r: Result<Vec<EventRecord>, LoadError>)
    ensures
        match r {
            Ok(recs) => csv_rows_of(csv_data@) matches Some(rows) && all_rows_wide(rows)
                && views_of(recs@) == records_of(rows),
            Err(e) => {
                ||| (e matches LoadError::Unreadable && csv_rows_of(csv_data@) is None)
                ||| (e matches LoadError::MalformedRow(j) && csv_rows_of(csv_data@) matches Some(
                    rows,
                ) && j < rows.len() && !row_wide(rows[j as int]) && (forall|k: int|
                    0 <= k < j ==> row_wide(#[trigger] rows[k])))
            },
        },
{
    match parse_csv(csv_data) {
        None => Err(LoadError::Unreadable),
        Some(rows) => {
            proof {
                let m = csv_rows_of(csv_data@)->Some_0;
                assert forall|i: int| 0 <= i < m.len() implies #[trigger] rows.deep_view()[i]
                    =~= m[i] by {
                    assert(rows@[i].deep_view().len() == m[i].len());
                    assert forall|k: int| 0 <= k < m[i].len() implies #[trigger] rows@[
                        i
                    ].deep_view()[k] == m[i][k] by {}
                }
                assert(rows.deep_view() =~= m);
            }
            records_from_rows(&rows)
        },
    }
}

} // verus!
