//! The whole pipeline: CSV bytes in, three page texts out.

use zmreport::pages::build_report;
use zmreport::records::load_records;
use zmreport::records::LoadError;

const TABLE_TEMPLATE: &str = "
<!DOCTYPE html>
<html lang=\"en\">
<head>
    <meta charset=\"UTF-8\">
    <meta name=\"viewport\" content=\"width=device-width, initial-scale=1.0\">
    <title>Video Evidence of {current_dir}</title>
    <link rel=\"stylesheet\" href=\"style.css\">
</head>
<body>

<h2>Video Evidence of {current_dir}</h2>
<p>Below is a list of evidence that proves the violation:</p>

<p>Click the blue link to View Video. Or, </p>

<p><a href=\"{current_dir}-all-videos.html\">View all videos on a single scrolling page</a></p>

<table>
  <thead>
    <tr>
      <th>Datetime</th>
      <th>Description</th>
      <th>Event ID</th>
      <th>Monitor</th>
      <th>Video File</th>
    </tr>
  </thead>
  <tbody>
    {table_rows}
  </tbody>
</table>

<p><a href=\"{current_dir}-all-videos.html\">View all videos on a single page</a></p>

</body>
</html>
";

#[test]
fn report_fills_both_templates() {
    let csv = b"2024-01-15 21:05:00,Motion detected,42,FrontDoor,clip1.webp\n";
    let pages = build_report(csv, "lot7", &None).unwrap();
    let row = "<tr><td>2024-01-15 21:05:00</td><td>Motion detected <strong style='color: red;'>AFTER PERMITTED HOURS</strong></td><td>42</td><td>FrontDoor</td><td><a href='clip1.webm' target='_blank'>View Video</a></td></tr>\n";
    let expected = TABLE_TEMPLATE
        .replace("{current_dir}", "lot7")
        .replace("{table_rows}", row);
    assert_eq!(pages.zmdata, expected);
    assert!(pages.all_videos.contains("All Videos for lot7"));
    assert!(pages.all_videos.contains("<source src=\"clip1.webm\" type=\"video/webm\">"));
}

#[test]
fn index_equals_table_page_without_header() {
    let csv = b"2024-01-15 21:05:00,A,1,M,a.webp\n2024-01-15 09:00:00,B,2,N,b.webp\n2024-01-15 12:00:00,C,3,O,c.webp\n";
    let pages = build_report(csv, "lot7", &None).unwrap();
    assert_eq!(pages.index, pages.zmdata);
    assert_eq!(pages.zmdata.matches("<tr><td>").count(), 3);
}

#[test]
fn index_prepends_header_verbatim() {
    let csv = b"2024-01-15 21:05:00,A,1,M,a.webp\n";
    let header = Some("<p>case header</p>\n".to_string());
    let pages = build_report(csv, "lot7", &header).unwrap();
    let mut expected = "<p>case header</p>\n".to_string();
    expected.push_str(&pages.zmdata);
    assert_eq!(pages.index, expected);
}

#[test]
fn rendering_twice_is_byte_identical() {
    let csv = b"2024-01-15 21:05:00,A,1,M,a.webp\n2024-01-15 09:00:00,B,2,N,b.webp\n";
    let first = build_report(csv, "lot7", &None).unwrap();
    let second = build_report(csv, "lot7", &None).unwrap();
    assert_eq!(first.zmdata, second.zmdata);
    assert_eq!(first.all_videos, second.all_videos);
    assert_eq!(first.index, second.index);
}

#[test]
fn short_row_reports_its_index() {
    let csv = b"a,b,c,d,e\nx,y,z\n";
    match load_records(csv) {
        Err(LoadError::MalformedRow(i)) => assert_eq!(i, 1),
        other => panic!("expected a malformed-row error, got {:?}", other.map(|r| r.len())),
    }
    let csv_first = b"x,y\na,b,c,d,e\n";
    assert_eq!(load_records(csv_first).unwrap_err(), LoadError::MalformedRow(0));
}

#[test]
fn short_row_aborts_the_report() {
    let csv = b"a,b,c,d,e\nx,y,z\n";
    assert_eq!(build_report(csv, "lot7", &None).unwrap_err(), LoadError::MalformedRow(1));
}

#[test]
fn first_row_is_not_treated_as_header() {
    let csv = b"2024-01-15 21:00:00,A,1,M,a.webp\n2024-01-15 22:00:00,B,2,N,b.webp\n";
    let recs = load_records(csv).unwrap();
    assert_eq!(recs.len(), 2);
    assert_eq!(recs[0].datetime, "2024-01-15 21:00:00");
    assert_eq!(recs[1].monitor, "N");
}

#[test]
fn extra_fields_are_ignored() {
    let csv = b"d,e,i,m,f.webp,extra,more\n";
    let recs = load_records(csv).unwrap();
    assert_eq!(recs.len(), 1);
    assert_eq!(recs[0].media_filename, "f.webp");
}

#[test]
fn quoted_fields_are_unwrapped() {
    let csv = b"2024-01-15 21:05:00,\"Motion, detected\",42,FrontDoor,clip1.webp\n";
    let recs = load_records(csv).unwrap();
    assert_eq!(recs[0].description, "Motion, detected");
}

#[test]
fn empty_input_renders_empty_report() {
    let pages = build_report(b"", "lot7", &None).unwrap();
    assert!(!pages.zmdata.contains("<tr><td>"));
    assert!(pages.zmdata.contains("Video Evidence of lot7"));
    assert_eq!(pages.index, pages.zmdata);
}

#[test]
fn crlf_and_missing_final_newline_are_accepted() {
    let recs = load_records(b"a,b,c,d,e\r\nf,g,h,i,j").unwrap();
    assert_eq!(recs.len(), 2);
    assert_eq!(recs[0].media_filename, "e");
    assert_eq!(recs[1].datetime, "f");
}

#[test]
fn unreadable_bytes_are_reported() {
    let csv = b"a,b,c,d,\xff\xfe\n";
    assert_eq!(load_records(csv).unwrap_err(), LoadError::Unreadable);
}
