//! Per-record rendering: table rows, gallery cards, the after-hours rule
//! and the media-extension rewrite.

use zmreport::hours::parse_hour;
use zmreport::records::EventRecord;
use zmreport::render::annotate_description;
use zmreport::render::render_table_row;
use zmreport::render::render_video_card;
use zmreport::render::video_target;

fn record(datetime: &str, description: &str, event_id: &str, monitor: &str, media: &str) -> EventRecord {
    EventRecord {
        datetime: datetime.to_string(),
        description: description.to_string(),
        event_id: event_id.to_string(),
        monitor: monitor.to_string(),
        media_filename: media.to_string(),
    }
}

#[test]
fn evening_row_is_flagged_and_linked() {
    let rec = record("2024-01-15 21:05:00", "Motion detected", "42", "FrontDoor", "clip1.webp");
    let row = render_table_row(&rec);
    assert_eq!(
        row,
        "<tr><td>2024-01-15 21:05:00</td><td>Motion detected <strong style='color: red;'>AFTER PERMITTED HOURS</strong></td><td>42</td><td>FrontDoor</td><td><a href='clip1.webm' target='_blank'>View Video</a></td></tr>\n"
    );
    assert!(row.contains("clip1.webm"));
    assert!(!row.contains("clip1.webp"));
}

#[test]
fn morning_row_is_unflagged() {
    let rec = record("2024-01-15 09:05:00", "Motion detected", "43", "BackYard", "clip2.webp");
    let row = render_table_row(&rec);
    assert_eq!(
        row,
        "<tr><td>2024-01-15 09:05:00</td><td>Motion detected</td><td>43</td><td>BackYard</td><td><a href='clip2.webm' target='_blank'>View Video</a></td></tr>\n"
    );
    assert!(!row.contains("AFTER PERMITTED HOURS"));
}

#[test]
fn gallery_card_embeds_video_player() {
    let rec = record("2024-01-15 09:05:00", "Motion detected", "43", "BackYard", "clip2.webp");
    let card = render_video_card(&rec);
    assert_eq!(
        card,
        "<div class=\"video\">\n                <h3>Motion detected - 2024-01-15 09:05:00</h3>\n                <video controls>\n                    <source src=\"clip2.webm\" type=\"video/webm\">\n                    Your browser does not support the video tag.\n                </video>\n            </div>\n"
    );
}

#[test]
fn gallery_card_carries_marker_in_heading() {
    let rec = record("2024-01-15 23:59:59", "Loitering", "7", "Gate", "g.webp");
    let card = render_video_card(&rec);
    assert!(card.contains(
        "<h3>Loitering <strong style='color: red;'>AFTER PERMITTED HOURS</strong> - 2024-01-15 23:59:59</h3>"
    ));
}

#[test]
fn every_extension_occurrence_is_rewritten() {
    assert_eq!(video_target("a.webp.webp"), "a.webm.webm");
    assert_eq!(video_target("x.webpy.webp"), "x.webmy.webm");
    assert_eq!(video_target("..webp"), "..webm");
    assert_eq!(video_target(".webp"), ".webm");
}

#[test]
fn filename_without_extension_token_is_unchanged() {
    assert_eq!(video_target("snapshot.png"), "snapshot.png");
    assert_eq!(video_target(""), "");
    assert_eq!(video_target("webp"), "webp");
}

#[test]
fn hour_boundary_is_inclusive_at_twenty() {
    let at = record("2024-01-15 20:00:00", "d", "1", "m", "f.webp");
    assert!(render_table_row(&at).contains("AFTER PERMITTED HOURS"));
    let before = record("2024-01-15 19:59:59", "d", "1", "m", "f.webp");
    assert!(!render_table_row(&before).contains("AFTER PERMITTED HOURS"));
}

#[test]
fn unreadable_hour_is_no_error_and_no_marker() {
    for dt in ["", "garbage", "2024-01-15", "2024-01-15 xx:00:00", "2024-01-15 :05:00"] {
        let rec = record(dt, "d", "1", "m", "f.webp");
        assert!(!render_table_row(&rec).contains("AFTER PERMITTED HOURS"));
    }
}

#[test]
fn any_unicode_whitespace_separates_the_tokens() {
    assert_eq!(parse_hour("2024-01-15\t21:05:00"), Some(21));
    assert_eq!(parse_hour("2024-01-15\u{a0}21:05:00"), Some(21));
    assert_eq!(parse_hour("  2024-01-15   21:05:00"), Some(21));
}

#[test]
fn parse_hour_reads_second_token_before_colon() {
    assert_eq!(parse_hour("2024-01-15 21:05:00"), Some(21));
    assert_eq!(parse_hour("2024-01-15 09:05:00"), Some(9));
    assert_eq!(parse_hour("x  9:5"), Some(9));
    assert_eq!(parse_hour("x 0007:00"), Some(7));
    assert_eq!(parse_hour("x +21:00:00"), Some(21));
    assert_eq!(parse_hour("x 23"), Some(23));
    assert_eq!(parse_hour("x 99999999999:00"), None);
    assert_eq!(parse_hour("x -5:00"), None);
    assert_eq!(parse_hour("x :05"), None);
    assert_eq!(parse_hour("lonely"), None);
    assert_eq!(parse_hour(""), None);
}

#[test]
fn empty_fields_render_without_error() {
    let rec = record("", "", "", "", "");
    assert_eq!(
        render_table_row(&rec),
        "<tr><td></td><td></td><td></td><td></td><td><a href='' target='_blank'>View Video</a></td></tr>\n"
    );
}

#[test]
fn description_annotation_is_appended_once() {
    assert_eq!(
        annotate_description("2024-01-15 22:00:00", "Prowler"),
        "Prowler <strong style='color: red;'>AFTER PERMITTED HOURS</strong>"
    );
    assert_eq!(annotate_description("2024-01-15 10:00:00", "Prowler"), "Prowler");
}
