//! Rendering: each event record becomes two HTML fragments, a table row and
//! a gallery card.
//!
//! Two rules are applied while rendering. The description of an event whose
//! clock hour is 20 or later gets the after-hours marker appended, and the
//! media filename has every occurrence of the still-image extension
//! rewritten to the video extension. Rendering never fails, whatever the
//! field texts hold.

use vstd::prelude::*;
use vstd::string::StringExecFns;

use crate::hours::hour_of;
use crate::hours::is_after_hours;
use crate::hours::parse_hour;
use crate::records::EventRecord;
use crate::records::EventRecordV;
use crate::text::has_sub;
use crate::text::lemma_sub_of_concat;
use crate::text::replace_all;
use crate::text::replace_spec;

verus! {

/// The annotation appended to the description of an after-hours event.
pub open spec fn marker_text() -> Seq<char> {
    " <strong style='color: red;'>AFTER PERMITTED HOURS</strong>"@
}

/// The description as rendered: with the after-hours marker appended when
/// the event's hour is 20 or later, unchanged otherwise.
pub open spec fn annotated_description_spec(datetime: Seq<char>, description: Seq<char>) -> Seq<
    char,
> {
    if is_after_hours(datetime) {
        description + marker_text()
    } else {
        description
    }
}

/// The media filename as rendered: every `.webp` rewritten to `.webm`.
pub open spec fn video_target_spec(media_filename: Seq<char>) -> Seq<char> {
    replace_spec(media_filename, ".webp"@, ".webm"@)
}

/// One table row: the five columns in fixed order, the last a link to the
/// video file.
pub open spec fn table_row_spec(r: EventRecordV) -> Seq<char> {
    "<tr><td>"@ + r.datetime + "</td><td>"@ + annotated_description_spec(r.datetime, r.description)
        + "</td><td>"@ + r.event_id + "</td><td>"@ + r.monitor + "</td><td><a href='"@
        + video_target_spec(r.media_filename) + "' target='_blank'>View Video</a></td></tr>\n"@
}

/// What stands between the opening and closing row tags of a table row.
pub open spec fn table_row_inner(r: EventRecordV) -> Seq<char> {
    "<td>"@ + r.datetime + "</td><td>"@ + annotated_description_spec(r.datetime, r.description)
        + "</td><td>"@ + r.event_id + "</td><td>"@ + r.monitor + "</td><td><a href='"@
        + video_target_spec(r.media_filename) + "' target='_blank'>View Video</a></td>"@
}

/// One gallery card: heading, then a native video player element pointed at
/// the video file.
pub open spec fn video_card_spec(r: EventRecordV) -> Seq<char> {
    "<div class=\"video\">\n                <h3>"@ + annotated_description_spec(
        r.datetime,
        r.description,
    ) + " - "@ + r.datetime
        + "</h3>\n                <video controls>\n                    <source src=\""@
        + video_target_spec(r.media_filename)
        + "\" type=\"video/webm\">\n                    Your browser does not support the video tag.\n                </video>\n            </div>\n"@
}

/// The table rows of all records, concatenated in order.
pub open spec fn rows_fragment_spec(recs: Seq<EventRecordV>) -> Seq<char>
    decreases recs.len(),
{
    if recs.len() == 0 {
        Seq::empty()
    } else {
        rows_fragment_spec(recs.drop_last()) + table_row_spec(recs.last())
    }
}

/// The gallery cards of all records, concatenated in order.
pub open spec fn cards_fragment_spec(recs: Seq<EventRecordV>) -> Seq<char>
    decreases recs.len(),
{
    if recs.len() == 0 {
        Seq::empty()
    } else {
        cards_fragment_spec(recs.drop_last()) + video_card_spec(recs.last())
    }
}

/// Law: the rendered description carries the after-hours marker exactly for
/// a readable hour of 20 or later; an unreadable hour annotates nothing and
/// is no error.
pub proof fn lemma_after_hours_annotation(datetime: Seq<char>, description: Seq<char>)
    requires
        !has_sub(description, marker_text()),
    ensures
        (hour_of(datetime) matches Some(h) && h >= 20) ==> annotated_description_spec(
            datetime,
            description,
        ) == description + marker_text(),
        (hour_of(datetime) matches Some(h) && h < 20) ==> annotated_description_spec(
            datetime,
            description,
        ) == description,
        hour_of(datetime) is None ==> annotated_description_spec(datetime, description)
            == description,
        has_sub(annotated_description_spec(datetime, description), marker_text()) <==> (hour_of(
            datetime,
        ) matches Some(h) && h >= 20),
{
    if is_after_hours(datetime) {
        lemma_sub_of_concat(description, marker_text(), Seq::empty());
        assert(description + marker_text() + Seq::<char>::empty() =~= description + marker_text());
    }
}

/// Law: a table row is exactly one row element, and its link points at the
/// media filename with the still-image extension rewritten.
pub proof fn lemma_table_row_fragment(r: EventRecordV)
    ensures
        table_row_spec(r) == "<tr>"@ + table_row_inner(r) + "</tr>\n"@,
        has_sub(
            table_row_spec(r),
            "<a href='"@ + video_target_spec(r.media_filename) + "' target='_blank'>"@,
        ),
{
    reveal_strlit("<tr><td>");
    reveal_strlit("<tr>");
    reveal_strlit("<td>");
    reveal_strlit("' target='_blank'>View Video</a></td></tr>\n");
    reveal_strlit("' target='_blank'>View Video</a></td>");
    reveal_strlit("</tr>\n");
    reveal_strlit("' target='_blank'>");
    reveal_strlit("View Video</a></td></tr>\n");
    reveal_strlit("</td><td><a href='");
    reveal_strlit("</td><td>");
    reveal_strlit("<a href='");
    let dt = r.datetime;
    let desc = annotated_description_spec(r.datetime, r.description);
    let id = r.event_id;
    let mon = r.monitor;
    let target = video_target_spec(r.media_filename);
    assert("<tr><td>"@ =~= "<tr>"@ + "<td>"@);
    assert("' target='_blank'>View Video</a></td></tr>\n"@ =~= "' target='_blank'>View Video</a></td>"@
        + "</tr>\n"@);
    assert(table_row_spec(r) =~= "<tr>"@ + table_row_inner(r) + "</tr>\n"@);
    let head = "<tr><td>"@ + dt + "</td><td>"@ + desc + "</td><td>"@ + id + "</td><td>"@ + mon
        + "</td><td>"@;
    let link = "<a href='"@ + target + "' target='_blank'>"@;
    let rest = "View Video</a></td></tr>\n"@;
    assert("</td><td><a href='"@ =~= "</td><td>"@ + "<a href='"@);
    assert("' target='_blank'>View Video</a></td></tr>\n"@ =~= "' target='_blank'>"@
        + "View Video</a></td></tr>\n"@);
    assert(table_row_spec(r) =~= head + link + rest);
    lemma_sub_of_concat(head, link, rest);
}

/// Append the after-hours marker to the description when the event's hour
/// is 20 or later; hand the description back unchanged otherwise.
pub fn annotate_description(datetime: &str, description: &str) -> (r: String)
    ensures
        r@ == annotated_description_spec(datetime@, description@),
{
    let mut out = String::from_str(description);
    match parse_hour(datetime) {
        Some(h) => {
            if h >= 20 {
                out.append(" <strong style='color: red;'>AFTER PERMITTED HOURS</strong>");
            }
        },
        None => {},
    }
    out
}

/// Rewrite every `.webp` in the media filename to `.webm`.
pub fn video_target(media_filename: &str) -> (r: String)
    ensures
        r@ == video_target_spec(media_filename@),
{
    proof {
        reveal_strlit(".webp");
    }
    replace_all(media_filename, ".webp", ".webm")
}

/// Render one record as a table row.
pub fn render_table_row(rec: &EventRecord) -> (r: String)
    ensures
        r@ == table_row_spec(rec@),
{
    let desc = annotate_description(rec.datetime.as_str(), rec.description.as_str());
    let target = video_target(rec.media_filename.as_str());
    let mut out = String::from_str("<tr><td>");
    out.append(rec.datetime.as_str());
    out.append("</td><td>");
    out.append(desc.as_str());
    out.append("</td><td>");
    out.append(rec.event_id.as_str());
    out.append("</td><td>");
    out.append(rec.monitor.as_str());
    out.append("</td><td><a href='");
    out.append(target.as_str());
    out.append("' target='_blank'>View Video</a></td></tr>\n");
    out
}

/// Render one record as a gallery card.
pub fn render_video_card(rec: &EventRecord) -> (r: String)
    ensures
        r@ == video_card_spec(rec@),
{
    let desc = annotate_description(rec.datetime.as_str(), rec.description.as_str());
    let target = video_target(rec.media_filename.as_str());
    let mut out = String::from_str("<div class=\"video\">\n                <h3>");
    out.append(desc.as_str());
    out.append(" - ");
    out.append(rec.datetime.as_str());
    out.append("</h3>\n                <video controls>\n                    <source src=\"");
    out.append(target.as_str());
    out.append(
        "\" type=\"video/webm\">\n                    Your browser does not support the video tag.\n                </video>\n            </div>\n",
    );
    out
}

/// Render the table rows of all records, concatenated in order.
pub fn render_table_rows(recs: &Vec<EventRecord>) -> (r: String)
    ensures
        r@ == rows_fragment_spec(crate::records::views_of(recs@)),
{
    let ghost vs = crate::records::views_of(recs@);
    let mut out = String::new();
    let mut idx: usize = 0;
    while idx < recs.len()
        invariant
            vs == crate::records::views_of(recs@),
            vs.len() == recs@.len(),
            idx <= recs@.len(),
            out@ == rows_fragment_spec(vs.take(idx as int)),
        decreases recs@.len() - idx,
    {
        let row = render_table_row(&recs[idx]);
        out.append(row.as_str());
        proof {
            assert(vs.take(idx + 1).drop_last() =~= vs.take(idx as int));
            assert(vs.take(idx + 1).last() == recs@[idx as int]@);
        }
        idx += 1;
    }
    proof {
        assert(vs.take(recs@.len() as int) =~= vs);
    }
    out
}

/// Render the gallery cards of all records, concatenated in order.
pub fn render_video_cards(recs: &Vec<EventRecord>) -> (r: String)
    ensures
        r@ == cards_fragment_spec(crate::records::views_of(recs@)),
{
    let ghost vs = crate::records::views_of(recs@);
    let mut out = String::new();
    let mut idx: usize = 0;
    while idx < recs.len()
        invariant
            vs == crate::records::views_of(recs@),
            vs.len() == recs@.len(),
            idx <= recs@.len(),
            out@ == cards_fragment_spec(vs.take(idx as int)),
        decreases recs@.len() - idx,
    {
        let card = render_video_card(&recs[idx]);
        out.append(card.as_str());
        proof {
            assert(vs.take(idx + 1).drop_last() =~= vs.take(idx as int));
            assert(vs.take(idx + 1).last() == recs@[idx as int]@);
        }
        idx += 1;
    }
    proof {
        assert(vs.take(recs@.len() as int) =~= vs);
    }
    out
}

} // verus!
