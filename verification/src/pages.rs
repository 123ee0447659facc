//! Page assembly: the rendered fragments are substituted into two fixed
//! page templates, and the composite index page is put together from an
//! optional header and the table page.
//!
//! `build_report` is the whole pipeline as one function: CSV bytes in,
//! the text of the three output files out. Writing the files, and naming
//! them after the working directory, is the caller's business.

use vstd::prelude::*;
use vstd::string::StringExecFns;

use crate::records::LoadError;
use crate::records::all_rows_wide;
use crate::records::csv_rows_of;
use crate::records::load_records;
use crate::records::records_of;
use crate::records::row_wide;
use crate::records::views_of;
use crate::render::cards_fragment_spec;
use crate::render::render_table_rows;
use crate::render::render_video_cards;
use crate::render::rows_fragment_spec;
use crate::text::replace_all;
use crate::text::replace_spec;

verus! {

/// The fixed template of the table page.
pub open spec fn table_page_template() -> Seq<char> {
    "\n<!DOCTYPE html>\n<html lang=\"en\">\n<head>\n    <meta charset=\"UTF-8\">\n    <meta name=\"viewport\" content=\"width=device-width, initial-scale=1.0\">\n    <title>Video Evidence of {current_dir}</title>\n    <link rel=\"stylesheet\" href=\"style.css\">\n</head>\n<body>\n\n<h2>Video Evidence of {current_dir}</h2>\n<p>Below is a list of evidence that proves the violation:</p>\n\n<p>Click the blue link to View Video. Or, </p>\n\n<p><a href=\"{current_dir}-all-videos.html\">View all videos on a single scrolling page</a></p>\n\n<table>\n  <thead>\n    <tr>\n      <th>Datetime</th>\n      <th>Description</th>\n      <th>Event ID</th>\n      <th>Monitor</th>\n      <th>Video File</th>\n    </tr>\n  </thead>\n  <tbody>\n    {table_rows}\n  </tbody>\n</table>\n\n<p><a href=\"{current_dir}-all-videos.html\">View all videos on a single page</a></p>\n\n</body>\n</html>\n"@
}

/// The fixed template of the gallery page.
pub open spec fn gallery_page_template() -> Seq<char> {
    "\n<!DOCTYPE html>\n<html lang=\"en\">\n<head>\n    <meta charset=\"UTF-8\">\n    <meta name=\"viewport\" content=\"width=device-width, initial-scale=1.0\">\n    <title>All Videos for {current_dir}</title>\n    <link rel=\"stylesheet\" href=\"style.css\">\n</head>\n<body>\n\n<h2>All Videos for {current_dir}</h2>\n<p>Below are all the videos related to this violation:</p>\n\n<div class=\"video-container\">\n    {videos}\n</div>\n\n</body>\n</html>\n"@
}

/// The table page: the template with the title and the row fragments
/// substituted, in that order.
pub open spec fn table_page_spec(title: Seq<char>, rows_fragment: Seq<char>) -> Seq<char> {
    replace_spec(
        replace_spec(table_page_template(), "{current_dir}"@, title),
        "{table_rows}"@,
        rows_fragment,
    )
}

/// The gallery page: the template with the title and the card fragments
/// substituted, in that order.
pub open spec fn gallery_page_spec(title: Seq<char>, cards_fragment: Seq<char>) -> Seq<char> {
    replace_spec(
        replace_spec(gallery_page_template(), "{current_dir}"@, title),
        "{videos}"@,
        cards_fragment,
    )
}

/// The index page: the optional header, taken as empty when absent,
/// followed by the full table page.
pub open spec fn index_content_spec(header: Option<Seq<char>>, table_page: Seq<char>) -> Seq<
    char,
> {
    (match header {
        Some(h) => h,
        None => Seq::empty(),
    }) + table_page
}

/// The view of an optional header text.
pub open spec fn header_view(header: Option<String>) -> Option<Seq<char>> {
    match header {
        Some(h) => Some(h@),
        None => None,
    }
}

/// The whole pipeline: what the three pages hold for given CSV bytes, a
/// title and an optional header, or nothing when the CSV cannot be loaded.
pub open spec fn report_spec(data: Seq<u8>, title: Seq<char>, header: Option<Seq<char>>) -> Option<
    (Seq<char>, Seq<char>, Seq<char>),
> {
    match csv_rows_of(data) {
        Some(rows) => {
            if all_rows_wide(rows) {
                let recs = records_of(rows);
                let table_page = table_page_spec(title, rows_fragment_spec(recs));
                Some(
                    (
                        table_page,
                        gallery_page_spec(title, cards_fragment_spec(recs)),
                        index_content_spec(header, table_page),
                    ),
                )
            } else {
                None
            }
        },
        None => None,
    }
}

/// Law: the report is a function of the CSV bytes, the title and the
/// optional header alone, so an unchanged input gives byte-identical pages
/// however often it is rendered.
pub proof fn lemma_report_deterministic(
    data1: Seq<u8>,
    title1: Seq<char>,
    header1: Option<Seq<char>>,
    data2: Seq<u8>,
    title2: Seq<char>,
    header2: Option<Seq<char>>,
)
    requires
        data1 == data2,
        title1 == title2,
        header1 == header2,
    ensures
        report_spec(data1, title1, header1) == report_spec(data2, title2, header2),
{
}

/// Law: with no optional header, the index page is exactly the table page.
pub proof fn lemma_index_without_header(table_page: Seq<char>)
    ensures
        index_content_spec(None, table_page) == table_page,
{
    assert(Seq::<char>::empty() + table_page =~= table_page);
}

/// The three output pages of one run.
#[derive(Clone, Debug)]
pub struct ReportPages {
    /// Content of the `<title>-zmdata.html` table page.
    pub zmdata: String,
    /// Content of the `<title>-all-videos.html` gallery page.
    pub all_videos: String,
    /// Content of `index.html`.
    pub index: String,
}

/// Fill the table-page template with the title and the row fragments.
pub fn table_page(title: &str, rows_fragment: &str) -> (r: String)
    ensures
        r@ == table_page_spec(title@, rows_fragment@),
{
    proof {
        reveal_strlit("{current_dir}");
        reveal_strlit("{table_rows}");
    }
    let step = replace_all(
        "\n<!DOCTYPE html>\n<html lang=\"en\">\n<head>\n    <meta charset=\"UTF-8\">\n    <meta name=\"viewport\" content=\"width=device-width, initial-scale=1.0\">\n    <title>Video Evidence of {current_dir}</title>\n    <link rel=\"stylesheet\" href=\"style.css\">\n</head>\n<body>\n\n<h2>Video Evidence of {current_dir}</h2>\n<p>Below is a list of evidence that proves the violation:</p>\n\n<p>Click the blue link to View Video. Or, </p>\n\n<p><a href=\"{current_dir}-all-videos.html\">View all videos on a single scrolling page</a></p>\n\n<table>\n  <thead>\n    <tr>\n      <th>Datetime</th>\n      <th>Description</th>\n      <th>Event ID</th>\n      <th>Monitor</th>\n      <th>Video File</th>\n    </tr>\n  </thead>\n  <tbody>\n    {table_rows}\n  </tbody>\n</table>\n\n<p><a href=\"{current_dir}-all-videos.html\">View all videos on a single page</a></p>\n\n</body>\n</html>\n",
        "{current_dir}",
        title,
    );
    replace_all(step.as_str(), "{table_rows}", rows_fragment)
}

/// Fill the gallery-page template with the title and the card fragments.
pub fn gallery_page(title: &str, cards_fragment: &str) -> (r: String)
    ensures
        r@ == gallery_page_spec(title@, cards_fragment@),
{
    proof {
        reveal_strlit("{current_dir}");
        reveal_strlit("{videos}");
    }
    let step = replace_all(
        "\n<!DOCTYPE html>\n<html lang=\"en\">\n<head>\n    <meta charset=\"UTF-8\">\n    <meta name=\"viewport\" content=\"width=device-width, initial-scale=1.0\">\n    <title>All Videos for {current_dir}</title>\n    <link rel=\"stylesheet\" href=\"style.css\">\n</head>\n<body>\n\n<h2>All Videos for {current_dir}</h2>\n<p>Below are all the videos related to this violation:</p>\n\n<div class=\"video-container\">\n    {videos}\n</div>\n\n</body>\n</html>\n",
        "{current_dir}",
        title,
    );
    replace_all(step.as_str(), "{videos}", cards_fragment)
}

/// Put the index page together: the optional header, then the table page.
pub fn index_page(header: &Option<String>, table_page_text: &str) -> (r: String)
    ensures
        r@ == index_content_spec(header_view(*header), table_page_text@),
{
    match header {
        Some(h) => {
            let mut out = String::from_str(h.as_str());
            out.append(table_page_text);
            out
        },
        None => String::from_str(table_page_text),
    }
}

/// Run the whole pipeline: load the records out of the CSV bytes, render
/// both fragments, fill both templates, and put the index together.
/// Succeeds exactly when the bytes are readable CSV and every row has at
/// least five fields.
pub fn build_report(csv_data: &[u8], title: &str, header: &Option<String>) -> (r: Result<
    ReportPages,
    LoadError,
>)
    ensures
        match r {
            Ok(pages) => report_spec(csv_data@, title@, header_view(*header)) matches Some(t)
                && pages.zmdata@ == t.0 && pages.all_videos@ == t.1 && pages.index@ == t.2,
            Err(e) => report_spec(csv_data@, title@, header_view(*header)) is None && {
                ||| (e matches LoadError::Unreadable && csv_rows_of(csv_data@) is None)
                ||| (e matches LoadError::MalformedRow(j) && csv_rows_of(csv_data@) matches Some(
                    rows,
                ) && j < rows.len() && !row_wide(rows[j as int]) && (forall|k: int|
                    0 <= k < j ==> row_wide(#[trigger] rows[k])))
            },
        },
{
    let recs = match load_records(csv_data) {
        Ok(recs) => recs,
        Err(e) => {
            return Err(e);
        },
    };
    let rows_fragment = render_table_rows(&recs);
    let cards_fragment = render_video_cards(&recs);
    let zmdata = table_page(title, rows_fragment.as_str());
    let all_videos = gallery_page(title, cards_fragment.as_str());
    let index = index_page(header, zmdata.as_str());
    proof {
        let rows = csv_rows_of(csv_data@)->Some_0;
        assert(views_of(recs@) == records_of(rows));
    }
    Ok(ReportPages { zmdata, all_videos, index })
}

} // verus!
