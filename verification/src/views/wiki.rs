//! The wiki page views: the data each page shows and the HTML it renders to.
//!
//! Each view struct gathers what one page needs — the page title, revision
//! metadata, outbound links as [`Route`] values, and the already-rendered
//! markdown — and `render` produces the page, character for character what
//! the spec functions state.

use vstd::prelude::*;
use vstd::view::View as _;
use crate::routes::{Route, RouteModel, RouteWiki, RouteWikiSubview, path_of, wiki_model};
use crate::strutil::{i64_str, i64_to_string};

verus! {

/// One row of the history page.
pub struct HistoryRecord {
    pub created_at: i64,
    pub document_history_id: i64,
    pub created_by: String,
    pub link: Route,
}

/// The mathematical value of a [`HistoryRecord`].
pub struct HistoryRecordModel {
    pub created_at: i64,
    pub document_history_id: i64,
    pub created_by: Seq<char>,
    pub link: RouteModel,
}

/// The model a history record renders from.
pub open spec fn record_model(r: HistoryRecord) -> HistoryRecordModel {
    HistoryRecordModel {
        created_at: r.created_at,
        document_history_id: r.document_history_id,
        created_by: r.created_by@,
        link: r.link@,
    }
}

/// The history page: a titled list of revision rows.
pub struct History {
    pub page_title: String,
    pub history_records: Vec<HistoryRecord>,
}

/// A rendered wiki page: the current or a specific revision.
pub struct View {
    pub page_title: String,
    pub last_modified_at: i64,
    pub last_modified_by: String,
    pub history_link: Route,
    pub edit_link: Route,
    pub rendered: String,
}

/// The metadata line of one side of a diff.
pub struct RevisionSpec {
    pub document_history_id: i64,
    pub created_at: i64,
    pub created_by: String,
    pub history_link: Route,
}

/// The mathematical value of a [`RevisionSpec`].
pub struct RevisionSpecModel {
    pub document_history_id: i64,
    pub created_at: i64,
    pub created_by: Seq<char>,
    pub history_link: RouteModel,
}

/// The model a revision line renders from.
pub open spec fn revision_spec_model(r: RevisionSpec) -> RevisionSpecModel {
    RevisionSpecModel {
        document_history_id: r.document_history_id,
        created_at: r.created_at,
        created_by: r.created_by@,
        history_link: r.history_link@,
    }
}

/// The diff page: both revisions' metadata and the rendered diff.
pub struct Diff {
    pub page_title: String,
    pub first: RevisionSpec,
    pub second: RevisionSpec,
    pub rendered: String,
}

/// One `<li>` row of the history page.
pub open spec fn row_html(r: HistoryRecordModel) -> Seq<char> {
    "<li><a href=\""@ + path_of(r.link) + "\">rev "@ + i64_str(r.document_history_id)
        + "</a> at "@ + i64_str(r.created_at) + " by "@ + r.created_by + "</li>\n"@
}

/// The history rows in listing order.
pub open spec fn rows_html(rs: Seq<HistoryRecordModel>) -> Seq<char>
    decreases rs.len(),
{
    if rs.len() == 0 {
        Seq::<char>::empty()
    } else {
        rows_html(rs.drop_last()) + row_html(rs.last())
    }
}

/// The whole history page.
pub open spec fn history_html(title: Seq<char>, rs: Seq<HistoryRecordModel>) -> Seq<char> {
    "<h1>History of "@ + title + "</h1>\n<ul>\n"@ + rows_html(rs) + "</ul>\n"@
}

/// A rendered wiki page: title, content, modification line, and links.
pub open spec fn view_html(
    title: Seq<char>,
    at: i64,
    by: Seq<char>,
    history_link: Seq<char>,
    edit_link: Seq<char>,
    rendered: Seq<char>,
) -> Seq<char> {
    "<h1>"@ + title + "</h1>\n"@ + rendered + "\n<p>Last modified at "@ + i64_str(at) + " by "@
        + by + "</p>\n<p><a href=\""@ + history_link + "\">history</a> <a href=\""@ + edit_link
        + "\">edit</a></p>\n"@
}

/// The edit page embeds the raw text in a text area.
pub open spec fn edit_html(data: Seq<char>) -> Seq<char> {
    "<textarea>"@ + data + "</textarea>"@
}

/// The metadata line of one side of a diff.
pub open spec fn revision_line_html(r: RevisionSpecModel) -> Seq<char> {
    "rev "@ + i64_str(r.document_history_id) + " at "@ + i64_str(r.created_at) + " by "@
        + r.created_by
}

/// The whole diff page.
pub open spec fn diff_html(
    title: Seq<char>,
    first: RevisionSpecModel,
    second: RevisionSpecModel,
    rendered: Seq<char>,
) -> Seq<char> {
    "<h1>Diff of "@ + title + "</h1>\n<p>"@ + revision_line_html(first) + " vs "@
        + revision_line_html(second) + "</p>\n"@ + rendered
}

impl History {
    /// The route of the page this history belongs to.
    pub fn route_view(&self) -> (r: Route)
        ensures
            r@ == wiki_model(self.page_title@, RouteWikiSubview::View),
    {
        RouteWiki::to(self.page_title.as_str())
    }

    /// Render the history page.
    #[verifier::rlimit(80)]
    pub fn render(&self) -> (r: String)
        ensures
            r@ == history_html(
                self.page_title@,
                self.history_records@.map_values(|x: HistoryRecord| record_model(x)),
            ),
    {
        let ghost rs = self.history_records@.map_values(|x: HistoryRecord| record_model(x));
        let mut out = String::from_str("<h1>History of ");
        out.append(self.page_title.as_str());
        out.append("</h1>\n<ul>\n");
        let mut i: usize = 0;
        let n = self.history_records.len();
        proof {
            assert(rs.take(0) =~= Seq::<HistoryRecordModel>::empty());
        }
        while i < n
            invariant
                0 <= i <= n,
                n == self.history_records@.len(),
                rs == self.history_records@.map_values(|x: HistoryRecord| record_model(x)),
                out@ == "<h1>History of "@ + self.page_title@ + "</h1>\n<ul>\n"@ + rows_html(
                    rs.take(i as int),
                ),
            decreases n - i,
        {
            let rec = &self.history_records[i];
            out.append("<li><a href=\"");
            let link = rec.link.into_uri_path();
            out.append(link.as_str());
            out.append("\">rev ");
            let num = i64_to_string(rec.document_history_id);
            out.append(num.as_str());
            out.append("</a> at ");
            let at = i64_to_string(rec.created_at);
            out.append(at.as_str());
            out.append(" by ");
            out.append(rec.created_by.as_str());
            out.append("</li>\n");
            proof {
                assert(rs.take(i as int + 1).drop_last() =~= rs.take(i as int));
                assert(rs.take(i as int + 1).last() == rs[i as int]);
                assert(rs[i as int] == record_model(self.history_records@[i as int]));
                assert(out@ =~= "<h1>History of "@ + self.page_title@ + "</h1>\n<ul>\n"@
                    + rows_html(rs.take(i as int + 1)));
            }
            i = i + 1;
        }
        out.append("</ul>\n");
        proof {
            assert(rs.take(n as int) =~= rs);
            assert(out@ =~= history_html(self.page_title@, rs));
        }
        out
    }
}

impl View {
    /// Render the page view.
    pub fn render(&self) -> (r: String)
        ensures
            r@ == view_html(
                self.page_title@,
                self.last_modified_at,
                self.last_modified_by@,
                path_of(self.history_link@),
                path_of(self.edit_link@),
                self.rendered@,
            ),
    {
        let mut out = String::from_str("<h1>");
        out.append(self.page_title.as_str());
        out.append("</h1>\n");
        out.append(self.rendered.as_str());
        out.append("\n<p>Last modified at ");
        let at = i64_to_string(self.last_modified_at);
        out.append(at.as_str());
        out.append(" by ");
        out.append(self.last_modified_by.as_str());
        out.append("</p>\n<p><a href=\"");
        let hl = self.history_link.into_uri_path();
        out.append(hl.as_str());
        out.append("\">history</a> <a href=\"");
        let el = self.edit_link.into_uri_path();
        out.append(el.as_str());
        out.append("\">edit</a></p>\n");
        proof {
            assert(out@ =~= view_html(
                self.page_title@,
                self.last_modified_at,
                self.last_modified_by@,
                path_of(self.history_link@),
                path_of(self.edit_link@),
                self.rendered@,
            ));
        }
        out
    }
}

impl Diff {
    /// Render the diff page.
    pub fn render(&self) -> (r: String)
        ensures
            r@ == diff_html(
                self.page_title@,
                revision_spec_model(self.first),
                revision_spec_model(self.second),
                self.rendered@,
            ),
    {
        let mut out = String::from_str("<h1>Diff of ");
        out.append(self.page_title.as_str());
        out.append("</h1>\n<p>");
        append_revision_line(&mut out, &self.first);
        out.append(" vs ");
        append_revision_line(&mut out, &self.second);
        out.append("</p>\n");
        out.append(self.rendered.as_str());
        proof {
            assert(out@ =~= diff_html(
                self.page_title@,
                revision_spec_model(self.first),
                revision_spec_model(self.second),
                self.rendered@,
            ));
        }
        out
    }
}

/// Append one revision's metadata line.
fn append_revision_line(out: &mut String, r: &RevisionSpec)
    ensures
        final(out)@ == old(out)@ + revision_line_html(revision_spec_model(*r)),
{
    out.append("rev ");
    let num = i64_to_string(r.document_history_id);
    out.append(num.as_str());
    out.append(" at ");
    let at = i64_to_string(r.created_at);
    out.append(at.as_str());
    out.append(" by ");
    out.append(r.created_by.as_str());
    proof {
        assert(final(out)@ =~= old(out)@ + revision_line_html(revision_spec_model(*r)));
    }
}

} // verus!
