//! Request handling: from an HTTP method and a raw path to a response.
//!
//! The handler owns the [`Store`] and dispatches a parsed route to the right
//! read or write.  Markdown rendering, line diffing and percent decoding are
//! outside collaborators; each is reached through one trusted wrapper whose
//! result the contracts name.

use vstd::prelude::*;
use crate::routes::{
    Route, RouteModel, RouteWiki, RouteWikiSubview, parse_route, path_of, wiki_model,
};
use crate::store::{PageContentModel, Revision, Store};
use crate::views::wiki::{
    HistoryRecord, HistoryRecordModel, RevisionSpec, RevisionSpecModel, diff_html, edit_html,
    history_html, view_html,
};

verus! {

/// How one line of a diff relates the two texts.
#[derive(Debug, Clone, Copy, PartialEq, Eq, Structural)]
pub enum DiffTag {
    Equal,
    Delete,
    Insert,
}

/// One line of a diff: its relation and its text, newline (if any) at the end.
#[derive(Debug, Clone)]
pub struct DiffLine {
    pub tag: DiffTag,
    pub text: String,
}

impl View for DiffLine {
    type V = (DiffTag, Seq<char>);

    open spec fn view(&self) -> (DiffTag, Seq<char>) {
        (self.tag, self.text@)
    }
}

/// The line diff of two texts, a function of the texts alone.
pub uninterp spec fn line_diff_of(a: Seq<char>, b: Seq<char>) -> Seq<(DiffTag, Seq<char>)>;

/// Relies on `similar::TextDiff::from_lines` and `iter_all_changes`: a line
/// diff of the two texts, depending on the texts alone.  Identical texts
/// yield only equal-context lines (the algorithm consumes a common prefix
/// first), and each change carries one line, so a newline occurs only as its
/// last character.
#[verifier::external_body]
fn diff_lines(first: &str, second: &str) -> (r: Vec<DiffLine>)
    ensures
        r@.map_values(|l: DiffLine| l@) == line_diff_of(first@, second@),
        first@ == second@ ==> forall|i: int|
            0 <= i < r@.len() ==> (#[trigger] r@[i]@).0 == DiffTag::Equal,
        forall|i: int, p: int|
            0 <= i < r@.len() && 0 <= p < r@[i]@.1.len() - 1 ==> #[trigger] r@[i]@.1[p] != '\n',
{
    let diff = similar::TextDiff::from_lines(first, second);
    let mut out: Vec<DiffLine> = Vec::new();
    for change in diff.iter_all_changes() {
        let tag = match change.tag() {
            similar::ChangeTag::Equal => DiffTag::Equal,
            similar::ChangeTag::Delete => DiffTag::Delete,
            similar::ChangeTag::Insert => DiffTag::Insert,
        };
        out.push(DiffLine { tag, text: change.to_string() });
    }
    out
}

/// What markdown renders to, a function of the markdown text alone.
pub uninterp spec fn markdown_html_of(s: Seq<char>) -> Seq<char>;

/// Relies on `comrak::markdown_to_html`: the rendering depends on the
/// markdown text alone (strikethrough and footnote extensions enabled).
#[verifier::external_body]
fn render_markdown(markdown: &str) -> (r: String)
    ensures
        r@ == markdown_html_of(markdown@),
{
    let mut options = comrak::Options::default();
    options.extension.strikethrough = true;
    options.extension.footnotes = true;
    comrak::markdown_to_html(markdown, &options)
}

/// What a path percent-decodes to, a function of the path alone; `None` when
/// the decoded bytes are not UTF-8.
pub uninterp spec fn percent_decode_of(s: Seq<char>) -> Option<Seq<char>>;

/// Relies on `percent_encoding::percent_decode_str` / `decode_utf8`: decoding
/// depends on the path alone, and a path with no `%` decodes to itself.
#[verifier::external_body]
fn decode_percents(s: &str) -> (r: Option<String>)
    ensures
        r matches Some(t) ==> percent_decode_of(s@) == Some(t@) && ((forall|i: int|
            0 <= i < s@.len() ==> s@[i] != '%') ==> t@ == s@),
        r is None ==> percent_decode_of(s@) is None && (exists|i: int|
            0 <= i < s@.len() && s@[i] == '%'),
{
    match percent_encoding::percent_decode_str(s).decode_utf8() {
        Ok(t) => Some(t.into_owned()),
        Err(_) => None,
    }
}

/// The marker a diff line is printed with: space, `-`, or `+`.
pub open spec fn sign_of(t: DiffTag) -> Seq<char> {
    match t {
        DiffTag::Equal => seq![' '],
        DiffTag::Delete => seq!['-'],
        DiffTag::Insert => seq!['+'],
    }
}

/// The marked diff lines, in order.
pub open spec fn diff_lines_text(cs: Seq<(DiffTag, Seq<char>)>) -> Seq<char>
    decreases cs.len(),
{
    if cs.len() == 0 {
        Seq::<char>::empty()
    } else {
        diff_lines_text(cs.drop_last()) + sign_of(cs.last().0) + cs.last().1
    }
}

/// The diff wrapped in a fenced code block, ready for the markdown renderer.
pub open spec fn diff_body_text(cs: Seq<(DiffTag, Seq<char>)>) -> Seq<char> {
    "````diff\n"@ + diff_lines_text(cs) + "````\n"@
}

/// No line of `t` begins with `+` or `-`.
pub open spec fn no_change_markers(t: Seq<char>) -> bool {
    forall|p: int|
        0 <= p < t.len() && (p == 0 || t[p - 1] == '\n') ==> #[trigger] t[p] != '+' && t[p] != '-'
}

/// A change's text holds a newline only as its last character.
pub open spec fn newline_only_at_end(l: Seq<char>) -> bool {
    forall|p: int| 0 <= p < l.len() - 1 ==> l[p] != '\n'
}

/// Equal-context changes print with a leading space on every line, so the
/// marked lines carry no `+` or `-`.
proof fn lemma_equal_context_lines(cs: Seq<(DiffTag, Seq<char>)>)
    requires
        forall|i: int| 0 <= i < cs.len() ==> (#[trigger] cs[i]).0 == DiffTag::Equal,
        forall|i: int| 0 <= i < cs.len() ==> newline_only_at_end((#[trigger] cs[i]).1),
    ensures
        no_change_markers(diff_lines_text(cs)),
    decreases cs.len(),
{
    if cs.len() > 0 {
        let head = cs.drop_last();
        lemma_equal_context_lines(head);
        let prev = diff_lines_text(head);
        let last = cs.last().1;
        let t = diff_lines_text(cs);
        assert(t == prev + sign_of(cs.last().0) + last);
        assert(sign_of(cs.last().0) == seq![' ']);
        assert forall|p: int|
            0 <= p < t.len() && (p == 0 || t[p - 1] == '\n') implies #[trigger] t[p] != '+'
            && t[p] != '-' by {
            if p < prev.len() {
                assert(t[p] == prev[p]);
                if p > 0 {
                    assert(t[p - 1] == prev[p - 1]);
                }
            } else if p == prev.len() {
                assert(t[p] == ' ');
            } else {
                assert(t[p - 1] != '\n') by {
                    if p - 1 == prev.len() {
                        assert(t[p - 1] == ' ');
                    } else {
                        let q = p - 1 - prev.len() - 1;
                        assert(t[p - 1] == last[q]);
                        assert(newline_only_at_end(last));
                        assert(q < last.len() - 1);
                    }
                }
            }
        }
    }
}

/// The fenced diff of equal-context changes has no line beginning with `+`
/// or `-`: the fences begin with a backtick and every change line with a
/// space.
#[verifier::rlimit(100)]
proof fn lemma_equal_context_body(cs: Seq<(DiffTag, Seq<char>)>)
    requires
        forall|i: int| 0 <= i < cs.len() ==> (#[trigger] cs[i]).0 == DiffTag::Equal,
        forall|i: int| 0 <= i < cs.len() ==> newline_only_at_end((#[trigger] cs[i]).1),
    ensures
        no_change_markers(diff_body_text(cs)),
{
    reveal_strlit("````diff\n");
    reveal_strlit("````\n");
    lemma_equal_context_lines(cs);
    let f1 = "````diff\n"@;
    let inner = diff_lines_text(cs);
    let f2 = "````\n"@;
    let t = diff_body_text(cs);
    assert(f1.len() == 9);
    assert(f2.len() == 5);
    assert(t == f1 + inner + f2);
    assert forall|p: int|
        0 <= p < t.len() && (p == 0 || t[p - 1] == '\n') implies #[trigger] t[p] != '+' && t[p]
        != '-' by {
        if p < 9 {
            assert(t[p] == f1[p]);
        } else if p < 9 + inner.len() {
            assert(t[p] == inner[p - 9]);
            if p == 9 {
                assert(no_change_markers(inner));
                assert(inner[0] != '+' && inner[0] != '-');
            } else {
                assert(t[p - 1] == inner[p - 1 - 9]);
                assert(inner[p - 9] != '+' && inner[p - 9] != '-');
            }
        } else {
            assert(t[p] == f2[p - 9 - inner.len()]);
        }
    }
}

/// Build the marked, fenced diff text of two texts.  Diffing a text against
/// itself yields pure equal context: no line of the result begins with `+`
/// or `-`.
pub fn diff_text(first: &str, second: &str) -> (r: String)
    ensures
        r@ == diff_body_text(line_diff_of(first@, second@)),
        first@ == second@ ==> no_change_markers(r@),
{
    let changes = diff_lines(first, second);
    let ghost cv = changes@.map_values(|l: DiffLine| l@);
    let mut out = String::from_str("````diff\n");
    let mut i: usize = 0;
    let n = changes.len();
    proof {
        assert(cv.take(0) =~= Seq::<(DiffTag, Seq<char>)>::empty());
    }
    while i < n
        invariant
            0 <= i <= n,
            n == changes@.len(),
            cv == changes@.map_values(|l: DiffLine| l@),
            out@ == "````diff\n"@ + diff_lines_text(cv.take(i as int)),
        decreases n - i,
    {
        let line = &changes[i];
        match line.tag {
            DiffTag::Equal => out.append(" "),
            DiffTag::Delete => out.append("-"),
            DiffTag::Insert => out.append("+"),
        }
        proof {
            reveal_strlit(" ");
            reveal_strlit("-");
            reveal_strlit("+");
            assert(cv[i as int] == changes@[i as int]@);
        }
        out.append(line.text.as_str());
        proof {
            assert(cv.take(i as int + 1).drop_last() =~= cv.take(i as int));
            assert(cv.take(i as int + 1).last() == cv[i as int]);
            assert(out@ =~= "````diff\n"@ + diff_lines_text(cv.take(i as int + 1)));
        }
        i = i + 1;
    }
    out.append("````\n");
    proof {
        assert(cv.take(n as int) =~= cv);
        assert(out@ =~= diff_body_text(cv));
        if first@ == second@ {
            assert(forall|i: int| 0 <= i < cv.len() ==> (#[trigger] cv[i]).0 == DiffTag::Equal);
            assert forall|i: int| 0 <= i < cv.len() implies newline_only_at_end(
                (#[trigger] cv[i]).1,
            ) by {
                assert(cv[i] == changes@[i]@);
            }
            lemma_equal_context_body(cv);
        }
    }
    out
}

/// The HTTP methods the wiki distinguishes.
#[derive(Debug, Clone, Copy, PartialEq, Eq, Structural)]
pub enum Method {
    Get,
    Put,
    Other,
}

/// A response: status code, optional redirect target, and body.
#[derive(Debug)]
pub struct Response {
    pub status: u16,
    pub location: Option<String>,
    pub body: String,
}

/// The mathematical value of a [`Response`].
pub struct ResponseModel {
    pub status: u16,
    pub location: Option<Seq<char>>,
    pub body: Seq<char>,
}

impl View for Response {
    type V = ResponseModel;

    open spec fn view(&self) -> ResponseModel {
        ResponseModel {
            status: self.status,
            location: match self.location {
                Some(ref l) => Some(l@),
                None => None,
            },
            body: self.body@,
        }
    }
}

/// A `302 Found` redirect to `loc`.
pub open spec fn resp_redirect(loc: Seq<char>) -> ResponseModel {
    ResponseModel { status: 302, location: Some(loc), body: Seq::<char>::empty() }
}

/// A `200 OK` HTML page.
pub open spec fn resp_html(body: Seq<char>) -> ResponseModel {
    ResponseModel { status: 200, location: None, body }
}

/// A `404 Not Found`.
pub open spec fn resp_not_found() -> ResponseModel {
    ResponseModel { status: 404, location: None, body: "Not Found"@ }
}

/// A `405 Method Not Allowed`.
pub open spec fn resp_method_not_allowed() -> ResponseModel {
    ResponseModel { status: 405, location: None, body: "Method Not Allowed"@ }
}

/// The opaque failure response internal errors map to.
pub open spec fn resp_server_error() -> ResponseModel {
    ResponseModel { status: 500, location: None, body: "Internal Server Error"@ }
}

fn html_response(body: String) -> (r: Response)
    ensures
        r@ == resp_html(body@),
{
    Response { status: 200, location: None, body }
}

fn not_found_response() -> (r: Response)
    ensures
        r@ == resp_not_found(),
{
    Response { status: 404, location: None, body: String::from_str("Not Found") }
}

fn method_not_allowed_response() -> (r: Response)
    ensures
        r@ == resp_method_not_allowed(),
{
    Response { status: 405, location: None, body: String::from_str("Method Not Allowed") }
}

fn server_error_response() -> (r: Response)
    ensures
        r@ == resp_server_error(),
{
    Response { status: 500, location: None, body: String::from_str("Internal Server Error") }
}

fn redirect_response(loc: String) -> (r: Response)
    ensures
        r@ == resp_redirect(loc@),
{
    Response { status: 302, location: Some(loc), body: String::new() }
}

/// The history row shown for one revision of the named page.
pub open spec fn history_record_of(name: Seq<char>, rv: Revision) -> HistoryRecordModel {
    HistoryRecordModel {
        created_at: rv.created_at,
        document_history_id: rv.id,
        created_by: rv.modified_by@,
        link: wiki_model(name, RouteWikiSubview::Revision(rv.id)),
    }
}

/// One side of a diff page, from the requested id and the fetched content.
pub open spec fn diff_side_of(name: Seq<char>, id: i64, p: PageContentModel) -> RevisionSpecModel {
    RevisionSpecModel {
        document_history_id: id,
        created_at: p.created_at,
        created_by: p.modified_by,
        history_link: wiki_model(name, RouteWikiSubview::Revision(id)),
    }
}

/// The response a GET of a wiki page produces, for each subview.
pub open spec fn wiki_get_spec(s: Store, name: Seq<char>, sub: RouteWikiSubview) -> ResponseModel {
    match sub {
        RouteWikiSubview::View => match s.fetch_current_spec(name) {
            None => resp_not_found(),
            Some(p) => resp_html(
                view_html(
                    name,
                    p.created_at,
                    p.modified_by,
                    path_of(wiki_model(name, RouteWikiSubview::History)),
                    path_of(wiki_model(name, RouteWikiSubview::Edit)),
                    markdown_html_of(p.document_data),
                ),
            ),
        },
        RouteWikiSubview::Revision(id) => match s.fetch_revision_spec(name, id) {
            None => resp_not_found(),
            Some(p) => resp_html(
                view_html(
                    name,
                    p.created_at,
                    p.modified_by,
                    path_of(wiki_model(name, RouteWikiSubview::History)),
                    path_of(wiki_model(name, RouteWikiSubview::Edit)),
                    markdown_html_of(p.document_data),
                ),
            ),
        },
        RouteWikiSubview::Edit => match s.fetch_current_spec(name) {
            None => resp_not_found(),
            Some(p) => resp_html(edit_html(p.document_data)),
        },
        RouteWikiSubview::History => {
            let h = s.history_spec(name);
            if h.len() == 0 {
                resp_not_found()
            } else {
                resp_html(
                    history_html(name, h.map_values(|rv: Revision| history_record_of(name, rv))),
                )
            }
        },
        RouteWikiSubview::Diff(a, b) => match (
            s.fetch_revision_spec(name, a),
            s.fetch_revision_spec(name, b),
        ) {
            (Some(pa), Some(pb)) => resp_html(
                diff_html(
                    name,
                    diff_side_of(name, a, pa),
                    diff_side_of(name, b, pb),
                    markdown_html_of(
                        diff_body_text(line_diff_of(pa.document_data, pb.document_data)),
                    ),
                ),
            ),
            _ => resp_not_found(),
        },
    }
}

/// The request handler: it owns the store and serves one request at a time.
pub struct Handler {
    pub store: Store,
}

impl Handler {
    /// A handler over an empty store.
    pub fn new() -> (r: Handler)
        ensures
            r.store.wf(),
            r.store.documents@.len() == 0,
            r.store.revisions@.len() == 0,
            r.store.next_revision_id < i64::MAX,
            r.store.next_document_id < i64::MAX,
    {
        Handler { store: Store::new() }
    }

    /// The login page redirects to the default document.
    pub fn login_page(&self) -> (r: Response)
        ensures
            r@ == resp_redirect(path_of(wiki_model("sample_doc"@, RouteWikiSubview::View))),
    {
        let loc = RouteWiki::to("sample_doc").into_uri_path();
        redirect_response(loc)
    }

    /// Serve a GET of a wiki page, whatever the subview.
    pub fn serve_wiki_page_get(&self, rw: &RouteWiki) -> (r: Response)
        ensures
            r@ == wiki_get_spec(self.store, rw@.name, rw@.subview),
    {
        match rw.subview {
            RouteWikiSubview::History => self.serve_wiki_page_history_get(rw),
            RouteWikiSubview::Diff(_, _) => self.serve_wiki_page_diff_get(rw),
            RouteWikiSubview::View => {
                match self.store.fetch_current(rw.name.as_str()) {
                    None => not_found_response(),
                    Some(p) => self.render_view_page(rw, p.document_data.as_str(), p.created_at, p.modified_by.clone()),
                }
            },
            RouteWikiSubview::Revision(id) => {
                match self.store.fetch_revision(rw.name.as_str(), id) {
                    None => not_found_response(),
                    Some(p) => self.render_view_page(rw, p.document_data.as_str(), p.created_at, p.modified_by.clone()),
                }
            },
            RouteWikiSubview::Edit => {
                match self.store.fetch_current(rw.name.as_str()) {
                    None => not_found_response(),
                    Some(p) => {
                        let mut xx = String::from_str("<textarea>");
                        xx.append(p.document_data.as_str());
                        xx.append("</textarea>");
                        proof {
                            assert(xx@ =~= edit_html(p.document_data@));
                        }
                        html_response(xx)
                    },
                }
            },
        }
    }

    /// Render the page view shared by the current and numbered revisions.
    fn render_view_page(&self, rw: &RouteWiki, data: &str, at: i64, by: String) -> (r: Response)
        ensures
            r@ == resp_html(
                view_html(
                    rw@.name,
                    at,
                    by@,
                    path_of(wiki_model(rw@.name, RouteWikiSubview::History)),
                    path_of(wiki_model(rw@.name, RouteWikiSubview::Edit)),
                    markdown_html_of(data@),
                ),
            ),
    {
        let rendered = render_markdown(data);
        let page = crate::views::wiki::View {
            page_title: rw.name.clone(),
            last_modified_at: at,
            last_modified_by: by,
            history_link: RouteWiki::to_history(rw.name.as_str()),
            edit_link: RouteWiki::to_edit(rw.name.as_str()),
            rendered,
        };
        html_response(page.render())
    }

    /// Serve the history listing; an empty history is not found.
    pub fn serve_wiki_page_history_get(&self, rw: &RouteWiki) -> (r: Response)
        requires
            rw.subview is History,
        ensures
            r@ == wiki_get_spec(self.store, rw@.name, rw@.subview),
    {
        let ghost hist = self.store.history_spec(rw@.name);
        let ghost fe = |e: crate::store::HistoryEntry| e@;
        let ghost fh = |rv: Revision| crate::store::entry_of(rv);
        let entries = self.store.fetch_history(rw.name.as_str());
        proof {
            assert(entries@.map_values(fe).len() == entries@.len());
            assert(hist.map_values(fh).len() == hist.len());
        }
        if entries.len() == 0 {
            return not_found_response();
        }
        let mut records: Vec<HistoryRecord> = Vec::new();
        let mut i: usize = 0;
        let n = entries.len();
        while i < n
            invariant
                0 <= i <= n,
                n == entries@.len(),
                n == hist.len(),
                records@.len() == i,
                fe == (|e: crate::store::HistoryEntry| e@),
                fh == (|rv: Revision| crate::store::entry_of(rv)),
                entries@.map_values(fe) =~~= hist.map_values(fh),
                hist == self.store.history_spec(rw@.name),
                forall|j: int|
                    0 <= j < i ==> crate::views::wiki::record_model(#[trigger] records@[j])
                        == history_record_of(rw@.name, hist[j]),
            decreases n - i,
        {
            let e = &entries[i];
            proof {
                assert(entries@.map_values(fe)[i as int] == fe(entries@[i as int]));
                assert(hist.map_values(fh)[i as int] == fh(hist[i as int]));
                assert(entries@[i as int]@ == crate::store::entry_of(hist[i as int]));
            }
            let rec = HistoryRecord {
                created_at: e.created_at,
                document_history_id: e.revision_id,
                created_by: e.modified_by.clone(),
                link: RouteWiki::to_revision(rw.name.as_str(), e.revision_id),
            };
            proof {
                assert(crate::views::wiki::record_model(rec) == history_record_of(
                    rw@.name,
                    hist[i as int],
                ));
            }
            records.push(rec);
            i = i + 1;
        }
        let page = crate::views::wiki::History {
            page_title: rw.name.clone(),
            history_records: records,
        };
        let body = page.render();
        proof {
            let lm = page.history_records@.map_values(
                |x: HistoryRecord| crate::views::wiki::record_model(x),
            );
            let rm = hist.map_values(|rv: Revision| history_record_of(rw@.name, rv));
            assert(lm.len() == rm.len());
            assert forall|j: int| 0 <= j < lm.len() implies lm[j] == rm[j] by {
                assert(lm[j] == crate::views::wiki::record_model(page.history_records@[j]));
                assert(rm[j] == history_record_of(rw@.name, hist[j]));
            }
            assert(lm =~~= rm);
            assert(hist.len() > 0);
        }
        html_response(body)
    }

    /// Serve the diff of two revisions; either one missing is not found.
    pub fn serve_wiki_page_diff_get(&self, rw: &RouteWiki) -> (r: Response)
        requires
            rw.subview is Diff,
        ensures
            r@ == wiki_get_spec(self.store, rw@.name, rw@.subview),
    {
        let (first_id, second_id) = match rw.subview {
            RouteWikiSubview::Diff(x, y) => (x, y),
            _ => {
                return not_found_response();
            },
        };
        let first = match self.store.fetch_revision(rw.name.as_str(), first_id) {
            Some(p) => p,
            None => {
                return not_found_response();
            },
        };
        let second = match self.store.fetch_revision(rw.name.as_str(), second_id) {
            Some(p) => p,
            None => {
                return not_found_response();
            },
        };
        let text = diff_text(first.document_data.as_str(), second.document_data.as_str());
        let rendered = render_markdown(text.as_str());
        let page = crate::views::wiki::Diff {
            page_title: rw.name.clone(),
            first: RevisionSpec {
                document_history_id: first_id,
                created_at: first.created_at,
                created_by: first.modified_by,
                history_link: RouteWiki::to_revision(rw.name.as_str(), first_id),
            },
            second: RevisionSpec {
                document_history_id: second_id,
                created_at: second.created_at,
                created_by: second.modified_by,
                history_link: RouteWiki::to_revision(rw.name.as_str(), second_id),
            },
            rendered,
        };
        html_response(page.render())
    }

    /// Accept the request body as the page's new full text, append it as a
    /// revision by the anonymous author, and redirect to the page view.
    pub fn serve_wiki_page_put(&mut self, rw: &RouteWiki, body: &str, now: i64) -> (r: Response)
        requires
            old(self).store.wf(),
            old(self).store.next_revision_id < i64::MAX,
            old(self).store.next_document_id < i64::MAX,
        ensures
            final(self).store.wf(),
            final(self).store.fetch_current_spec(rw@.name) == Some(
                PageContentModel {
                    document_data: body@,
                    created_at: now,
                    modified_by: "Anonymous"@,
                },
            ),
            final(self).store.revisions@.len() == old(self).store.revisions@.len() + 1,
            final(self).store.revisions@.drop_last() =~= old(self).store.revisions@,
            final(self).store.revisions@.last().id == old(self).store.next_revision_id,
            r@ == resp_redirect(path_of(wiki_model(rw@.name, RouteWikiSubview::View))),
    {
        let _id = self.store.append_revision(rw.name.as_str(), "Anonymous", body, now);
        let loc = RouteWiki::to(rw.name.as_str()).into_uri_path();
        redirect_response(loc)
    }

    /// Dispatch a wiki page request on the method: GET reads, PUT writes,
    /// anything else is not allowed.
    pub fn serve_wiki_page(&mut self, method: Method, rw: &RouteWiki, body: &str, now: i64) -> (r:
        Response)
        requires
            old(self).store.wf(),
            old(self).store.next_revision_id < i64::MAX,
            old(self).store.next_document_id < i64::MAX,
        ensures
            final(self).store.wf(),
            match method {
                Method::Get => r@ == wiki_get_spec(old(self).store, rw@.name, rw@.subview)
                    && final(self).store == old(self).store,
                Method::Put => {
                    &&& final(self).store.fetch_current_spec(rw@.name) == Some(
                        PageContentModel {
                            document_data: body@,
                            created_at: now,
                            modified_by: "Anonymous"@,
                        },
                    )
                    &&& final(self).store.revisions@.len() == old(self).store.revisions@.len() + 1
                    &&& final(self).store.revisions@.drop_last() =~= old(self).store.revisions@
                    &&& final(self).store.revisions@.last().id == old(self).store.next_revision_id
                    &&& r@ == resp_redirect(path_of(wiki_model(rw@.name, RouteWikiSubview::View)))
                },
                Method::Other => r@ == resp_method_not_allowed() && final(self).store == old(self).store,
            },
    {
        match method {
            Method::Get => self.serve_wiki_page_get(rw),
            Method::Put => self.serve_wiki_page_put(rw, body, now),
            Method::Other => method_not_allowed_response(),
        }
    }

    /// Handle one request: percent-decode the raw path, route it, and
    /// dispatch.  A path that does not decode is an internal failure; one
    /// that does not route is not found.
    pub fn handle(&mut self, method: Method, path: &str, body: &str, now: i64) -> (r: Response)
        requires
            old(self).store.wf(),
            old(self).store.next_revision_id < i64::MAX,
            old(self).store.next_document_id < i64::MAX,
        ensures
            final(self).store.wf(),
            ({
                match percent_decode_of(path@) {
                    None => r@ == resp_server_error() && final(self).store == old(self).store,
                    Some(p) => match parse_route(p) {
                        None => r@ == resp_not_found() && final(self).store == old(self).store,
                        Some(rt) => match rt {
                            RouteModel::Root => r@ == resp_redirect("/login"@) && final(self).store == old(self).store,
                            RouteModel::Login => r@ == resp_redirect(
                                path_of(wiki_model("sample_doc"@, RouteWikiSubview::View)),
                            ) && final(self).store == old(self).store,
                            RouteModel::Wiki(w) => match method {
                                Method::Get => r@ == wiki_get_spec(
                                    old(self).store,
                                    w.name,
                                    w.subview,
                                ) && final(self).store == old(self).store,
                                Method::Put => {
                                    &&& final(self).store.fetch_current_spec(w.name) == Some(
                                        PageContentModel {
                                            document_data: body@,
                                            created_at: now,
                                            modified_by: "Anonymous"@,
                                        },
                                    )
                                    &&& final(self).store.revisions@.len() == old(self).store.revisions@.len() + 1
                                    &&& final(self).store.revisions@.drop_last() =~= old(self).store.revisions@
                                    &&& final(self).store.revisions@.last().id == old(self).store.next_revision_id
                                    &&& r@ == resp_redirect(
                                        path_of(wiki_model(w.name, RouteWikiSubview::View)),
                                    )
                                },
                                Method::Other => r@ == resp_method_not_allowed() && final(self).store == old(self).store,
                            },
                        },
                    },
                }
            }),
    {
        let decoded = match decode_percents(path) {
            Some(d) => d,
            None => {
                return server_error_response();
            },
        };
        match Route::router(decoded.as_str()) {
            Err(_) => not_found_response(),
            Ok(route) => match route {
                Route::Root => redirect_response(String::from_str("/login")),
                Route::Login => self.login_page(),
                Route::Wiki(rw) => self.serve_wiki_page(method, &rw, body, now),
            },
        }
    }
}

} // verus!
