//! The typed route grammar of the wiki's URL space.
//!
//! A decoded request path maps to a [`Route`]: the root, the login page, or a
//! wiki page with one of five subviews.  `Route::router` parses a path and
//! `Route::into_uri_path` renders one; the two are exact inverses on
//! well-formed routes, which `lemma_route_round_trip` proves.

use vstd::prelude::*;
use crate::strutil::{
    split_on, find_char, parse_i64_spec, i64_str, split_str, str_eq, str_has_prefix,
    find_char_str, parse_i64, i64_to_string, lemma_split_on_absent, lemma_split_on_concat,
    lemma_find_char_concat, lemma_parse_i64_str, lemma_i64_str_no_slash, lemma_dec_str_chars,
};

verus! {

/// The error a failed route lookup produces.
#[derive(Debug)]
pub enum RouteError {
    NotFound,
}

/// Which presentation of a wiki page is requested.
#[derive(Debug, Clone, Copy, PartialEq, Eq, Structural)]
pub enum RouteWikiSubview {
    View,
    Edit,
    History,
    Revision(i64),
    Diff(i64, i64),
}

/// A wiki page route: the page name plus the requested subview.
#[derive(Debug, Clone)]
pub struct RouteWiki {
    pub name: String,
    pub subview: RouteWikiSubview,
}

/// A parsed request path.
#[derive(Debug, Clone)]
pub enum Route {
    Root,
    Login,
    Wiki(RouteWiki),
}

/// The mathematical value of a [`RouteWiki`].
pub struct RouteWikiModel {
    pub name: Seq<char>,
    pub subview: RouteWikiSubview,
}

/// The mathematical value of a [`Route`].
pub enum RouteModel {
    Root,
    Login,
    Wiki(RouteWikiModel),
}

impl View for RouteWiki {
    type V = RouteWikiModel;

    open spec fn view(&self) -> RouteWikiModel {
        RouteWikiModel { name: self.name@, subview: self.subview }
    }
}

impl View for Route {
    type V = RouteModel;

    open spec fn view(&self) -> RouteModel {
        match self {
            Route::Root => RouteModel::Root,
            Route::Login => RouteModel::Login,
            Route::Wiki(w) => RouteModel::Wiki(w@),
        }
    }
}

impl PartialEq for RouteWiki {
    fn eq(&self, other: &Self) -> (r: bool) {
        self.name == other.name && self.subview == other.subview
    }
}

impl vstd::std_specs::cmp::PartialEqSpecImpl for RouteWiki {
    open spec fn obeys_eq_spec() -> bool {
        true
    }

    open spec fn eq_spec(&self, other: &Self) -> bool {
        self@ == other@
    }
}

impl PartialEq for Route {
    fn eq(&self, other: &Self) -> (r: bool) {
        match (self, other) {
            (Route::Root, Route::Root) => true,
            (Route::Login, Route::Login) => true,
            (Route::Wiki(a), Route::Wiki(b)) => a.name == b.name && a.subview == b.subview,
            _ => false,
        }
    }
}

impl vstd::std_specs::cmp::PartialEqSpecImpl for Route {
    open spec fn obeys_eq_spec() -> bool {
        true
    }

    open spec fn eq_spec(&self, other: &Self) -> bool {
        self@ == other@
    }
}

/// Shorthand for the model of a wiki route.
pub open spec fn wiki_model(name: Seq<char>, sub: RouteWikiSubview) -> RouteModel {
    RouteModel::Wiki(RouteWikiModel { name, subview: sub })
}

/// The path text a subview appends after the page name.
pub open spec fn subview_suffix(sub: RouteWikiSubview) -> Seq<char> {
    match sub {
        RouteWikiSubview::View => Seq::<char>::empty(),
        RouteWikiSubview::Edit => "/edit"@,
        RouteWikiSubview::History => "/history"@,
        RouteWikiSubview::Revision(r) => "/rev/"@ + i64_str(r),
        RouteWikiSubview::Diff(a, b) => "/diff/"@ + i64_str(a) + "-"@ + i64_str(b),
    }
}

/// The canonical path of a route, as `into_uri_path` renders it.
pub open spec fn path_of(r: RouteModel) -> Seq<char> {
    match r {
        RouteModel::Root => "/"@,
        RouteModel::Login => "/login"@,
        RouteModel::Wiki(w) => "/wiki/"@ + w.name + subview_suffix(w.subview),
    }
}

/// Parse the `<a>-<b>` revision pair of a diff subview: the text up to the
/// first `-` and the text after it must each read as an `i64`.
pub open spec fn parse_diff_pair(name: Seq<char>, pair: Seq<char>) -> Option<RouteModel> {
    let i = find_char(pair, '-');
    if i < 0 {
        None
    } else {
        match (parse_i64_spec(pair.take(i)), parse_i64_spec(pair.skip(i + 1))) {
            (Some(a), Some(b)) => Some(wiki_model(name, RouteWikiSubview::Diff(a, b))),
            _ => None,
        }
    }
}

/// Parse what follows `/wiki/`: a page name and at most two more segments.
pub open spec fn parse_wiki(rest: Seq<char>) -> Option<RouteModel> {
    let segs = split_on(rest, '/');
    let name = segs[0];
    if segs.len() == 1 {
        Some(wiki_model(name, RouteWikiSubview::View))
    } else if segs.len() == 2 {
        if segs[1] == "edit"@ {
            Some(wiki_model(name, RouteWikiSubview::Edit))
        } else if segs[1] == "history"@ {
            Some(wiki_model(name, RouteWikiSubview::History))
        } else {
            None
        }
    } else if segs.len() == 3 {
        if segs[1] == "rev"@ {
            match parse_i64_spec(segs[2]) {
                Some(r) => Some(wiki_model(name, RouteWikiSubview::Revision(r))),
                None => None,
            }
        } else if segs[1] == "diff"@ {
            parse_diff_pair(name, segs[2])
        } else {
            None
        }
    } else {
        None
    }
}

/// What `Route::router` returns on a decoded path: `/`, `/login`, or a
/// `/wiki/` path; anything else is not found.
pub open spec fn parse_route(s: Seq<char>) -> Option<RouteModel> {
    if s == "/"@ {
        Some(RouteModel::Root)
    } else if s == "/login"@ {
        Some(RouteModel::Login)
    } else if "/wiki/"@.is_prefix_of(s) {
        parse_wiki(s.skip("/wiki/"@.len() as int))
    } else {
        None
    }
}

/// A route is well formed when its page name holds no `/` and, for a diff,
/// the first revision id is non-negative.  Only such routes render to paths
/// that read back as themselves.
pub open spec fn wf_route(r: RouteModel) -> bool {
    match r {
        RouteModel::Root => true,
        RouteModel::Login => true,
        RouteModel::Wiki(w) => {
            &&& forall|i: int| 0 <= i < w.name.len() ==> w.name[i] != '/'
            &&& match w.subview {
                RouteWikiSubview::Diff(a, b) => a >= 0,
                _ => true,
            }
        },
    }
}

impl RouteWiki {
    /// The view route for a page name.
    pub fn to(name: &str) -> (r: Route)
        ensures
            r@ == wiki_model(name@, RouteWikiSubview::View),
    {
        Route::Wiki(RouteWiki { name: String::from_str(name), subview: RouteWikiSubview::View })
    }

    /// The edit route for a page name.
    pub fn to_edit(name: &str) -> (r: Route)
        ensures
            r@ == wiki_model(name@, RouteWikiSubview::Edit),
    {
        Route::Wiki(RouteWiki { name: String::from_str(name), subview: RouteWikiSubview::Edit })
    }

    /// The route of one numbered revision of a page.
    pub fn to_revision(name: &str, revision: i64) -> (r: Route)
        ensures
            r@ == wiki_model(name@, RouteWikiSubview::Revision(revision)),
    {
        Route::Wiki(
            RouteWiki {
                name: String::from_str(name),
                subview: RouteWikiSubview::Revision(revision),
            },
        )
    }

    /// The history route for a page name.
    pub fn to_history(name: &str) -> (r: Route)
        ensures
            r@ == wiki_model(name@, RouteWikiSubview::History),
    {
        Route::Wiki(RouteWiki { name: String::from_str(name), subview: RouteWikiSubview::History })
    }

    /// An owned copy of this wiki route.
    pub fn to_owned(&self) -> (r: RouteWiki)
        ensures
            r@ == self@,
    {
        RouteWiki { name: self.name.clone(), subview: self.subview }
    }
}

impl Route {
    /// An owned copy of this route.
    pub fn to_owned(&self) -> (r: Route)
        ensures
            r@ == self@,
    {
        match self {
            Route::Root => Route::Root,
            Route::Login => Route::Login,
            Route::Wiki(s) => Route::Wiki(s.to_owned()),
        }
    }

    /// Render the canonical path of this route, the inverse of `router`.
    pub fn into_uri_path(&self) -> (r: String)
        ensures
            r@ == path_of(self@),
    {
        match self {
            Route::Root => String::from_str("/"),
            Route::Login => String::from_str("/login"),
            Route::Wiki(s) => {
                let mut out = String::from_str("/wiki/");
                out.append(s.name.as_str());
                match s.subview {
                    RouteWikiSubview::View => {
                        assert(out@ =~= path_of(self@));
                    },
                    RouteWikiSubview::Edit => {
                        out.append("/edit");
                        assert(out@ =~= path_of(self@));
                    },
                    RouteWikiSubview::History => {
                        out.append("/history");
                        assert(out@ =~= path_of(self@));
                    },
                    RouteWikiSubview::Revision(r) => {
                        out.append("/rev/");
                        let num = i64_to_string(r);
                        out.append(num.as_str());
                        assert(out@ =~= path_of(self@));
                    },
                    RouteWikiSubview::Diff(a, b) => {
                        out.append("/diff/");
                        let na = i64_to_string(a);
                        out.append(na.as_str());
                        out.append("-");
                        let nb = i64_to_string(b);
                        out.append(nb.as_str());
                        assert(out@ =~= path_of(self@));
                    },
                }
                out
            },
        }
    }

    /// Parse a decoded request path into a route, or `NotFound` when the path
    /// matches no route.
    pub fn router(path: &str) -> (r: Result<Route, RouteError>)
        ensures
            match r {
                Ok(rt) => parse_route(path@) == Some(rt@),
                Err(_) => parse_route(path@) is None,
            },
    {
        if str_eq(path, "/") {
            return Ok(Route::Root);
        }
        if str_eq(path, "/login") {
            return Ok(Route::Login);
        }
        if str_has_prefix(path, "/wiki/") {
            let plen = "/wiki/".unicode_len();
            let len = path.unicode_len();
            let rest = path.substring_char(plen, len);
            proof {
                assert(rest@ =~= path@.skip("/wiki/"@.len() as int));
            }
            let segs = split_str(rest, '/');
            let ghost segsv = split_on(rest@, '/');
            proof {
                assert(segs@.map_values(|t: String| t@) =~~= segsv);
                assert(forall|i: int|
                    0 <= i < segs@.len() ==> (#[trigger] segs@[i])@ == segsv[i]);
            }
            let name = segs[0].clone();
            if segs.len() == 1 {
                return Ok(Route::Wiki(RouteWiki { name, subview: RouteWikiSubview::View }));
            }
            if segs.len() == 2 {
                if str_eq(segs[1].as_str(), "edit") {
                    return Ok(Route::Wiki(RouteWiki { name, subview: RouteWikiSubview::Edit }));
                }
                if str_eq(segs[1].as_str(), "history") {
                    return Ok(
                        Route::Wiki(RouteWiki { name, subview: RouteWikiSubview::History }),
                    );
                }
                return Err(RouteError::NotFound);
            }
            if segs.len() == 3 {
                if str_eq(segs[1].as_str(), "rev") {
                    match parse_i64(segs[2].as_str()) {
                        Some(rev) => {
                            return Ok(
                                Route::Wiki(
                                    RouteWiki {
                                        name,
                                        subview: RouteWikiSubview::Revision(rev),
                                    },
                                ),
                            );
                        },
                        None => {
                            return Err(RouteError::NotFound);
                        },
                    }
                }
                if str_eq(segs[1].as_str(), "diff") {
                    let pair = segs[2].as_str();
                    let pairlen = pair.unicode_len();
                    match find_char_str(pair, '-') {
                        Some(i) => {
                            let firsttxt = pair.substring_char(0, i);
                            let secondtxt = pair.substring_char(i + 1, pairlen);
                            proof {
                                assert(firsttxt@ =~= pair@.take(i as int));
                                assert(secondtxt@ =~= pair@.skip(i as int + 1));
                            }
                            let first = match parse_i64(firsttxt) {
                                Some(v) => v,
                                None => {
                                    return Err(RouteError::NotFound);
                                },
                            };
                            let second = match parse_i64(secondtxt) {
                                Some(v) => v,
                                None => {
                                    return Err(RouteError::NotFound);
                                },
                            };
                            return Ok(
                                Route::Wiki(
                                    RouteWiki {
                                        name,
                                        subview: RouteWikiSubview::Diff(first, second),
                                    },
                                ),
                            );
                        },
                        None => {
                            return Err(RouteError::NotFound);
                        },
                    }
                }
                return Err(RouteError::NotFound);
            }
            return Err(RouteError::NotFound);
        }
        Err(RouteError::NotFound)
    }
}

/// Rendering a well-formed route and parsing the text back yields the same
/// route: the grammar is a bijection on its canonical paths.
pub proof fn lemma_route_round_trip(r: RouteModel)
    requires
        wf_route(r),
    ensures
        parse_route(path_of(r)) == Some(r),
{
    reveal_strlit("/");
    reveal_strlit("/login");
    reveal_strlit("/wiki/");
    reveal_strlit("login");
    match r {
        RouteModel::Root => {
        },
        RouteModel::Login => {
            assert("/login"@.len() == 6);
            assert("/"@.len() == 1);
            assert(path_of(r) != "/"@);
        },
        RouteModel::Wiki(w) => {
            let p = "/wiki/"@;
            let s = path_of(r);
            let tail = w.name + subview_suffix(w.subview);
            assert(s == p + tail);
            assert(p.len() == 6);
            assert(s.len() >= 6);
            assert(s != "/"@);
            assert(s[1] == 'w');
            assert("/login"@[1] == 'l');
            assert(s != "/login"@);
            assert(p.is_prefix_of(s)) by {
                assert(s.subrange(0, 6) =~= p);
            }
            assert(s.skip(6) =~= tail);
            lemma_parse_wiki_round_trip(w);
        },
    }
}

/// The `/wiki/` tail of a well-formed wiki route parses back to that route.
proof fn lemma_parse_wiki_round_trip(w: RouteWikiModel)
    requires
        forall|i: int| 0 <= i < w.name.len() ==> w.name[i] != '/',
        match w.subview {
            RouteWikiSubview::Diff(a, b) => a >= 0,
            _ => true,
        },
    ensures
        parse_wiki(w.name + subview_suffix(w.subview)) == Some(RouteModel::Wiki(w)),
{
    match w.subview {
        RouteWikiSubview::View => {
            lemma_parse_wiki_view(w.name);
        },
        RouteWikiSubview::Edit => {
            lemma_parse_wiki_edit(w.name);
        },
        RouteWikiSubview::History => {
            lemma_parse_wiki_history(w.name);
        },
        RouteWikiSubview::Revision(rev) => {
            lemma_parse_wiki_revision(w.name, rev);
        },
        RouteWikiSubview::Diff(a, b) => {
            lemma_parse_wiki_diff(w.name, a, b);
        },
    }
}

proof fn lemma_parse_wiki_view(name: Seq<char>)
    requires
        forall|i: int| 0 <= i < name.len() ==> name[i] != '/',
    ensures
        parse_wiki(name + subview_suffix(RouteWikiSubview::View)) == Some(
            wiki_model(name, RouteWikiSubview::View),
        ),
{
    let tail = name + subview_suffix(RouteWikiSubview::View);
    assert(tail =~= name);
    lemma_split_on_absent(name, '/');
    assert(split_on(tail, '/') =~~= seq![name]);
}

proof fn lemma_parse_wiki_edit(name: Seq<char>)
    requires
        forall|i: int| 0 <= i < name.len() ==> name[i] != '/',
    ensures
        parse_wiki(name + subview_suffix(RouteWikiSubview::Edit)) == Some(
            wiki_model(name, RouteWikiSubview::Edit),
        ),
{
    let tail = name + subview_suffix(RouteWikiSubview::Edit);
    reveal_strlit("/edit");
    reveal_strlit("edit");
    reveal_strlit("history");
    assert(tail =~= name + seq!['/'] + "edit"@);
    assert(forall|i: int| 0 <= i < "edit"@.len() ==> "edit"@[i] != '/');
    lemma_split_on_concat(name, "edit"@, '/');
    lemma_split_on_absent("edit"@, '/');
    let segs = split_on(tail, '/');
    assert(segs =~~= seq![name, "edit"@]);
}

proof fn lemma_parse_wiki_history(name: Seq<char>)
    requires
        forall|i: int| 0 <= i < name.len() ==> name[i] != '/',
    ensures
        parse_wiki(name + subview_suffix(RouteWikiSubview::History)) == Some(
            wiki_model(name, RouteWikiSubview::History),
        ),
{
    let tail = name + subview_suffix(RouteWikiSubview::History);
    reveal_strlit("/history");
    reveal_strlit("history");
    reveal_strlit("edit");
    assert(tail =~= name + seq!['/'] + "history"@);
    assert(forall|i: int| 0 <= i < "history"@.len() ==> "history"@[i] != '/');
    lemma_split_on_concat(name, "history"@, '/');
    lemma_split_on_absent("history"@, '/');
    let segs = split_on(tail, '/');
    assert(segs =~~= seq![name, "history"@]);
    assert("history"@ != "edit"@) by {
        assert("history"@[0] == 'h');
        assert("edit"@[0] == 'e');
    }
}

proof fn lemma_parse_wiki_revision(name: Seq<char>, rev: i64)
    requires
        forall|i: int| 0 <= i < name.len() ==> name[i] != '/',
    ensures
        parse_wiki(name + subview_suffix(RouteWikiSubview::Revision(rev))) == Some(
            wiki_model(name, RouteWikiSubview::Revision(rev)),
        ),
{
    let tail = name + subview_suffix(RouteWikiSubview::Revision(rev));
    reveal_strlit("/rev/");
    reveal_strlit("rev");
    reveal_strlit("diff");
    let num = i64_str(rev);
    lemma_i64_str_no_slash(rev);
    assert(tail =~= name + seq!['/'] + ("rev"@ + seq!['/'] + num));
    assert(forall|i: int| 0 <= i < "rev"@.len() ==> "rev"@[i] != '/');
    lemma_split_on_concat(name, "rev"@ + seq!['/'] + num, '/');
    lemma_split_on_concat("rev"@, num, '/');
    lemma_split_on_absent(num, '/');
    let segs = split_on(tail, '/');
    assert(split_on("rev"@ + seq!['/'] + num, '/') =~~= seq!["rev"@, num]);
    assert(segs =~~= seq![name, "rev"@, num]);
    lemma_parse_i64_str(rev);
}

#[verifier::rlimit(60)]
proof fn lemma_parse_wiki_diff(name: Seq<char>, a: i64, b: i64)
    requires
        forall|i: int| 0 <= i < name.len() ==> name[i] != '/',
        a >= 0,
    ensures
        parse_wiki(name + subview_suffix(RouteWikiSubview::Diff(a, b))) == Some(
            wiki_model(name, RouteWikiSubview::Diff(a, b)),
        ),
{
    let tail = name + subview_suffix(RouteWikiSubview::Diff(a, b));
    reveal_strlit("/diff/");
    reveal_strlit("diff");
    reveal_strlit("rev");
    let na = i64_str(a);
    let nb = i64_str(b);
    let pair = na + seq!['-'] + nb;
    lemma_i64_str_no_slash(a);
    lemma_i64_str_no_slash(b);
    assert(na == crate::strutil::dec_str_of(a as int));
    lemma_dec_str_chars(a as int);
    assert(subview_suffix(RouteWikiSubview::Diff(a, b)) =~= seq!['/'] + ("diff"@ + seq!['/']
        + pair)) by {
        assert("-"@ =~= seq!['-']) by {
            reveal_strlit("-");
        }
    }
    assert(tail =~= name + seq!['/'] + ("diff"@ + seq!['/'] + pair));
    assert(forall|i: int| 0 <= i < "diff"@.len() ==> "diff"@[i] != '/');
    assert(forall|i: int| 0 <= i < pair.len() ==> pair[i] != '/') by {
        assert(forall|i: int| 0 <= i < na.len() ==> pair[i] == na[i]);
        assert(pair[na.len() as int] == '-');
        assert(forall|i: int|
            na.len() + 1 <= i < pair.len() ==> pair[i] == nb[i - na.len() - 1]);
    }
    lemma_split_on_concat(name, "diff"@ + seq!['/'] + pair, '/');
    lemma_split_on_concat("diff"@, pair, '/');
    lemma_split_on_absent(pair, '/');
    let segs = split_on(tail, '/');
    assert(split_on("diff"@ + seq!['/'] + pair, '/') =~~= seq!["diff"@, pair]);
    assert(segs =~~= seq![name, "diff"@, pair]);
    assert("diff"@ != "rev"@) by {
        assert("diff"@.len() == 4);
        assert("rev"@.len() == 3);
    }
    lemma_find_char_concat(na, nb, '-');
    assert(find_char(pair, '-') == na.len());
    assert(pair.take(na.len() as int) =~= na);
    assert(pair.skip(na.len() as int + 1) =~= nb);
    lemma_parse_i64_str(a);
    lemma_parse_i64_str(b);
}

} // verus!
