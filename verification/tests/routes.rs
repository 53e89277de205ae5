use wiki::routes::{Route, RouteWiki, RouteWikiSubview};

fn parse(path: &str) -> Option<Route> {
    Route::router(path).ok()
}

fn wiki_route(name: &str, subview: RouteWikiSubview) -> Route {
    Route::Wiki(wiki::routes::RouteWiki {
        name: String::from(name),
        subview,
    })
}

#[test]
fn parses_root() {
    assert_eq!(parse("/"), Some(Route::Root));
}

#[test]
fn parses_login() {
    assert_eq!(parse("/login"), Some(Route::Login));
}

#[test]
fn parses_view() {
    assert_eq!(
        parse("/wiki/test"),
        Some(wiki_route("test", RouteWikiSubview::View))
    );
}

#[test]
fn parses_empty_name() {
    assert_eq!(parse("/wiki/"), Some(wiki_route("", RouteWikiSubview::View)));
}

#[test]
fn parses_edit() {
    assert_eq!(
        parse("/wiki/test/edit"),
        Some(wiki_route("test", RouteWikiSubview::Edit))
    );
}

#[test]
fn parses_history() {
    assert_eq!(
        parse("/wiki/test/history"),
        Some(wiki_route("test", RouteWikiSubview::History))
    );
}

#[test]
fn parses_revision() {
    assert_eq!(
        parse("/wiki/test/rev/5"),
        Some(wiki_route("test", RouteWikiSubview::Revision(5)))
    );
    assert_eq!(
        parse("/wiki/test/rev/-3"),
        Some(wiki_route("test", RouteWikiSubview::Revision(-3)))
    );
    assert_eq!(
        parse("/wiki/test/rev/9223372036854775807"),
        Some(wiki_route(
            "test",
            RouteWikiSubview::Revision(9223372036854775807)
        ))
    );
}

#[test]
fn parses_diff() {
    assert_eq!(
        parse("/wiki/test/diff/1-2"),
        Some(wiki_route("test", RouteWikiSubview::Diff(1, 2)))
    );
    assert_eq!(
        parse("/wiki/test/diff/3--4"),
        Some(wiki_route("test", RouteWikiSubview::Diff(3, -4)))
    );
}

#[test]
fn rejects_malformed_paths() {
    assert!(parse("").is_none());
    assert!(parse("/nope").is_none());
    assert!(parse("/wiki").is_none());
    assert!(parse("/wiki/test/xyz").is_none());
    assert!(parse("/wiki/test/edit/more").is_none());
    assert!(parse("/wiki/test/rev/abc").is_none());
    assert!(parse("/wiki/test/rev/5/x").is_none());
    assert!(parse("/wiki/test/rev/9223372036854775808").is_none());
    assert!(parse("/wiki/test/diff/5").is_none());
    assert!(parse("/wiki/test/diff/a-2").is_none());
    assert!(parse("/wiki/test/diff/1-2/x").is_none());
    assert!(parse("/wiki/test/diff/-1-2").is_none());
    assert!(parse("/wiki/test/").is_none());
}

#[test]
fn renders_paths() {
    assert_eq!(Route::Root.into_uri_path(), "/");
    assert_eq!(Route::Login.into_uri_path(), "/login");
    assert_eq!(RouteWiki::to("test").into_uri_path(), "/wiki/test");
    assert_eq!(RouteWiki::to_edit("test").into_uri_path(), "/wiki/test/edit");
    assert_eq!(
        RouteWiki::to_history("test").into_uri_path(),
        "/wiki/test/history"
    );
    assert_eq!(
        RouteWiki::to_revision("test", 42).into_uri_path(),
        "/wiki/test/rev/42"
    );
    assert_eq!(
        RouteWiki::to_revision("test", -7).into_uri_path(),
        "/wiki/test/rev/-7"
    );
    assert_eq!(
        wiki_route("test", RouteWikiSubview::Diff(3, -4)).into_uri_path(),
        "/wiki/test/diff/3--4"
    );
}

#[test]
fn round_trips_constructible_routes() {
    let routes = vec![
        Route::Root,
        Route::Login,
        wiki_route("page", RouteWikiSubview::View),
        wiki_route("", RouteWikiSubview::View),
        wiki_route("page", RouteWikiSubview::Edit),
        wiki_route("page", RouteWikiSubview::History),
        wiki_route("page", RouteWikiSubview::Revision(0)),
        wiki_route("page", RouteWikiSubview::Revision(-9000)),
        wiki_route("page", RouteWikiSubview::Revision(i64::MAX)),
        wiki_route("page", RouteWikiSubview::Diff(0, 0)),
        wiki_route("page", RouteWikiSubview::Diff(12, -34)),
        wiki_route("a-b.c", RouteWikiSubview::Diff(i64::MAX, i64::MIN)),
    ];
    for r in routes {
        let path = r.into_uri_path();
        let back = Route::router(&path).expect("round trip parse");
        assert_eq!(back, r, "path {}", path);
    }
}

#[test]
fn to_owned_copies() {
    let r = wiki_route("page", RouteWikiSubview::Revision(9));
    assert_eq!(r.to_owned(), r);
}
