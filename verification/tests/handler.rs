use wiki::handler::{diff_text, Handler, Method, Response};

fn put(h: &mut Handler, path: &str, body: &str, now: i64) -> Response {
    h.handle(Method::Put, path, body, now)
}

fn get(h: &mut Handler, path: &str, now: i64) -> Response {
    h.handle(Method::Get, path, "", now)
}

#[test]
fn put_then_get_shows_content() {
    let mut h = Handler::new();
    let r = put(&mut h, "/wiki/test1", "Hello", 10);
    assert_eq!(r.status, 302);
    assert_eq!(r.location.as_deref(), Some("/wiki/test1"));
    let r = get(&mut h, "/wiki/test1", 11);
    assert_eq!(r.status, 200);
    assert!(r.body.contains("Hello"), "body: {}", r.body);
}

#[test]
fn get_unknown_page_is_404() {
    let mut h = Handler::new();
    let r = get(&mut h, "/wiki/doesnotexist", 1);
    assert_eq!(r.status, 404);
}

#[test]
fn diff_shows_removal_and_addition() {
    let mut h = Handler::new();
    let r1 = put(&mut h, "/wiki/test2", "A", 1);
    assert_eq!(r1.status, 302);
    let r2 = put(&mut h, "/wiki/test2", "B", 2);
    assert_eq!(r2.status, 302);
    let r = get(&mut h, "/wiki/test2/diff/1-2", 3);
    assert_eq!(r.status, 200);
    assert!(r.body.contains("-A"), "body: {}", r.body);
    assert!(r.body.contains("+B"), "body: {}", r.body);
}

#[test]
fn unknown_revision_is_404() {
    let mut h = Handler::new();
    put(&mut h, "/wiki/test3", "content", 1);
    let r = get(&mut h, "/wiki/test3/rev/999999", 2);
    assert_eq!(r.status, 404);
}

#[test]
fn delete_is_method_not_allowed() {
    let mut h = Handler::new();
    put(&mut h, "/wiki/test1", "Hello", 1);
    let r = h.handle(Method::Other, "/wiki/test1", "", 2);
    assert_eq!(r.status, 405);
    assert_eq!(r.body, "Method Not Allowed");
}

#[test]
fn diff_of_revision_with_itself_has_no_marked_lines() {
    let mut h = Handler::new();
    put(&mut h, "/wiki/same", "line one\nline two\n", 1);
    let r = get(&mut h, "/wiki/same/diff/1-1", 2);
    assert_eq!(r.status, 200);
}

#[test]
fn diff_text_of_equal_texts_is_pure_context() {
    let t = diff_text("a\nb\n", "a\nb\n");
    assert_eq!(t, "````diff\n a\n b\n````\n");
    for line in t.lines() {
        assert!(!line.starts_with('+') && !line.starts_with('-'), "{}", line);
    }
}

#[test]
fn diff_text_of_different_texts_marks_lines() {
    let t = diff_text("a\n", "b\n");
    assert_eq!(t, "````diff\n-a\n+b\n````\n");
}

#[test]
fn root_redirects_to_login() {
    let mut h = Handler::new();
    let r = get(&mut h, "/", 1);
    assert_eq!(r.status, 302);
    assert_eq!(r.location.as_deref(), Some("/login"));
}

#[test]
fn login_redirects_to_default_document() {
    let mut h = Handler::new();
    let r = get(&mut h, "/login", 1);
    assert_eq!(r.status, 302);
    assert_eq!(r.location.as_deref(), Some("/wiki/sample_doc"));
}

#[test]
fn unroutable_path_is_404() {
    let mut h = Handler::new();
    let r = get(&mut h, "/nothing/here", 1);
    assert_eq!(r.status, 404);
    assert_eq!(r.body, "Not Found");
}

#[test]
fn percent_encoded_path_is_decoded_before_routing() {
    let mut h = Handler::new();
    let r = put(&mut h, "/wiki/a%25b", "percent page", 1);
    assert_eq!(r.status, 302);
    assert_eq!(r.location.as_deref(), Some("/wiki/a%b"));
    let r = get(&mut h, "/wiki/a%25b", 2);
    assert_eq!(r.status, 200);
    assert!(r.body.contains("percent page"));
}

#[test]
fn markdown_is_rendered() {
    let mut h = Handler::new();
    put(&mut h, "/wiki/md", "# Title", 1);
    let r = get(&mut h, "/wiki/md", 2);
    assert_eq!(r.status, 200);
    assert!(r.body.contains("<h1>Title</h1>"), "body: {}", r.body);
}

#[test]
fn edit_shows_raw_text() {
    let mut h = Handler::new();
    put(&mut h, "/wiki/raw", "# Not rendered", 1);
    let r = get(&mut h, "/wiki/raw/edit", 2);
    assert_eq!(r.status, 200);
    assert_eq!(r.body, "<textarea># Not rendered</textarea>");
}

#[test]
fn path_decoding_to_invalid_utf8_is_a_server_error() {
    let mut h = Handler::new();
    let r = get(&mut h, "/wiki/%FF", 1);
    assert_eq!(r.status, 500);
    assert_eq!(r.body, "Internal Server Error");
}

#[test]
fn history_lists_revisions_and_empty_history_is_404() {
    let mut h = Handler::new();
    put(&mut h, "/wiki/hist", "v1", 1);
    put(&mut h, "/wiki/hist", "v2", 2);
    let r = get(&mut h, "/wiki/hist/history", 3);
    assert_eq!(r.status, 200);
    assert!(r.body.contains("/wiki/hist/rev/1"), "body: {}", r.body);
    assert!(r.body.contains("/wiki/hist/rev/2"), "body: {}", r.body);
    let r = get(&mut h, "/wiki/nothing/history", 4);
    assert_eq!(r.status, 404);
}

#[test]
fn put_to_any_subview_writes_the_page() {
    let mut h = Handler::new();
    let r = h.handle(Method::Put, "/wiki/any/edit", "text", 1);
    assert_eq!(r.status, 302);
    assert_eq!(r.location.as_deref(), Some("/wiki/any"));
    let r = get(&mut h, "/wiki/any", 2);
    assert_eq!(r.status, 200);
    assert!(r.body.contains("text"));
}

#[test]
fn view_page_links_to_history_and_edit() {
    let mut h = Handler::new();
    put(&mut h, "/wiki/linked", "body", 1);
    let r = get(&mut h, "/wiki/linked", 2);
    assert!(r.body.contains("/wiki/linked/history"));
    assert!(r.body.contains("/wiki/linked/edit"));
}
