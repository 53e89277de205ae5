use wiki::store::Store;

#[test]
fn new_store_is_empty() {
    let s = Store::new();
    assert!(s.fetch_current("anything").is_none());
    assert!(s.fetch_revision("anything", 1).is_none());
    assert!(s.fetch_history("anything").is_empty());
}

#[test]
fn append_then_fetch_current_returns_content_and_author() {
    let mut s = Store::new();
    let id = s.append_revision("page", "Anonymous", "some text", 1000);
    assert_eq!(id, 1);
    let p = s.fetch_current("page").expect("document exists");
    assert_eq!(p.document_data, "some text");
    assert_eq!(p.modified_by, "Anonymous");
    assert_eq!(p.created_at, 1000);
}

#[test]
fn second_append_advances_current() {
    let mut s = Store::new();
    s.append_revision("page", "Anonymous", "old", 1);
    let id2 = s.append_revision("page", "Anonymous", "new", 2);
    assert_eq!(id2, 2);
    let p = s.fetch_current("page").expect("document exists");
    assert_eq!(p.document_data, "new");
    let old = s.fetch_revision("page", 1).expect("old revision kept");
    assert_eq!(old.document_data, "old");
}

#[test]
fn fetch_revision_of_other_document_is_not_found() {
    let mut s = Store::new();
    let id_a = s.append_revision("alpha", "Anonymous", "a", 1);
    let id_b = s.append_revision("beta", "Anonymous", "b", 2);
    assert!(s.fetch_revision("alpha", id_b).is_none());
    assert!(s.fetch_revision("beta", id_a).is_none());
    assert!(s.fetch_revision("alpha", id_a).is_some());
    assert!(s.fetch_revision("beta", id_b).is_some());
}

#[test]
fn fetch_revision_unknown_id_is_not_found() {
    let mut s = Store::new();
    s.append_revision("page", "Anonymous", "x", 1);
    assert!(s.fetch_revision("page", 999999).is_none());
}

#[test]
fn history_is_capped_at_50_and_newest_first() {
    let mut s = Store::new();
    for k in 0..60 {
        s.append_revision("page", "Anonymous", &format!("v{}", k), k);
    }
    let h = s.fetch_history("page");
    assert_eq!(h.len(), 50);
    assert_eq!(h[0].revision_id, 60);
    assert_eq!(h[49].revision_id, 11);
    for w in h.windows(2) {
        assert!(w[0].revision_id > w[1].revision_id, "newest first");
    }
}

#[test]
fn history_of_short_document_lists_all_newest_first() {
    let mut s = Store::new();
    s.append_revision("page", "Anonymous", "one", 1);
    s.append_revision("other", "Anonymous", "noise", 2);
    s.append_revision("page", "Anonymous", "two", 3);
    let h = s.fetch_history("page");
    assert_eq!(h.len(), 2);
    assert_eq!(h[0].revision_id, 3);
    assert_eq!(h[0].created_at, 3);
    assert_eq!(h[1].revision_id, 1);
    assert_eq!(h[0].modified_by, "Anonymous");
}
